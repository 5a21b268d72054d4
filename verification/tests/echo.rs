use tcp_echo::handler::{Action, Event, Handler, Phase, BUF_CAPACITY};

fn expect_write(a: Action) -> Vec<u8> {
    match a {
        Action::Write(w) => w,
        _ => panic!("expected an echo write"),
    }
}

#[test]
fn hello_round_trip() {
    let mut h = Handler::new();
    let w = expect_write(h.on_event(Event::DataRead(b"hello".to_vec())));
    assert_eq!(w, b"hello".to_vec());
    assert_eq!(h.phase, Phase::Writing);
    assert!(matches!(h.on_event(Event::WriteCompleted), Action::Read));
    assert_eq!(h.phase, Phase::AwaitingRead);
    assert!(matches!(h.on_event(Event::EndOfInput), Action::Close));
    assert_eq!(h.phase, Phase::Closed);
    assert!(h.clean);
    assert!(h.is_done());
}

#[test]
fn new_handler_awaits_its_first_read() {
    let h = Handler::new();
    assert_eq!(h.phase, Phase::AwaitingRead);
    assert!(!h.clean);
    assert!(!h.is_done());
}

#[test]
fn eof_closes_within_one_cycle() {
    let mut h = Handler::new();
    assert!(matches!(h.on_event(Event::EndOfInput), Action::Close));
    assert_eq!(h.phase, Phase::Closed);
    assert!(h.clean);
    assert!(h.is_done());
}

#[test]
fn buffer_capacity_is_512() {
    assert_eq!(BUF_CAPACITY, 512);
}

#[test]
fn long_message_echoed_in_chunks() {
    let mut message: Vec<u8> = Vec::new();
    let mut i: usize = 0;
    while i < 2000 {
        message.push((i % 251) as u8);
        i += 1;
    }
    let mut h = Handler::new();
    let mut echoed: Vec<u8> = Vec::new();
    let mut cycles: usize = 0;
    let mut offset: usize = 0;
    while offset < message.len() {
        let end = if offset + BUF_CAPACITY < message.len() {
            offset + BUF_CAPACITY
        } else {
            message.len()
        };
        let chunk = message[offset..end].to_vec();
        let w = expect_write(h.on_event(Event::DataRead(chunk.clone())));
        assert_eq!(w, chunk);
        echoed.extend_from_slice(&w);
        assert!(matches!(h.on_event(Event::WriteCompleted), Action::Read));
        offset = end;
        cycles += 1;
    }
    assert_eq!(cycles, 4);
    assert_eq!(echoed, message);
    assert!(matches!(h.on_event(Event::EndOfInput), Action::Close));
    assert!(h.clean);
}

#[test]
fn any_split_reassembles_the_stream() {
    let message = b"a stream of bytes".to_vec();
    let mut split: usize = 1;
    while split < message.len() {
        let mut h = Handler::new();
        let mut echoed: Vec<u8> = Vec::new();
        let parts = [&message[..split], &message[split..]];
        for part in parts {
            let w = expect_write(h.on_event(Event::DataRead(part.to_vec())));
            echoed.extend_from_slice(&w);
            assert!(matches!(h.on_event(Event::WriteCompleted), Action::Read));
        }
        assert_eq!(echoed, message);
        assert!(matches!(h.on_event(Event::EndOfInput), Action::Close));
        split += 1;
    }
}

#[test]
fn read_failure_closes_uncleanly() {
    let mut h = Handler::new();
    assert!(matches!(h.on_event(Event::ReadFailed), Action::Close));
    assert_eq!(h.phase, Phase::Closed);
    assert!(!h.clean);
    assert!(h.is_done());
}

#[test]
fn write_failure_closes_uncleanly() {
    let mut h = Handler::new();
    let _ = expect_write(h.on_event(Event::DataRead(vec![1, 2, 3])));
    assert!(matches!(h.on_event(Event::WriteFailed), Action::Close));
    assert_eq!(h.phase, Phase::Closed);
    assert!(!h.clean);
}

#[test]
fn concurrent_handlers_do_not_mix_bytes() {
    let mut first = Handler::new();
    let mut second = Handler::new();
    let w1 = expect_write(first.on_event(Event::DataRead(b"first".to_vec())));
    let w2 = expect_write(second.on_event(Event::DataRead(b"second".to_vec())));
    assert_eq!(w1, b"first".to_vec());
    assert_eq!(w2, b"second".to_vec());
    assert!(matches!(second.on_event(Event::WriteCompleted), Action::Read));
    assert!(matches!(first.on_event(Event::WriteCompleted), Action::Read));
    let w1 = expect_write(first.on_event(Event::DataRead(b"again".to_vec())));
    assert_eq!(w1, b"again".to_vec());
}
