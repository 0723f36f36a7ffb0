use emu_term::ansi::{AnsiCode, AnsiParser, Output as Span};
use emu_term::bridge::{after_read, lex, PtySize, ReadStep, CHUNK_SIZE, QUEUE_CAPACITY};
use emu_term::screen::{Output, Screen};
use tokio::sync::mpsc::channel;
use tokio::sync::mpsc::error::{TryRecvError, TrySendError};

fn same(batch: &[Output], expected: &[Output]) -> bool {
    batch.len() == expected.len()
        && batch.iter().zip(expected).all(|pair| match pair {
            (Output::Bytes(a), Output::Bytes(b)) => a == b,
            (Output::Ansi(a), Output::Ansi(b)) => a == b,
            _ => false,
        })
}

#[test]
fn constants_of_the_session() {
    assert_eq!(CHUNK_SIZE, 1024);
    assert_eq!(QUEUE_CAPACITY, 100);
    assert_eq!(PtySize::initial(), PtySize { rows: 50, cols: 100, xpixel: 1024, ypixel: 2048 });
}

#[test]
fn lex_yields_the_tokens_of_the_chunk() {
    let batch = lex(b"ab\x1b[2J\x1b[38;5;196mcd\x1b[?x");
    assert!(same(
        &batch,
        &[
            Output::Bytes(b"ab".to_vec()),
            Output::Ansi(AnsiCode::EraseAllDisplay),
            Output::Ansi(AnsiCode::SetGraphicsMode(3, [38, 5, 196, 0, 0])),
            Output::Bytes(b"cd".to_vec()),
            Output::Bytes(b"\x1b[?x".to_vec()),
        ]
    ));
    assert!(lex(b"").is_empty());
}

#[test]
fn lex_agrees_with_the_lexer_token_by_token() {
    let chunk: &[u8] = b"x\x1b[1;2H\x1b\x1by\x1b[12;zz\x1b";
    let batch = lex(chunk);
    let mut parser = AnsiParser::new(chunk);
    for output in &batch {
        match (parser.next(), output) {
            (Some(Span::Bytes(a)), Output::Bytes(b)) => assert_eq!(a, &b[..]),
            (Some(Span::Escape(a)), Output::Ansi(b)) => assert_eq!(a, *b),
            other => panic!("{:?}", other),
        }
    }
    assert!(parser.next().is_none());
    assert_eq!(batch.len(), 6);
}

#[test]
fn owned_token_keeps_what_the_borrowed_one_holds() {
    assert!(matches!(Output::from(Span::Bytes(b"abc")), Output::Bytes(b) if b == b"abc"));
    assert!(matches!(
        Output::from(Span::Escape(AnsiCode::CursorUp(4))),
        Output::Ansi(AnsiCode::CursorUp(4))
    ));
}

#[test]
fn sequence_cut_by_the_chunk_boundary_is_not_decoded() {
    let first = lex(b"ok\x1b[38;5");
    let second = lex(b";196mtext");
    assert!(same(&first, &[Output::Bytes(b"ok".to_vec()), Output::Bytes(b"\x1b[38;5".to_vec())]));
    assert!(same(&second, &[Output::Bytes(b";196mtext".to_vec())]));
    let mut screen = Screen::new();
    assert_eq!(screen.handle_output(first), 0);
    assert_eq!(screen.handle_output(second), 0);
    assert_eq!(screen.state.text(), "ok[38;5;196mtext\n");
    assert_eq!(screen.state.brush.fg_color, emu_term::color::TermColor::Rgb(255, 255, 255));
}

#[test]
fn read_loop_forwards_what_was_read() {
    let mut buf = [0u8; CHUNK_SIZE];
    buf[..5].copy_from_slice(b"a\x1b[Kb");
    match after_read(&buf, Some(4)) {
        ReadStep::Forward(batch) => assert!(same(
            &batch,
            &[Output::Bytes(b"a".to_vec()), Output::Ansi(AnsiCode::EraseLine)]
        )),
        ReadStep::Stop => panic!("stopped"),
    }
    match after_read(&buf, Some(CHUNK_SIZE)) {
        ReadStep::Forward(batch) => assert_eq!(batch.len(), 3),
        ReadStep::Stop => panic!("stopped"),
    }
}

#[test]
fn read_loop_stops_at_the_end_of_the_stream_and_on_failure() {
    let buf = [b'a'; 16];
    assert!(matches!(after_read(&buf, Some(0)), ReadStep::Stop));
    assert!(matches!(after_read(&buf, None), ReadStep::Stop));
    assert!(matches!(after_read(&buf, Some(17)), ReadStep::Stop));
    assert!(matches!(after_read(&buf, Some(16)), ReadStep::Forward(_)));
}

#[test]
fn full_queue_holds_the_producer_back_and_keeps_the_order() {
    let (tx, mut rx) = channel::<Vec<Output>>(QUEUE_CAPACITY);
    for i in 0..QUEUE_CAPACITY {
        let batch = lex(format!("batch {}", i).as_bytes());
        assert!(tx.try_send(batch).is_ok());
    }
    let extra = lex(format!("batch {}", QUEUE_CAPACITY).as_bytes());
    let extra = match tx.try_send(extra) {
        Err(TrySendError::Full(batch)) => batch,
        other => panic!("{:?}", other.map_err(|_| ())),
    };
    let first = rx.try_recv().unwrap();
    assert!(same(&first, &[Output::Bytes(b"batch 0".to_vec())]));
    assert!(tx.try_send(extra).is_ok());
    assert!(matches!(tx.try_send(Vec::new()), Err(TrySendError::Full(_))));
    for i in 1..=QUEUE_CAPACITY {
        let batch = rx.try_recv().unwrap();
        assert!(same(&batch, &[Output::Bytes(format!("batch {}", i).into_bytes())]));
    }
    assert!(matches!(rx.try_recv(), Err(TryRecvError::Empty)));
}
