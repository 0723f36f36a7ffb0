use emu_term::ansi::{ansi_parse, body, AnsiCode, AnsiParser, Output};

#[derive(Debug, PartialEq, Eq)]
enum Tok {
    Text(Vec<u8>),
    Code(AnsiCode),
}

fn lex(bytes: &[u8]) -> Vec<Tok> {
    let mut parser = AnsiParser::new(bytes);
    let mut out = Vec::new();
    while let Some(token) = parser.next() {
        out.push(match token {
            Output::Bytes(b) => Tok::Text(b.to_vec()),
            Output::Escape(code) => Tok::Code(code),
        });
    }
    out
}

fn text(bytes: &[u8]) -> Tok {
    Tok::Text(bytes.to_vec())
}

#[test]
fn plain_text_is_one_literal_token() {
    assert_eq!(lex(b"hello world"), vec![text(b"hello world")]);
    assert_eq!(lex(b"a"), vec![text(b"a")]);
    assert_eq!(lex(b"line one\r\nline two\t\x08"), vec![text(b"line one\r\nline two\t\x08")]);
    assert_eq!(lex(&[0xff, 0x00, 0x80]), vec![text(&[0xff, 0x00, 0x80])]);
}

#[test]
fn empty_input_has_no_token() {
    assert_eq!(lex(b""), vec![]);
    let mut parser = AnsiParser::new(b"");
    assert!(parser.next().is_none());
    assert!(parser.next().is_none());
}

#[test]
fn lexer_is_exhausted_after_the_last_token() {
    let mut parser = AnsiParser::new(b"ab\x1b[K");
    assert!(matches!(parser.next(), Some(Output::Bytes(b"ab"))));
    assert!(matches!(parser.next(), Some(Output::Escape(AnsiCode::EraseLine))));
    assert!(parser.next().is_none());
    assert!(parser.next().is_none());
}

#[test]
fn up_cursor_defaults_to_one() {
    assert_eq!(lex(b"\x1b[A"), vec![Tok::Code(AnsiCode::CursorUp(1))]);
}

#[test]
fn up_cursor_takes_its_amount() {
    assert_eq!(lex(b"\x1b[12A"), vec![Tok::Code(AnsiCode::CursorUp(12))]);
}

#[test]
fn relative_moves_keep_their_direction() {
    assert_eq!(lex(b"\x1b[3B"), vec![Tok::Code(AnsiCode::CursorDown(3))]);
    assert_eq!(lex(b"\x1b[B"), vec![Tok::Code(AnsiCode::CursorDown(1))]);
    assert_eq!(lex(b"\x1b[40C"), vec![Tok::Code(AnsiCode::CursorForward(40))]);
    assert_eq!(lex(b"\x1b[C"), vec![Tok::Code(AnsiCode::CursorForward(1))]);
    assert_eq!(lex(b"\x1b[7D"), vec![Tok::Code(AnsiCode::CursorBackward(7))]);
    assert_eq!(lex(b"\x1b[D"), vec![Tok::Code(AnsiCode::CursorBackward(1))]);
}

#[test]
fn graphics_rendition_with_three_parameters() {
    assert_eq!(
        lex(b"\x1b[38;5;196m"),
        vec![Tok::Code(AnsiCode::SetGraphicsMode(3, [38, 5, 196, 0, 0]))]
    );
}

#[test]
fn graphics_rendition_with_five_parameters() {
    assert_eq!(
        lex(b"\x1b[48;2;10;20;30m"),
        vec![Tok::Code(AnsiCode::SetGraphicsMode(5, [48, 2, 10, 20, 30]))]
    );
}

#[test]
fn graphics_rendition_records_the_parameter_count() {
    assert_eq!(lex(b"\x1b[0m"), vec![Tok::Code(AnsiCode::SetGraphicsMode(1, [0, 0, 0, 0, 0]))]);
    assert_eq!(lex(b"\x1b[1;31m"), vec![Tok::Code(AnsiCode::SetGraphicsMode(2, [1, 31, 0, 0, 0]))]);
    assert_eq!(
        lex(b"\x1b[1;2;3;4m"),
        vec![Tok::Code(AnsiCode::SetGraphicsMode(4, [1, 2, 3, 4, 0]))]
    );
    assert_eq!(lex(b"\x1b[007m"), vec![Tok::Code(AnsiCode::SetGraphicsMode(1, [7, 0, 0, 0, 0]))]);
    assert_eq!(lex(b"\x1b[255m"), vec![Tok::Code(AnsiCode::SetGraphicsMode(1, [255, 0, 0, 0, 0]))]);
}

#[test]
fn graphics_rendition_parameter_that_does_not_fit_is_one() {
    assert_eq!(lex(b"\x1b[256m"), vec![Tok::Code(AnsiCode::SetGraphicsMode(1, [1, 0, 0, 0, 0]))]);
    assert_eq!(
        lex(b"\x1b[38;5;1000m"),
        vec![Tok::Code(AnsiCode::SetGraphicsMode(3, [38, 5, 1, 0, 0]))]
    );
    assert_eq!(
        lex(b"\x1b[99999999999999999999999999m"),
        vec![Tok::Code(AnsiCode::SetGraphicsMode(1, [1, 0, 0, 0, 0]))]
    );
}

#[test]
fn graphics_rendition_needs_every_parameter() {
    assert_eq!(lex(b"\x1b[;m"), vec![text(b"\x1b[;m")]);
    assert_eq!(lex(b"\x1b[1;m"), vec![text(b"\x1b[1;m")]);
    assert_eq!(lex(b"\x1b[;1m"), vec![text(b"\x1b[;1m")]);
}

#[test]
fn graphics_rendition_with_six_parameters_is_literal() {
    assert_eq!(lex(b"\x1b[1;2;3;4;5;6m"), vec![text(b"\x1b[1;2;3;4;5;6m")]);
}

#[test]
fn reset_style_has_no_parameter() {
    assert_eq!(lex(b"\x1b[m"), vec![Tok::Code(AnsiCode::CursorResetStyle)]);
}

#[test]
fn cursor_position_defaults() {
    assert_eq!(lex(b"\x1b[H"), vec![Tok::Code(AnsiCode::CursorPos(1, 1))]);
    assert_eq!(lex(b"\x1b[f"), vec![Tok::Code(AnsiCode::CursorPos(1, 1))]);
    assert_eq!(lex(b"\x1b[;H"), vec![Tok::Code(AnsiCode::CursorPos(1, 1))]);
    assert_eq!(lex(b"\x1b[5H"), vec![Tok::Code(AnsiCode::CursorPos(5, 1))]);
    assert_eq!(lex(b"\x1b[5;H"), vec![Tok::Code(AnsiCode::CursorPos(5, 1))]);
    assert_eq!(lex(b"\x1b[;7H"), vec![Tok::Code(AnsiCode::CursorPos(1, 7))]);
    assert_eq!(lex(b"\x1b[12;34H"), vec![Tok::Code(AnsiCode::CursorPos(12, 34))]);
    assert_eq!(lex(b"\x1b[12;34f"), vec![Tok::Code(AnsiCode::CursorPos(12, 34))]);
}

#[test]
fn cursor_number_that_does_not_fit_is_one() {
    assert_eq!(lex(b"\x1b[4294967295A"), vec![Tok::Code(AnsiCode::CursorUp(4294967295))]);
    assert_eq!(lex(b"\x1b[4294967296A"), vec![Tok::Code(AnsiCode::CursorUp(1))]);
    assert_eq!(lex(b"\x1b[0A"), vec![Tok::Code(AnsiCode::CursorUp(0))]);
    assert_eq!(
        lex(b"\x1b[99999999999999999999;2H"),
        vec![Tok::Code(AnsiCode::CursorPos(1, 2))]
    );
}

#[test]
fn mode_set_and_reset() {
    assert_eq!(lex(b"\x1b[=7h"), vec![Tok::Code(AnsiCode::SetMode(7))]);
    assert_eq!(lex(b"\x1b[=19l"), vec![Tok::Code(AnsiCode::ResetMode(19))]);
    assert_eq!(lex(b"\x1b[=300h"), vec![Tok::Code(AnsiCode::SetMode(1))]);
    assert_eq!(lex(b"\x1b[=h"), vec![text(b"\x1b[=h")]);
}

#[test]
fn scroll_region() {
    assert_eq!(lex(b"\x1b[1;24r"), vec![Tok::Code(AnsiCode::SetTopAndBottom(1, 24))]);
    assert_eq!(lex(b"\x1b[;24r"), vec![text(b"\x1b[;24r")]);
    assert_eq!(lex(b"\x1b[1;r"), vec![text(b"\x1b[1;r")]);
    assert_eq!(lex(b"\x1b[r"), vec![text(b"\x1b[r")]);
}

#[test]
fn private_modes() {
    let table: [(&[u8], AnsiCode); 25] = [
        (b"\x1b[?25l", AnsiCode::HideCursor),
        (b"\x1b[?25h", AnsiCode::ShowCursor),
        (b"\x1b[?12h", AnsiCode::EnableCursorBlink),
        (b"\x1b[?12l", AnsiCode::DisableCursorBlink),
        (b"\x1b[?1h", AnsiCode::CursorToApp),
        (b"\x1b[?1l", AnsiCode::SetCursorKeyToCursor),
        (b"\x1b[?2004h", AnsiCode::EnableBracketedPaste),
        (b"\x1b[?2004l", AnsiCode::DisableBracketedPaste),
        (b"\x1b[20h", AnsiCode::SetNewLineMode),
        (b"\x1b[20l", AnsiCode::SetLineFeedMode),
        (b"\x1b[?2l", AnsiCode::SetVT52),
        (b"\x1b[?3h", AnsiCode::SetCol132),
        (b"\x1b[?3l", AnsiCode::SetCol80),
        (b"\x1b[?4h", AnsiCode::SetSmoothScroll),
        (b"\x1b[?4l", AnsiCode::SetJumpScrolling),
        (b"\x1b[?5h", AnsiCode::SetReverseVideo),
        (b"\x1b[?5l", AnsiCode::SetNormalVideo),
        (b"\x1b[?6h", AnsiCode::SetOriginRelative),
        (b"\x1b[?6l", AnsiCode::SetOriginAbsolute),
        (b"\x1b[?7h", AnsiCode::SetAutoWrap),
        (b"\x1b[?7l", AnsiCode::ResetAutoWrap),
        (b"\x1b[?8h", AnsiCode::SetAutoRepeat),
        (b"\x1b[?8l", AnsiCode::ResetAutoRepeat),
        (b"\x1b[?9h", AnsiCode::SetInterlacing),
        (b"\x1b[?9l", AnsiCode::ResetInterlacing),
    ];
    for (bytes, code) in table {
        assert_eq!(lex(bytes), vec![Tok::Code(code)]);
    }
}

#[test]
fn functions_without_parameters() {
    let table: [(&[u8], AnsiCode); 21] = [
        (b"\x1b\x1b", AnsiCode::Escape),
        (b"\x1b[s", AnsiCode::CursorSave),
        (b"\x1b[u", AnsiCode::CursorRestore),
        (b"\x1b[J", AnsiCode::EraseDisplay),
        (b"\x1b[2J", AnsiCode::EraseAllDisplay),
        (b"\x1b[K", AnsiCode::EraseLine),
        (b"\x1b=", AnsiCode::SetAlternateKeypad),
        (b"\x1b>", AnsiCode::SetNumericKeypad),
        (b"\x1bN", AnsiCode::SetSingleShift2),
        (b"\x1bO", AnsiCode::SetSingleShift3),
        (b"\x1b(A", AnsiCode::SetUKG0),
        (b"\x1b)A", AnsiCode::SetUKG1),
        (b"\x1b(B", AnsiCode::SetUSG0),
        (b"\x1b)B", AnsiCode::SetUSG1),
        (b"\x1b(0", AnsiCode::SetG0SpecialChars),
        (b"\x1b)0", AnsiCode::SetG1SpecialChars),
        (b"\x1b(1", AnsiCode::SetG0AlternateChar),
        (b"\x1b)1", AnsiCode::SetG1AlternateChar),
        (b"\x1b(2", AnsiCode::SetG0AltAndSpecialGraph),
        (b"\x1b)2", AnsiCode::SetG1AltAndSpecialGraph),
        (b"\x1b[m", AnsiCode::CursorResetStyle),
    ];
    for (bytes, code) in table {
        assert_eq!(lex(bytes), vec![Tok::Code(code)]);
    }
}

#[test]
fn private_modes_are_matched_by_their_exact_bytes() {
    assert_eq!(lex(b"\x1b[?025h"), vec![text(b"\x1b[?025h")]);
    assert_eq!(lex(b"\x1b[?2h"), vec![text(b"\x1b[?2h")]);
    assert_eq!(lex(b"\x1b[?13h"), vec![text(b"\x1b[?13h")]);
    assert_eq!(lex(b"\x1b[?2004"), vec![text(b"\x1b[?2004")]);
}

#[test]
fn text_before_an_escape_is_its_own_token() {
    assert_eq!(
        lex(b"abc\x1b[2Jdef"),
        vec![text(b"abc"), Tok::Code(AnsiCode::EraseAllDisplay), text(b"def")]
    );
}

#[test]
fn tokens_come_in_stream_order() {
    assert_eq!(
        lex(b"\x1b[1;1H\x1b[38;5;2mok\x1b[0m\r\n$ "),
        vec![
            Tok::Code(AnsiCode::CursorPos(1, 1)),
            Tok::Code(AnsiCode::SetGraphicsMode(3, [38, 5, 2, 0, 0])),
            text(b"ok"),
            Tok::Code(AnsiCode::SetGraphicsMode(1, [0, 0, 0, 0, 0])),
            text(b"\r\n$ "),
        ]
    );
}

#[test]
fn a_code_ends_at_its_last_byte() {
    assert_eq!(lex(b"\x1b[Ax"), vec![Tok::Code(AnsiCode::CursorUp(1)), text(b"x")]);
    assert_eq!(lex(b"\x1b=="), vec![Tok::Code(AnsiCode::SetAlternateKeypad), text(b"=")]);
    assert_eq!(lex(b"\x1b(AA"), vec![Tok::Code(AnsiCode::SetUKG0), text(b"A")]);
    assert_eq!(
        lex(b"\x1b\x1b\x1b[K"),
        vec![Tok::Code(AnsiCode::Escape), Tok::Code(AnsiCode::EraseLine)]
    );
}

#[test]
fn unrecognised_sequence_is_literal_up_to_the_next_escape() {
    assert_eq!(lex(b"\x1b[5Zabc"), vec![text(b"\x1b[5Zabc")]);
    assert_eq!(
        lex(b"\x1b[5Zabc\x1b[K"),
        vec![text(b"\x1b[5Zabc"), Tok::Code(AnsiCode::EraseLine)]
    );
    assert_eq!(lex(b"\x1bq"), vec![text(b"\x1bq")]);
    assert_eq!(lex(b"\x1b]0;title\x07"), vec![text(b"\x1b]0;title\x07")]);
}

#[test]
fn lone_escape_is_literal() {
    assert_eq!(lex(b"\x1b"), vec![text(b"\x1b")]);
    assert_eq!(lex(b"ab\x1b"), vec![text(b"ab"), text(b"\x1b")]);
}

#[test]
fn split_sequence_is_emitted_as_literal_bytes() {
    let whole: &[u8] = b"\x1b[38;5;196m";
    assert_eq!(lex(whole), vec![Tok::Code(AnsiCode::SetGraphicsMode(3, [38, 5, 196, 0, 0]))]);
    for cut in 1..whole.len() {
        assert_eq!(lex(&whole[..cut]), vec![text(&whole[..cut])]);
        assert_eq!(lex(&whole[cut..]), vec![text(&whole[cut..])]);
    }
}

#[test]
fn every_split_of_every_fixed_code_is_literal() {
    let codes: [&[u8]; 12] = [
        b"\x1b\x1b",
        b"\x1b[A",
        b"\x1b[12;40H",
        b"\x1b[2J",
        b"\x1b[?2004h",
        b"\x1b[?25l",
        b"\x1b[20h",
        b"\x1b[=3h",
        b"\x1b[1;24r",
        b"\x1b(0",
        b"\x1b[m",
        b"\x1b[48;2;10;20;30m",
    ];
    for whole in codes {
        assert_eq!(lex(whole).len(), 1);
        assert!(matches!(lex(whole)[0], Tok::Code(_)));
        for cut in 1..whole.len() {
            assert_eq!(lex(&whole[..cut]), vec![text(&whole[..cut])]);
            assert_eq!(lex(&whole[cut..]), vec![text(&whole[cut..])]);
        }
    }
}

#[test]
fn body_decodes_what_follows_the_escape() {
    let (rest, code) = body(b"[2Jrest").unwrap();
    assert_eq!(code, AnsiCode::EraseAllDisplay);
    assert_eq!(rest, b"rest");
    let (rest, code) = body(b"\x1b").unwrap();
    assert_eq!(code, AnsiCode::Escape);
    assert_eq!(rest, b"");
    assert!(body(b"").is_none());
    assert!(body(b"[").is_none());
    assert!(body(b"x[K").is_none());
}

#[test]
fn ansi_parse_needs_the_escape() {
    let (rest, code) = ansi_parse(b"\x1b[10;20Hxy").unwrap();
    assert_eq!(code, AnsiCode::CursorPos(10, 20));
    assert_eq!(rest, b"xy");
    assert!(ansi_parse(b"[10;20H").is_none());
    assert!(ansi_parse(b"").is_none());
    assert!(ansi_parse(b"\x1b").is_none());
    assert!(ansi_parse(b"\x1b[10;20").is_none());
}
