//! The language of the lexer, as functions on byte sequences.
//!
//! An escape sequence is the byte ESC followed by a body. The bodies are given
//! by a numbered list of rules; on a given input the rule with the lowest
//! number that matches decides. A rule looks only at the front of its input
//! and says how many bytes it took.
use crate::ansi::AnsiCode;
use vstd::prelude::*;

verus! {

/// The byte that starts every escape sequence.
pub const ESC: u8 = 0x1b;

/// How many rules the grammar of bodies has.
pub const RULES: usize = 55;

/// A body that a rule has recognised at the front of its input.
pub struct Match {
    /// The decoded control function.
    pub code: AnsiCode,
    /// How many bytes of the input the body takes.
    pub len: int,
}

/// One result of the lexer: a run of literal bytes or one decoded code.
pub enum Token {
    Bytes(Seq<u8>),
    Escape(AnsiCode),
}

/// Whether `s` has the ASCII character `c` at index `i`.
pub open spec fn at(s: Seq<u8>, i: int, c: char) -> bool {
    0 <= i < s.len() && s[i] == c as u8
}

pub open spec fn is_digit(b: u8) -> bool {
    0x30 <= b <= 0x39
}

/// The index of the first byte at or after `from` that is no decimal digit,
/// or the length of `s` where only digits follow.
pub open spec fn digits_end(s: Seq<u8>, from: int) -> int
    decreases s.len() - from,
{
    if 0 <= from < s.len() && is_digit(s[from]) {
        digits_end(s, from + 1)
    } else {
        from
    }
}

/// The number that the decimal digits `s[from..to]` write; 0 for no digits.
pub open spec fn decimal(s: Seq<u8>, from: int, to: int) -> nat
    decreases to - from,
{
    if to <= from {
        0
    } else {
        10 * decimal(s, from, to - 1) + (s[to - 1] - 0x30) as nat
    }
}

/// The value of the numeric parameter written by the digits `s[from..to]`:
/// the number they write, or 1 where there is no digit or the number is
/// greater than `max`.
pub open spec fn number(s: Seq<u8>, from: int, to: int, max: int) -> int {
    if from < to && decimal(s, from, to) <= max {
        decimal(s, from, to) as int
    } else {
        1
    }
}

pub open spec fn number_u8(s: Seq<u8>, from: int, to: int) -> u8 {
    number(s, from, to, u8::MAX as int) as u8
}

pub open spec fn number_u32(s: Seq<u8>, from: int, to: int) -> u32 {
    number(s, from, to, u32::MAX as int) as u32
}

/// `code` where `s` starts with the character `a`.
pub open spec fn fixed1(s: Seq<u8>, a: char, code: AnsiCode) -> Option<Match> {
    if at(s, 0, a) {
        Some(Match { code, len: 1 })
    } else {
        None
    }
}

/// `code` where `s` starts with the characters `a b`.
pub open spec fn fixed2(s: Seq<u8>, a: char, b: char, code: AnsiCode) -> Option<Match> {
    if at(s, 0, a) && at(s, 1, b) {
        Some(Match { code, len: 2 })
    } else {
        None
    }
}

/// `code` where `s` starts with the characters `a b c`.
pub open spec fn fixed3(s: Seq<u8>, a: char, b: char, c: char, code: AnsiCode) -> Option<Match> {
    if at(s, 0, a) && at(s, 1, b) && at(s, 2, c) {
        Some(Match { code, len: 3 })
    } else {
        None
    }
}

/// `code` where `s` starts with `[?`, the digit `d` and the character `end`.
pub open spec fn private1(s: Seq<u8>, d: char, end: char, code: AnsiCode) -> Option<Match> {
    if at(s, 0, '[') && at(s, 1, '?') && at(s, 2, d) && at(s, 3, end) {
        Some(Match { code, len: 4 })
    } else {
        None
    }
}

/// `code` where `s` starts with `[?`, the digits `d1 d2` and the character `end`.
pub open spec fn private2(s: Seq<u8>, d1: char, d2: char, end: char, code: AnsiCode) -> Option<Match> {
    if at(s, 0, '[') && at(s, 1, '?') && at(s, 2, d1) && at(s, 3, d2) && at(s, 4, end) {
        Some(Match { code, len: 5 })
    } else {
        None
    }
}

/// `code` where `s` starts with `[?2004` and the character `end`.
pub open spec fn bracketed_paste(s: Seq<u8>, end: char, code: AnsiCode) -> Option<Match> {
    if at(s, 0, '[') && at(s, 1, '?') && at(s, 2, '2') && at(s, 3, '0') && at(s, 4, '0')
        && at(s, 5, '4') && at(s, 6, end) {
        Some(Match { code, len: 7 })
    } else {
        None
    }
}

/// `code` where `s` starts with `[20` and the character `end`.
pub open spec fn line_mode(s: Seq<u8>, end: char, code: AnsiCode) -> Option<Match> {
    if at(s, 0, '[') && at(s, 1, '2') && at(s, 2, '0') && at(s, 3, end) {
        Some(Match { code, len: 4 })
    } else {
        None
    }
}

/// Cursor position: `[`, digits, an optional `;`, digits, then `H` or `f`.
/// An empty digit run gives 1.
pub open spec fn cursor_pos(s: Seq<u8>) -> Option<Match> {
    let row_end = digits_end(s, 1);
    let col_start = if at(s, row_end, ';') {
        row_end + 1
    } else {
        row_end
    };
    let col_end = digits_end(s, col_start);
    if at(s, 0, '[') && (at(s, col_end, 'H') || at(s, col_end, 'f')) {
        Some(
            Match {
                code: AnsiCode::CursorPos(
                    number_u32(s, 1, row_end),
                    number_u32(s, col_start, col_end),
                ),
                len: col_end + 1,
            },
        )
    } else {
        None
    }
}

/// The amount of a relative cursor move and the length of its body: `[`,
/// digits, then `letter`. An empty digit run gives 1.
pub open spec fn cursor_move(s: Seq<u8>, letter: char) -> Option<(u32, int)> {
    let end = digits_end(s, 1);
    if at(s, 0, '[') && at(s, end, letter) {
        Some((number_u32(s, 1, end), end + 1))
    } else {
        None
    }
}

pub open spec fn cursor_up(s: Seq<u8>) -> Option<Match> {
    match cursor_move(s, 'A') {
        Some((n, len)) => Some(Match { code: AnsiCode::CursorUp(n), len }),
        None => None,
    }
}

pub open spec fn cursor_down(s: Seq<u8>) -> Option<Match> {
    match cursor_move(s, 'B') {
        Some((n, len)) => Some(Match { code: AnsiCode::CursorDown(n), len }),
        None => None,
    }
}

pub open spec fn cursor_forward(s: Seq<u8>) -> Option<Match> {
    match cursor_move(s, 'C') {
        Some((n, len)) => Some(Match { code: AnsiCode::CursorForward(n), len }),
        None => None,
    }
}

pub open spec fn cursor_backward(s: Seq<u8>) -> Option<Match> {
    match cursor_move(s, 'D') {
        Some((n, len)) => Some(Match { code: AnsiCode::CursorBackward(n), len }),
        None => None,
    }
}

/// The parameter at index `i` of a graphics-rendition list, 0 past its end.
pub open spec fn slot(params: Seq<u8>, i: int) -> u8 {
    if 0 <= i < params.len() {
        params[i]
    } else {
        0
    }
}

/// The graphics-rendition code with the parameters `params`.
pub open spec fn rendition(params: Seq<u8>) -> AnsiCode {
    AnsiCode::SetGraphicsMode(
        params.len() as u8,
        [slot(params, 0), slot(params, 1), slot(params, 2), slot(params, 3), slot(params, 4)],
    )
}

/// A graphics-rendition list whose parameters `seen` have been read and that
/// goes on at index `from`: digits, then `m`, or `;` and the rest of the list.
/// A list has at most five parameters, and none is empty.
pub open spec fn rendition_from(s: Seq<u8>, from: int, seen: Seq<u8>) -> Option<Match>
    decreases 5 - seen.len(),
{
    let end = digits_end(s, from);
    let params = seen.push(number_u8(s, from, end));
    if seen.len() >= 5 || end <= from {
        None
    } else if at(s, end, 'm') {
        Some(Match { code: rendition(params), len: end + 1 })
    } else if at(s, end, ';') {
        rendition_from(s, end + 1, params)
    } else {
        None
    }
}

/// Graphics rendition: `[`, one to five numbers with `;` between them, `m`.
pub open spec fn graphics_mode(s: Seq<u8>) -> Option<Match> {
    if at(s, 0, '[') {
        rendition_from(s, 1, Seq::empty())
    } else {
        None
    }
}

/// The number of a mode and the length of the body that sets or resets it:
/// `[=`, at least one digit, then `letter`.
pub open spec fn mode(s: Seq<u8>, letter: char) -> Option<(u8, int)> {
    let end = digits_end(s, 2);
    if at(s, 0, '[') && at(s, 1, '=') && end > 2 && at(s, end, letter) {
        Some((number_u8(s, 2, end), end + 1))
    } else {
        None
    }
}

pub open spec fn set_mode(s: Seq<u8>) -> Option<Match> {
    match mode(s, 'h') {
        Some((n, len)) => Some(Match { code: AnsiCode::SetMode(n), len }),
        None => None,
    }
}

pub open spec fn reset_mode(s: Seq<u8>) -> Option<Match> {
    match mode(s, 'l') {
        Some((n, len)) => Some(Match { code: AnsiCode::ResetMode(n), len }),
        None => None,
    }
}

/// Scroll region: `[`, at least one digit, `;`, at least one digit, `r`.
pub open spec fn set_top_and_bottom(s: Seq<u8>) -> Option<Match> {
    let top_end = digits_end(s, 1);
    let bottom_end = digits_end(s, top_end + 1);
    if at(s, 0, '[') && top_end > 1 && at(s, top_end, ';') && bottom_end > top_end + 1 && at(
        s,
        bottom_end,
        'r',
    ) {
        Some(
            Match {
                code: AnsiCode::SetTopAndBottom(
                    number_u32(s, 1, top_end),
                    number_u32(s, top_end + 1, bottom_end),
                ),
                len: bottom_end + 1,
            },
        )
    } else {
        None
    }
}

/// What rule number `i` makes of the input `s`.
pub open spec fn rule(i: int, s: Seq<u8>) -> Option<Match> {
    if i == 0 {
        fixed1(s, '\x1b', AnsiCode::Escape)
    } else if i == 1 {
        cursor_pos(s)
    } else if i == 2 {
        cursor_up(s)
    } else if i == 3 {
        cursor_down(s)
    } else if i == 4 {
        cursor_forward(s)
    } else if i == 5 {
        cursor_backward(s)
    } else if i == 6 {
        fixed2(s, '[', 's', AnsiCode::CursorSave)
    } else if i == 7 {
        fixed2(s, '[', 'u', AnsiCode::CursorRestore)
    } else if i == 8 {
        fixed3(s, '[', '2', 'J', AnsiCode::EraseAllDisplay)
    } else if i == 9 {
        fixed2(s, '[', 'J', AnsiCode::EraseDisplay)
    } else if i == 10 {
        fixed2(s, '[', 'K', AnsiCode::EraseLine)
    } else if i == 11 {
        graphics_mode(s)
    } else if i == 12 {
        set_mode(s)
    } else if i == 13 {
        reset_mode(s)
    } else if i == 14 {
        private2(s, '2', '5', 'l', AnsiCode::HideCursor)
    } else if i == 15 {
        private2(s, '2', '5', 'h', AnsiCode::ShowCursor)
    } else if i == 16 {
        private1(s, '1', 'h', AnsiCode::CursorToApp)
    } else if i == 17 {
        line_mode(s, 'h', AnsiCode::SetNewLineMode)
    } else if i == 18 {
        private1(s, '3', 'h', AnsiCode::SetCol132)
    } else if i == 19 {
        private1(s, '4', 'h', AnsiCode::SetSmoothScroll)
    } else if i == 20 {
        private1(s, '5', 'h', AnsiCode::SetReverseVideo)
    } else if i == 21 {
        private1(s, '7', 'h', AnsiCode::SetAutoWrap)
    } else if i == 22 {
        private1(s, '6', 'h', AnsiCode::SetOriginRelative)
    } else if i == 23 {
        private1(s, '8', 'h', AnsiCode::SetAutoRepeat)
    } else if i == 24 {
        private1(s, '9', 'h', AnsiCode::SetInterlacing)
    } else if i == 25 {
        line_mode(s, 'l', AnsiCode::SetLineFeedMode)
    } else if i == 26 {
        private1(s, '1', 'l', AnsiCode::SetCursorKeyToCursor)
    } else if i == 27 {
        private1(s, '2', 'l', AnsiCode::SetVT52)
    } else if i == 28 {
        private1(s, '3', 'l', AnsiCode::SetCol80)
    } else if i == 29 {
        private1(s, '4', 'l', AnsiCode::SetJumpScrolling)
    } else if i == 30 {
        private1(s, '5', 'l', AnsiCode::SetNormalVideo)
    } else if i == 31 {
        private1(s, '6', 'l', AnsiCode::SetOriginAbsolute)
    } else if i == 32 {
        private1(s, '7', 'l', AnsiCode::ResetAutoWrap)
    } else if i == 33 {
        private1(s, '8', 'l', AnsiCode::ResetAutoRepeat)
    } else if i == 34 {
        private1(s, '9', 'l', AnsiCode::ResetInterlacing)
    } else if i == 35 {
        set_top_and_bottom(s)
    } else if i == 36 {
        fixed1(s, '=', AnsiCode::SetAlternateKeypad)
    } else if i == 37 {
        fixed1(s, '>', AnsiCode::SetNumericKeypad)
    } else if i == 38 {
        fixed2(s, '(', 'A', AnsiCode::SetUKG0)
    } else if i == 39 {
        fixed2(s, ')', 'A', AnsiCode::SetUKG1)
    } else if i == 40 {
        fixed2(s, '(', 'B', AnsiCode::SetUSG0)
    } else if i == 41 {
        fixed2(s, ')', 'B', AnsiCode::SetUSG1)
    } else if i == 42 {
        fixed2(s, '(', '0', AnsiCode::SetG0SpecialChars)
    } else if i == 43 {
        fixed2(s, ')', '0', AnsiCode::SetG1SpecialChars)
    } else if i == 44 {
        fixed2(s, '(', '1', AnsiCode::SetG0AlternateChar)
    } else if i == 45 {
        fixed2(s, ')', '1', AnsiCode::SetG1AlternateChar)
    } else if i == 46 {
        fixed2(s, '(', '2', AnsiCode::SetG0AltAndSpecialGraph)
    } else if i == 47 {
        fixed2(s, ')', '2', AnsiCode::SetG1AltAndSpecialGraph)
    } else if i == 48 {
        fixed1(s, 'N', AnsiCode::SetSingleShift2)
    } else if i == 49 {
        fixed1(s, 'O', AnsiCode::SetSingleShift3)
    } else if i == 50 {
        bracketed_paste(s, 'h', AnsiCode::EnableBracketedPaste)
    } else if i == 51 {
        bracketed_paste(s, 'l', AnsiCode::DisableBracketedPaste)
    } else if i == 52 {
        private2(s, '1', '2', 'h', AnsiCode::EnableCursorBlink)
    } else if i == 53 {
        private2(s, '1', '2', 'l', AnsiCode::DisableCursorBlink)
    } else if i == 54 {
        fixed2(s, '[', 'm', AnsiCode::CursorResetStyle)
    } else {
        None
    }
}

/// What the first rule from number `i` on that matches makes of `s`.
pub open spec fn first_match(s: Seq<u8>, i: int) -> Option<Match>
    decreases RULES - i,
{
    if i < 0 || i >= RULES {
        None
    } else if rule(i, s) is Some {
        rule(i, s)
    } else {
        first_match(s, i + 1)
    }
}

/// The body at the front of `s`, if the grammar has one for it.
pub open spec fn body(s: Seq<u8>) -> Option<Match> {
    first_match(s, 0)
}

/// The escape sequence at the front of `s`: ESC and a body. The length counts
/// the ESC.
pub open spec fn ansi_parse(s: Seq<u8>) -> Option<Match> {
    if at(s, 0, '\x1b') {
        match body(s.skip(1)) {
            Some(m) => Some(Match { code: m.code, len: m.len + 1 }),
            None => None,
        }
    } else {
        None
    }
}

/// The index of the first ESC at or after `from`, or the length of `s` where
/// none follows.
pub open spec fn find_esc(s: Seq<u8>, from: int) -> int
    decreases s.len() - from,
{
    if 0 <= from < s.len() && s[from] != ESC {
        find_esc(s, from + 1)
    } else {
        from
    }
}

/// The first token of a non-empty input and the number of bytes it takes.
///
/// Text before the first ESC is one literal token. At an ESC, an escape
/// sequence of the grammar is one decoded code; where the grammar has none
/// for it, the ESC and the text up to the next ESC are one literal token.
pub open spec fn next_token(s: Seq<u8>) -> (Token, int) {
    let text_end = find_esc(s, 0);
    if text_end > 0 {
        (Token::Bytes(s.take(text_end)), text_end)
    } else {
        match ansi_parse(s) {
            Some(m) => (Token::Escape(m.code), m.len),
            None => {
                let end = find_esc(s, 1);
                (Token::Bytes(s.take(end)), end)
            },
        }
    }
}

/// All tokens of `s`, in the order of their bytes.
pub open spec fn tokens(s: Seq<u8>) -> Seq<Token>
    decreases s.len(),
{
    if s.len() == 0 {
        Seq::empty()
    } else {
        proof {
            lemma_next_token_len(s);
        }
        seq![next_token(s).0] + tokens(s.skip(next_token(s).1))
    }
}

/// A digit run starts where it is asked for, ends inside the input, and holds
/// digits only; the byte after it, if there is one, is no digit.
pub proof fn lemma_digits_end(s: Seq<u8>, from: int)
    requires
        0 <= from <= s.len(),
    ensures
        from <= digits_end(s, from) <= s.len(),
        forall|k: int| from <= k < digits_end(s, from) ==> is_digit(#[trigger] s[k]),
        digits_end(s, from) < s.len() ==> !is_digit(s[digits_end(s, from)]),
    decreases s.len() - from,
{
    if from < s.len() && is_digit(s[from]) {
        lemma_digits_end(s, from + 1);
    }
}

/// The search for ESC ends inside the input, passes no ESC, and stops at one
/// unless it reaches the end.
pub proof fn lemma_find_esc(s: Seq<u8>, from: int)
    requires
        0 <= from <= s.len(),
    ensures
        from <= find_esc(s, from) <= s.len(),
        forall|k: int| from <= k < find_esc(s, from) ==> #[trigger] s[k] != ESC,
        find_esc(s, from) < s.len() ==> s[find_esc(s, from)] == ESC,
    decreases s.len() - from,
{
    if from < s.len() && s[from] != ESC {
        lemma_find_esc(s, from + 1);
    }
}

/// A graphics-rendition list that matches ends inside the input.
pub proof fn lemma_rendition_len(s: Seq<u8>, from: int, seen: Seq<u8>)
    requires
        0 <= from <= s.len(),
    ensures
        rendition_from(s, from, seen) matches Some(m) ==> from < m.len <= s.len(),
    decreases 5 - seen.len(),
{
    lemma_digits_end(s, from);
    let end = digits_end(s, from);
    if seen.len() < 5 && end > from && !at(s, end, 'm') && at(s, end, ';') {
        lemma_rendition_len(s, end + 1, seen.push(number_u8(s, from, end)));
    }
}

/// A rule that matches takes at least one byte and no more than there are.
pub proof fn lemma_rule_len(i: int, s: Seq<u8>)
    ensures
        rule(i, s) matches Some(m) ==> 1 <= m.len <= s.len(),
{
    if s.len() >= 1 {
        lemma_digits_end(s, 1);
        let e = digits_end(s, 1);
        if at(s, e, ';') {
            lemma_digits_end(s, e + 1);
        } else {
            lemma_digits_end(s, e);
        }
        lemma_rendition_len(s, 1, Seq::empty());
    }
    if s.len() >= 2 {
        lemma_digits_end(s, 2);
    }
}

/// A body that matches takes at least one byte and no more than there are.
pub proof fn lemma_first_match_len(s: Seq<u8>, i: int)
    ensures
        first_match(s, i) matches Some(m) ==> 1 <= m.len <= s.len(),
    decreases RULES - i,
{
    if 0 <= i < RULES {
        lemma_rule_len(i, s);
        if rule(i, s) is None {
            lemma_first_match_len(s, i + 1);
        }
    }
}

/// The first token of a non-empty input takes at least one byte and no more
/// than there are.
pub proof fn lemma_next_token_len(s: Seq<u8>)
    requires
        s.len() > 0,
    ensures
        1 <= next_token(s).1 <= s.len(),
{
    lemma_find_esc(s, 0);
    lemma_find_esc(s, 1);
    lemma_first_match_len(s.skip(1), 0);
}

} // verus!
