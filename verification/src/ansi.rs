//! The escape-sequence lexer.
//!
//! [`AnsiParser`] walks over one chunk of bytes and hands out its tokens one
//! by one: runs of literal text and decoded escape codes. What it hands out
//! is fixed by [`crate::grammar`].
use crate::grammar;
use crate::grammar::{Match, Token, ESC, RULES};
use vstd::prelude::*;
use vstd::slice::slice_subrange;

verus! {

/// One decoded control function. Numeric parameters are resolved when the
/// code is decoded: a parameter that was left out holds its default.
#[derive(Debug, Copy, Clone, PartialEq, Eq)]
pub enum AnsiCode {
    Escape,
    CursorPos(u32, u32),
    CursorUp(u32),
    CursorDown(u32),
    CursorForward(u32),
    CursorBackward(u32),
    CursorResetStyle,
    CursorSave,
    CursorRestore,
    EnableCursorBlink,
    DisableCursorBlink,
    EraseDisplay,
    EraseAllDisplay,
    EraseLine,
    /// The number of parameters given (1 to 5) and their values; the slots
    /// past the last given parameter hold 0.
    SetGraphicsMode(u8, [u8; 5]),
    SetMode(u8),
    ResetMode(u8),
    HideCursor,
    ShowCursor,
    CursorToApp,
    SetNewLineMode,
    SetCol132,
    SetSmoothScroll,
    SetReverseVideo,
    SetOriginRelative,
    SetAutoWrap,
    SetAutoRepeat,
    SetInterlacing,
    SetLineFeedMode,
    SetCursorKeyToCursor,
    SetVT52,
    SetCol80,
    SetJumpScrolling,
    SetNormalVideo,
    SetOriginAbsolute,
    ResetAutoWrap,
    ResetAutoRepeat,
    ResetInterlacing,
    SetAlternateKeypad,
    SetNumericKeypad,
    SetUKG0,
    SetUKG1,
    SetUSG0,
    SetUSG1,
    SetG0SpecialChars,
    SetG1SpecialChars,
    SetG0AlternateChar,
    SetG1AlternateChar,
    SetG0AltAndSpecialGraph,
    SetG1AltAndSpecialGraph,
    SetSingleShift2,
    SetSingleShift3,
    SetTopAndBottom(u32, u32),
    EnableBracketedPaste,
    DisableBracketedPaste,
}

/// The lexer's position in a chunk of bytes. Its view is the part of the
/// chunk that it has not handed out yet.
#[derive(Debug)]
pub struct AnsiParser<'a> {
    slice: &'a [u8],
}

/// One result of the lexer, borrowing literal text from the chunk.
#[derive(Debug)]
pub enum Output<'a> {
    Bytes(&'a [u8]),
    Escape(AnsiCode),
}

impl<'a> View for AnsiParser<'a> {
    type V = Seq<u8>;

    closed spec fn view(&self) -> Seq<u8> {
        self.slice@
    }
}

impl<'a> View for Output<'a> {
    type V = Token;

    open spec fn view(&self) -> Token {
        match *self {
            Output::Bytes(bytes) => Token::Bytes(bytes@),
            Output::Escape(code) => Token::Escape(code),
        }
    }
}

/// The match that the result of an executable rule stands for.
pub open spec fn matched(r: Option<(usize, AnsiCode)>) -> Option<Match> {
    match r {
        Some((len, code)) => Some(Match { code, len: len as int }),
        None => None,
    }
}

fn at(input: &[u8], i: usize, c: char) -> (r: bool)
    requires
        (c as u32) < 128,
    ensures
        r == grammar::at(input@, i as int, c),
        r ==> i < usize::MAX,
{
    i < input.len() && input[i] == c as u8
}

fn find_esc(input: &[u8], from: usize) -> (end: usize)
    requires
        from <= input@.len(),
    ensures
        end == grammar::find_esc(input@, from as int),
        from <= end <= input@.len(),
{
    let mut i = from;
    while i < input.len() && input[i] != ESC
        invariant
            from <= i <= input@.len(),
            grammar::find_esc(input@, from as int) == grammar::find_esc(input@, i as int),
        decreases input@.len() - i,
    {
        i += 1;
    }
    i
}

/// Reads the digit run at `from` and the number it writes: the value where
/// there is a digit and the value is at most `max`, 1 otherwise.
fn scan_number(input: &[u8], from: usize, max: u32) -> (r: (usize, u32))
    requires
        from <= input@.len(),
    ensures
        r.0 == grammar::digits_end(input@, from as int),
        r.1 == grammar::number(input@, from as int, r.0 as int, max as int),
        from <= r.0 <= input@.len(),
{
    let mut i = from;
    let mut value: u64 = 0;
    while i < input.len() && 0x30 <= input[i] && input[i] <= 0x39
        invariant
            from <= i <= input@.len(),
            grammar::digits_end(input@, from as int) == grammar::digits_end(input@, i as int),
            value <= max ==> value == grammar::decimal(input@, from as int, i as int),
            value > max ==> grammar::decimal(input@, from as int, i as int) > max,
            value <= 10 * max + 9,
        decreases input@.len() - i,
    {
        if value <= max as u64 {
            value = value * 10 + (input[i] - 0x30) as u64;
        }
        i += 1;
    }
    if i > from && value <= max as u64 {
        (i, value as u32)
    } else {
        (i, 1)
    }
}

/// A number that may be left out: the digit run at `from` and its value, 1
/// for an empty run or a value that does not fit.
fn parse_def_cursor_int(input: &[u8], from: usize) -> (r: (usize, u32))
    requires
        from <= input@.len(),
    ensures
        r.0 == grammar::digits_end(input@, from as int),
        r.1 == grammar::number_u32(input@, from as int, r.0 as int),
        from <= r.0 <= input@.len(),
{
    scan_number(input, from, u32::MAX)
}

/// A number of at least one digit: the digit run at `from` and its value, 1
/// for a value over 255.
fn parse_u8(input: &[u8], from: usize) -> (r: Option<(usize, u8)>)
    requires
        from <= input@.len(),
    ensures
        r is Some <==> grammar::digits_end(input@, from as int) > from,
        r matches Some((end, n)) ==> {
            &&& end == grammar::digits_end(input@, from as int)
            &&& n == grammar::number_u8(input@, from as int, end as int)
            &&& from < end <= input@.len()
        },
{
    let (end, n) = scan_number(input, from, 255);
    if end > from {
        Some((end, n as u8))
    } else {
        None
    }
}

/// A number of at least one digit: the digit run at `from` and its value, 1
/// for a value that does not fit.
fn parse_u32(input: &[u8], from: usize) -> (r: Option<(usize, u32)>)
    requires
        from <= input@.len(),
    ensures
        r is Some <==> grammar::digits_end(input@, from as int) > from,
        r matches Some((end, n)) ==> {
            &&& end == grammar::digits_end(input@, from as int)
            &&& n == grammar::number_u32(input@, from as int, end as int)
            &&& from < end <= input@.len()
        },
{
    let (end, n) = scan_number(input, from, u32::MAX);
    if end > from {
        Some((end, n))
    } else {
        None
    }
}

fn fixed1(input: &[u8], a: char, code: AnsiCode) -> (r: Option<(usize, AnsiCode)>)
    requires
        (a as u32) < 128,
    ensures
        matched(r) == grammar::fixed1(input@, a, code),
{
    if at(input, 0, a) {
        Some((1, code))
    } else {
        None
    }
}

fn fixed2(input: &[u8], a: char, b: char, code: AnsiCode) -> (r: Option<(usize, AnsiCode)>)
    requires
        (a as u32) < 128,
        (b as u32) < 128,
    ensures
        matched(r) == grammar::fixed2(input@, a, b, code),
{
    if at(input, 0, a) && at(input, 1, b) {
        Some((2, code))
    } else {
        None
    }
}

fn fixed3(input: &[u8], a: char, b: char, c: char, code: AnsiCode) -> (r: Option<
    (usize, AnsiCode),
>)
    requires
        (a as u32) < 128,
        (b as u32) < 128,
        (c as u32) < 128,
    ensures
        matched(r) == grammar::fixed3(input@, a, b, c, code),
{
    if at(input, 0, a) && at(input, 1, b) && at(input, 2, c) {
        Some((3, code))
    } else {
        None
    }
}

fn private1(input: &[u8], d: char, end: char, code: AnsiCode) -> (r: Option<(usize, AnsiCode)>)
    requires
        (d as u32) < 128,
        (end as u32) < 128,
    ensures
        matched(r) == grammar::private1(input@, d, end, code),
{
    if at(input, 0, '[') && at(input, 1, '?') && at(input, 2, d) && at(input, 3, end) {
        Some((4, code))
    } else {
        None
    }
}

fn private2(input: &[u8], d1: char, d2: char, end: char, code: AnsiCode) -> (r: Option<
    (usize, AnsiCode),
>)
    requires
        (d1 as u32) < 128,
        (d2 as u32) < 128,
        (end as u32) < 128,
    ensures
        matched(r) == grammar::private2(input@, d1, d2, end, code),
{
    if at(input, 0, '[') && at(input, 1, '?') && at(input, 2, d1) && at(input, 3, d2) && at(
        input,
        4,
        end,
    ) {
        Some((5, code))
    } else {
        None
    }
}

fn bracketed_paste(input: &[u8], end: char, code: AnsiCode) -> (r: Option<(usize, AnsiCode)>)
    requires
        (end as u32) < 128,
    ensures
        matched(r) == grammar::bracketed_paste(input@, end, code),
{
    if at(input, 0, '[') && at(input, 1, '?') && at(input, 2, '2') && at(input, 3, '0') && at(
        input,
        4,
        '0',
    ) && at(input, 5, '4') && at(input, 6, end) {
        Some((7, code))
    } else {
        None
    }
}

fn line_mode(input: &[u8], end: char, code: AnsiCode) -> (r: Option<(usize, AnsiCode)>)
    requires
        (end as u32) < 128,
    ensures
        matched(r) == grammar::line_mode(input@, end, code),
{
    if at(input, 0, '[') && at(input, 1, '2') && at(input, 2, '0') && at(input, 3, end) {
        Some((4, code))
    } else {
        None
    }
}

fn cursor_pos(input: &[u8]) -> (r: Option<(usize, AnsiCode)>)
    ensures
        matched(r) == grammar::cursor_pos(input@),
{
    if !at(input, 0, '[') {
        return None;
    }
    let (row_end, row) = parse_def_cursor_int(input, 1);
    let col_start = if at(input, row_end, ';') {
        row_end + 1
    } else {
        row_end
    };
    let (col_end, col) = parse_def_cursor_int(input, col_start);
    if at(input, col_end, 'H') || at(input, col_end, 'f') {
        Some((col_end + 1, AnsiCode::CursorPos(row, col)))
    } else {
        None
    }
}

/// The amount of a relative cursor move that ends in `letter`, and the
/// length of its body.
fn cursor_move(input: &[u8], letter: char) -> (r: Option<(usize, u32)>)
    requires
        (letter as u32) < 128,
    ensures
        r is Some <==> grammar::cursor_move(input@, letter) is Some,
        r matches Some((len, n)) ==> grammar::cursor_move(input@, letter) == Some((n, len as int)),
{
    if !at(input, 0, '[') {
        return None;
    }
    let (end, amount) = parse_def_cursor_int(input, 1);
    if at(input, end, letter) {
        Some((end + 1, amount))
    } else {
        None
    }
}

fn cursor_up(input: &[u8]) -> (r: Option<(usize, AnsiCode)>)
    ensures
        matched(r) == grammar::cursor_up(input@),
{
    match cursor_move(input, 'A') {
        Some((len, amount)) => Some((len, AnsiCode::CursorUp(amount))),
        None => None,
    }
}

fn cursor_down(input: &[u8]) -> (r: Option<(usize, AnsiCode)>)
    ensures
        matched(r) == grammar::cursor_down(input@),
{
    match cursor_move(input, 'B') {
        Some((len, amount)) => Some((len, AnsiCode::CursorDown(amount))),
        None => None,
    }
}

fn cursor_forward(input: &[u8]) -> (r: Option<(usize, AnsiCode)>)
    ensures
        matched(r) == grammar::cursor_forward(input@),
{
    match cursor_move(input, 'C') {
        Some((len, amount)) => Some((len, AnsiCode::CursorForward(amount))),
        None => None,
    }
}

fn cursor_backward(input: &[u8]) -> (r: Option<(usize, AnsiCode)>)
    ensures
        matched(r) == grammar::cursor_backward(input@),
{
    match cursor_move(input, 'D') {
        Some((len, amount)) => Some((len, AnsiCode::CursorBackward(amount))),
        None => None,
    }
}

/// A graphics-rendition list of one to five parameters.
fn graphics_mode(input: &[u8]) -> (r: Option<(usize, AnsiCode)>)
    ensures
        matched(r) == grammar::graphics_mode(input@),
{
    if !at(input, 0, '[') {
        return None;
    }
    let mut params: [u8; 5] = [0, 0, 0, 0, 0];
    let mut count: usize = 0;
    let mut from: usize = 1;
    let ghost mut seen: Seq<u8> = Seq::empty();
    while count < 5
        invariant
            count <= 5,
            from <= input@.len(),
            seen.len() == count,
            forall|k: int| 0 <= k < 5 ==> #[trigger] params@[k] == grammar::slot(seen, k),
            grammar::graphics_mode(input@) == grammar::rendition_from(input@, from as int, seen),
        decreases 5 - count,
    {
        let (end, value) = match parse_u8(input, from) {
            Some(number) => number,
            None => {
                return None;
            },
        };
        let ghost before = params@;
        params[count] = value;
        proof {
            assert(params@ == before.update(count as int, value));
            assert forall|k: int| 0 <= k < 5 implies #[trigger] params@[k] == grammar::slot(
                seen.push(value),
                k,
            ) by {
                assert(before[k] == grammar::slot(seen, k));
            }
            seen = seen.push(value);
        }
        count += 1;
        if at(input, end, 'm') {
            assert(params =~= [
                grammar::slot(seen, 0),
                grammar::slot(seen, 1),
                grammar::slot(seen, 2),
                grammar::slot(seen, 3),
                grammar::slot(seen, 4),
            ]);
            return Some((end + 1, AnsiCode::SetGraphicsMode(count as u8, params)));
        }
        if !at(input, end, ';') {
            return None;
        }
        from = end + 1;
    }
    None
}

/// The number of the mode that a body ending in `letter` sets or resets, and
/// the length of that body.
fn mode(input: &[u8], letter: char) -> (r: Option<(usize, u8)>)
    requires
        (letter as u32) < 128,
    ensures
        r is Some <==> grammar::mode(input@, letter) is Some,
        r matches Some((len, n)) ==> grammar::mode(input@, letter) == Some((n, len as int)),
{
    if !(at(input, 0, '[') && at(input, 1, '=')) {
        return None;
    }
    match parse_u8(input, 2) {
        Some((end, n)) => {
            if at(input, end, letter) {
                Some((end + 1, n))
            } else {
                None
            }
        },
        None => None,
    }
}

fn set_mode(input: &[u8]) -> (r: Option<(usize, AnsiCode)>)
    ensures
        matched(r) == grammar::set_mode(input@),
{
    match mode(input, 'h') {
        Some((len, n)) => Some((len, AnsiCode::SetMode(n))),
        None => None,
    }
}

fn reset_mode(input: &[u8]) -> (r: Option<(usize, AnsiCode)>)
    ensures
        matched(r) == grammar::reset_mode(input@),
{
    match mode(input, 'l') {
        Some((len, n)) => Some((len, AnsiCode::ResetMode(n))),
        None => None,
    }
}

fn set_top_and_bottom(input: &[u8]) -> (r: Option<(usize, AnsiCode)>)
    ensures
        matched(r) == grammar::set_top_and_bottom(input@),
{
    if !at(input, 0, '[') {
        return None;
    }
    let (top_end, top) = match parse_u32(input, 1) {
        Some(number) => number,
        None => {
            return None;
        },
    };
    if !at(input, top_end, ';') {
        return None;
    }
    let (bottom_end, bottom) = match parse_u32(input, top_end + 1) {
        Some(number) => number,
        None => {
            return None;
        },
    };
    if at(input, bottom_end, 'r') {
        Some((bottom_end + 1, AnsiCode::SetTopAndBottom(top, bottom)))
    } else {
        None
    }
}

/// Tries rule number `i` of the grammar on `input`.
fn rule(i: usize, input: &[u8]) -> (r: Option<(usize, AnsiCode)>)
    ensures
        matched(r) == grammar::rule(i as int, input@),
{
    match i {
        0 => fixed1(input, '\x1b', AnsiCode::Escape),
        1 => cursor_pos(input),
        2 => cursor_up(input),
        3 => cursor_down(input),
        4 => cursor_forward(input),
        5 => cursor_backward(input),
        6 => fixed2(input, '[', 's', AnsiCode::CursorSave),
        7 => fixed2(input, '[', 'u', AnsiCode::CursorRestore),
        8 => fixed3(input, '[', '2', 'J', AnsiCode::EraseAllDisplay),
        9 => fixed2(input, '[', 'J', AnsiCode::EraseDisplay),
        10 => fixed2(input, '[', 'K', AnsiCode::EraseLine),
        11 => graphics_mode(input),
        12 => set_mode(input),
        13 => reset_mode(input),
        14 => private2(input, '2', '5', 'l', AnsiCode::HideCursor),
        15 => private2(input, '2', '5', 'h', AnsiCode::ShowCursor),
        16 => private1(input, '1', 'h', AnsiCode::CursorToApp),
        17 => line_mode(input, 'h', AnsiCode::SetNewLineMode),
        18 => private1(input, '3', 'h', AnsiCode::SetCol132),
        19 => private1(input, '4', 'h', AnsiCode::SetSmoothScroll),
        20 => private1(input, '5', 'h', AnsiCode::SetReverseVideo),
        21 => private1(input, '7', 'h', AnsiCode::SetAutoWrap),
        22 => private1(input, '6', 'h', AnsiCode::SetOriginRelative),
        23 => private1(input, '8', 'h', AnsiCode::SetAutoRepeat),
        24 => private1(input, '9', 'h', AnsiCode::SetInterlacing),
        25 => line_mode(input, 'l', AnsiCode::SetLineFeedMode),
        26 => private1(input, '1', 'l', AnsiCode::SetCursorKeyToCursor),
        27 => private1(input, '2', 'l', AnsiCode::SetVT52),
        28 => private1(input, '3', 'l', AnsiCode::SetCol80),
        29 => private1(input, '4', 'l', AnsiCode::SetJumpScrolling),
        30 => private1(input, '5', 'l', AnsiCode::SetNormalVideo),
        31 => private1(input, '6', 'l', AnsiCode::SetOriginAbsolute),
        32 => private1(input, '7', 'l', AnsiCode::ResetAutoWrap),
        33 => private1(input, '8', 'l', AnsiCode::ResetAutoRepeat),
        34 => private1(input, '9', 'l', AnsiCode::ResetInterlacing),
        35 => set_top_and_bottom(input),
        36 => fixed1(input, '=', AnsiCode::SetAlternateKeypad),
        37 => fixed1(input, '>', AnsiCode::SetNumericKeypad),
        38 => fixed2(input, '(', 'A', AnsiCode::SetUKG0),
        39 => fixed2(input, ')', 'A', AnsiCode::SetUKG1),
        40 => fixed2(input, '(', 'B', AnsiCode::SetUSG0),
        41 => fixed2(input, ')', 'B', AnsiCode::SetUSG1),
        42 => fixed2(input, '(', '0', AnsiCode::SetG0SpecialChars),
        43 => fixed2(input, ')', '0', AnsiCode::SetG1SpecialChars),
        44 => fixed2(input, '(', '1', AnsiCode::SetG0AlternateChar),
        45 => fixed2(input, ')', '1', AnsiCode::SetG1AlternateChar),
        46 => fixed2(input, '(', '2', AnsiCode::SetG0AltAndSpecialGraph),
        47 => fixed2(input, ')', '2', AnsiCode::SetG1AltAndSpecialGraph),
        48 => fixed1(input, 'N', AnsiCode::SetSingleShift2),
        49 => fixed1(input, 'O', AnsiCode::SetSingleShift3),
        50 => bracketed_paste(input, 'h', AnsiCode::EnableBracketedPaste),
        51 => bracketed_paste(input, 'l', AnsiCode::DisableBracketedPaste),
        52 => private2(input, '1', '2', 'h', AnsiCode::EnableCursorBlink),
        53 => private2(input, '1', '2', 'l', AnsiCode::DisableCursorBlink),
        54 => fixed2(input, '[', 'm', AnsiCode::CursorResetStyle),
        _ => None,
    }
}

/// What a parser hands back on `input` where the grammar gives `m`: the
/// input after the match, and the code.
pub open spec fn parsed(input: Seq<u8>, m: Option<Match>) -> Option<(Seq<u8>, AnsiCode)> {
    match m {
        Some(m) => Some((input.skip(m.len), m.code)),
        None => None,
    }
}

/// A parser's result with the rest of the input as a sequence.
pub open spec fn result_view(r: Option<(&[u8], AnsiCode)>) -> Option<(Seq<u8>, AnsiCode)> {
    match r {
        Some((rest, code)) => Some((rest@, code)),
        None => None,
    }
}

/// Decodes the body of an escape sequence at the front of `input`: the bytes
/// that follow the ESC. Returns the input after the body and the code, or
/// `None` where no rule of the grammar matches.
pub fn body(input: &[u8]) -> (r: Option<(&[u8], AnsiCode)>)
    ensures
        result_view(r) == parsed(input@, grammar::body(input@)),
{
    let mut i: usize = 0;
    while i < RULES
        invariant
            i <= RULES,
            grammar::body(input@) == grammar::first_match(input@, i as int),
        decreases RULES - i,
    {
        match rule(i, input) {
            Some((len, code)) => {
                proof {
                    grammar::lemma_rule_len(i as int, input@);
                }
                return Some((slice_subrange(input, len, input.len()), code));
            },
            None => {},
        }
        i += 1;
    }
    None
}

/// Decodes the escape sequence at the front of `input`: ESC and a body.
/// Returns the input after the sequence and the code, or `None` where
/// `input` does not start with a sequence of the grammar.
pub fn ansi_parse(input: &[u8]) -> (r: Option<(&[u8], AnsiCode)>)
    ensures
        result_view(r) == parsed(input@, grammar::ansi_parse(input@)),
{
    if input.len() == 0 || input[0] != ESC {
        return None;
    }
    let r = body(slice_subrange(input, 1, input.len()));
    proof {
        grammar::lemma_first_match_len(input@.skip(1), 0);
        if let Some(m) = grammar::body(input@.skip(1)) {
            assert(input@.skip(1).skip(m.len) =~= input@.skip(m.len + 1));
        }
    }
    r
}

impl<'a> AnsiParser<'a> {
    /// A lexer at the start of `slice`.
    pub fn new(slice: &'a [u8]) -> (parser: Self)
        ensures
            parser@ == slice@,
    {
        Self { slice }
    }

    /// Hands out the next token and moves past it; `None` once the chunk is
    /// used up.
    pub fn next(&mut self) -> (r: Option<Output<'a>>)
        ensures
            old(self)@.len() == 0 ==> r is None && final(self)@ == old(self)@,
            old(self)@.len() > 0 ==> {
                &&& r matches Some(output)
                &&& output@ == grammar::next_token(old(self)@).0
                &&& final(self)@ == old(self)@.skip(grammar::next_token(old(self)@).1)
            },
    {
        let input = self.slice;
        if input.len() == 0 {
            return None;
        }
        let text_end = find_esc(input, 0);
        if text_end > 0 {
            self.slice = slice_subrange(input, text_end, input.len());
            return Some(Output::Bytes(slice_subrange(input, 0, text_end)));
        }
        match ansi_parse(input) {
            Some((rest, code)) => {
                self.slice = rest;
                Some(Output::Escape(code))
            },
            None => {
                let end = find_esc(input, 1);
                self.slice = slice_subrange(input, end, input.len());
                Some(Output::Bytes(slice_subrange(input, 0, end)))
            },
        }
    }
}

} // verus!
