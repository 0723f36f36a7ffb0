//! Laws of the engine: what holds of every input.
use crate::ansi::AnsiCode;
use crate::brush::BrushView;
use crate::grammar::{
    ansi_parse, at, body, decimal, digits_end, find_esc, first_match, is_digit, lemma_digits_end,
    lemma_find_esc, lemma_first_match_len, number_u8, rendition_from, rule, tokens, Token, ESC,
    RULES,
};
use crate::grid::{painted, Cell};
use crate::screen::StateView;
use vstd::prelude::*;
use vstd::utf8::{decode_utf8, valid_utf8};

verus! {

/// Text without an ESC is one literal token: for every non-empty input that
/// holds no ESC, the lexer yields exactly one token, the whole input as
/// literal bytes.
pub proof fn lemma_plain_text_is_one_token(s: Seq<u8>)
    requires
        s.len() > 0,
        forall|i: int| 0 <= i < s.len() ==> s[i] != ESC,
    ensures
        tokens(s) == seq![Token::Bytes(s)],
{
    lemma_find_esc(s, 0);
    assert(find_esc(s, 0) == s.len());
    assert(s.take(s.len() as int) =~= s);
    assert(s.skip(s.len() as int) =~= Seq::<u8>::empty());
    assert(tokens(s.skip(s.len() as int)) =~= Seq::<Token>::empty());
    assert(tokens(s) =~= seq![Token::Bytes(s)]);
}

/// An empty input has no tokens.
pub proof fn lemma_empty_input_has_no_token()
    ensures
        tokens(Seq::<u8>::empty()) == Seq::<Token>::empty(),
{
}

/// A character that the literal-byte handler paints: any but line feed,
/// carriage return, tab, backspace and ESC.
pub open spec fn printable(c: char) -> bool {
    c != '\n' && c != '\r' && c != '\t' && c != '\x08' && c != '\x1b'
}

/// A painted cell is there afterwards: the grid has the row, the row has
/// the column, and the cell at that position is the one that was painted.
pub proof fn lemma_painted_cell_is_there(grid: Seq<Seq<Cell>>, x: int, y: int, cell: Cell)
    requires
        x >= 1,
        y >= 1,
    ensures
        painted(grid, x, y, cell).len() >= y,
        painted(grid, x, y, cell).len() >= grid.len(),
        painted(grid, x, y, cell)[y - 1].len() >= x,
        painted(grid, x, y, cell)[y - 1][x - 1] == cell,
{
}

/// Painting leaves every other cell of the painted row as it was.
pub proof fn lemma_painted_keeps_row(grid: Seq<Seq<Cell>>, x: int, y: int, cell: Cell, i: int)
    requires
        x >= 1,
        1 <= y <= grid.len(),
        0 <= i < grid[y - 1].len(),
        i != x - 1,
    ensures
        painted(grid, x, y, cell)[y - 1][i] == grid[y - 1][i],
{
}

/// Printable text lands in the brush's row, in order: after a text of `n`
/// printable characters is written with the brush at column `c` of row `r`,
/// the grid has row `r`, that row holds the text's characters at the columns
/// `c` to `c + n - 1` in the brush's colours, and the brush stands behind
/// them at column `c + n` of row `r`. With the brush at the top-left cell,
/// row 1 holds the text at the columns 1 to `n`.
pub proof fn lemma_text_fills_row(s: StateView, text: Seq<char>)
    requires
        s.brush.on_grid(),
        forall|i: int| 0 <= i < text.len() ==> printable(#[trigger] text[i]),
    ensures
        s.put_text(text).brush == (BrushView { col: s.brush.col + text.len(), ..s.brush }),
        s.put_text(text).grid.len() >= s.grid.len(),
        text.len() > 0 ==> s.put_text(text).grid.len() >= s.brush.row,
        text.len() > 0 ==> s.put_text(text).grid[s.brush.row - 1].len() >= s.brush.col + text.len()
            - 1,
        forall|i: int|
            0 <= i < text.len() ==> #[trigger] s.put_text(text).grid[s.brush.row - 1][s.brush.col
                - 1 + i] == s.brush.cell(text[i]),
    decreases text.len(),
{
    if text.len() > 0 {
        let n = text.len() as int;
        let head = text.drop_last();
        let before = s.put_text(head);
        lemma_text_fills_row(s, head);
        let x = s.brush.col + n - 1;
        let y = s.brush.row;
        let cell = s.brush.cell(text.last());
        assert(printable(text[n - 1]));
        assert(s.put_text(text).grid == painted(before.grid, x, y, cell));
        lemma_painted_cell_is_there(before.grid, x, y, cell);
        assert forall|i: int| 0 <= i < n implies #[trigger] s.put_text(text).grid[y - 1][s.brush.col
            - 1 + i] == s.brush.cell(text[i]) by {
            if i < n - 1 {
                assert(head[i] == text[i]);
                assert(before.grid[y - 1][s.brush.col - 1 + i] == s.brush.cell(head[i]));
                lemma_painted_keeps_row(before.grid, x, y, cell, s.brush.col - 1 + i);
            }
        }
    }
}

/// Whether a state is as the engine keeps it: the brush stands on the grid,
/// and the brush and every cell hold their colours as sRGB triples, never as
/// palette indices.
pub open spec fn sound(s: StateView) -> bool {
    &&& s.brush.on_grid()
    &&& s.brush.fg.is_rgb()
    &&& s.brush.bg.is_rgb()
    &&& forall|j: int, i: int|
        0 <= j < s.grid.len() && 0 <= i < s.grid[j].len() ==> (#[trigger] s.grid[j][i]).fg_color.is_rgb()
            && s.grid[j][i].bg_color.is_rgb()
}

/// The state at the start of a session is sound.
pub proof fn lemma_initial_state_is_sound()
    ensures
        sound(StateView::initial()),
{
}

/// A character of a literal span keeps the state sound, removes no row, and
/// moves the brush neither up nor by more than four columns or one row.
pub proof fn lemma_char_keeps_state_sound(s: StateView, c: char)
    requires
        sound(s),
    ensures
        sound(s.put_char(c)),
        s.put_char(c).grid.len() >= s.grid.len(),
        s.put_char(c).brush.row >= s.brush.row,
        s.put_char(c).brush.row <= s.brush.row + 1,
        s.put_char(c).brush.col <= s.brush.col + 4,
{
    let t = s.put_char(c);
    if printable(c) {
        assert forall|j: int, i: int| 0 <= j < t.grid.len() && 0 <= i < t.grid[j].len() implies (
        #[trigger] t.grid[j][i]).fg_color.is_rgb() && t.grid[j][i].bg_color.is_rgb() by {
            if j < s.grid.len() && i < s.grid[j].len() {
                assert(s.grid[j][i].fg_color.is_rgb());
            }
        }
    }
}

/// A literal text keeps the state sound, removes no row, and moves the
/// brush neither up nor by more than four columns or one row for each of its
/// characters.
pub proof fn lemma_text_keeps_state_sound(s: StateView, text: Seq<char>)
    requires
        sound(s),
    ensures
        sound(s.put_text(text)),
        s.put_text(text).grid.len() >= s.grid.len(),
        s.put_text(text).brush.row >= s.brush.row,
        s.put_text(text).brush.row <= s.brush.row + text.len(),
        s.put_text(text).brush.col <= s.brush.col + 4 * text.len(),
    decreases text.len(),
{
    if text.len() > 0 {
        lemma_text_keeps_state_sound(s, text.drop_last());
        lemma_char_keeps_state_sound(s.put_text(text.drop_last()), text.last());
    }
}

/// An escape code keeps the state sound, removes no row and leaves the
/// brush where it is.
pub proof fn lemma_code_keeps_state_sound(s: StateView, code: AnsiCode)
    requires
        sound(s),
    ensures
        sound(s.apply_code(code)),
        s.apply_code(code).grid.len() >= s.grid.len(),
        s.apply_code(code).brush.col == s.brush.col,
        s.apply_code(code).brush.row == s.brush.row,
{
    let t = s.apply_code(code);
    assert forall|j: int, i: int| 0 <= j < t.grid.len() && 0 <= i < t.grid[j].len() implies (
    #[trigger] t.grid[j][i]).fg_color.is_rgb() && t.grid[j][i].bg_color.is_rgb() by {
        if j < s.grid.len() && i < s.grid[j].len() {
            assert(s.grid[j][i].fg_color.is_rgb());
        }
    }
}

/// Every state that the engine reaches is sound, and the grid never loses a
/// row: whatever tokens are applied to a sound state, the brush still stands
/// on the grid, every colour is still an sRGB triple, and the grid has at
/// least the rows it had.
pub proof fn lemma_tokens_keep_state_sound(s: StateView, tokens: Seq<Token>)
    requires
        sound(s),
    ensures
        sound(s.apply_tokens(tokens)),
        s.apply_tokens(tokens).grid.len() >= s.grid.len(),
        s.apply_tokens(tokens).brush.row >= s.brush.row,
    decreases tokens.len(),
{
    if tokens.len() > 0 {
        lemma_tokens_keep_state_sound(s, tokens.drop_last());
        let before = s.apply_tokens(tokens.drop_last());
        match tokens.last() {
            Token::Bytes(bytes) => {
                if valid_utf8(bytes) {
                    lemma_text_keeps_state_sound(before, decode_utf8(bytes));
                }
            },
            Token::Escape(code) => {
                lemma_code_keeps_state_sound(before, code);
            },
        }
    }
}

/// An ASCII letter. Every body that starts with `[` ends in one.
pub open spec fn is_letter(b: u8) -> bool {
    0x41 <= b <= 0x5a || 0x61 <= b <= 0x7a
}

/// Whether the first `n` bytes of `b` are laid out as a body is: a body that
/// starts with `[` ends at its first letter and holds no ESC, one that
/// starts with a parenthesis has one more byte, which is no ESC, and any
/// other is a single byte.
pub open spec fn body_shape(b: Seq<u8>, n: int) -> bool {
    &&& 1 <= n <= b.len()
    &&& if b[0] == 0x5b {
        &&& n >= 2
        &&& is_letter(b[n - 1])
        &&& forall|j: int| 1 <= j < n - 1 ==> !is_letter(#[trigger] b[j]) && b[j] != ESC
    } else if b[0] == 0x28 || b[0] == 0x29 {
        n == 2 && b[1] != ESC
    } else {
        n == 1
    }
}

/// At most one length has the layout of a body.
pub proof fn lemma_shape_unique(b: Seq<u8>, n: int, m: int)
    requires
        body_shape(b, n),
        body_shape(b, m),
    ensures
        n == m,
{
    if b[0] == 0x5b {
        if n < m {
            assert(!is_letter(b[n - 1]));
        } else if m < n {
            assert(!is_letter(b[m - 1]));
        }
    }
}

/// A digit run that ends before the end of `p` is the same in every input
/// that `p` is the front of.
pub proof fn lemma_digits_stable(p: Seq<u8>, s: Seq<u8>, from: int)
    requires
        p.len() <= s.len(),
        p == s.take(p.len() as int),
        0 <= from <= p.len(),
        digits_end(p, from) < p.len(),
    ensures
        digits_end(s, from) == digits_end(p, from),
    decreases p.len() - from,
{
    if from < p.len() {
        assert(p[from] == s[from]);
        if is_digit(p[from]) {
            lemma_digits_stable(p, s, from + 1);
        }
    }
}

/// The number that digits write is the same in every input that holds them.
pub proof fn lemma_decimal_stable(p: Seq<u8>, s: Seq<u8>, from: int, to: int)
    requires
        p.len() <= s.len(),
        p == s.take(p.len() as int),
        0 <= from,
        to <= p.len(),
    ensures
        decimal(s, from, to) == decimal(p, from, to),
    decreases to - from,
{
    if to > from {
        assert(p[to - 1] == s[to - 1]);
        lemma_decimal_stable(p, s, from, to - 1);
    }
}

/// A graphics-rendition list that matches ends in `m`, and holds neither a
/// letter nor an ESC before that.
pub proof fn lemma_rendition_shape(s: Seq<u8>, from: int, seen: Seq<u8>)
    requires
        0 <= from <= s.len(),
    ensures
        rendition_from(s, from, seen) matches Some(m) ==> {
            &&& from < m.len <= s.len()
            &&& s[m.len - 1] == 0x6d
            &&& forall|j: int| from <= j < m.len - 1 ==> !is_letter(#[trigger] s[j]) && s[j] != ESC
        },
    decreases 5 - seen.len(),
{
    lemma_digits_end(s, from);
    let end = digits_end(s, from);
    if seen.len() < 5 && end > from && !at(s, end, 'm') && at(s, end, ';') {
        lemma_rendition_shape(s, end + 1, seen.push(number_u8(s, from, end)));
    }
}

/// A graphics-rendition list that matches in `p` matches in the same way in
/// every input that `p` is the front of.
pub proof fn lemma_rendition_stable(p: Seq<u8>, s: Seq<u8>, from: int, seen: Seq<u8>)
    requires
        p.len() <= s.len(),
        p == s.take(p.len() as int),
        0 <= from <= p.len(),
        rendition_from(p, from, seen) is Some,
    ensures
        rendition_from(s, from, seen) == rendition_from(p, from, seen),
    decreases 5 - seen.len(),
{
    lemma_digits_end(p, from);
    let end = digits_end(p, from);
    assert(end < p.len());
    assert(p[end] == s[end]);
    lemma_digits_stable(p, s, from);
    lemma_decimal_stable(p, s, from, end);
    if !at(p, end, 'm') {
        lemma_rendition_stable(p, s, end + 1, seen.push(number_u8(p, from, end)));
    }
}

/// What a rule matches is laid out as a body is.
pub proof fn lemma_rule_shape(i: int, b: Seq<u8>)
    ensures
        rule(i, b) matches Some(m) ==> body_shape(b, m.len),
{
    if b.len() >= 1 {
        lemma_digits_end(b, 1);
        let first_end = digits_end(b, 1);
        if at(b, first_end, ';') {
            lemma_digits_end(b, first_end + 1);
        } else {
            lemma_digits_end(b, first_end);
        }
        lemma_rendition_shape(b, 1, Seq::empty());
    }
    if b.len() >= 2 {
        lemma_digits_end(b, 2);
    }
}

/// A rule that matches in `p` matches in the same way in every input that
/// `p` is the front of.
pub proof fn lemma_rule_stable(i: int, p: Seq<u8>, s: Seq<u8>)
    requires
        p.len() <= s.len(),
        p == s.take(p.len() as int),
        rule(i, p) is Some,
    ensures
        rule(i, s) == rule(i, p),
{
    assert(forall|j: int| 0 <= j < p.len() ==> p[j] == s[j]);
    if p.len() >= 1 {
        lemma_digits_end(p, 1);
        let first_end = digits_end(p, 1);
        if first_end < p.len() {
            lemma_digits_stable(p, s, 1);
            lemma_decimal_stable(p, s, 1, first_end);
            let second = if at(p, first_end, ';') {
                first_end + 1
            } else {
                first_end
            };
            lemma_digits_end(p, second);
            let second_end = digits_end(p, second);
            if second_end < p.len() {
                lemma_digits_stable(p, s, second);
                lemma_decimal_stable(p, s, second, second_end);
            }
        }
        if i == 11 {
            lemma_rendition_stable(p, s, 1, Seq::empty());
        }
    }
    if p.len() >= 2 {
        lemma_digits_end(p, 2);
        let end = digits_end(p, 2);
        if end < p.len() {
            lemma_digits_stable(p, s, 2);
            lemma_decimal_stable(p, s, 2, end);
        }
    }
}

/// No input is matched by two rules: the order of the rules decides
/// nothing.
pub proof fn lemma_rules_exclude_each_other(i: int, j: int, s: Seq<u8>)
    requires
        rule(i, s) is Some,
        rule(j, s) is Some,
    ensures
        i == j,
{
    lemma_rule_shape(i, s);
    lemma_rule_shape(j, s);
    lemma_shape_unique(s, rule(i, s)->0.len, rule(j, s)->0.len);
    if s.len() >= 1 {
        lemma_digits_end(s, 1);
        let first_end = digits_end(s, 1);
        if at(s, first_end, ';') {
            lemma_digits_end(s, first_end + 1);
        } else {
            lemma_digits_end(s, first_end);
        }
        lemma_rendition_shape(s, 1, Seq::empty());
    }
    if s.len() >= 2 {
        lemma_digits_end(s, 2);
    }
}

/// Where some rule from number `i` on matches, the number of the rule that
/// decides.
pub proof fn lemma_deciding_rule(s: Seq<u8>, i: int) -> (k: int)
    requires
        first_match(s, i) is Some,
    ensures
        0 <= k < RULES,
        i <= k,
        rule(k, s) == first_match(s, i),
    decreases RULES - i,
{
    if rule(i, s) is Some {
        i
    } else {
        lemma_deciding_rule(s, i + 1)
    }
}

/// A rule that matches decides: the body of an input is what any rule that
/// matches it makes of it.
pub proof fn lemma_matching_rule_decides(k: int, s: Seq<u8>)
    requires
        0 <= k < RULES,
        rule(k, s) is Some,
    ensures
        body(s) == rule(k, s),
{
    lemma_some_rule_matches(s, 0, k);
    let first = lemma_deciding_rule(s, 0);
    lemma_rules_exclude_each_other(first, k, s);
}

/// Where rule number `k` matches, some rule from number `i` on does, for
/// every `i` up to `k`.
pub proof fn lemma_some_rule_matches(s: Seq<u8>, i: int, k: int)
    requires
        0 <= i <= k < RULES,
        rule(k, s) is Some,
    ensures
        first_match(s, i) is Some,
    decreases k - i,
{
    if i < k && rule(i, s) is None {
        lemma_some_rule_matches(s, i + 1, k);
    }
}

/// A body is laid out as [`body_shape`] says.
pub proof fn lemma_body_shape(b: Seq<u8>)
    ensures
        body(b) matches Some(m) ==> body_shape(b, m.len),
{
    if body(b) is Some {
        let k = lemma_deciding_rule(b, 0);
        lemma_rule_shape(k, b);
    }
}

/// No body is the front of a longer body: where the grammar has a body for
/// `b`, it has none for the first `n` bytes of `b` if that body needs more
/// of them.
pub proof fn lemma_no_body_in_front_of_a_body(b: Seq<u8>, n: int)
    requires
        body(b) matches Some(m) && n < m.len,
        0 <= n,
    ensures
        body(b.take(n)) is None,
{
    let p = b.take(n);
    lemma_first_match_len(b, 0);
    if body(p) is Some {
        let whole = lemma_deciding_rule(b, 0);
        let part = lemma_deciding_rule(p, 0);
        lemma_first_match_len(p, 0);
        assert(p == b.take(p.len() as int));
        lemma_rule_stable(part, p, b);
        lemma_rule_shape(part, b);
        lemma_rule_shape(whole, b);
        lemma_shape_unique(b, rule(part, b)->0.len, rule(whole, b)->0.len);
    }
}

/// An escape sequence that the end of a chunk cuts in two is not decoded:
/// where `s` is exactly one escape sequence of the grammar and is cut after
/// its first `k` bytes, the lexer yields the first part as one literal token
/// and, in the next chunk, the second part as one literal token. No code
/// comes out of either part.
pub proof fn lemma_split_sequence_is_literal(s: Seq<u8>, k: int)
    requires
        ansi_parse(s) matches Some(m) && m.len == s.len(),
        0 < k < s.len(),
    ensures
        tokens(s.take(k)) == seq![Token::Bytes(s.take(k))],
        tokens(s.skip(k)) == seq![Token::Bytes(s.skip(k))],
{
    let b = s.skip(1);
    let first = s.take(k);
    let second = s.skip(k);
    lemma_body_shape(b);
    assert(body_shape(b, b.len() as int));
    // The first part starts with the ESC and holds no body.
    assert(first.skip(1) =~= b.take(k - 1));
    lemma_no_body_in_front_of_a_body(b, k - 1);
    assert(ansi_parse(first) is None);
    assert forall|j: int| 1 <= j < first.len() implies first[j] != ESC by {
        assert(first[j] == b[j - 1]);
    }
    lemma_find_esc(first, 1);
    assert(find_esc(first, 1) == k);
    assert(first.take(k) =~= first);
    assert(first.skip(k) =~= Seq::<u8>::empty());
    assert(tokens(first.skip(k)) =~= Seq::<Token>::empty());
    assert(tokens(first) =~= seq![Token::Bytes(first)]);
    // The second part holds no ESC, or is a lone ESC.
    if b[0] == ESC {
        assert(second =~= seq![ESC]);
        lemma_first_match_len(second.skip(1), 0);
        assert(ansi_parse(second) is None);
        lemma_find_esc(second, 1);
        assert(second.take(1) =~= second);
        assert(second.skip(1) =~= Seq::<u8>::empty());
        assert(tokens(second.skip(1)) =~= Seq::<Token>::empty());
        assert(tokens(second) =~= seq![Token::Bytes(second)]);
    } else {
        assert forall|j: int| 0 <= j < second.len() implies second[j] != ESC by {
            assert(second[j] == b[k - 1 + j]);
        }
        lemma_plain_text_is_one_token(second);
    }
}

} // verus!
