//! The terminal state machine.
//!
//! A [`Screen`] owns the grid and the brush and changes them one token at a
//! time. What each token does is given on [`StateView`], the mathematical
//! picture of the state: a grid of cells and a brush with integer
//! coordinates.
use crate::ansi;
use crate::ansi::AnsiCode;
use crate::brush::{Brush, BrushView};
use crate::color::{default_bg, default_fg, palette_rgb, rgb_from_ansi256};
use crate::grammar::Token;
use crate::grid::{
    display_erased, line_erased, painted, rows_view, Cell, Grid, GridRow, ROWS,
};
use crate::message::{payload_view, Message, MessageView};
use vstd::prelude::*;
use vstd::std_specs::convert::FromSpecImpl;
use vstd::utf8::{
    decode_utf8, encode_utf8, encode_utf8_decode_utf8, length_of_first_scalar, pop_first_scalar,
    valid_utf8,
};

verus! {

/// One result of the lexer that owns its bytes.
#[derive(Debug)]
pub enum Output {
    Ansi(AnsiCode),
    Bytes(Vec<u8>),
}

/// The grid and the brush.
#[derive(Debug)]
pub struct State {
    pub grid: Grid,
    pub brush: Brush,
}

/// The state as mathematics sees it.
pub struct StateView {
    pub grid: Seq<Seq<Cell>>,
    pub brush: BrushView,
}

/// A literal span that is not UTF-8. The span was dropped as a whole.
#[derive(Debug, Copy, Clone, PartialEq, Eq)]
pub struct InvalidUtf8;

impl View for Output {
    type V = Token;

    open spec fn view(&self) -> Token {
        match *self {
            Output::Ansi(code) => Token::Escape(code),
            Output::Bytes(bytes) => Token::Bytes(bytes@),
        }
    }
}

impl View for State {
    type V = StateView;

    open spec fn view(&self) -> StateView {
        StateView { grid: self.grid@, brush: self.brush@ }
    }
}

/// The tokens that a batch of outputs stands for.
pub open spec fn token_seq(outputs: Seq<Output>) -> Seq<Token> {
    Seq::new(outputs.len(), |i: int| outputs[i]@)
}

impl StateView {
    /// The state at the start of a session: nothing written, the brush at
    /// the top-left cell in the default colours.
    pub open spec fn initial() -> StateView {
        StateView {
            grid: Seq::empty(),
            brush: BrushView { col: 1, row: 1, fg: default_fg(), bg: default_bg() },
        }
    }

    /// This state after the character `c` of a literal span.
    ///
    /// A line feed moves the brush one row down and leaves its column. A
    /// carriage return moves it to column 1. A tab moves it four columns to
    /// the right. A backspace moves it one column to the left, but never past
    /// column 1. An ESC does nothing. Every other character is painted at the
    /// brush, which then moves one column to the right.
    pub open spec fn put_char(self, c: char) -> StateView {
        let brush = self.brush;
        if c == '\n' {
            StateView { brush: BrushView { row: brush.row + 1, ..brush }, ..self }
        } else if c == '\r' {
            StateView { brush: BrushView { col: 1, ..brush }, ..self }
        } else if c == '\t' {
            StateView { brush: BrushView { col: brush.col + 4, ..brush }, ..self }
        } else if c == '\x1b' {
            self
        } else if c == '\x08' {
            StateView {
                brush: BrushView { col: if brush.col > 1 { brush.col - 1 } else { 1 }, ..brush },
                ..self
            }
        } else {
            StateView {
                grid: painted(self.grid, brush.col, brush.row, brush.cell(c)),
                brush: BrushView { col: brush.col + 1, ..brush },
            }
        }
    }

    /// This state after the characters of `text`, one after the other.
    pub open spec fn put_text(self, text: Seq<char>) -> StateView
        decreases text.len(),
    {
        if text.len() == 0 {
            self
        } else {
            self.put_text(text.drop_last()).put_char(text.last())
        }
    }

    /// This state after the escape code `code`.
    ///
    /// Erase-line cuts the brush's row off at the brush. Erase-all-display
    /// blanks one viewport's worth of rows from the brush's row on. A
    /// graphics rendition changes the brush's colours. No other code changes
    /// anything.
    pub open spec fn apply_code(self, code: AnsiCode) -> StateView {
        match code {
            AnsiCode::EraseLine => StateView {
                grid: line_erased(self.grid, self.brush.col, self.brush.row),
                ..self
            },
            AnsiCode::EraseAllDisplay => StateView {
                grid: display_erased(self.grid, self.brush.row, ROWS as int),
                ..self
            },
            AnsiCode::SetGraphicsMode(count, params) => StateView {
                brush: self.brush.rendition(count, params@, palette_rgb(params[2])),
                ..self
            },
            _ => self,
        }
    }

    /// This state after the token `token`. A literal span that is not UTF-8
    /// changes nothing.
    pub open spec fn apply_token(self, token: Token) -> StateView {
        match token {
            Token::Bytes(bytes) => if valid_utf8(bytes) {
                self.put_text(decode_utf8(bytes))
            } else {
                self
            },
            Token::Escape(code) => self.apply_code(code),
        }
    }

    /// This state after the tokens `tokens`, one after the other.
    pub open spec fn apply_tokens(self, tokens: Seq<Token>) -> StateView
        decreases tokens.len(),
    {
        if tokens.len() == 0 {
            self
        } else {
            self.apply_tokens(tokens.drop_last()).apply_token(tokens.last())
        }
    }
}

/// How many literal spans among `tokens` are not UTF-8.
pub open spec fn undecodable(tokens: Seq<Token>) -> nat
    decreases tokens.len(),
{
    if tokens.len() == 0 {
        0
    } else {
        undecodable(tokens.drop_last()) + match tokens.last() {
            Token::Bytes(bytes) => if valid_utf8(bytes) {
                0nat
            } else {
                1nat
            },
            Token::Escape(_) => 0nat,
        }
    }
}

/// How many bytes the literal spans among `tokens` hold.
pub open spec fn literal_len(tokens: Seq<Token>) -> nat
    decreases tokens.len(),
{
    if tokens.len() == 0 {
        0
    } else {
        literal_len(tokens.drop_last()) + match tokens.last() {
            Token::Bytes(bytes) => bytes.len(),
            Token::Escape(_) => 0nat,
        }
    }
}

/// Whether a brush can take `n` more characters with both of its coordinates
/// staying machine integers: a character moves it by at most four columns or
/// by one row.
pub open spec fn text_fits(brush: BrushView, n: int) -> bool {
    &&& brush.col + 4 * n <= usize::MAX
    &&& brush.row + n <= usize::MAX
}

/// Whether the rows that an erase of the display blanks from a brush's row on
/// can all be counted in machine integers.
pub open spec fn erase_fits(brush: BrushView) -> bool {
    brush.row + ROWS - 1 <= usize::MAX
}

/// Whether a brush can take `n` more characters, and an erase of the display
/// after any of them.
pub open spec fn has_room(brush: BrushView, n: int) -> bool {
    &&& brush.col + 4 * n <= usize::MAX
    &&& brush.row + n + ROWS - 1 <= usize::MAX
}

/// The characters of one row.
pub open spec fn row_text(row: Seq<Cell>) -> Seq<char> {
    Seq::new(row.len(), |i: int| row[i].c)
}

/// The characters of all rows, each row followed by a line feed.
pub open spec fn grid_text(grid: Seq<Seq<Cell>>) -> Seq<char>
    decreases grid.len(),
{
    if grid.len() == 0 {
        Seq::empty()
    } else {
        grid_text(grid.drop_last()) + row_text(grid.last()).push('\n')
    }
}

/// The last `height` rows of `grid`, or all of them where there are fewer.
pub open spec fn last_rows(grid: Seq<Seq<Cell>>, height: int) -> Seq<Seq<Cell>> {
    if height > grid.len() {
        grid
    } else {
        grid.skip(grid.len() - height)
    }
}

/// Appends one character to a string.
///
/// Calls `String::push`, which puts the character at the end.
#[verifier::external_body]
fn string_push(text: &mut String, c: char)
    ensures
        final(text)@ == old(text)@.push(c),
{
    text.push(c)
}

/// Converts bytes to a string.
///
/// Calls `String::from_utf8`, which succeeds exactly on well-formed UTF-8
/// and then hands the same bytes back as a string.
#[verifier::external_body]
fn string_from_utf8(bytes: Vec<u8>) -> (r: Option<String>)
    ensures
        r is Some <==> valid_utf8(bytes@),
        r matches Some(text) ==> encode_utf8(text@) == bytes@,
{
    String::from_utf8(bytes).ok()
}

/// Decoding never yields more characters than there are bytes.
pub proof fn lemma_decoded_len(bytes: Seq<u8>)
    requires
        valid_utf8(bytes),
    ensures
        decode_utf8(bytes).len() <= bytes.len(),
    decreases bytes.len(),
{
    if bytes.len() > 0 {
        assert(1 <= length_of_first_scalar(bytes) <= bytes.len());
        lemma_decoded_len(pop_first_scalar(bytes));
    }
}

impl<'a> From<ansi::Output<'a>> for Output {
    /// Copies a borrowed token into one that owns its bytes.
    fn from(value: ansi::Output<'a>) -> (output: Self)
        ensures
            output@ == value@,
    {
        match value {
            ansi::Output::Bytes(bytes) => Output::Bytes(vstd::slice::slice_to_vec(bytes)),
            ansi::Output::Escape(code) => Output::Ansi(code),
        }
    }
}

impl<'a> FromSpecImpl<ansi::Output<'a>> for Output {
    open spec fn obeys_from_spec() -> bool {
        false
    }

    open spec fn from_spec(value: ansi::Output<'a>) -> Self {
        arbitrary()
    }
}

impl Default for State {
    fn default() -> (state: Self)
        ensures
            state@ == StateView::initial(),
    {
        State { grid: Grid::default(), brush: Brush::default() }
    }
}

impl State {
    /// The last `height` rows of the grid, or all of them where there are
    /// fewer: what a viewport of that height shows.
    pub fn window(&self, height: usize) -> (rows: &[GridRow])
        ensures
            rows_view(rows@) == last_rows(self@.grid, height as int),
    {
        let all: &[GridRow] = self.grid.rows.as_slice();
        let l = all.len();
        let rows = if height > l {
            all
        } else {
            vstd::slice::slice_subrange(all, l - height, l)
        };
        assert(rows_view(rows@) =~= last_rows(self@.grid, height as int));
        rows
    }

    /// The characters of the grid, row by row, each row followed by a line
    /// feed.
    pub fn text(&self) -> (text: String)
        ensures
            text@ == grid_text(self@.grid),
    {
        let mut text = String::new();
        let mut j: usize = 0;
        while j < self.grid.rows.len()
            invariant
                j <= self.grid.rows@.len(),
                text@ == grid_text(self@.grid.take(j as int)),
            decreases self.grid.rows@.len() - j,
        {
            let row = &self.grid.rows[j];
            let ghost before = text@;
            let mut i: usize = 0;
            while i < row.cells.len()
                invariant
                    i <= row@.len(),
                    text@ == before + row_text(row@).take(i as int),
                decreases row@.len() - i,
            {
                string_push(&mut text, row.cells[i].c);
                assert(text@ =~= before + row_text(row@).take(i + 1));
                i += 1;
            }
            string_push(&mut text, '\n');
            proof {
                let upto = self@.grid.take(j + 1);
                assert(upto.drop_last() =~= self@.grid.take(j as int));
                assert(upto.last() == row@);
                assert(row_text(row@).take(row@.len() as int) =~= row_text(row@));
                assert(text@ =~= grid_text(upto.drop_last()) + row_text(upto.last()).push('\n'));
            }
            j += 1;
        }
        assert(self@.grid.take(self@.grid.len() as int) =~= self@.grid);
        text
    }

    /// Handles one character of a literal span. The brush's new position
    /// has to be one that machine integers can hold.
    pub fn put_char(&mut self, c: char)
        requires
            old(self)@.brush.on_grid(),
            old(self)@.put_char(c).brush.col <= usize::MAX,
            old(self)@.put_char(c).brush.row <= usize::MAX,
        ensures
            final(self)@ == old(self)@.put_char(c),
            final(self)@.brush.on_grid(),
    {
        if c == '\n' {
            self.brush.pos.1 += 1;
        } else if c == '\r' {
            self.brush.pos.0 = 1;
        } else if c == '\t' {
            self.brush.pos.0 += 4;
        } else if c == '\x1b' {
        } else if c == '\x08' {
            if self.brush.pos.0 > 1 {
                self.brush.pos.0 -= 1;
            }
        } else {
            self.grid.paint(&self.brush, c);
            self.brush.pos.0 += 1;
        }
    }
}

/// The terminal: its state, and whether the pseudo-terminal is there to be
/// written to.
#[derive(Debug)]
pub struct Screen {
    pub state: State,
    /// Set by [`Message::Init`]; until then write requests are dropped.
    pub connected: bool,
}

/// What the program around the engine has to do after a message.
#[derive(Debug)]
pub struct Update {
    /// Bytes to write to the pseudo-terminal, in full and before any later
    /// write.
    pub write: Option<Vec<u8>>,
    /// How many literal spans of the message were dropped because they were
    /// not UTF-8.
    pub dropped: usize,
}

impl Default for Screen {
    fn default() -> (screen: Self)
        ensures
            screen.state@ == StateView::initial(),
            !screen.connected,
    {
        Screen { state: State::default(), connected: false }
    }
}

impl Screen {
    /// A terminal at the start of a session.
    pub fn new() -> (screen: Self)
        ensures
            screen.state@ == StateView::initial(),
            !screen.connected,
    {
        Self::default()
    }

    /// Whether [`Screen::update`] can take `message` in this state: the
    /// brush stands on the grid and, for output, has room for its literal
    /// bytes.
    pub fn accepts(&self, message: &Message) -> (ok: bool)
        ensures
            ok == (self.state@.brush.on_grid() && (message@ matches MessageView::Output(tokens)
                ==> has_room(self.state@.brush, literal_len(tokens) as int))),
    {
        let (col, row) = self.state.brush.pos;
        if col < 1 || row < 1 {
            return false;
        }
        match message {
            Message::Output(outputs) => match literal_bytes(outputs) {
                Some(n) => {
                    let margin = ROWS as usize - 1;
                    n <= (usize::MAX - col) / 4 && row <= usize::MAX - margin && n <= usize::MAX
                        - margin - row
                },
                None => false,
            },
            _ => true,
        }
    }

    /// Takes one message and says what is to be done about it.
    ///
    /// `Init` notes that the pseudo-terminal can be written to. `Output`
    /// applies the tokens to the state. `Write` asks for the content's bytes
    /// to be written, unless the pseudo-terminal is not there yet or the
    /// content has no bytes.
    pub fn update(&mut self, message: Message) -> (update: Update)
        requires
            old(self).state@.brush.on_grid(),
            message@ matches MessageView::Output(tokens) ==> has_room(
                old(self).state@.brush,
                literal_len(tokens) as int,
            ),
        ensures
            match message@ {
                MessageView::Init => {
                    &&& final(self).state@ == old(self).state@
                    &&& final(self).connected
                    &&& update.write is None
                    &&& update.dropped == 0
                },
                MessageView::Output(tokens) => {
                    &&& final(self).state@ == old(self).state@.apply_tokens(tokens)
                    &&& final(self).connected == old(self).connected
                    &&& update.write is None
                    &&& update.dropped == undecodable(tokens)
                },
                MessageView::Write(content) => {
                    &&& final(self).state@ == old(self).state@
                    &&& final(self).connected == old(self).connected
                    &&& payload_view(update.write) == if old(self).connected {
                        content.payload()
                    } else {
                        None
                    }
                    &&& update.dropped == 0
                },
            },
            final(self).state@.brush.on_grid(),
    {
        match message {
            Message::Init => {
                self.connected = true;
                Update { write: None, dropped: 0 }
            },
            Message::Output(outputs) => {
                let dropped = self.handle_output(outputs);
                Update { write: None, dropped }
            },
            Message::Write(content) => {
                if !self.connected {
                    return Update { write: None, dropped: 0 };
                }
                Update { write: content.payload(), dropped: 0 }
            },
        }
    }

    /// Handles one literal span: decodes it as UTF-8 and handles its
    /// characters in order. A span that is not UTF-8 is dropped as a whole
    /// and reported.
    pub fn handle_bytes(&mut self, bytes: Vec<u8>) -> (r: Result<(), InvalidUtf8>)
        requires
            old(self).state@.brush.on_grid(),
            text_fits(old(self).state@.brush, bytes@.len() as int),
        ensures
            r is Ok <==> valid_utf8(bytes@),
            r is Ok ==> final(self).state@ == old(self).state@.put_text(decode_utf8(bytes@)),
            r is Err ==> final(self).state@ == old(self).state@,
            final(self).state@ == old(self).state@.apply_token(Token::Bytes(bytes@)),
            final(self).state@.brush.on_grid(),
            final(self).state@.brush.col <= old(self).state@.brush.col + 4 * bytes@.len(),
            final(self).state@.brush.row <= old(self).state@.brush.row + bytes@.len(),
            final(self).state@.brush.row >= old(self).state@.brush.row,
            final(self).connected == old(self).connected,
    {
        let ghost raw = bytes@;
        let text = match string_from_utf8(bytes) {
            Some(text) => text,
            None => {
                return Err(InvalidUtf8);
            },
        };
        proof {
            encode_utf8_decode_utf8(text@);
            lemma_decoded_len(raw);
        }
        let chars = text.as_str();
        for c in it: chars.chars()
            invariant
                it.seq() == chars@,
                chars@ == decode_utf8(raw),
                chars@.len() <= raw.len(),
                text_fits(old(self).state@.brush, raw.len() as int),
                self.state@ == old(self).state@.put_text(chars@.take(it.index() as int)),
                self.state@.brush.on_grid(),
                self.state@.brush.col <= old(self).state@.brush.col + 4 * it.index(),
                self.state@.brush.row <= old(self).state@.brush.row + it.index(),
                self.state@.brush.row >= old(self).state@.brush.row,
                self.connected == old(self).connected,
        {
            proof {
                let done = it.index() as int;
                assert(chars@.take(done + 1).drop_last() == chars@.take(done));
            }
            self.state.put_char(c);
        }
        proof {
            assert(chars@.take(chars@.len() as int) == chars@);
        }
        Ok(())
    }

    /// Handles one escape code.
    pub fn handle_ansi(&mut self, ac: AnsiCode)
        requires
            old(self).state@.brush.on_grid(),
            ac is EraseAllDisplay ==> erase_fits(old(self).state@.brush),
        ensures
            final(self).state@ == old(self).state@.apply_code(ac),
            final(self).state@.brush.col == old(self).state@.brush.col,
            final(self).state@.brush.row == old(self).state@.brush.row,
            final(self).connected == old(self).connected,
    {
        match ac {
            AnsiCode::EraseLine => {
                self.state.grid.erase_line(&self.state.brush);
            },
            AnsiCode::EraseDisplay => {
                self.state.grid.erase_display_preserve_cursor(&self.state.brush);
            },
            AnsiCode::EraseAllDisplay => {
                self.state.grid.erase_display_from(&self.state.brush);
            },
            AnsiCode::SetGraphicsMode(count, params) => {
                let indexed = rgb_from_ansi256(params[2]);
                self.state.brush.set_graphics_mode(count, params, indexed);
            },
            _ => {},
        }
    }

    /// Handles a batch of tokens in order, and says how many literal spans
    /// it had to drop because they were not UTF-8.
    pub fn handle_output(&mut self, outputs: Vec<Output>) -> (dropped: usize)
        requires
            old(self).state@.brush.on_grid(),
            has_room(old(self).state@.brush, literal_len(token_seq(outputs@)) as int),
        ensures
            final(self).state@ == old(self).state@.apply_tokens(token_seq(outputs@)),
            dropped == undecodable(token_seq(outputs@)),
            final(self).state@.brush.on_grid(),
            final(self).connected == old(self).connected,
    {
        let ghost tokens = token_seq(outputs@);
        let total = outputs.len();
        let mut dropped: usize = 0;
        for output in it: outputs
            invariant
                it.seq().len() == tokens.len() == total,
                forall|k: int| 0 <= k < tokens.len() ==> (#[trigger] it.seq()[k])@ == tokens[k],
                has_room(old(self).state@.brush, literal_len(tokens) as int),
                self.state@ == old(self).state@.apply_tokens(tokens.take(it.index() as int)),
                dropped == undecodable(tokens.take(it.index() as int)),
                dropped <= it.index(),
                self.state@.brush.on_grid(),
                self.state@.brush.col <= old(self).state@.brush.col + 4 * literal_len(
                    tokens.take(it.index() as int),
                ),
                self.state@.brush.row <= old(self).state@.brush.row + literal_len(
                    tokens.take(it.index() as int),
                ),
                self.connected == old(self).connected,
        {
            proof {
                let done = it.index() as int;
                assert(tokens.take(done + 1).drop_last() == tokens.take(done));
                assert(tokens.take(done + 1).last() == output@);
                lemma_literal_len_grows(tokens, done + 1);
            }
            match output {
                Output::Bytes(bytes) => {
                    if self.handle_bytes(bytes).is_err() {
                        dropped += 1;
                    }
                },
                Output::Ansi(code) => {
                    self.handle_ansi(code);
                },
            }
        }
        proof {
            assert(tokens.take(tokens.len() as int) == tokens);
        }
        dropped
    }
}

/// Counts the bytes of the literal spans among `outputs`; `None` where they
/// are more than a machine integer counts.
pub fn literal_bytes(outputs: &Vec<Output>) -> (total: Option<usize>)
    ensures
        match total {
            Some(n) => n == literal_len(token_seq(outputs@)),
            None => literal_len(token_seq(outputs@)) > usize::MAX,
        },
{
    let ghost tokens = token_seq(outputs@);
    let mut total: usize = 0;
    let mut i: usize = 0;
    while i < outputs.len()
        invariant
            i <= outputs@.len(),
            tokens == token_seq(outputs@),
            total == literal_len(tokens.take(i as int)),
        decreases outputs@.len() - i,
    {
        proof {
            assert(tokens.take(i + 1).drop_last() == tokens.take(i as int));
            assert(tokens.take(i + 1).last() == outputs@[i as int]@);
        }
        match &outputs[i] {
            Output::Bytes(bytes) => {
                if bytes.len() > usize::MAX - total {
                    proof {
                        lemma_literal_len_grows(tokens, i + 1);
                    }
                    return None;
                }
                total += bytes.len();
            },
            Output::Ansi(_) => {},
        }
        i += 1;
    }
    proof {
        assert(tokens.take(tokens.len() as int) == tokens);
    }
    Some(total)
}

/// The literal spans of the first `n` tokens hold no more bytes than those
/// of all tokens.
pub proof fn lemma_literal_len_grows(tokens: Seq<Token>, n: int)
    requires
        0 <= n <= tokens.len(),
    ensures
        literal_len(tokens.take(n)) <= literal_len(tokens),
    decreases tokens.len(),
{
    if n < tokens.len() {
        assert(tokens.drop_last().take(n) == tokens.take(n));
        lemma_literal_len_grows(tokens.drop_last(), n);
    } else {
        assert(tokens.take(n) == tokens);
    }
}

} // verus!
