//! The decisions of the pseudo-terminal bridge.
//!
//! The bridge runs a shell on a pseudo-terminal, reads what the shell writes
//! chunk by chunk, lexes each chunk in full and queues the tokens of each
//! chunk as one batch. Opening the pseudo-terminal, reading and queueing are
//! done by the program around the library; what is decided in between is
//! here.
use crate::ansi::AnsiParser;
use crate::grammar::{lemma_next_token_len, next_token, tokens};
use crate::screen::{token_seq, Output};
use vstd::prelude::*;
use vstd::slice::slice_subrange;

verus! {

/// How many bytes one read asks for at most.
pub const CHUNK_SIZE: usize = 1024;

/// How many batches the queue between the read loop and the consumer holds
/// before the read loop has to wait.
pub const QUEUE_CAPACITY: usize = 100;

/// The size of a terminal window, in cells and in pixels.
#[derive(Debug, Copy, Clone, PartialEq, Eq, Structural)]
pub struct PtySize {
    pub rows: u16,
    pub cols: u16,
    pub xpixel: u16,
    pub ypixel: u16,
}

/// What the read loop does after a read.
#[derive(Debug)]
pub enum ReadStep {
    /// Queue this batch and read on.
    Forward(Vec<Output>),
    /// Stop reading: the shell is gone.
    Stop,
}

impl PtySize {
    /// The size that the pseudo-terminal is opened with. It does not follow
    /// the window.
    pub fn initial() -> (size: Self)
        ensures
            size == (PtySize { rows: 50, cols: 100, xpixel: 1024, ypixel: 2048 }),
    {
        PtySize { rows: 50, cols: 100, xpixel: 1024, ypixel: 2048 }
    }
}

/// The tokens of `chunk`, in the order of their bytes. The lexer keeps
/// nothing from one chunk to the next: an escape sequence that is cut by the
/// end of the chunk comes out as literal text.
pub fn lex(chunk: &[u8]) -> (batch: Vec<Output>)
    ensures
        token_seq(batch@) == tokens(chunk@),
{
    let mut parser = AnsiParser::new(chunk);
    let mut batch: Vec<Output> = Vec::new();
    assert(token_seq(batch@) =~= Seq::empty());
    loop
        invariant
            tokens(chunk@) == token_seq(batch@) + tokens(parser@),
        ensures
            tokens(chunk@) == token_seq(batch@),
        decreases parser@.len(),
    {
        let ghost rest = parser@;
        let ghost seen = token_seq(batch@);
        match parser.next() {
            Some(output) => {
                proof {
                    lemma_next_token_len(rest);
                }
                batch.push(Output::from(output));
                assert(token_seq(batch@) =~= seen.push(next_token(rest).0));
                assert(seen + tokens(rest) =~= seen.push(next_token(rest).0) + tokens(parser@));
            },
            None => {
                assert(seen + tokens(rest) =~= seen);
                break ;
            },
        }
    }
    batch
}

/// Decides what follows a read into `buf`: `read` is the number of bytes
/// that the read has put at the front of `buf`, or `None` where it failed.
///
/// A failed read and the end of the stream (no bytes) stop the loop. After
/// any other read the bytes are lexed and their tokens forwarded as one
/// batch.
pub fn after_read(buf: &[u8], read: Option<usize>) -> (step: ReadStep)
    ensures
        match read {
            Some(n) if 0 < n <= buf@.len() => step matches ReadStep::Forward(batch) && token_seq(
                batch@,
            ) == tokens(buf@.take(n as int)),
            _ => step is Stop,
        },
{
    match read {
        Some(n) => {
            if 0 < n && n <= buf.len() {
                ReadStep::Forward(lex(slice_subrange(buf, 0, n)))
            } else {
                ReadStep::Stop
            }
        },
        None => ReadStep::Stop,
    }
}

} // verus!
