//! Lines from a stream of bytes, with a bound on what is kept.
//!
//! An unbounded reader would buffer a blob without a line break until the
//! process dies, which would skip the safe shutdown.

use vstd::prelude::*;
use vstd::utf8::*;

verus! {

/// Bound on one line. The fixed vocabulary fits in tens of bytes.
pub const MAX_STDIN_LINE: usize = 4096;

/// What a reader gives.
#[derive(Debug, PartialEq, Eq)]
pub enum LineRead {
    /// A line, without its line break.
    Line(String),
    /// A line that was too long. It was dropped whole, up to its line break.
    TooLong,
    /// The end of the stream, or a line that is no valid text: nothing more is
    /// to be read.
    End,
}

/// A [`LineRead`] as mathematical values.
pub enum LineReadModel {
    Line(Seq<char>),
    TooLong,
    End,
}

impl View for LineRead {
    type V = LineReadModel;

    open spec fn view(&self) -> LineReadModel {
        match self {
            LineRead::Line(s) => LineReadModel::Line(s@),
            LineRead::TooLong => LineReadModel::TooLong,
            LineRead::End => LineReadModel::End,
        }
    }
}

/// A reader: what it holds of the current line, or that it is passing over a
/// line that was too long.
#[verifier::ext_equal]
pub struct ReaderModel {
    pub buf: Seq<u8>,
    pub skipping: bool,
}

/// A reader between two lines.
pub open spec fn fresh_reader() -> ReaderModel {
    ReaderModel { buf: Seq::empty(), skipping: false }
}

/// The text of some bytes, if they are valid UTF-8.
pub open spec fn text_of(b: Seq<u8>) -> LineReadModel {
    if valid_utf8(b) {
        LineReadModel::Line(decode_utf8(b))
    } else {
        LineReadModel::End
    }
}

/// A line without a carriage return at its end.
pub open spec fn without_cr(b: Seq<u8>) -> Seq<u8> {
    if b.len() > 0 && b.last() == 13 {
        b.drop_last()
    } else {
        b
    }
}

/// After one more byte, and what it completes.
pub open spec fn after_byte(m: ReaderModel, b: u8, max: usize) -> (ReaderModel, Option<LineReadModel>) {
    if b == 10 {
        (
            fresh_reader(),
            Some(
                if m.skipping {
                    LineReadModel::TooLong
                } else {
                    text_of(without_cr(m.buf))
                },
            ),
        )
    } else if m.skipping {
        (m, None)
    } else if m.buf.len() + 1 >= max {
        (ReaderModel { buf: Seq::empty(), skipping: true }, None)
    } else {
        (ReaderModel { buf: m.buf.push(b), ..m }, None)
    }
}

/// What the end of the stream completes.
pub open spec fn at_end(m: ReaderModel) -> LineReadModel {
    if m.skipping {
        LineReadModel::TooLong
    } else if m.buf.len() == 0 {
        LineReadModel::End
    } else {
        text_of(m.buf)
    }
}

/// `String::from_utf8`: valid UTF-8 is decoded, other bytes are refused.
#[verifier::external_body]
fn utf8_string(b: Vec<u8>) -> (r: Option<String>)
    ensures
        match r {
            Some(s) => valid_utf8(b@) && s@ == decode_utf8(b@),
            None => !valid_utf8(b@),
        },
{
    String::from_utf8(b).ok()
}

fn line_read(b: Vec<u8>) -> (r: LineRead)
    ensures
        r@ == text_of(b@),
{
    match utf8_string(b) {
        Some(s) => LineRead::Line(s),
        None => LineRead::End,
    }
}

/// Reads lines byte by byte. A line, its line break counted, takes at most
/// `max` bytes; a longer one is dropped and the reader goes on behind it, so
/// that a blob can neither grow without bound nor smuggle its tail into a later
/// line.
#[derive(Debug)]
pub struct LineReader {
    pub buf: Vec<u8>,
    pub max: usize,
    pub skipping: bool,
}

impl View for LineReader {
    type V = ReaderModel;

    open spec fn view(&self) -> ReaderModel {
        ReaderModel { buf: self.buf@, skipping: self.skipping }
    }
}

impl LineReader {
    /// No more than the bound is kept.
    pub open spec fn wf(self) -> bool {
        self.max > 0 && self.buf@.len() < self.max
    }

    /// A reader with nothing read.
    pub fn new(max: usize) -> (r: LineReader)
        requires
            max > 0,
        ensures
            r.wf(),
            r.max == max,
            r@ == fresh_reader(),
    {
        LineReader { buf: Vec::new(), max, skipping: false }
    }

    /// Take one more byte; gives what it completes.
    pub fn push(&mut self, b: u8) -> (r: Option<LineRead>)
        requires
            old(self).wf(),
        ensures
            final(self).wf(),
            final(self).max == old(self).max,
            ({
                let (m, out) = after_byte(old(self)@, b, old(self).max);
                &&& final(self)@ == m
                &&& match out {
                    Some(l) => r matches Some(v) && v@ == l,
                    None => r is None,
                }
            }),
    {
        if b == 10 {
            let was_skipping = self.skipping;
            let mut line: Vec<u8> = Vec::new();
            line.append(&mut self.buf);
            assert(line@ =~= old(self).buf@);
            self.skipping = false;
            assert(self@ =~= fresh_reader());
            if was_skipping {
                return Some(LineRead::TooLong);
            }
            let n: usize = line.len();
            if n > 0 && line[n - 1] == 13 {
                let _cr = line.pop();
            }
            assert(line@ =~= without_cr(old(self).buf@));
            return Some(line_read(line));
        }
        if self.skipping {
            return None;
        }
        if self.buf.len() + 1 >= self.max {
            self.buf = Vec::new();
            self.skipping = true;
        } else {
            self.buf.push(b);
        }
        None
    }

    /// The end of the stream; gives what it completes. A last line without a
    /// line break is still delivered.
    pub fn finish(&mut self) -> (r: LineRead)
        requires
            old(self).wf(),
        ensures
            final(self).wf(),
            final(self).max == old(self).max,
            final(self)@ == fresh_reader(),
            r@ == at_end(old(self)@),
    {
        let was_skipping = self.skipping;
        let mut line: Vec<u8> = Vec::new();
        line.append(&mut self.buf);
        assert(line@ =~= old(self).buf@);
        self.skipping = false;
        assert(self@ =~= fresh_reader());
        if was_skipping {
            LineRead::TooLong
        } else if line.len() == 0 {
            LineRead::End
        } else {
            line_read(line)
        }
    }
}

/// After some bytes, and what they complete.
pub open spec fn after_bytes(m: ReaderModel, s: Seq<u8>, max: usize) -> (
    ReaderModel,
    Seq<LineReadModel>,
)
    decreases s.len(),
{
    if s.len() == 0 {
        (m, Seq::empty())
    } else {
        let (n, done) = after_bytes(m, s.drop_last(), max);
        let (k, out) = after_byte(n, s.last(), max);
        (
            k,
            match out {
                Some(l) => done.push(l),
                None => done,
            },
        )
    }
}

proof fn lemma_within_a_line(s: Seq<u8>, max: usize)
    requires
        max > 0,
        forall|i: int| 0 <= i < s.len() ==> #[trigger] s[i] != 10,
    ensures
        after_bytes(fresh_reader(), s, max) == (
            if s.len() < max {
                ReaderModel { buf: s, skipping: false }
            } else {
                ReaderModel { buf: Seq::empty(), skipping: true }
            },
            Seq::<LineReadModel>::empty(),
        ),
    decreases s.len(),
{
    if s.len() > 0 {
        lemma_within_a_line(s.drop_last(), max);
        assert(s.last() != 10);
        assert(s.drop_last().push(s.last()) =~= s);
    } else {
        assert(s =~= Seq::<u8>::empty());
    }
}

/// A line that fits is delivered whole, without its line break, and the reader
/// is ready for the next one.
pub proof fn a_line_that_fits_is_delivered(s: Seq<u8>, max: usize)
    requires
        s.len() < max,
        forall|i: int| 0 <= i < s.len() ==> #[trigger] s[i] != 10,
    ensures
        after_bytes(fresh_reader(), s.push(10), max) == (
            fresh_reader(),
            seq![text_of(without_cr(s))],
        ),
{
    lemma_within_a_line(s, max);
    assert(s.push(10).drop_last() =~= s);
    assert(Seq::<LineReadModel>::empty().push(text_of(without_cr(s))) =~= seq![
        text_of(without_cr(s)),
    ]);
}

/// A line that is too long is dropped whole, and the reader is ready for the
/// next one: nothing of it reaches a later line.
pub proof fn a_line_too_long_is_dropped(s: Seq<u8>, max: usize)
    requires
        0 < max <= s.len(),
        forall|i: int| 0 <= i < s.len() ==> #[trigger] s[i] != 10,
    ensures
        after_bytes(fresh_reader(), s.push(10), max) == (
            fresh_reader(),
            seq![LineReadModel::TooLong],
        ),
{
    lemma_within_a_line(s, max);
    assert(s.push(10).drop_last() =~= s);
    assert(Seq::<LineReadModel>::empty().push(LineReadModel::TooLong) =~= seq![
        LineReadModel::TooLong,
    ]);
}

/// A line is delivered without a carriage return at its end, and with every other
/// byte.
pub proof fn a_line_loses_only_its_ending(s: Seq<u8>, max: usize)
    requires
        s.len() + 1 < max,
        forall|i: int| 0 <= i < s.len() ==> #[trigger] s[i] != 10,
    ensures
        after_bytes(fresh_reader(), s.push(13).push(10), max) == (
            fresh_reader(),
            seq![text_of(s)],
        ),
        s.len() == 0 || s.last() != 13 ==> after_bytes(fresh_reader(), s.push(10), max) == (
            fresh_reader(),
            seq![text_of(s)],
        ),
{
    a_line_that_fits_is_delivered(s, max);
    a_line_that_fits_is_delivered(s.push(13), max);
    assert(s.push(13).drop_last() =~= s);
}

} // verus!
