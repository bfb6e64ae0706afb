//! Reading a transcript as text: the characters it shows, and which of
//! them stand for withheld bytes.

use vstd::prelude::*;
use vstd::string::{StrSliceExecFns, StringExecFns};
use vstd::utf8::{decode_utf8, valid_utf8};
use crate::text::decode_text;

verus! {

/// The character that stands for a withheld byte in a reading.
pub open spec fn redacted_char() -> char {
    'X'
}

/// The character that stands for a withheld byte is the one that
/// `REDACTED_BYTE` encodes.
pub proof fn lemma_redacted_char_is_the_byte()
    ensures
        redacted_char() as u8 == crate::transcript::REDACTED_BYTE,
{
}

/// A transcript read as text. `text` has `redacted_char()` for each
/// withheld byte; `withheld` says of each character whether it is one of
/// those. A character without an entry in `withheld` counts as withheld.
#[derive(Debug, PartialEq, Eq)]
pub struct Reading {
    pub text: String,
    pub withheld: Vec<bool>,
}

pub struct ReadingView {
    pub text: Seq<char>,
    pub withheld: Seq<bool>,
}

impl View for Reading {
    type V = ReadingView;

    open spec fn view(&self) -> ReadingView {
        ReadingView { text: self.text@, withheld: self.withheld@ }
    }
}

/// A text of which nothing is withheld.
pub open spec fn plain(text: Seq<char>) -> ReadingView {
    ReadingView { text, withheld: Seq::new(text.len(), |i: int| false) }
}

/// One withheld byte.
pub open spec fn blot() -> ReadingView {
    ReadingView { text: seq![redacted_char()], withheld: seq![true] }
}

/// One reading after another.
pub open spec fn joined(first: ReadingView, second: ReadingView) -> ReadingView {
    ReadingView { text: first.text + second.text, withheld: first.withheld + second.withheld }
}

/// A run of disclosed bytes read as UTF-8, or `None` where it is none.
pub open spec fn run_reading(run: Seq<u8>) -> Option<ReadingView> {
    if valid_utf8(run) {
        Some(plain(decode_utf8(run)))
    } else {
        None
    }
}

/// The reading of `content` from position `at` on, where `pending` holds
/// the disclosed bytes just before `at` that are still to be read.
pub open spec fn reading_step(content: Seq<Option<u8>>, at: int, pending: Seq<u8>) -> Option<
    ReadingView,
>
    decreases content.len() - at,
{
    if at < 0 || at >= content.len() {
        run_reading(pending)
    } else {
        match content[at] {
            Some(byte) => reading_step(content, at + 1, pending.push(byte)),
            None => match (
                run_reading(pending),
                reading_step(content, at + 1, Seq::<u8>::empty()),
            ) {
                (Some(run), Some(rest)) => Some(joined(joined(run, blot()), rest)),
                _ => None,
            },
        }
    }
}

/// A transcript read as text: each run of disclosed bytes is read as
/// UTF-8, and each withheld byte shows as `redacted_char()` and is marked
/// as withheld. There is no reading where a run of disclosed bytes is not
/// UTF-8.
pub open spec fn reading_of(content: Seq<Option<u8>>) -> Option<ReadingView> {
    reading_step(content, 0, Seq::<u8>::empty())
}

/// In a reading, every character has its mark.
pub proof fn lemma_reading_is_aligned(content: Seq<Option<u8>>, at: int, pending: Seq<u8>)
    ensures
        reading_step(content, at, pending) matches Some(reading) ==> reading.withheld.len()
            == reading.text.len(),
    decreases content.len() - at,
{
    if at < 0 || at >= content.len() {
    } else {
        match content[at] {
            Some(byte) => {
                lemma_reading_is_aligned(content, at + 1, pending.push(byte));
            },
            None => {
                lemma_reading_is_aligned(content, at + 1, Seq::<u8>::empty());
            },
        }
    }
}

/// In a reading, every character that is marked as withheld shows as
/// `redacted_char()`.
pub proof fn lemma_marks_show_sentinel(content: Seq<Option<u8>>, at: int, pending: Seq<u8>)
    ensures
        reading_step(content, at, pending) matches Some(reading) ==> forall|i: int|
            0 <= i < reading.withheld.len() && reading.withheld[i] ==> i < reading.text.len()
                && #[trigger] reading.text[i] == redacted_char(),
    decreases content.len() - at,
{
    lemma_reading_is_aligned(content, at, pending);
    if at < 0 || at >= content.len() {
    } else {
        match content[at] {
            Some(byte) => {
                lemma_marks_show_sentinel(content, at + 1, pending.push(byte));
            },
            None => {
                lemma_marks_show_sentinel(content, at + 1, Seq::<u8>::empty());
                lemma_reading_is_aligned(content, at + 1, Seq::<u8>::empty());
            },
        }
    }
}

/// Appends a run of disclosed text to a reading.
fn append_run(text: &mut String, withheld: &mut Vec<bool>, run: &str)
    ensures
        final(text)@ == old(text)@ + run@,
        final(withheld)@ == old(withheld)@ + plain(run@).withheld,
{
    text.append(run);
    let count = run.unicode_len();
    let ghost before = withheld@;
    let mut i: usize = 0;
    while i < count
        invariant
            i <= count,
            count == run@.len(),
            withheld@ == before + Seq::new(i as nat, |j: int| false),
        decreases count - i,
    {
        withheld.push(false);
        i = i + 1;
        assert(withheld@ =~= before + Seq::new(i as nat, |j: int| false));
    }
}

impl Reading {
    /// The reading of a text of which nothing is withheld.
    pub fn disclosed(text: &str) -> (reading: Reading)
        ensures
            reading@ == plain(text@),
    {
        let mut owned = String::new();
        let mut withheld: Vec<bool> = Vec::new();
        append_run(&mut owned, &mut withheld, text);
        assert(owned@ =~= text@);
        assert(withheld@ =~= plain(text@).withheld);
        Reading { text: owned, withheld }
    }
}

/// Reads what a transcript discloses as text.
pub fn read_cells(cells: &Vec<Option<u8>>) -> (r: Option<Reading>)
    ensures
        match r {
            Some(reading) => reading_of(cells@) == Some(reading@),
            None => reading_of(cells@) is None,
        },
{
    let mut text = String::new();
    let mut withheld: Vec<bool> = Vec::new();
    let mut pending: Vec<u8> = Vec::new();
    let mut at: usize = 0;
    proof {
        let start = ReadingView { text: text@, withheld: withheld@ };
        if let Some(rest) = reading_of(cells@) {
            assert(joined(start, rest).text =~= rest.text);
            assert(joined(start, rest).withheld =~= rest.withheld);
        }
    }
    while at < cells.len()
        invariant
            at <= cells.len(),
            reading_of(cells@) == match reading_step(cells@, at as int, pending@) {
                None => None::<ReadingView>,
                Some(rest) => Some(joined(ReadingView { text: text@, withheld: withheld@ }, rest)),
            },
        decreases cells.len() - at,
    {
        let ghost so_far = ReadingView { text: text@, withheld: withheld@ };
        match cells[at] {
            Some(byte) => {
                pending.push(byte);
            },
            None => {
                match decode_text(pending.as_slice()) {
                    None => {
                        return None;
                    },
                    Some(run) => {
                        append_run(&mut text, &mut withheld, run);
                        proof {
                            reveal_strlit("X");
                            assert("X"@ =~= seq![redacted_char()]);
                        }
                        text.append("X");
                        withheld.push(true);
                    },
                }
                proof {
                    let run = run_reading(pending@)->Some_0;
                    let now = ReadingView { text: text@, withheld: withheld@ };
                    assert(now.text =~= joined(joined(so_far, run), blot()).text);
                    assert(now.withheld =~= joined(joined(so_far, run), blot()).withheld);
                    if let Some(rest) = reading_step(cells@, at + 1, Seq::<u8>::empty()) {
                        assert(joined(so_far, joined(joined(run, blot()), rest)).text =~= joined(
                            now,
                            rest,
                        ).text);
                        assert(joined(so_far, joined(joined(run, blot()), rest)).withheld
                            =~= joined(now, rest).withheld);
                    }
                }
                pending = Vec::new();
            },
        }
        at = at + 1;
    }
    match decode_text(pending.as_slice()) {
        None => None,
        Some(run) => {
            append_run(&mut text, &mut withheld, run);
            Some(Reading { text, withheld })
        },
    }
}

} // verus!
