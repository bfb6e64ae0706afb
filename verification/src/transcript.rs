//! Transcripts: the bytes of one direction of a session, some of them
//! withheld by the prover.

use vstd::prelude::*;

verus! {

/// The byte that stands for a withheld byte when a transcript is rendered.
pub const REDACTED_BYTE: u8 = 0x58;

/// The positions from `start` up to, not including, `end`.
#[derive(Clone, Copy, Debug, PartialEq, Eq, Structural)]
pub struct ByteRange {
    pub start: usize,
    pub end: usize,
}

/// `ranges` lie inside `0..len`, in ascending order, and no two overlap.
pub open spec fn ranges_well_formed(ranges: Seq<ByteRange>, len: nat) -> bool {
    &&& forall|k: int|
        0 <= k < ranges.len() ==> (#[trigger] ranges[k]).start <= ranges[k].end <= len
    &&& forall|j: int, k: int|
        0 <= j < k < ranges.len() ==> (#[trigger] ranges[j]).end <= (#[trigger] ranges[k]).start
}

/// Position `i` lies in one of `ranges`.
pub open spec fn covered(ranges: Seq<ByteRange>, i: int) -> bool {
    exists|k: int| 0 <= k < ranges.len() && (#[trigger] ranges[k]).start <= i < ranges[k].end
}

/// The sizes of `ranges`, added up.
pub open spec fn total_size(ranges: Seq<ByteRange>) -> int
    decreases ranges.len(),
{
    if ranges.len() == 0 {
        0
    } else {
        total_size(ranges.drop_last()) + (ranges.last().end - ranges.last().start)
    }
}

/// What a verifier may see of `data` when `ranges` are withheld: at each
/// position the byte, or nothing.
pub open spec fn masked(data: Seq<u8>, ranges: Seq<ByteRange>) -> Seq<Option<u8>> {
    Seq::new(
        data.len(),
        |i: int|
            if covered(ranges, i) {
                None
            } else {
                Some(data[i])
            },
    )
}

/// A transcript as it is shown: `sentinel` wherever a byte is withheld.
pub open spec fn rendering(content: Seq<Option<u8>>, sentinel: u8) -> Seq<u8> {
    Seq::new(
        content.len(),
        |i: int|
            match content[i] {
                Some(b) => b,
                None => sentinel,
            },
    )
}

/// How many of the first `n` positions of `content` are withheld.
pub open spec fn withheld_count(content: Seq<Option<u8>>, n: int) -> int
    decreases n,
{
    if n <= 0 {
        0
    } else {
        withheld_count(content, n - 1) + if content[n - 1] is None {
            1int
        } else {
            0int
        }
    }
}

/// How many of the first `n` positions of `content` disclose the byte `b`.
pub open spec fn disclosed_count(content: Seq<Option<u8>>, b: u8, n: int) -> int
    decreases n,
{
    if n <= 0 {
        0
    } else {
        disclosed_count(content, b, n - 1) + if content[n - 1] == Some(b) {
            1int
        } else {
            0int
        }
    }
}

/// How many of the first `n` bytes of `bytes` are `b`.
pub open spec fn byte_count(bytes: Seq<u8>, b: u8, n: int) -> int
    decreases n,
{
    if n <= 0 {
        0
    } else {
        byte_count(bytes, b, n - 1) + if bytes[n - 1] == b {
            1int
        } else {
            0int
        }
    }
}

/// Positions that disclose their byte do not count as withheld.
pub proof fn lemma_withheld_none(content: Seq<Option<u8>>, lo: int, n: int)
    requires
        0 <= lo <= n <= content.len(),
        forall|i: int| lo <= i < n ==> (#[trigger] content[i]) is Some,
    ensures
        withheld_count(content, n) == withheld_count(content, lo),
    decreases n - lo,
{
    if lo < n {
        lemma_withheld_none(content, lo, n - 1);
    }
}

/// Positions that are all withheld count one each.
pub proof fn lemma_withheld_all(content: Seq<Option<u8>>, lo: int, n: int)
    requires
        0 <= lo <= n <= content.len(),
        forall|i: int| lo <= i < n ==> (#[trigger] content[i]) is None,
    ensures
        withheld_count(content, n) == withheld_count(content, lo) + (n - lo),
    decreases n - lo,
{
    if lo < n {
        lemma_withheld_all(content, lo, n - 1);
    }
}

/// The count depends only on which positions are withheld.
pub proof fn lemma_withheld_agree(first: Seq<Option<u8>>, second: Seq<Option<u8>>, n: int)
    requires
        0 <= n <= first.len(),
        n <= second.len(),
        forall|i: int| 0 <= i < n ==> ((#[trigger] first[i]) is None) == (second[i] is None),
    ensures
        withheld_count(first, n) == withheld_count(second, n),
    decreases n,
{
    if 0 < n {
        lemma_withheld_agree(first, second, n - 1);
    }
}

/// The number of withheld positions of a transcript is the total size of
/// its redacted ranges.
pub proof fn lemma_withheld_total(data: Seq<u8>, ranges: Seq<ByteRange>)
    requires
        ranges_well_formed(ranges, data.len()),
    ensures
        withheld_count(masked(data, ranges), data.len() as int) == total_size(ranges),
    decreases ranges.len(),
{
    let content = masked(data, ranges);
    let len = data.len() as int;
    if ranges.len() == 0 {
        lemma_withheld_none(content, 0, len);
    } else {
        let earlier = ranges.drop_last();
        let last = ranges.last();
        let a = last.start as int;
        let b = last.end as int;
        let before = masked(data, earlier);
        assert(ranges_well_formed(earlier, data.len())) by {
            assert forall|k: int| 0 <= k < earlier.len() implies (#[trigger] earlier[k]).start
                <= earlier[k].end <= data.len() by {
                assert(earlier[k] == ranges[k]);
            }
            assert forall|j: int, k: int| 0 <= j < k < earlier.len() implies (
            #[trigger] earlier[j]).end <= (#[trigger] earlier[k]).start by {
                assert(earlier[j] == ranges[j]);
                assert(earlier[k] == ranges[k]);
            }
        }
        lemma_withheld_total(data, earlier);
        assert forall|i: int| a <= i < len implies (#[trigger] before[i]) is Some by {
            if covered(earlier, i) {
                let k = choose|k: int|
                    0 <= k < earlier.len() && (#[trigger] earlier[k]).start <= i < earlier[k].end;
                assert(earlier[k] == ranges[k]);
                assert(ranges[k].end <= ranges[ranges.len() - 1].start);
            }
        }
        lemma_withheld_none(before, a, len);
        assert forall|i: int| 0 <= i < a implies ((#[trigger] content[i]) is None) == (
        before[i] is None) by {
            if covered(earlier, i) {
                let k = choose|k: int|
                    0 <= k < earlier.len() && (#[trigger] earlier[k]).start <= i < earlier[k].end;
                assert(earlier[k] == ranges[k]);
            }
            if covered(ranges, i) {
                let k = choose|k: int|
                    0 <= k < ranges.len() && (#[trigger] ranges[k]).start <= i < ranges[k].end;
                assert(k < ranges.len() - 1);
                assert(earlier[k] == ranges[k]);
            }
        }
        lemma_withheld_agree(content, before, a);
        assert forall|i: int| a <= i < b implies (#[trigger] content[i]) is None by {
            assert(ranges[ranges.len() - 1].start <= i < ranges[ranges.len() - 1].end);
        }
        lemma_withheld_all(content, a, b);
        assert forall|i: int| b <= i < len implies (#[trigger] content[i]) is Some by {
            if covered(ranges, i) {
                let k = choose|k: int|
                    0 <= k < ranges.len() && (#[trigger] ranges[k]).start <= i < ranges[k].end;
                if k < ranges.len() - 1 {
                    assert(ranges[k].end <= ranges[ranges.len() - 1].start);
                }
            }
        }
        lemma_withheld_none(content, b, len);
    }
}

/// In a rendering, the sentinel stands at every withheld position, and
/// elsewhere only where the disclosed byte is the sentinel itself.
pub proof fn lemma_sentinel_count(content: Seq<Option<u8>>, sentinel: u8, n: int)
    requires
        0 <= n <= content.len(),
    ensures
        byte_count(rendering(content, sentinel), sentinel, n) == withheld_count(content, n)
            + disclosed_count(content, sentinel, n),
    decreases n,
{
    if 0 < n {
        lemma_sentinel_count(content, sentinel, n - 1);
    }
}

/// Where no disclosed byte is the sentinel, nothing is counted as disclosed.
pub proof fn lemma_no_disclosed_sentinel(content: Seq<Option<u8>>, sentinel: u8, n: int)
    requires
        0 <= n <= content.len(),
        forall|i: int| 0 <= i < n ==> (#[trigger] content[i]) != Some(sentinel),
    ensures
        disclosed_count(content, sentinel, n) == 0,
    decreases n,
{
    if 0 < n {
        lemma_no_disclosed_sentinel(content, sentinel, n - 1);
    }
}

/// What stands in `data` inside the redacted ranges never shows: two
/// transcripts that differ only there have the same view, and so the same
/// rendering.
pub proof fn lemma_redacted_bytes_hidden(
    first: Seq<u8>,
    second: Seq<u8>,
    ranges: Seq<ByteRange>,
    sentinel: u8,
)
    requires
        first.len() == second.len(),
        forall|i: int| 0 <= i < first.len() && !covered(ranges, i) ==> first[i] == second[i],
    ensures
        masked(first, ranges) == masked(second, ranges),
        rendering(masked(first, ranges), sentinel) == rendering(masked(second, ranges), sentinel),
{
    assert(masked(first, ranges) =~= masked(second, ranges));
}

/// A rendering shows the sentinel at each withheld position and the
/// disclosed byte at every other. Where no disclosed byte is the sentinel,
/// the sentinel stands in the rendering as often as the redacted ranges
/// are long.
pub proof fn lemma_rendering_shows_redactions(
    data: Seq<u8>,
    ranges: Seq<ByteRange>,
    sentinel: u8,
)
    requires
        ranges_well_formed(ranges, data.len()),
    ensures
        forall|i: int|
            0 <= i < data.len() && covered(ranges, i) ==> #[trigger] rendering(
                masked(data, ranges),
                sentinel,
            )[i] == sentinel,
        forall|i: int|
            0 <= i < data.len() && !covered(ranges, i) ==> #[trigger] rendering(
                masked(data, ranges),
                sentinel,
            )[i] == data[i],
        byte_count(rendering(masked(data, ranges), sentinel), sentinel, data.len() as int)
            == total_size(ranges) + disclosed_count(
            masked(data, ranges),
            sentinel,
            data.len() as int,
        ),
        (forall|i: int| 0 <= i < data.len() && !covered(ranges, i) ==> data[i] != sentinel)
            ==> byte_count(
            rendering(masked(data, ranges), sentinel),
            sentinel,
            data.len() as int,
        ) == total_size(ranges),
{
    let content = masked(data, ranges);
    let len = data.len() as int;
    lemma_withheld_total(data, ranges);
    lemma_sentinel_count(content, sentinel, len);
    if forall|i: int| 0 <= i < data.len() && !covered(ranges, i) ==> data[i] != sentinel {
        assert forall|i: int| 0 <= i < len implies (#[trigger] content[i]) != Some(sentinel) by {
            if !covered(ranges, i) {
                assert(data[i] != sentinel);
            }
        }
        lemma_no_disclosed_sentinel(content, sentinel, len);
    }
}

/// No more positions are withheld than there are.
pub proof fn lemma_withheld_bound(content: Seq<Option<u8>>, n: int)
    requires
        0 <= n,
    ensures
        0 <= withheld_count(content, n) <= n,
    decreases n,
{
    if 0 < n {
        lemma_withheld_bound(content, n - 1);
    }
}

/// The total size of the first ranges is no more than that of all.
pub proof fn lemma_total_size_grows(ranges: Seq<ByteRange>, k: int)
    requires
        0 <= k <= ranges.len(),
        forall|j: int| 0 <= j < ranges.len() ==> (#[trigger] ranges[j]).start <= ranges[j].end,
    ensures
        0 <= total_size(ranges.take(k)) <= total_size(ranges),
    decreases ranges.len() - k,
{
    if k == ranges.len() {
        assert(ranges.take(k) =~= ranges);
        lemma_total_size_nonnegative(ranges);
    } else {
        lemma_total_size_grows(ranges, k + 1);
        assert(ranges.take(k + 1).drop_last() =~= ranges.take(k));
        assert(ranges.take(k + 1).last() == ranges[k]);
        lemma_total_size_nonnegative(ranges.take(k));
    }
}

/// A total size is not negative.
pub proof fn lemma_total_size_nonnegative(ranges: Seq<ByteRange>)
    requires
        forall|j: int| 0 <= j < ranges.len() ==> (#[trigger] ranges[j]).start <= ranges[j].end,
    ensures
        0 <= total_size(ranges),
    decreases ranges.len(),
{
    if ranges.len() > 0 {
        let earlier = ranges.drop_last();
        assert forall|j: int| 0 <= j < earlier.len() implies (#[trigger] earlier[j]).start
            <= earlier[j].end by {
            assert(earlier[j] == ranges[j]);
        }
        lemma_total_size_nonnegative(earlier);
    }
}

/// `data` with 0 in place of every byte inside `ranges`.
fn blot_out(data: Vec<u8>, ranges: &Vec<ByteRange>) -> (kept: Vec<u8>)
    requires
        ranges_well_formed(ranges@, data@.len()),
    ensures
        kept@.len() == data@.len(),
        forall|i: int| 0 <= i < data@.len() && covered(ranges@, i) ==> kept@[i] == 0,
        forall|i: int| 0 <= i < data@.len() && !covered(ranges@, i) ==> kept@[i] == data@[i],
        masked(kept@, ranges@) == masked(data@, ranges@),
{
    let ghost given = data@;
    let mut kept = data;
    let mut k: usize = 0;
    while k < ranges.len()
        invariant
            ranges_well_formed(ranges@, given.len()),
            kept@.len() == given.len(),
            k <= ranges.len(),
            forall|j: int, i: int|
                0 <= j < k && (#[trigger] ranges@[j]).start <= i < ranges@[j].end
                    ==> #[trigger] kept@[i] == 0,
            forall|i: int|
                0 <= i < given.len() && !covered(ranges@, i) ==> kept@[i] == given[i],
        decreases ranges.len() - k,
    {
        let range = ranges[k];
        let mut p: usize = range.start;
        while p < range.end
            invariant
                ranges_well_formed(ranges@, given.len()),
                kept@.len() == given.len(),
                k < ranges.len(),
                range == ranges@[k as int],
                range.start <= p <= range.end,
                forall|j: int, i: int|
                    0 <= j < k && (#[trigger] ranges@[j]).start <= i < ranges@[j].end
                        ==> #[trigger] kept@[i] == 0,
                forall|i: int| range.start <= i < p ==> kept@[i] == 0,
                forall|i: int|
                    0 <= i < given.len() && !covered(ranges@, i) ==> kept@[i] == given[i],
            decreases range.end - p,
        {
            assert(covered(ranges@, p as int)) by {
                assert(ranges@[k as int].start <= p < ranges@[k as int].end);
            }
            kept.set(p, 0);
            p = p + 1;
        }
        k = k + 1;
    }
    assert forall|i: int| 0 <= i < given.len() && covered(ranges@, i) implies kept@[i]
        == 0 by {
        let j = choose|j: int|
            0 <= j < ranges@.len() && (#[trigger] ranges@[j]).start <= i < ranges@[j].end;
        assert(ranges@[j].start <= i < ranges@[j].end);
    }
    assert(masked(kept@, ranges@) =~= masked(given, ranges@));
    kept
}

/// One direction of a session, as far as the prover disclosed it.
#[derive(Debug, PartialEq, Eq)]
pub struct Transcript {
    data: Vec<u8>,
    redacted: Vec<ByteRange>,
}

impl View for Transcript {
    type V = Seq<Option<u8>>;

    closed spec fn view(&self) -> Seq<Option<u8>> {
        masked(self.data@, self.redacted@)
    }
}

impl Transcript {
    #[verifier::type_invariant]
    spec fn well_formed(&self) -> bool {
        &&& ranges_well_formed(self.redacted@, self.data@.len())
        &&& forall|i: int|
            0 <= i < self.data@.len() && covered(self.redacted@, i) ==> self.data@[i] == 0
    }

    /// The ranges that the prover withheld.
    pub closed spec fn redacted_ranges(&self) -> Seq<ByteRange> {
        self.redacted@
    }

    /// A transcript of `data` with the bytes in `redacted` withheld, or
    /// `None` where the ranges are out of bounds, out of order or overlap.
    /// What `data` holds inside the ranges is not kept: neither the
    /// transcript's view nor its memory has it.
    pub fn new(data: Vec<u8>, redacted: Vec<ByteRange>) -> (r: Option<Transcript>)
        ensures
            r is Some <==> ranges_well_formed(redacted@, data@.len()),
            r matches Some(t) ==> t@ == masked(data@, redacted@) && t.redacted_ranges()
                == redacted@,
    {
        let mut k: usize = 0;
        let mut floor: usize = 0;
        while k < redacted.len()
            invariant
                k <= redacted.len(),
                floor <= data.len(),
                k == 0 ==> floor == 0,
                k > 0 ==> floor == redacted@[k - 1].end,
                forall|j: int|
                    0 <= j < k ==> (#[trigger] redacted@[j]).start <= redacted@[j].end <= floor,
                forall|i: int, j: int|
                    0 <= i < j < k ==> (#[trigger] redacted@[i]).end <= (
                    #[trigger] redacted@[j]).start,
            decreases redacted.len() - k,
        {
            let range = redacted[k];
            if range.start < floor || range.end < range.start || range.end > data.len() {
                proof {
                    let bad = redacted@[k as int];
                    if range.start < floor {
                        let before = redacted@[k - 1];
                        assert(!(before.end <= bad.start));
                    } else {
                        assert(!(bad.start <= bad.end <= data@.len()));
                    }
                }
                return None;
            }
            floor = range.end;
            k = k + 1;
        }
        let kept = blot_out(data, &redacted);
        Some(Transcript { data: kept, redacted })
    }

    /// The number of bytes, disclosed or not.
    pub fn len(&self) -> (n: usize)
        ensures
            n == self@.len(),
    {
        self.data.len()
    }

    /// The number of withheld bytes: the total size of the redacted ranges.
    pub fn redacted_len(&self) -> (n: usize)
        ensures
            n == total_size(self.redacted_ranges()),
            n == withheld_count(self@, self@.len() as int),
            n <= self@.len(),
    {
        proof {
            use_type_invariant(self);
            lemma_withheld_total(self.data@, self.redacted@);
            lemma_withheld_bound(self@, self@.len() as int);
        }
        let ghost ranges = self.redacted@;
        let len = self.data.len();
        assert(total_size(ranges) <= len);
        let mut n: usize = 0;
        let mut k: usize = 0;
        while k < self.redacted.len()
            invariant
                ranges == self.redacted@,
                ranges_well_formed(ranges, self.data@.len()),
                total_size(ranges) <= usize::MAX,
                k <= ranges.len(),
                n == total_size(ranges.take(k as int)),
            decreases self.redacted.len() - k,
        {
            let range = self.redacted[k];
            proof {
                assert(ranges.take(k + 1).drop_last() =~= ranges.take(k as int));
                lemma_total_size_grows(ranges, k + 1);
            }
            n = n + (range.end - range.start);
            k = k + 1;
        }
        assert(ranges.take(k as int) =~= ranges);
        n
    }

    /// The transcript as it is shown, with `sentinel` in place of each
    /// withheld byte. No byte from inside a redacted range is in it.
    pub fn render(&self, sentinel: u8) -> (out: Vec<u8>)
        ensures
            out@ == rendering(self@, sentinel),
            byte_count(out@, sentinel, out@.len() as int) == total_size(self.redacted_ranges())
                + disclosed_count(self@, sentinel, self@.len() as int),
    {
        proof {
            use_type_invariant(self);
            lemma_rendering_shows_redactions(self.data@, self.redacted@, sentinel);
        }
        let ghost ranges = self.redacted@;
        let len = self.data.len();
        let count = self.redacted.len();
        let mut out: Vec<u8> = Vec::new();
        let mut k: usize = 0;
        let mut p: usize = 0;
        while p < len
            invariant
                ranges == self.redacted@,
                len == self.data@.len(),
                count == ranges.len(),
                ranges_well_formed(ranges, self.data@.len()),
                p <= len,
                k <= count,
                forall|j: int| 0 <= j < k ==> (#[trigger] ranges[j]).end <= p,
                out@ == rendering(self@, sentinel).take(p as int),
            decreases len - p,
        {
            while k < count && self.redacted[k].end <= p
                invariant
                    ranges == self.redacted@,
                    count == ranges.len(),
                    k <= count,
                    forall|j: int| 0 <= j < k ==> (#[trigger] ranges[j]).end <= p,
                decreases count - k,
            {
                k = k + 1;
            }
            let hidden = k < count && self.redacted[k].start <= p;
            proof {
                if hidden {
                    assert(ranges[k as int].start <= p < ranges[k as int].end);
                } else if covered(ranges, p as int) {
                    let j = choose|j: int|
                        0 <= j < ranges.len() && (#[trigger] ranges[j]).start <= p < ranges[j].end;
                    if j > k {
                        assert(ranges[k as int].end <= ranges[j].start);
                    }
                }
            }
            let byte = if hidden {
                sentinel
            } else {
                self.data[p]
            };
            out.push(byte);
            p = p + 1;
            assert(out@ =~= rendering(self@, sentinel).take(p as int));
        }
        assert(out@ =~= rendering(self@, sentinel));
        out
    }

    /// What the transcript discloses, position by position: the byte, or
    /// `None` where it is withheld.
    pub fn cells(&self) -> (out: Vec<Option<u8>>)
        ensures
            out@ == self@,
    {
        proof {
            use_type_invariant(self);
        }
        let ghost ranges = self.redacted@;
        let len = self.data.len();
        let count = self.redacted.len();
        let mut out: Vec<Option<u8>> = Vec::new();
        let mut k: usize = 0;
        let mut p: usize = 0;
        while p < len
            invariant
                ranges == self.redacted@,
                len == self.data@.len(),
                count == ranges.len(),
                ranges_well_formed(ranges, self.data@.len()),
                p <= len,
                k <= count,
                forall|j: int| 0 <= j < k ==> (#[trigger] ranges[j]).end <= p,
                out@ == self@.take(p as int),
            decreases len - p,
        {
            while k < count && self.redacted[k].end <= p
                invariant
                    ranges == self.redacted@,
                    count == ranges.len(),
                    k <= count,
                    forall|j: int| 0 <= j < k ==> (#[trigger] ranges[j]).end <= p,
                decreases count - k,
            {
                k = k + 1;
            }
            let hidden = k < count && self.redacted[k].start <= p;
            proof {
                if hidden {
                    assert(ranges[k as int].start <= p < ranges[k as int].end);
                } else if covered(ranges, p as int) {
                    let j = choose|j: int|
                        0 <= j < ranges.len() && (#[trigger] ranges[j]).start <= p < ranges[j].end;
                    if j > k {
                        assert(ranges[k as int].end <= ranges[j].start);
                    }
                }
            }
            let cell = if hidden {
                None
            } else {
                Some(self.data[p])
            };
            out.push(cell);
            p = p + 1;
            assert(out@ =~= self@.take(p as int));
        }
        assert(out@ =~= self@);
        out
    }
}

} // verus!
