//! An address-translating cursor: presents an ordered set of discontiguous
//! byte ranges of one raw blob as a single seekable, readable logical
//! stream.  Logical position 0 is the first byte of the first region and
//! logical positions run contiguously across region boundaries, whatever
//! gaps separate the regions in the raw address space.

use crate::bytes::read_bytes;
use crate::Error;
use crate::FirmwareRegion;
use vstd::prelude::*;

verus! {

/// One byte range of the raw blob, as a plain pair of offset and size.
#[derive(Debug, Clone, Copy, PartialEq, Eq, Structural)]
pub struct RegionSpan {
    pub offset_in_firmware: u64,
    pub region_size: u64,
}

impl FirmwareRegion for RegionSpan {
    open spec fn spec_offset_in_firmware(&self) -> int {
        self.offset_in_firmware as int
    }

    open spec fn spec_region_size(&self) -> int {
        self.region_size as int
    }

    fn offset_in_firmware(&self) -> u64 {
        self.offset_in_firmware
    }

    fn region_size(&self) -> u64 {
        self.region_size
    }

    fn end_offset_in_firmware(&self) -> u64 {
        self.offset_in_firmware + self.region_size
    }
}

/// A seek target, measured in the logical coordinate space.
#[derive(Debug, Clone, Copy, PartialEq, Eq, Structural)]
pub enum SeekFrom {
    /// An absolute logical position.
    Start(u64),
    /// A signed delta from the logical end (the total mapped size).
    End(i64),
    /// A signed delta from the current logical position.
    Current(i64),
}

/// Offset one past the last byte of a span.
pub open spec fn span_end(r: RegionSpan) -> int {
    r.offset_in_firmware + r.region_size
}

/// Every span's end stays representable as a `u64`.
pub open spec fn spans_bounded(rs: Seq<RegionSpan>) -> bool {
    forall|i: int| 0 <= i < rs.len() ==> span_end(#[trigger] rs[i]) <= u64::MAX
}

/// Spans are in ascending order of offset.
pub open spec fn spans_sorted(rs: Seq<RegionSpan>) -> bool {
    forall|i: int, j: int|
        0 <= i < j < rs.len() ==> (#[trigger] rs[i]).offset_in_firmware <= (
        #[trigger] rs[j]).offset_in_firmware
}

/// Consecutive spans do not overlap.
pub open spec fn spans_disjoint(rs: Seq<RegionSpan>) -> bool {
    forall|i: int| 0 <= i && i + 1 < rs.len() ==> span_end(#[trigger] rs[i]) <= rs[i + 1].offset_in_firmware
}

/// Every span lies inside a blob of `len` bytes.
pub open spec fn spans_within(rs: Seq<RegionSpan>, len: int) -> bool {
    forall|i: int| 0 <= i < rs.len() ==> span_end(#[trigger] rs[i]) <= len
}

/// Every span holds at least one byte.
pub open spec fn spans_positive(rs: Seq<RegionSpan>) -> bool {
    forall|i: int| 0 <= i < rs.len() ==> (#[trigger] rs[i]).region_size > 0
}

/// The region set a reader's detailed contracts are stated for: sorted,
/// non-overlapping, non-empty regions that all lie inside the blob.
/// Behaviour over other sets (notably overlapping regions) is undefined by
/// design.
pub open spec fn reader_wf(rs: Seq<RegionSpan>, len: int) -> bool {
    &&& spans_sorted(rs)
    &&& spans_disjoint(rs)
    &&& spans_within(rs, len)
    &&& spans_positive(rs)
}

/// Sum of the sizes of the first `n` spans.
pub open spec fn prefix_size(rs: Seq<RegionSpan>, n: int) -> int
    decreases n,
{
    if n <= 0 {
        0
    } else {
        prefix_size(rs, n - 1) + rs[n - 1].region_size
    }
}

/// Sum of all span sizes: the total mapped size of the logical stream.
pub open spec fn total_size(rs: Seq<RegionSpan>) -> int {
    prefix_size(rs, rs.len() as int)
}

/// End of the last span, or 0 when there is none.
pub open spec fn spans_last_end(rs: Seq<RegionSpan>) -> int {
    if rs.len() == 0 {
        0
    } else {
        span_end(rs[rs.len() - 1])
    }
}

/// The logical stream: the concatenation of the regions' byte ranges of
/// `d`, in order.
pub open spec fn logical_seq(d: Seq<u8>, rs: Seq<RegionSpan>) -> Seq<u8>
    decreases rs.len(),
{
    if rs.len() == 0 {
        Seq::empty()
    } else {
        d.subrange(rs[0].offset_in_firmware as int, span_end(rs[0])) + logical_seq(
            d,
            rs.drop_first(),
        )
    }
}

/// Index of the first span, at or after `k`, that does not end at or
/// before `pos`; `rs.len()` when every one does.
pub open spec fn scan_ended(rs: Seq<RegionSpan>, pos: int, k: int) -> int
    decreases rs.len() - k,
{
    if k < 0 || k >= rs.len() {
        rs.len() as int
    } else if span_end(rs[k]) <= pos {
        scan_ended(rs, pos, k + 1)
    } else {
        k
    }
}

/// Number of leading spans that end at or before `pos`.
pub open spec fn num_ended(rs: Seq<RegionSpan>, pos: int) -> int {
    scan_ended(rs, pos, 0)
}

/// Where a raw position falls relative to the region set, with exact
/// (unbounded) arithmetic.
pub ghost enum GhostPosition {
    /// Before the first mapped byte: unreadable.
    BeforeFirst,
    /// Inside region `index`, `delta` bytes into it, at logical position
    /// `translated`.
    Inside { index: int, delta: int, translated: int },
    /// Strictly between two mapped regions: unreadable.
    Between,
    /// At or past the mapped end; logical addressing keeps counting into
    /// the unmapped extension.
    AfterLast { translated: int },
}

/// The position classifier: maps a raw offset to its class and logical
/// position.
pub open spec fn spec_position(rs: Seq<RegionSpan>, pos: int) -> GhostPosition {
    let k = num_ended(rs, pos);
    if k == rs.len() {
        GhostPosition::AfterLast { translated: prefix_size(rs, k) + (pos - spans_last_end(rs)) }
    } else if rs[k].offset_in_firmware <= pos {
        GhostPosition::Inside {
            index: k,
            delta: pos - rs[k].offset_in_firmware,
            translated: prefix_size(rs, k) + (pos - rs[k].offset_in_firmware),
        }
    } else if prefix_size(rs, k) == 0 {
        GhostPosition::BeforeFirst
    } else {
        GhostPosition::Between
    }
}

/// The logical position of a raw offset, when it has one.
pub open spec fn logical_pos(rs: Seq<RegionSpan>, pos: int) -> Option<int> {
    match spec_position(rs, pos) {
        GhostPosition::Inside { translated, .. } => Some(translated),
        GhostPosition::AfterLast { translated } => Some(translated),
        _ => None,
    }
}

/// The classifier's logical position stays representable as a `u64`.
pub open spec fn position_fits(rs: Seq<RegionSpan>, pos: int) -> bool {
    match spec_position(rs, pos) {
        GhostPosition::Inside { translated, .. } => translated <= u64::MAX,
        GhostPosition::AfterLast { translated } => translated <= u64::MAX,
        _ => true,
    }
}

/// The raw offset a seek to logical position `n` lands on: inside the
/// region containing logical `n`, or past the end of the last region when
/// `n` exceeds the total mapped size.
pub open spec fn raw_of_logical(rs: Seq<RegionSpan>, n: int) -> int
    decreases rs.len(),
{
    if rs.len() == 0 {
        n
    } else if n < rs[0].region_size {
        rs[0].offset_in_firmware + n
    } else if rs.len() == 1 {
        span_end(rs[0]) + (n - rs[0].region_size)
    } else {
        raw_of_logical(rs.drop_first(), n - rs[0].region_size)
    }
}

/// What the classifier reports, rounded into the executable enum.
#[derive(Debug, Clone, Copy, PartialEq, Eq, Structural)]
pub enum ReaderPositionInfo {
    BeforeFirstRegion,
    InRegion { region_index: usize, offset: u64, translated_position: u64 },
    BetweenRegions,
    AfterLastRegion { translated_position: u64 },
}

/// The executable rendering of the classifier's answer.
pub open spec fn spec_info(rs: Seq<RegionSpan>, pos: int) -> ReaderPositionInfo {
    match spec_position(rs, pos) {
        GhostPosition::BeforeFirst => ReaderPositionInfo::BeforeFirstRegion,
        GhostPosition::Inside { index, delta, translated } => ReaderPositionInfo::InRegion {
            region_index: index as usize,
            offset: delta as u64,
            translated_position: translated as u64,
        },
        GhostPosition::Between => ReaderPositionInfo::BetweenRegions,
        GhostPosition::AfterLast { translated } => ReaderPositionInfo::AfterLastRegion {
            translated_position: translated as u64,
        },
    }
}

proof fn lemma_prefix_size_nonneg(rs: Seq<RegionSpan>, n: int)
    ensures
        prefix_size(rs, n) >= 0,
    decreases n,
{
    if n > 0 {
        lemma_prefix_size_nonneg(rs, n - 1);
    }
}

proof fn lemma_prefix_size_mono(rs: Seq<RegionSpan>, a: int, b: int)
    requires
        a <= b,
    ensures
        prefix_size(rs, a) <= prefix_size(rs, b),
    decreases b - a,
{
    if a < b {
        lemma_prefix_size_mono(rs, a, b - 1);
    }
}

proof fn lemma_prefix_drop(rs: Seq<RegionSpan>, n: int)
    requires
        rs.len() > 0,
        0 <= n <= rs.len() - 1,
    ensures
        prefix_size(rs.drop_first(), n) == prefix_size(rs, n + 1) - rs[0].region_size,
    decreases n,
{
    if n == 0 {
        assert(prefix_size(rs.drop_first(), 0) == 0);
        assert(prefix_size(rs, 1) == prefix_size(rs, 0) + rs[0].region_size);
    } else {
        lemma_prefix_drop(rs, n - 1);
        assert(rs.drop_first()[n - 1] == rs[n]);
        assert(prefix_size(rs.drop_first(), n) == prefix_size(rs.drop_first(), n - 1)
            + rs.drop_first()[n - 1].region_size);
        assert(prefix_size(rs, n + 1) == prefix_size(rs, n) + rs[n].region_size);
    }
}

/// The logical stream is as long as the sum of the region sizes.
pub proof fn lemma_logical_stream_length(d: Seq<u8>, rs: Seq<RegionSpan>)
    requires
        spans_within(rs, d.len() as int),
    ensures
        logical_seq(d, rs).len() == total_size(rs),
        total_size(rs) >= 0,
    decreases rs.len(),
{
    lemma_prefix_size_nonneg(rs, rs.len() as int);
    if rs.len() > 0 {
        assert(rs[0].offset_in_firmware >= 0);
        assert(span_end(rs[0]) <= d.len());
        assert(spans_within(rs.drop_first(), d.len() as int)) by {
            assert(forall|i: int|
                0 <= i < rs.drop_first().len() ==> #[trigger] rs.drop_first()[i] == rs[i + 1]);
        }
        lemma_logical_stream_length(d, rs.drop_first());
        lemma_prefix_drop(rs, rs.len() - 1);
    }
}

/// Byte `d` of region `k` sits at logical position `prefix_size(k) + d`.
pub proof fn lemma_logical_index(d: Seq<u8>, rs: Seq<RegionSpan>, k: int, off: int)
    requires
        spans_within(rs, d.len() as int),
        0 <= k < rs.len(),
        0 <= off < rs[k].region_size,
    ensures
        0 <= prefix_size(rs, k) + off < logical_seq(d, rs).len(),
        logical_seq(d, rs)[prefix_size(rs, k) + off] == d[rs[k].offset_in_firmware + off],
    decreases k,
{
    lemma_logical_stream_length(d, rs);
    lemma_prefix_size_nonneg(rs, k);
    lemma_prefix_size_mono(rs, k + 1, rs.len() as int);
    assert(spans_within(rs.drop_first(), d.len() as int)) by {
        assert(forall|i: int|
            0 <= i < rs.drop_first().len() ==> #[trigger] rs.drop_first()[i] == rs[i + 1]);
    }
    if k == 0 {
        assert(logical_seq(d, rs)[off] == d.subrange(
            rs[0].offset_in_firmware as int,
            span_end(rs[0]),
        )[off]);
    } else {
        lemma_logical_index(d, rs.drop_first(), k - 1, off);
        lemma_prefix_drop(rs, k - 1);
        lemma_logical_stream_length(d, rs.drop_first());
        assert(rs.drop_first()[k - 1] == rs[k]);
        assert(logical_seq(d, rs)[prefix_size(rs, k) + off] == logical_seq(d, rs.drop_first())[
            prefix_size(rs.drop_first(), k - 1) + off]);
    }
}

proof fn lemma_scan_ended_props(rs: Seq<RegionSpan>, pos: int, k: int)
    requires
        0 <= k <= rs.len(),
    ensures
        k <= scan_ended(rs, pos, k) <= rs.len(),
        forall|j: int| k <= j < scan_ended(rs, pos, k) ==> span_end(#[trigger] rs[j]) <= pos,
        scan_ended(rs, pos, k) < rs.len() ==> span_end(rs[scan_ended(rs, pos, k)]) > pos,
    decreases rs.len() - k,
{
    if k < rs.len() && span_end(rs[k]) <= pos {
        lemma_scan_ended_props(rs, pos, k + 1);
    }
}

proof fn lemma_scan_ended_at(rs: Seq<RegionSpan>, pos: int, k: int, m: int)
    requires
        0 <= k <= m <= rs.len(),
        forall|j: int| k <= j < m ==> span_end(#[trigger] rs[j]) <= pos,
        m < rs.len() ==> span_end(rs[m]) > pos,
    ensures
        scan_ended(rs, pos, k) == m,
    decreases m - k,
{
    if k < m {
        lemma_scan_ended_at(rs, pos, k + 1, m);
    }
}

/// Under a sorted, disjoint set every earlier span ends at or before every
/// later span's offset.
proof fn lemma_spans_chain(rs: Seq<RegionSpan>, i: int, j: int)
    requires
        spans_sorted(rs),
        spans_disjoint(rs),
        0 <= i < j < rs.len(),
    ensures
        span_end(rs[i]) <= rs[j].offset_in_firmware,
{
    assert(span_end(rs[i]) <= rs[i + 1].offset_in_firmware);
    if i + 1 < j {
        assert(rs[i + 1].offset_in_firmware <= rs[j].offset_in_firmware);
    }
}

/// Under a sorted, disjoint set the first `k` regions all fit before
/// region `k`'s offset.
proof fn lemma_prefix_le_offset(rs: Seq<RegionSpan>, k: int)
    requires
        spans_sorted(rs),
        spans_disjoint(rs),
        0 <= k <= rs.len(),
    ensures
        k < rs.len() ==> prefix_size(rs, k) <= rs[k].offset_in_firmware,
        prefix_size(rs, k) <= (if k == 0 {
            0
        } else {
            span_end(rs[k - 1])
        }),
    decreases k,
{
    if k > 0 {
        lemma_prefix_le_offset(rs, k - 1);
        if k < rs.len() {
            assert(span_end(rs[k - 1]) <= rs[k].offset_in_firmware);
        }
    }
}

/// Under a well-formed set, every position's logical translation fits.
pub proof fn lemma_wf_fits(rs: Seq<RegionSpan>, len: int, pos: int)
    requires
        spans_sorted(rs),
        spans_disjoint(rs),
        0 <= pos <= u64::MAX,
    ensures
        position_fits(rs, pos),
{
    let k = num_ended(rs, pos);
    lemma_scan_ended_props(rs, pos, 0);
    lemma_prefix_le_offset(rs, k);
    lemma_prefix_size_nonneg(rs, k);
    if k == rs.len() {
        assert(prefix_size(rs, k) <= spans_last_end(rs));
    }
}

/// Classifying a position inside region `k` reports region `k` with the
/// right local offset and logical translation.
pub proof fn lemma_position_inside(rs: Seq<RegionSpan>, k: int, delta: int)
    requires
        spans_sorted(rs),
        spans_disjoint(rs),
        0 <= k < rs.len(),
        0 <= delta < rs[k].region_size,
    ensures
        spec_position(rs, rs[k].offset_in_firmware + delta) == (GhostPosition::Inside {
            index: k,
            delta: delta,
            translated: prefix_size(rs, k) + delta,
        }),
{
    let pos = rs[k].offset_in_firmware + delta;
    assert(forall|j: int| 0 <= j < k ==> span_end(#[trigger] rs[j]) <= pos) by {
        assert(forall|j: int| 0 <= j < k ==> span_end(#[trigger] rs[j])
            <= rs[k].offset_in_firmware) by {
            assert forall|j: int| 0 <= j < k implies span_end(#[trigger] rs[j])
                <= rs[k].offset_in_firmware by {
                lemma_spans_chain(rs, j, k);
            }
        }
    }
    lemma_scan_ended_at(rs, pos, 0, k);
}

proof fn lemma_raw_of_logical_nonneg(rs: Seq<RegionSpan>, n: int)
    requires
        n >= 0,
    ensures
        raw_of_logical(rs, n) >= 0,
    decreases rs.len(),
{
    if rs.len() == 0 {
    } else if n < rs[0].region_size {
    } else if rs.len() == 1 {
    } else {
        lemma_raw_of_logical_nonneg(rs.drop_first(), n - rs[0].region_size);
    }
}

/// A seek target below the total mapped size lands inside the region that
/// holds logical byte `n`; one at or above it lands in the unmapped
/// extension past the last region, from where a read returns zero bytes
/// (clean end of stream).  Either way the position classifies back to
/// logical position `n` exactly: after any successful seek, the next read
/// starts at the requested logical byte.
pub proof fn lemma_raw_of_logical(rs: Seq<RegionSpan>, len: int, n: int)
    requires
        reader_wf(rs, len),
        0 <= n,
    ensures
        n < total_size(rs) ==> (spec_position(rs, raw_of_logical(rs, n))
            matches GhostPosition::Inside { translated, index, delta } && translated == n && 0
            <= index < rs.len() && prefix_size(rs, index) + delta == n && raw_of_logical(rs, n)
            == rs[index].offset_in_firmware + delta && 0 <= delta < rs[index].region_size),
        n >= total_size(rs) ==> raw_of_logical(rs, n) == spans_last_end(rs) + (n - total_size(rs))
            && spec_position(rs, raw_of_logical(rs, n)) == (GhostPosition::AfterLast {
            translated: n,
        }),
    decreases rs.len(),
{
    lemma_prefix_size_nonneg(rs, rs.len() as int);
    if rs.len() == 0 {
        lemma_scan_ended_at(rs, n, 0, 0);
    } else if n < rs[0].region_size {
        lemma_position_inside(rs, 0, n);
        lemma_prefix_size_mono(rs, 1, rs.len() as int);
    } else if rs.len() == 1 {
        let raw = span_end(rs[0]) + (n - rs[0].region_size);
        lemma_scan_ended_at(rs, raw, 0, 1);
    } else {
        let tail = rs.drop_first();
        let m = n - rs[0].region_size;
        assert(forall|i: int| 0 <= i < tail.len() ==> #[trigger] tail[i] == rs[i + 1]);
        assert(reader_wf(tail, len));
        lemma_raw_of_logical(tail, len, m);
        lemma_prefix_drop(rs, rs.len() - 1);
        assert(total_size(tail) == total_size(rs) - rs[0].region_size);
        assert(spans_last_end(tail) == spans_last_end(rs));
        if m < total_size(tail) {
            match spec_position(tail, raw_of_logical(tail, m)) {
                GhostPosition::Inside { index, delta, translated } => {
                    assert(raw_of_logical(rs, n) == tail[index].offset_in_firmware + delta);
                    assert(tail[index] == rs[index + 1]);
                    lemma_position_inside(rs, index + 1, delta);
                    lemma_prefix_drop(rs, index);
                },
                _ => {
                    assert(false);
                },
            }
        } else {
            let raw = raw_of_logical(rs, n);
            assert(raw == spans_last_end(rs) + (n - total_size(rs)));
            assert forall|j: int| 0 <= j < rs.len() implies span_end(#[trigger] rs[j]) <= raw by {
                if j < rs.len() - 1 {
                    lemma_spans_chain(rs, j, rs.len() - 1);
                }
                lemma_prefix_size_nonneg(tail, tail.len() as int);
            }
            lemma_scan_ended_at(rs, raw, 0, rs.len() as int);
        }
    }
}

/// Seek/read equivalence: the raw byte a seek to logical `p` lands on is
/// byte `p` of the logical stream.
pub proof fn lemma_seek_read_equivalence(d: Seq<u8>, rs: Seq<RegionSpan>, p: int)
    requires
        reader_wf(rs, d.len() as int),
        0 <= p < total_size(rs),
    ensures
        0 <= raw_of_logical(rs, p) < d.len(),
        d[raw_of_logical(rs, p)] == logical_seq(d, rs)[p],
{
    lemma_raw_of_logical(rs, d.len() as int, p);
    match spec_position(rs, raw_of_logical(rs, p)) {
        GhostPosition::Inside { index, delta, translated } => {
            lemma_logical_index(d, rs, index, delta);
        },
        _ => {
            assert(false);
        },
    }
}

/// Gap safety: a raw position strictly between two mapped regions
/// classifies as unreadable, never as part of the logical stream.
pub proof fn lemma_gap_position(rs: Seq<RegionSpan>, len: int, pos: int, k: int)
    requires
        reader_wf(rs, len),
        0 <= k,
        k + 1 < rs.len(),
        span_end(rs[k]) <= pos < rs[k + 1].offset_in_firmware,
    ensures
        spec_position(rs, pos) == GhostPosition::Between,
        logical_pos(rs, pos) is None,
{
    assert forall|j: int| 0 <= j <= k implies span_end(#[trigger] rs[j]) <= pos by {
        if j < k {
            lemma_spans_chain(rs, j, k);
        }
    }
    lemma_scan_ended_at(rs, pos, 0, k + 1);
    lemma_prefix_size_nonneg(rs, k);
    assert(prefix_size(rs, k + 1) == prefix_size(rs, k) + rs[k].region_size);
}

/// Bounds tied to a classified position: a position inside a region
/// translates to a logical position below the total mapped size, one past
/// the mapped end to at least the total mapped size.
pub proof fn lemma_logical_pos_bounds(rs: Seq<RegionSpan>, len: int, pos: int)
    requires
        reader_wf(rs, len),
        0 <= pos,
    ensures
        match spec_position(rs, pos) {
            GhostPosition::Inside { index, delta, translated } => 0 <= translated && translated
                < total_size(rs) && 0 <= index < rs.len() && translated == prefix_size(rs, index)
                + delta && 0 <= delta < rs[index].region_size && rs[index].offset_in_firmware
                + delta == pos,
            GhostPosition::AfterLast { translated } => total_size(rs) <= translated,
            _ => true,
        },
        total_size(rs) >= 0,
{
    lemma_scan_ended_props(rs, pos, 0);
    let k = num_ended(rs, pos);
    lemma_prefix_size_nonneg(rs, k);
    lemma_prefix_size_nonneg(rs, rs.len() as int);
    if k == rs.len() {
        lemma_prefix_le_offset(rs, rs.len() as int);
    } else {
        lemma_prefix_size_mono(rs, k + 1, rs.len() as int);
        assert(prefix_size(rs, k + 1) == prefix_size(rs, k) + rs[k].region_size);
    }
}

/// Two adjacent slices of one sequence concatenate to the covering slice.
proof fn lemma_concat_subrange(l: Seq<u8>, t: int, a: Seq<u8>, b: Seq<u8>)
    requires
        0 <= t,
        t + a.len() + b.len() <= l.len(),
        a == l.subrange(t, t + a.len()),
        b == l.subrange(t + a.len(), t + a.len() + b.len()),
    ensures
        a + b == l.subrange(t, t + a.len() + b.len()),
{
    assert(a + b =~= l.subrange(t, t + a.len() + b.len()));
}

/// What one read step from inside region `k` returns and where it leaves
/// the raw position.
proof fn lemma_read_step(
    d: Seq<u8>,
    rs: Seq<RegionSpan>,
    pos0: int,
    count: int,
    k: int,
    delta: int,
    translated: int,
)
    requires
        reader_wf(rs, d.len() as int),
        spec_position(rs, pos0) == (GhostPosition::Inside { index: k, delta, translated }),
        0 <= k < rs.len(),
        rs[k].offset_in_firmware + delta == pos0,
        0 <= delta < rs[k].region_size,
        0 <= count,
    ensures
        ({
            let n = if count <= rs[k].region_size - delta {
                count
            } else {
                rs[k].region_size - delta
            };
            let raw2 = if delta + n == rs[k].region_size && k + 1 < rs.len() {
                rs[k + 1].offset_in_firmware as int
            } else {
                pos0 + n
            };
            &&& pos0 + (rs[k].region_size - delta) <= d.len()
            &&& translated + n <= total_size(rs)
            &&& d.subrange(pos0, pos0 + n) == logical_seq(d, rs).subrange(
                translated,
                translated + n,
            )
            &&& logical_pos(rs, raw2) == Some(translated + n)
        }),
{
    let n = if count <= rs[k].region_size - delta {
        count
    } else {
        rs[k].region_size - delta
    };
    assert(span_end(rs[k]) <= d.len());
    lemma_logical_stream_length(d, rs);
    lemma_prefix_size_mono(rs, k + 1, rs.len() as int);
    lemma_prefix_size_nonneg(rs, k);
    assert(prefix_size(rs, k + 1) == prefix_size(rs, k) + rs[k].region_size);
    assert(translated + n <= total_size(rs));
    assert forall|j: int| 0 <= j < n implies #[trigger] logical_seq(d, rs)[translated + j] == d[pos0
        + j] by {
        lemma_logical_index(d, rs, k, delta + j);
    }
    assert(translated >= 0);
    assert(pos0 + n <= d.len());
    assert forall|j: int| 0 <= j < n implies #[trigger] d.subrange(pos0, pos0 + n)[j] == logical_seq(
        d,
        rs,
    ).subrange(translated, translated + n)[j] by {
        assert(logical_seq(d, rs)[translated + j] == d[pos0 + j]);
    }
    assert(d.subrange(pos0, pos0 + n) =~= logical_seq(d, rs).subrange(translated, translated + n));
    let raw2 = if delta + n == rs[k].region_size && k + 1 < rs.len() {
        rs[k + 1].offset_in_firmware as int
    } else {
        pos0 + n
    };
    if delta + n == rs[k].region_size && k + 1 < rs.len() {
        lemma_position_inside(rs, k + 1, 0);
    } else if delta + n < rs[k].region_size {
        lemma_position_inside(rs, k, delta + n);
    } else {
        assert(k == rs.len() - 1);
        assert(raw2 == spans_last_end(rs));
        assert forall|j: int| 0 <= j < rs.len() implies span_end(#[trigger] rs[j]) <= raw2 by {
            if j < rs.len() - 1 {
                lemma_spans_chain(rs, j, rs.len() - 1);
            }
        }
        lemma_scan_ended_at(rs, raw2, 0, rs.len() as int);
    }
}

/// Sorts spans ascending by offset.  The result is a permutation of the
/// input holding exactly the same spans.
fn sort_spans(input: Vec<RegionSpan>) -> (out: Vec<RegionSpan>)
    ensures
        spans_sorted(out@),
        out@.to_multiset() == input@.to_multiset(),
        out@.len() == input@.len(),
        forall|e: RegionSpan| out@.contains(e) ==> input@.contains(e),
{
    broadcast use vstd::seq_lib::group_to_multiset_ensures;

    let mut rest = input;
    let mut out: Vec<RegionSpan> = Vec::new();
    proof {
        assert(out@.to_multiset().add(rest@.to_multiset()) =~= input@.to_multiset());
    }
    while rest.len() > 0
        invariant
            out@.to_multiset().add(rest@.to_multiset()) == input@.to_multiset(),
            out@.len() + rest@.len() == input@.len(),
            spans_sorted(out@),
            forall|a: int, b: int|
                0 <= a < out@.len() && 0 <= b < rest@.len() ==> (#[trigger] out@[a]).offset_in_firmware
                    <= (#[trigger] rest@[b]).offset_in_firmware,
        decreases rest.len(),
    {
        let mut m: usize = 0;
        let mut i: usize = 1;
        while i < rest.len()
            invariant
                m < i <= rest@.len(),
                rest@.len() > 0,
                forall|j: int|
                    0 <= j < i ==> rest@[m as int].offset_in_firmware <= (
                    #[trigger] rest@[j]).offset_in_firmware,
            decreases rest@.len() - i,
        {
            if rest[i].offset_in_firmware < rest[m].offset_in_firmware {
                m = i;
            }
            i = i + 1;
        }
        let ghost old_out = out@;
        let ghost old_rest = rest@;
        let x = rest.remove(m);
        out.push(x);
        proof {
            broadcast use vstd::seq_lib::group_to_multiset_ensures;

            assert(old_rest.contains(x));
            assert(out@ == old_out.push(x));
            assert(old_out.push(x).to_multiset() =~= old_out.to_multiset().insert(x));
            assert(rest@ == old_rest.remove(m as int));
            assert(old_rest.remove(m as int).to_multiset() =~= old_rest.to_multiset().remove(
                old_rest[m as int],
            ));
            assert(out@.to_multiset().add(rest@.to_multiset()) =~= input@.to_multiset());
            assert(forall|b: int|
                0 <= b < rest@.len() ==> old_rest.contains(#[trigger] rest@[b]));
            assert(forall|b: int|
                0 <= b < rest@.len() ==> x.offset_in_firmware <= (
                #[trigger] rest@[b]).offset_in_firmware);
            assert(forall|a: int|
                0 <= a < out@.len() ==> (#[trigger] out@[a]).offset_in_firmware
                    <= x.offset_in_firmware);
        }
    }
    proof {
        broadcast use vstd::seq_lib::group_to_multiset_ensures;

        assert(rest@.to_multiset() =~= vstd::multiset::Multiset::empty());
        assert(out@.to_multiset() =~= input@.to_multiset());
        assert forall|e: RegionSpan| out@.contains(e) implies input@.contains(e) by {
            if out@.contains(e) {
                assert(out@.to_multiset().count(e) > 0);
                assert(input@.to_multiset().count(e) > 0);
            }
        }
    }
    out
}

/// The address-translating cursor over one raw blob and an ordered region
/// set.  It holds the current raw position itself; the blob is shared and
/// never modified.
pub struct ContinuousRegionReader<'a> {
    pub source: &'a Vec<u8>,
    pub raw_position: u64,
    pub regions: Vec<RegionSpan>,
}

impl<'a> ContinuousRegionReader<'a> {
    /// The detailed read/seek contracts hold under this well-formedness of
    /// the reader's own region set.
    pub open spec fn wf(&self) -> bool {
        reader_wf(self.regions@, self.source@.len() as int)
    }

    /// Builds a reader over `source` spanning `regions`, which may arrive
    /// unsorted; they are sorted ascending by offset.  The raw position
    /// starts at offset 0.
    pub fn new(source: &'a Vec<u8>, regions: Vec<RegionSpan>) -> (r: Self)
        requires
            spans_bounded(regions@),
        ensures
            r.source == source,
            r.raw_position == 0,
            spans_sorted(r.regions@),
            spans_bounded(r.regions@),
            r.regions@.to_multiset() == regions@.to_multiset(),
            r.regions@.len() == regions@.len(),
            forall|e: RegionSpan| r.regions@.contains(e) ==> regions@.contains(e),
    {
        let sorted = sort_spans(regions);
        proof {
            assert forall|i: int| 0 <= i < sorted@.len() implies span_end(#[trigger] sorted@[i])
                <= u64::MAX by {
                assert(sorted@.contains(sorted@[i]));
                let j = choose|j: int| 0 <= j < regions@.len() && regions@[j] == sorted@[i];
                assert(span_end(regions@[j]) <= u64::MAX);
            }
        }
        ContinuousRegionReader { source, raw_position: 0, regions: sorted }
    }

    /// Classifies a raw offset: before the first region, inside one, in a
    /// gap, or past the mapped end, with its logical translation.
    pub fn reader_position_info(&self, firmware_position: u64) -> (r: ReaderPositionInfo)
        requires
            spans_bounded(self.regions@),
        ensures
            position_fits(self.regions@, firmware_position as int) ==> r == spec_info(
                self.regions@,
                firmware_position as int,
            ),
            r matches ReaderPositionInfo::InRegion { region_index, offset, .. } ==> region_index
                < self.regions@.len() && offset < self.regions@[region_index as int].region_size
                && self.regions@[region_index as int].offset_in_firmware + offset
                == firmware_position,
    {
        let ghost rs = self.regions@;
        let ghost pos = firmware_position as int;
        let mut acc: u64 = 0;
        let mut end: u64 = 0;
        let mut i: usize = 0;
        let n = self.regions.len();
        proof {
            lemma_prefix_size_nonneg(rs, rs.len() as int);
        }
        while i < n
            invariant
                spans_bounded(rs),
                rs == self.regions@,
                pos == firmware_position as int,
                n == rs.len(),
                0 <= i <= n,
                scan_ended(rs, pos, 0) == scan_ended(rs, pos, i as int),
                forall|j: int| 0 <= j < i ==> span_end(#[trigger] rs[j]) <= pos,
                prefix_size(rs, i as int) <= u64::MAX ==> acc == prefix_size(rs, i as int),
                acc == 0 <==> prefix_size(rs, i as int) == 0,
                end as int == (if i == 0 {
                    0
                } else {
                    span_end(rs[i - 1])
                }),
            decreases n - i,
        {
            let ghost prev_acc = acc;
            let region = self.regions[i];
            let off = region.offset_in_firmware;
            let size = region.region_size;
            proof {
                assert(span_end(rs[i as int]) <= u64::MAX);
                lemma_prefix_size_nonneg(rs, i as int);
            }
            end = off + size;
            if end <= firmware_position {
                acc = acc.saturating_add(size);
                proof {
                    if prefix_size(rs, i + 1) <= u64::MAX {
                        assert(prefix_size(rs, i as int) <= prefix_size(rs, i + 1)) by {
                            lemma_prefix_size_mono(rs, i as int, i + 1);
                        }
                    }
                }
                i = i + 1;
            } else if off <= firmware_position {
                let offset = firmware_position - off;
                proof {
                    lemma_scan_ended_at(rs, pos, i as int, i as int);
                }
                return ReaderPositionInfo::InRegion {
                    region_index: i,
                    offset,
                    translated_position: acc.saturating_add(offset),
                };
            } else if acc == 0 {
                proof {
                    lemma_scan_ended_at(rs, pos, i as int, i as int);
                }
                return ReaderPositionInfo::BeforeFirstRegion;
            } else {
                proof {
                    lemma_scan_ended_at(rs, pos, i as int, i as int);
                }
                return ReaderPositionInfo::BetweenRegions;
            }
        }
        proof {
            lemma_scan_ended_at(rs, pos, i as int, i as int);
        }
        ReaderPositionInfo::AfterLastRegion {
            translated_position: acc.saturating_add(firmware_position - end),
        }
    }

    /// Reads up to `count` bytes at the current raw position.  Inside a
    /// region it returns the next `min(count, bytes left in the region)`
    /// bytes of the logical stream and, when the read exactly exhausts the
    /// region, repositions to the start of the next one so a following
    /// read is seamless.  At or past the mapped end it returns zero bytes
    /// (clean end of stream, not an error); before the first region or in
    /// a gap between regions it fails with an input error.
    #[verifier::rlimit(60)]
    pub fn read(&mut self, count: usize) -> (r: Result<Vec<u8>, Error>)
        requires
            spans_bounded(old(self).regions@),
        ensures
            final(self).source == old(self).source,
            final(self).regions == old(self).regions,
            r matches Ok(v) ==> v@.len() <= count,
            old(self).wf() ==> ({
                let rs = old(self).regions@;
                let d = old(self).source@;
                let pos = old(self).raw_position as int;
                match spec_position(rs, pos) {
                    GhostPosition::Inside { index, delta, translated } => ({
                        let n = if count as int <= rs[index].region_size - delta {
                            count as int
                        } else {
                            rs[index].region_size - delta
                        };
                        let raw2 = if delta + n == rs[index].region_size && index + 1 < rs.len() {
                            rs[index + 1].offset_in_firmware as int
                        } else {
                            pos + n
                        };
                        &&& r matches Ok(v)
                        &&& v@ == logical_seq(d, rs).subrange(translated, translated + n)
                        &&& translated + n <= total_size(rs)
                        &&& logical_pos(rs, final(self).raw_position as int) == Some(translated + n)
                        &&& final(self).raw_position as int == raw2
                    }),
                    GhostPosition::AfterLast { translated } => ({
                        &&& r matches Ok(v)
                        &&& v@.len() == 0
                        &&& final(self).raw_position == old(self).raw_position
                    }),
                    GhostPosition::BeforeFirst => ({
                        &&& r matches Err(e)
                        &&& e is InvalidInput
                        &&& final(self).raw_position == old(self).raw_position
                    }),
                    GhostPosition::Between => ({
                        &&& r matches Err(e)
                        &&& e is InvalidInput
                        &&& final(self).raw_position == old(self).raw_position
                    }),
                }
            }),
    {
        let ghost rs = self.regions@;
        let ghost d = self.source@;
        let ghost pos0 = self.raw_position as int;
        proof {
            if old(self).wf() {
                lemma_wf_fits(rs, d.len() as int, pos0);
            }
        }
        let info = self.reader_position_info(self.raw_position);
        match info {
            ReaderPositionInfo::InRegion { region_index, offset, .. } => {
                let region = self.regions[region_index];
                let bytes_left = region.region_size - offset;
                let want = if (count as u64) < bytes_left {
                    count as u64
                } else {
                    bytes_left
                };
                let src_len = self.source.len() as u64;
                let avail = if self.raw_position < src_len {
                    src_len - self.raw_position
                } else {
                    0
                };
                let n = if want < avail {
                    want
                } else {
                    avail
                };
                let v = match read_bytes(self.source, self.raw_position, n as usize) {
                    Some(v) => v,
                    None => {
                        return Ok(Vec::new());
                    },
                };
                let rlen = self.regions.len();
                proof {
                    assert(region_index < rlen);
                }
                if n == bytes_left && region_index < rlen - 1 {
                    self.raw_position = self.regions[region_index + 1].offset_in_firmware;
                } else {
                    self.raw_position = self.raw_position + n;
                }
                proof {
                    if old(self).wf() {
                        let k = region_index as int;
                        let delta = offset as int;
                        lemma_scan_ended_props(rs, pos0, 0);
                        match spec_position(rs, pos0) {
                            GhostPosition::Inside { index, delta: sdelta, translated } => {
                                assert(index == k && sdelta == delta);
                                lemma_read_step(d, rs, pos0, count as int, k, delta, translated);
                                assert(avail as int >= bytes_left as int);
                            },
                            _ => {
                                assert(false);
                            },
                        }
                    }
                }
                Ok(v)
            },
            ReaderPositionInfo::AfterLastRegion { .. } => {
                proof {
                    if old(self).wf() {
                        match spec_position(rs, pos0) {
                            GhostPosition::AfterLast { .. } => {},
                            _ => {
                                assert(false);
                            },
                        }
                    }
                }
                Ok(Vec::new())
            },
            _ => {
                proof {
                    if old(self).wf() {
                        match spec_position(rs, pos0) {
                            GhostPosition::BeforeFirst => {},
                            GhostPosition::Between => {},
                            _ => {
                                assert(false);
                            },
                        }
                    }
                }
                Err(Error::InvalidInput(String::from_str("cannot read outside the mapped regions")))
            },
        }
    }

    /// Reads exactly `count` bytes, transparently crossing region
    /// boundaries.  Starting at logical position `t`, it succeeds if and
    /// only if `t + count` does not pass the total mapped size, and then
    /// returns logical bytes `[t, t + count)` and leaves the stream at
    /// logical position `t + count`.
    pub fn read_exact(&mut self, count: usize) -> (r: Result<Vec<u8>, Error>)
        requires
            spans_bounded(old(self).regions@),
        ensures
            final(self).source == old(self).source,
            final(self).regions == old(self).regions,
            r matches Ok(v) ==> v@.len() == count,
            old(self).wf() ==> ({
                let rs = old(self).regions@;
                let d = old(self).source@;
                let pos = old(self).raw_position as int;
                if count == 0 {
                    r is Ok
                } else {
                    match logical_pos(rs, pos) {
                        Some(t) => if t + count <= total_size(rs) {
                            r matches Ok(v) && v@ == logical_seq(d, rs).subrange(t, t + count)
                                && logical_pos(rs, final(self).raw_position as int) == Some(
                                t + count,
                            )
                        } else {
                            r is Err
                        },
                        None => r is Err,
                    }
                }
            }),
    {
        let ghost rs = self.regions@;
        let ghost d = self.source@;
        let ghost pos0 = self.raw_position as int;
        let mut out: Vec<u8> = Vec::new();
        if count == 0 {
            return Ok(out);
        }
        proof {
            if old(self).wf() {
                lemma_logical_stream_length(d, rs);
                lemma_logical_pos_bounds(rs, d.len() as int, pos0);
                match logical_pos(rs, pos0) {
                    Some(t) => {
                        if t <= total_size(rs) {
                            assert(out@ =~= logical_seq(d, rs).subrange(t, t + 0));
                        }
                    },
                    None => {},
                }
            }
        }
        while out.len() < count
            invariant
                spans_bounded(self.regions@),
                self.source == old(self).source,
                self.regions == old(self).regions,
                rs == old(self).regions@,
                d == old(self).source@,
                pos0 == old(self).raw_position as int,
                count > 0,
                out@.len() <= count,
                old(self).wf() ==> (match logical_pos(rs, pos0) {
                    Some(t) => {
                        &&& (t <= total_size(rs) ==> out@ == logical_seq(d, rs).subrange(
                            t,
                            t + out@.len(),
                        ) && t + out@.len() <= total_size(rs) && logical_pos(
                            rs,
                            self.raw_position as int,
                        ) == Some(t + out@.len()))
                        &&& (t > total_size(rs) ==> out@.len() == 0 && self.raw_position == old(
                            self,
                        ).raw_position)
                    },
                    None => out@.len() == 0 && self.raw_position == old(self).raw_position,
                }),
            decreases count - out@.len(),
        {
            let ghost prev = out@;
            let ghost cur_pos = self.raw_position as int;
            proof {
                if old(self).wf() {
                    lemma_logical_stream_length(d, rs);
                    lemma_logical_pos_bounds(rs, d.len() as int, pos0);
                    lemma_logical_pos_bounds(rs, d.len() as int, cur_pos);
                }
            }
            let chunk = match self.read(count - out.len()) {
                Ok(c) => c,
                Err(e) => {
                    proof {
                        if old(self).wf() {
                            match logical_pos(rs, pos0) {
                                Some(t) => {
                                    assert(t + count > total_size(rs));
                                },
                                None => {},
                            }
                        }
                    }
                    return Err(e);
                },
            };
            if chunk.len() == 0 {
                proof {
                    if old(self).wf() {
                        match logical_pos(rs, pos0) {
                            Some(t) => {
                                if t + count <= total_size(rs) {
                                    match spec_position(rs, cur_pos) {
                                        GhostPosition::Inside { index, delta, translated } => {
                                            assert(chunk@.len() > 0);
                                        },
                                        GhostPosition::AfterLast { translated } => {
                                            assert(t <= total_size(rs));
                                            assert(translated == t + prev.len());
                                            assert(t + prev.len() < t + count);
                                            assert(false);
                                        },
                                        _ => {
                                            assert(false);
                                        },
                                    }
                                }
                            },
                            None => {},
                        }
                    }
                }
                return Err(Error::ErrorMessage(String::from_str("failed to fill whole buffer")));
            }
            let ghost ch = chunk@;
            let mut chunk = chunk;
            out.append(&mut chunk);
            proof {
                if old(self).wf() {
                    match logical_pos(rs, pos0) {
                        Some(t) => {
                            if t <= total_size(rs) {
                                match spec_position(rs, cur_pos) {
                                    GhostPosition::Inside { index, delta, translated } => {
                                        assert(translated == t + prev.len());
                                        assert(out@ == prev + ch);
                                        lemma_concat_subrange(logical_seq(d, rs), t, prev, ch);
                                    },
                                    GhostPosition::AfterLast { translated } => {
                                        assert(false);
                                    },
                                    _ => {
                                        assert(false);
                                    },
                                }
                            } else {
                                match spec_position(rs, cur_pos) {
                                    GhostPosition::AfterLast { translated } => {
                                        assert(false);
                                    },
                                    GhostPosition::Inside { index, delta, translated } => {
                                        assert(false);
                                    },
                                    _ => {
                                        assert(false);
                                    },
                                }
                            }
                        },
                        None => {
                            assert(false);
                        },
                    }
                }
            }
        }
        proof {
            if old(self).wf() {
                match logical_pos(rs, pos0) {
                    Some(t) => {
                        if t > total_size(rs) {
                            assert(out@.len() == count && out@.len() == 0);
                            assert(false);
                        }
                    },
                    None => {},
                }
            }
        }
        Ok(out)
    }

    /// Reads from the current logical position to the end of the mapped
    /// stream.
    pub fn read_to_end(&mut self) -> (r: Result<Vec<u8>, Error>)
        requires
            spans_bounded(old(self).regions@),
        ensures
            final(self).source == old(self).source,
            final(self).regions == old(self).regions,
            old(self).wf() ==> ({
                let rs = old(self).regions@;
                let d = old(self).source@;
                let pos = old(self).raw_position as int;
                match logical_pos(rs, pos) {
                    Some(t) => r matches Ok(v) && v@ == (if t <= total_size(rs) {
                        logical_seq(d, rs).subrange(t, total_size(rs))
                    } else {
                        Seq::empty()
                    }),
                    None => r is Err,
                }
            }),
    {
        let ghost rs = self.regions@;
        let ghost d = self.source@;
        let ghost pos0 = self.raw_position as int;
        let mut out: Vec<u8> = Vec::new();
        proof {
            if old(self).wf() {
                lemma_logical_stream_length(d, rs);
                lemma_logical_pos_bounds(rs, d.len() as int, pos0);
                match logical_pos(rs, pos0) {
                    Some(t) => {
                        if t <= total_size(rs) {
                            assert(out@ =~= logical_seq(d, rs).subrange(t, t + 0));
                        }
                    },
                    None => {},
                }
            }
        }
        let mut done = false;
        while !done
            invariant
                spans_bounded(self.regions@),
                self.source == old(self).source,
                self.regions == old(self).regions,
                rs == old(self).regions@,
                d == old(self).source@,
                pos0 == old(self).raw_position as int,
                old(self).wf() ==> (match logical_pos(rs, pos0) {
                    Some(t) => {
                        &&& (t <= total_size(rs) ==> out@ == logical_seq(d, rs).subrange(
                            t,
                            t + out@.len(),
                        ) && t + out@.len() <= total_size(rs) && logical_pos(
                            rs,
                            self.raw_position as int,
                        ) == Some(t + out@.len()))
                        &&& (t > total_size(rs) ==> out@.len() == 0 && self.raw_position == old(
                            self,
                        ).raw_position)
                        &&& (done ==> out@.len() == (if t <= total_size(rs) {
                            total_size(rs) - t
                        } else {
                            0
                        }))
                    },
                    None => out@.len() == 0 && !done && self.raw_position == old(
                        self,
                    ).raw_position,
                }),
                out@.len() <= usize::MAX,
            decreases (if done {
                0int
            } else {
                1int
            }) + (usize::MAX - out@.len()),
        {
            let ghost prev = out@;
            let ghost cur_pos = self.raw_position as int;
            proof {
                if old(self).wf() {
                    lemma_logical_stream_length(d, rs);
                    lemma_logical_pos_bounds(rs, d.len() as int, pos0);
                    lemma_logical_pos_bounds(rs, d.len() as int, cur_pos);
                }
            }
            let want = self.source.len();
            let chunk = match self.read(want) {
                Ok(c) => c,
                Err(e) => {
                    proof {
                        if old(self).wf() {
                            match logical_pos(rs, pos0) {
                                Some(t) => {
                                    assert(false);
                                },
                                None => {},
                            }
                        }
                    }
                    return Err(e);
                },
            };
            if chunk.len() == 0 {
                done = true;
                proof {
                    if old(self).wf() {
                        match logical_pos(rs, pos0) {
                            Some(t) => {
                                match spec_position(rs, cur_pos) {
                                    GhostPosition::Inside { index, delta, translated } => {
                                        assert(span_end(rs[index]) <= d.len());
                                        assert(want as int >= rs[index].region_size - delta);
                                        assert(chunk@.len() > 0);
                                        assert(false);
                                    },
                                    GhostPosition::AfterLast { translated } => {
                                        if t <= total_size(rs) {
                                            assert(translated == t + prev.len());
                                            assert(translated >= total_size(rs));
                                            assert(out@.len() == total_size(rs) - t);
                                        }
                                    },
                                    _ => {
                                        assert(false);
                                    },
                                }
                            },
                            None => {},
                        }
                    }
                }
            } else {
                let ghost ch = chunk@;
                let mut chunk = chunk;
                out.append(&mut chunk);
                proof {
                    vstd::std_specs::vec::axiom_spec_len(&out);
                    if old(self).wf() {
                        match logical_pos(rs, pos0) {
                            Some(t) => {
                                match spec_position(rs, cur_pos) {
                                    GhostPosition::Inside { index, delta, translated } => {
                                        if t <= total_size(rs) {
                                            assert(translated == t + prev.len());
                                            assert(out@ == prev + ch);
                                            lemma_concat_subrange(logical_seq(d, rs), t, prev, ch);
                                        } else {
                                            assert(translated < total_size(rs));
                                            assert(false);
                                        }
                                    },
                                    GhostPosition::AfterLast { translated } => {
                                        assert(ch.len() == 0);
                                        assert(false);
                                    },
                                    _ => {
                                        assert(false);
                                    },
                                }
                            },
                            None => {
                                assert(false);
                            },
                        }
                    }
                }
            }
        }
        proof {
            if old(self).wf() {
                match logical_pos(rs, pos0) {
                    Some(t) => {
                        if t <= total_size(rs) {
                            assert(out@ =~= logical_seq(d, rs).subrange(t, total_size(rs)));
                        } else {
                            assert(out@ =~= Seq::<u8>::empty());
                        }
                    },
                    None => {
                        assert(false);
                    },
                }
            }
        }
        Ok(out)
    }

    /// Seeks to absolute logical position `from_start`: walks the ordered
    /// region list, subtracting sizes, until the position falls inside a
    /// region; a position past the total mapped size lands in the unmapped
    /// extension after the last region.  Fails only when that raw target
    /// cannot be represented.
    fn seek_start(&mut self, from_start: u64) -> (r: Result<u64, Error>)
        requires
            spans_bounded(old(self).regions@),
        ensures
            final(self).source == old(self).source,
            final(self).regions == old(self).regions,
            ({
                let rs = old(self).regions@;
                match r {
                    Ok(v) => v == from_start && final(self).raw_position as int == raw_of_logical(
                        rs,
                        from_start as int,
                    ) && raw_of_logical(rs, from_start as int) <= u64::MAX,
                    Err(e) => raw_of_logical(rs, from_start as int) > u64::MAX && e
                        is InvalidInput && final(self).raw_position == old(self).raw_position,
                }
            }),
    {
        let ghost rs = self.regions@;
        let mut remaining: u64 = from_start;
        let mut i: usize = 0;
        let n = self.regions.len();
        proof {
            if n > 0 {
                assert(rs.skip(0) =~= rs);
            }
        }
        while i < n
            invariant
                spans_bounded(rs),
                rs == self.regions@,
                self.source == old(self).source,
                self.regions == old(self).regions,
                self.raw_position == old(self).raw_position,
                n == rs.len(),
                0 <= i <= n,
                raw_of_logical(rs, from_start as int) == (if i < n {
                    raw_of_logical(rs.skip(i as int), remaining as int)
                } else {
                    spans_last_end(rs) + remaining
                }),
            decreases n - i,
        {
            let region = self.regions[i];
            let size = region.region_size;
            proof {
                assert(rs.skip(i as int)[0] == rs[i as int]);
                assert(span_end(rs[i as int]) <= u64::MAX);
            }
            if size > remaining {
                let target = region.offset_in_firmware + remaining;
                self.raw_position = target;
                return Ok(from_start);
            } else {
                proof {
                    if i + 1 < n {
                        assert(rs.skip(i as int).drop_first() =~= rs.skip(i as int + 1));
                    } else {
                        assert(rs.skip(i as int).len() == 1);
                        assert(rs.skip(i as int)[0] == rs[n - 1]);
                    }
                }
                remaining = remaining - size;
                i = i + 1;
            }
        }
        let last_end = if self.regions.len() > 0 {
            let last = self.regions[self.regions.len() - 1];
            proof {
                assert(span_end(rs[rs.len() - 1]) <= u64::MAX);
            }
            last.offset_in_firmware + last.region_size
        } else {
            0
        };
        match last_end.checked_add(remaining) {
            Some(target) => {
                self.raw_position = target;
                Ok(from_start)
            },
            None => Err(
                Error::InvalidInput(
                    String::from_str("seek target does not fit the raw address space"),
                ),
            ),
        }
    }

    /// Seeks in the logical coordinate space and returns the new logical
    /// position.  `Start` positions absolutely (positions past the mapped
    /// end land in the unmapped extension); `End` is a signed delta from
    /// the total mapped size; `Current` a signed delta from the current
    /// logical position, which must not lie before the first region or in
    /// a gap.  A negative or overflowing target is an input error.
    pub fn seek(&mut self, pos: SeekFrom) -> (r: Result<u64, Error>)
        requires
            spans_bounded(old(self).regions@),
        ensures
            final(self).source == old(self).source,
            final(self).regions == old(self).regions,
            ({
                let rs = old(self).regions@;
                match pos {
                    SeekFrom::Start(n) => match r {
                        Ok(v) => v == n && final(self).raw_position as int == raw_of_logical(
                            rs,
                            n as int,
                        ) && raw_of_logical(rs, n as int) <= u64::MAX,
                        Err(e) => raw_of_logical(rs, n as int) > u64::MAX && e is InvalidInput
                            && final(self).raw_position == old(self).raw_position,
                    },
                    SeekFrom::End(delta) => total_size(rs) <= u64::MAX ==> ({
                        let tgt = total_size(rs) + delta;
                        match r {
                            Ok(v) => 0 <= tgt && tgt <= u64::MAX && v == tgt && final(self).raw_position as int == raw_of_logical(rs, tgt) && raw_of_logical(
                                rs,
                                tgt,
                            ) <= u64::MAX,
                            Err(e) => (tgt < 0 || tgt > u64::MAX || raw_of_logical(rs, tgt)
                                > u64::MAX) && e is InvalidInput && final(self).raw_position == old(
                                self,
                            ).raw_position,
                        }
                    }),
                    SeekFrom::Current(delta) => position_fits(
                        rs,
                        old(self).raw_position as int,
                    ) ==> (match logical_pos(rs, old(self).raw_position as int) {
                        Some(t) => ({
                            let tgt = t + delta;
                            match r {
                                Ok(v) => 0 <= tgt && tgt <= u64::MAX && v == tgt && final(self).raw_position as int == raw_of_logical(rs, tgt) && raw_of_logical(
                                    rs,
                                    tgt,
                                ) <= u64::MAX,
                                Err(e) => (tgt < 0 || tgt > u64::MAX || raw_of_logical(rs, tgt)
                                    > u64::MAX) && e is InvalidInput,
                            }
                        }),
                        None => r matches Err(e) && e is InvalidInput && final(self).raw_position
                            == old(self).raw_position,
                    }),
                }
            }),
    {
        let ghost rs = self.regions@;
        match pos {
            SeekFrom::Start(n) => self.seek_start(n),
            SeekFrom::End(delta) => {
                let mut total: u64 = 0;
                let mut i: usize = 0;
                let n = self.regions.len();
                while i < n
                    invariant
                        spans_bounded(rs),
                        rs == self.regions@,
                        self.source == old(self).source,
                        self.regions == old(self).regions,
                        self.raw_position == old(self).raw_position,
                        n == rs.len(),
                        0 <= i <= n,
                        prefix_size(rs, i as int) <= u64::MAX ==> total == prefix_size(
                            rs,
                            i as int,
                        ),
                    decreases n - i,
                {
                    proof {
                        lemma_prefix_size_nonneg(rs, i as int);
                        if prefix_size(rs, i + 1) <= u64::MAX {
                            lemma_prefix_size_mono(rs, i as int, i + 1);
                        }
                    }
                    total = total.saturating_add(self.regions[i].region_size);
                    i = i + 1;
                }
                match total.checked_add_signed(delta) {
                    Some(target) => self.seek_start(target),
                    None => Err(
                        Error::InvalidInput(
                            String::from_str("seek to a negative or overflowing position"),
                        ),
                    ),
                }
            },
            SeekFrom::Current(delta) => {
                proof {
                    lemma_scan_ended_props(rs, self.raw_position as int, 0);
                    lemma_prefix_size_nonneg(rs, num_ended(rs, self.raw_position as int));
                    lemma_prefix_size_nonneg(rs, rs.len() as int);
                }
                let info = self.reader_position_info(self.raw_position);
                let translated = match info {
                    ReaderPositionInfo::InRegion { translated_position, .. } => translated_position,
                    ReaderPositionInfo::AfterLastRegion { translated_position } => (
                    translated_position),
                    _ => {
                        return Err(
                            Error::InvalidInput(
                                String::from_str(
                                    "cannot seek relative to a position outside the mapped regions",
                                ),
                            ),
                        );
                    },
                };
                match translated.checked_add_signed(delta) {
                    Some(target) => self.seek_start(target),
                    None => Err(
                        Error::InvalidInput(
                            String::from_str("seek to a negative or overflowing position"),
                        ),
                    ),
                }
            },
        }
    }
}

} // verus!
