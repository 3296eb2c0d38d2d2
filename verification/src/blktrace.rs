//! Block I/O trace records and the pages that traced operations touch.
use vstd::prelude::*;
use vstd::arithmetic::div_mod::{
    lemma_div_by_multiple, lemma_div_is_ordered, lemma_div_is_ordered_by_denominator,
    lemma_fundamental_div_mod, lemma_mod_pos_bound,
};

use ordermap::OrderSet;
use vstd::slice::{slice_subrange, slice_to_vec};
use vstd::utf8::{decode_utf8, valid_utf8};

use crate::provider::utf8_text;
use crate::text::{append_chars, chars_of, decimal, decimal_exec, parse_u64, parse_u64_exec, string_of, trim, trim_chars};

verus! {

// ---------------------------------------------------------------------------
// Trace records
// ---------------------------------------------------------------------------

/// The magic number of a trace record, with the version in its low byte.
pub const BLK_IO_TRACE_MAGIC: u32 = 0x65617400;

/// The version of the trace record layout.
pub const BLK_IO_TRACE_VERSION: u32 = 0x07;

/// The shift of the category bits within `action`.
pub const BLK_TC_SHIFT: u32 = 16;

/// Category bit of reads.
pub const BLK_TC_READ: u32 = 0x1;

/// Category bit of writes.
pub const BLK_TC_WRITE: u32 = 0x2;

/// Category bit of discards.
pub const BLK_TC_DISCARD: u32 = 0x2000;

/// The size of a trace record in bytes.
pub const BLK_IO_TRACE_SIZE: usize = 48;

/// A trace record as the kernel writes it to a relay channel (`struct blk_io_trace`).
#[derive(Debug)]
pub struct BlkIoTrace {
    pub magic: u32,
    pub sequence: u32,
    pub time: u64,
    pub sector: u64,
    pub bytes: u32,
    pub action: u32,
    pub pid: u32,
    pub device: u32,
    pub cpu: u32,
    pub error: u16,
    pub pdu_len: u16,
}

/// A trace record and the data that follows it.
#[derive(Debug)]
pub struct BlkTraceEvent {
    pub event: BlkIoTrace,
    pub data: Vec<u8>,
}

/// Errors in decoding trace records.
#[derive(Debug, Clone, Copy, PartialEq, Eq, Structural)]
pub enum BlkTraceError {
    /// Fewer bytes than a record holds.
    Truncated,
    /// The record's magic number is not that of this record layout.
    MagicMismatch,
}

/// The little-endian number in `b[off..off+2]`.
pub open spec fn le_u16(b: Seq<u8>, off: int) -> u16 {
    (b[off] + b[off + 1] * 0x100) as u16
}

/// The little-endian number in `b[off..off+4]`.
pub open spec fn le_u32(b: Seq<u8>, off: int) -> u32 {
    (b[off] + b[off + 1] * 0x100 + b[off + 2] * 0x10000 + b[off + 3] * 0x1000000) as u32
}

/// The little-endian number in `b[off..off+8]`.
pub open spec fn le_u64(b: Seq<u8>, off: int) -> u64 {
    (le_u32(b, off) + le_u32(b, off + 4) * 0x1_0000_0000) as u64
}

/// The record that the first 48 bytes of `b` hold, fields in the order of
/// `struct blk_io_trace` with no padding, in little-endian byte order.
pub open spec fn spec_decode_blk_io_trace(b: Seq<u8>) -> BlkIoTrace {
    BlkIoTrace {
        magic: le_u32(b, 0),
        sequence: le_u32(b, 4),
        time: le_u64(b, 8),
        sector: le_u64(b, 16),
        bytes: le_u32(b, 24),
        action: le_u32(b, 28),
        pid: le_u32(b, 32),
        device: le_u32(b, 36),
        cpu: le_u32(b, 40),
        error: le_u16(b, 44),
        pdu_len: le_u16(b, 46),
    }
}

fn read_u16(b: &[u8], off: usize) -> (r: u16)
    requires
        off + 2 <= b@.len(),
        off + 2 <= b.len(),
    ensures
        r == le_u16(b@, off as int),
{
    b[off] as u16 + (b[off + 1] as u16) * 0x100
}

fn read_u32(b: &[u8], off: usize) -> (r: u32)
    requires
        off + 4 <= b@.len(),
        off + 4 <= b.len(),
    ensures
        r == le_u32(b@, off as int),
{
    b[off] as u32 + (b[off + 1] as u32) * 0x100 + (b[off + 2] as u32) * 0x10000 + (b[off + 3] as u32)
        * 0x1000000
}

fn read_u64(b: &[u8], off: usize) -> (r: u64)
    requires
        off + 8 <= b@.len(),
        off + 8 <= b.len(),
    ensures
        r == le_u64(b@, off as int),
{
    let lo = read_u32(b, off) as u64;
    let hi = read_u32(b, off + 4) as u64;
    lo + hi * 0x1_0000_0000
}

/// Decodes a trace record from the first 48 bytes of `b`; an error where `b`
/// is shorter, or where the magic number is not that of version 7 records.
pub fn parse_blk_io_trace(b: &[u8]) -> (r: Result<BlkIoTrace, BlkTraceError>)
    ensures
        b@.len() < 48 ==> r matches Err(BlkTraceError::Truncated),
        b@.len() >= 48 && le_u32(b@, 0) != BLK_IO_TRACE_MAGIC + BLK_IO_TRACE_VERSION ==> r matches Err(
            BlkTraceError::MagicMismatch,
        ),
        b@.len() >= 48 && le_u32(b@, 0) == BLK_IO_TRACE_MAGIC + BLK_IO_TRACE_VERSION ==> (r matches Ok(
            t,
        ) && t == spec_decode_blk_io_trace(b@)),
{
    if b.len() < BLK_IO_TRACE_SIZE {
        return Err(BlkTraceError::Truncated);
    }
    let t = BlkIoTrace {
        magic: read_u32(b, 0),
        sequence: read_u32(b, 4),
        time: read_u64(b, 8),
        sector: read_u64(b, 16),
        bytes: read_u32(b, 24),
        action: read_u32(b, 28),
        pid: read_u32(b, 32),
        device: read_u32(b, 36),
        cpu: read_u32(b, 40),
        error: read_u16(b, 44),
        pdu_len: read_u16(b, 46),
    };
    if t.magic != BLK_IO_TRACE_MAGIC + BLK_IO_TRACE_VERSION {
        return Err(BlkTraceError::MagicMismatch);
    }
    Ok(t)
}

/// Whether the category bits of `action` hold all bits of `cat`.
pub open spec fn has_category(action: u32, cat: u32) -> bool {
    (action >> BLK_TC_SHIFT) & cat == cat
}

impl BlkTraceEvent {
    /// The traced operation is a read.
    pub fn is_read(&self) -> (r: bool)
        ensures
            r == has_category(self.event.action, BLK_TC_READ),
    {
        ((self.event.action >> BLK_TC_SHIFT) & BLK_TC_READ) == BLK_TC_READ
    }

    /// The traced operation is a write.
    pub fn is_write(&self) -> (r: bool)
        ensures
            r == has_category(self.event.action, BLK_TC_WRITE),
    {
        ((self.event.action >> BLK_TC_SHIFT) & BLK_TC_WRITE) == BLK_TC_WRITE
    }

    /// The traced operation is a discard (TRIM).
    pub fn is_discard(&self) -> (r: bool)
        ensures
            r == has_category(self.event.action, BLK_TC_DISCARD),
    {
        ((self.event.action >> BLK_TC_SHIFT) & BLK_TC_DISCARD) == BLK_TC_DISCARD
    }
}

// ---------------------------------------------------------------------------
// Insertion-ordered sets of page numbers (ordermap)
// ---------------------------------------------------------------------------

/// `ordermap::OrderSet`: a set that keeps its items in insertion order.
#[verifier::external_type_specification]
#[verifier::external_body]
#[verifier::reject_recursive_types(T)]
#[verifier::reject_recursive_types(S)]
pub struct ExOrderSet<T, S>(OrderSet<T, S>);

/// The items of an `OrderSet`, in insertion order.
pub uninterp spec fn order_set_items(s: OrderSet<u64>) -> Seq<u64>;

/// `OrderSet::new`: an empty set.
#[verifier::external_body]
fn order_set_new() -> (r: OrderSet<u64>)
    ensures
        order_set_items(r) == Seq::<u64>::empty(),
{
    OrderSet::new()
}

/// `OrderSet::insert`: a value not yet in the set is appended and `true`
/// returned; otherwise the set is unchanged and `false` returned.
#[verifier::external_body]
fn order_set_insert(s: &mut OrderSet<u64>, v: u64) -> (r: bool)
    ensures
        r == !order_set_items(*old(s)).contains(v),
        order_set_items(*final(s)) == if order_set_items(*old(s)).contains(v) {
            order_set_items(*old(s))
        } else {
            order_set_items(*old(s)).push(v)
        },
{
    s.insert(v)
}

/// `OrderSet::iter`: the items in insertion order, copied out.
#[verifier::external_body]
fn order_set_to_vec(s: &OrderSet<u64>) -> (r: Vec<u64>)
    ensures
        r@ == order_set_items(*s),
{
    s.iter().copied().collect()
}

// ---------------------------------------------------------------------------
// Pages touched by traced operations
// ---------------------------------------------------------------------------

/// The first byte that an event touches.
pub open spec fn event_start(e: BlkIoTrace, sector_size: u64) -> int {
    e.sector * sector_size
}

/// The byte after the last that an event touches.
pub open spec fn event_end(e: BlkIoTrace, sector_size: u64) -> int {
    e.sector * sector_size + e.bytes
}

/// The pages that the byte range of an event overlaps, in ascending order.
pub open spec fn event_pages(e: BlkIoTrace, sector_size: u64, page_size: u64) -> Seq<u64> {
    let lo = event_start(e, sector_size) / (page_size as int);
    let hi = (event_end(e, sector_size) + page_size - 1) / (page_size as int);
    Seq::new((if hi > lo { hi - lo } else { 0 }) as nat, |k: int| (lo + k) as u64)
}

/// `acc` followed by the values of `xs` that are not already there, in order.
pub open spec fn append_new(acc: Seq<u64>, xs: Seq<u64>) -> Seq<u64>
    decreases xs.len(),
{
    if xs.len() == 0 {
        acc
    } else {
        let a = append_new(acc, xs.drop_last());
        if a.contains(xs.last()) {
            a
        } else {
            a.push(xs.last())
        }
    }
}

/// Which events count: 0 for reads or writes, 1 for reads, 2 for writes;
/// discards never count.
pub open spec fn event_counts(e: BlkIoTrace, which: int) -> bool {
    !has_category(e.action, BLK_TC_DISCARD) && (has_category(e.action, BLK_TC_READ)
        || has_category(e.action, BLK_TC_WRITE)) && (which == 0 || (which == 1 && has_category(
        e.action,
        BLK_TC_READ,
    )) || (which == 2 && has_category(e.action, BLK_TC_WRITE)))
}

/// The pages that the counted events touch, each once, in the order in which
/// they are first touched.
pub open spec fn touched(events: Seq<BlkIoTrace>, sector_size: u64, page_size: u64, which: int) -> Seq<
    u64,
>
    decreases events.len(),
{
    if events.len() == 0 {
        seq![]
    } else {
        let prev = touched(events.drop_last(), sector_size, page_size, which);
        if event_counts(events.last(), which) {
            append_new(prev, event_pages(events.last(), sector_size, page_size))
        } else {
            prev
        }
    }
}

/// For every event, the end of its byte range plus a page fits in a `u64`.
pub open spec fn pages_fit(events: Seq<BlkIoTrace>, sector_size: u64, page_size: u64) -> bool {
    &&& page_size > 0
    &&& forall|i: int|
        0 <= i < events.len() ==> event_end(#[trigger] events[i], sector_size) + page_size
            <= u64::MAX
}

/// The trace records of a list of events.
pub open spec fn records(events: Seq<BlkTraceEvent>) -> Seq<BlkIoTrace> {
    events.map_values(|e: BlkTraceEvent| e.event)
}

/// The pages that traced operations touched: all of them, those read, and
/// those written; each list in the order of first touch.
#[derive(Debug)]
pub struct TouchedPages {
    pub rw: Vec<u64>,
    pub r: Vec<u64>,
    pub w: Vec<u64>,
}

/// Whether, for every event, the end of its byte range plus `page_size`
/// fits in a `u64` (the condition of `touched_pages`).
pub fn check_pages_fit(events: &[BlkTraceEvent], sector_size: u64, page_size: u64) -> (r: bool)
    ensures
        r == pages_fit(records(events@), sector_size, page_size),
{
    if page_size == 0 {
        return false;
    }
    let mut i: usize = 0;
    while i < events.len()
        invariant
            page_size > 0,
            i <= events@.len(),
            forall|j: int|
                0 <= j < i ==> event_end(#[trigger] records(events@)[j], sector_size) + page_size
                    <= u64::MAX,
        decreases events.len() - i,
    {
        let e = &events[i].event;
        proof {
            assert(records(events@)[i as int] == e);
        }
        match e.sector.checked_mul(sector_size) {
            None => {
                proof {
                    assert(e.sector * sector_size > u64::MAX);
                    assert(event_end(records(events@)[i as int], sector_size) + page_size
                        > u64::MAX);
                }
                return false;
            },
            Some(start) => match start.checked_add(e.bytes as u64) {
                None => return false,
                Some(end) => match end.checked_add(page_size) {
                    None => return false,
                    Some(_) => {},
                },
            },
        }
        i += 1;
    }
    true
}

proof fn lemma_append_new_unique(acc: Seq<u64>, xs: Seq<u64>)
    requires
        acc.no_duplicates(),
    ensures
        append_new(acc, xs).no_duplicates(),
    decreases xs.len(),
{
    if xs.len() > 0 {
        lemma_append_new_unique(acc, xs.drop_last());
    }
}

/// The page (of `page_size` bytes) in which byte `b` lies.
pub open spec fn page_of(b: int, page_size: u64) -> u64 {
    (b / (page_size as int)) as u64
}

/// What `append_new` holds: everything of `acc` and of `xs`, and nothing else.
proof fn lemma_append_new_contains(acc: Seq<u64>, xs: Seq<u64>)
    ensures
        forall|x: u64| acc.contains(x) ==> #[trigger] append_new(acc, xs).contains(x),
        forall|j: int| 0 <= j < xs.len() ==> append_new(acc, xs).contains(#[trigger] xs[j]),
        forall|x: u64|
            #[trigger] append_new(acc, xs).contains(x) ==> acc.contains(x) || xs.contains(x),
    decreases xs.len(),
{
    if xs.len() > 0 {
        let d = xs.drop_last();
        lemma_append_new_contains(acc, d);
        let a = append_new(acc, d);
        assert forall|j: int| 0 <= j < xs.len() implies append_new(acc, xs).contains(
            #[trigger] xs[j],
        ) by {
            if j < d.len() {
                assert(d[j] == xs[j]);
                assert(a.contains(d[j]));
                if !a.contains(xs.last()) {
                    let i = choose|i: int| 0 <= i < a.len() && a[i] == xs[j];
                    assert(a.push(xs.last())[i] == xs[j]);
                }
            } else {
                if !a.contains(xs.last()) {
                    assert(a.push(xs.last())[a.len() as int] == xs.last());
                }
            }
        }
        assert forall|x: u64| acc.contains(x) implies #[trigger] append_new(acc, xs).contains(x) by {
            assert(a.contains(x));
            if !a.contains(xs.last()) {
                let i = choose|i: int| 0 <= i < a.len() && a[i] == x;
                assert(a.push(xs.last())[i] == x);
            }
        }
        assert forall|x: u64| #[trigger] append_new(acc, xs).contains(x) implies acc.contains(x)
            || xs.contains(x) by {
            if a.contains(x) {
                if d.contains(x) {
                    let i = choose|i: int| 0 <= i < d.len() && d[i] == x;
                    assert(xs[i] == x);
                }
            } else {
                assert(x == xs.last());
                assert(xs[xs.len() - 1] == x);
            }
        }
    }
}

/// A byte in `[start, end)` lies in a page from the page of `start` to the
/// last page that `end` reaches into.
proof fn lemma_byte_page(b: int, start: int, end: int, ps: int)
    requires
        0 <= start <= b < end,
        ps > 0,
    ensures
        start / ps <= b / ps < (end + ps - 1) / ps,
{
    lemma_div_is_ordered(start, b, ps);
    let q = b / ps;
    lemma_fundamental_div_mod(b, ps);
    lemma_mod_pos_bound(b, ps);
    assert(q >= 0) by {
        lemma_div_is_ordered(0, b, ps);
    }
    assert((q + 1) * ps <= end + ps - 1) by (nonlinear_arith)
        requires
            b == ps * q + b % ps,
            0 <= b % ps < ps,
            b < end,
    ;
    lemma_div_is_ordered((q + 1) * ps, end + ps - 1, ps);
    lemma_div_by_multiple(q + 1, ps);
}

/// A page from the page of `start` up to the last page that `end` reaches
/// into overlaps `[start, end)`: it begins before `end` and ends after
/// `start`.
proof fn lemma_page_overlaps(q: int, start: int, end: int, ps: int)
    requires
        0 <= start <= end,
        ps > 0,
        start / ps <= q < (end + ps - 1) / ps,
    ensures
        q * ps < end,
        start < (q + 1) * ps,
{
    let lo = start / ps;
    let h = (end + ps - 1) / ps;
    lemma_fundamental_div_mod(start, ps);
    lemma_mod_pos_bound(start, ps);
    lemma_fundamental_div_mod(end + ps - 1, ps);
    lemma_mod_pos_bound(end + ps - 1, ps);
    assert(start < (q + 1) * ps) by (nonlinear_arith)
        requires
            start == ps * lo + start % ps,
            0 <= start % ps < ps,
            lo <= q,
    ;
    assert(q * ps < end) by (nonlinear_arith)
        requires
            end + ps - 1 == ps * h + (end + ps - 1) % ps,
            0 <= (end + ps - 1) % ps < ps,
            q + 1 <= h,
    ;
}

/// The pages of an event that fits are the pages that its byte range
/// overlaps: every byte of the range lies in one of them, and each of them
/// begins before the end of the range and ends after its start.
proof fn lemma_event_pages(e: BlkIoTrace, sector_size: u64, page_size: u64)
    requires
        page_size > 0,
        event_end(e, sector_size) + page_size <= u64::MAX,
    ensures
        forall|b: int|
            event_start(e, sector_size) <= b < event_end(e, sector_size) ==> event_pages(
                e,
                sector_size,
                page_size,
            ).contains(#[trigger] (b / (page_size as int)) as u64),
        forall|q: u64|
            #[trigger] event_pages(e, sector_size, page_size).contains(q) ==> q * page_size
                < event_end(e, sector_size) && event_start(e, sector_size) < (q + 1) * page_size,
{
    let ps = page_size as int;
    let start = event_start(e, sector_size);
    let end = event_end(e, sector_size);
    let lo = start / ps;
    let hi = (end + ps - 1) / ps;
    let pages = event_pages(e, sector_size, page_size);
    assert(start >= 0) by (nonlinear_arith)
        requires
            start == e.sector * sector_size,
            e.sector >= 0,
            sector_size >= 0,
    ;
    assert(hi <= end + ps - 1) by {
        lemma_div_is_ordered_by_denominator(end + ps - 1, 1, ps);
    }
    assert(lo >= 0) by {
        lemma_div_is_ordered(0, start, ps);
    }
    assert forall|b: int| start <= b < end implies pages.contains(
        #[trigger] (b / (page_size as int)) as u64,
    ) by {
        lemma_byte_page(b, start, end, ps);
        let k = b / ps - lo;
        assert(pages[k] == (b / ps) as u64);
    }
    assert forall|q: u64| #[trigger] pages.contains(q) implies q * page_size < end && start < (q + 1)
        * page_size by {
        let k = choose|k: int| 0 <= k < pages.len() && pages[k] == q;
        assert(q == lo + k);
        lemma_page_overlaps(q as int, start, end, ps);
    }
}

/// The touched pages are exactly what the counted events touch: every byte
/// that a counted event reads or writes lies in a listed page, and every
/// listed page overlaps the byte range of some counted event.
pub proof fn lemma_touched_pages(
    events: Seq<BlkIoTrace>,
    sector_size: u64,
    page_size: u64,
    which: int,
)
    requires
        pages_fit(events, sector_size, page_size),
    ensures
        forall|i: int, b: int|
            #![trigger events[i], page_of(b, page_size)]
            0 <= i < events.len() && event_counts(events[i], which) && event_start(
                events[i],
                sector_size,
            ) <= b < event_end(events[i], sector_size) ==> touched(
                events,
                sector_size,
                page_size,
                which,
            ).contains(page_of(b, page_size)),
        forall|q: u64|
            #[trigger] touched(events, sector_size, page_size, which).contains(q) ==> exists|i: int|
                0 <= i < events.len() && event_counts(#[trigger] events[i], which) && q * page_size
                    < event_end(events[i], sector_size) && event_start(events[i], sector_size) < (q
                    + 1) * page_size,
    decreases events.len(),
{
    let t = touched(events, sector_size, page_size, which);
    if events.len() > 0 {
        let d = events.drop_last();
        let n = events.len() - 1;
        assert(pages_fit(d, sector_size, page_size)) by {
            assert forall|i: int| 0 <= i < d.len() implies event_end(#[trigger] d[i], sector_size)
                + page_size <= u64::MAX by {
                assert(d[i] == events[i]);
            }
        }
        lemma_touched_pages(d, sector_size, page_size, which);
        let prev = touched(d, sector_size, page_size, which);
        let e = events[n];
        assert(event_end(events[n], sector_size) + page_size <= u64::MAX);
        lemma_event_pages(e, sector_size, page_size);
        let pages = event_pages(e, sector_size, page_size);
        lemma_append_new_contains(prev, pages);
        assert forall|i: int, b: int|
            #![trigger events[i], page_of(b, page_size)]
            0 <= i < events.len() && event_counts(events[i], which) && event_start(
                events[i],
                sector_size,
            ) <= b < event_end(events[i], sector_size) implies touched(
            events,
            sector_size,
            page_size,
            which,
        ).contains(page_of(b, page_size)) by {
            let x = page_of(b, page_size);
            if i < n {
                assert(d[i] == events[i]);
                assert(prev.contains(x));
            } else {
                assert(pages.contains(x));
                let k = choose|k: int| 0 <= k < pages.len() && pages[k] == x;
                assert(pages[k] == x);
            }
        }
        assert forall|q: u64| #[trigger] t.contains(q) implies exists|i: int|
            0 <= i < events.len() && event_counts(#[trigger] events[i], which) && q * page_size
                < event_end(events[i], sector_size) && event_start(events[i], sector_size) < (q + 1)
                * page_size by {
            if event_counts(e, which) && !prev.contains(q) {
                assert(pages.contains(q));
                assert(events[n] == e);
            } else {
                assert(prev.contains(q));
                let i = choose|i: int|
                    0 <= i < d.len() && event_counts(#[trigger] d[i], which) && q * page_size
                        < event_end(d[i], sector_size) && event_start(d[i], sector_size) < (q + 1)
                        * page_size;
                assert(events[i] == d[i]);
            }
        }
    }
}

/// Records into `set` the pages of `e`, returning the new items.
fn insert_pages(
    set: &mut OrderSet<u64>,
    e: &BlkIoTrace,
    sector_size: u64,
    page_size: u64,
)
    requires
        page_size > 0,
        event_end(*e, sector_size) + page_size <= u64::MAX,
    ensures
        order_set_items(*final(set)) == append_new(
            order_set_items(*old(set)),
            event_pages(*e, sector_size, page_size),
        ),
{
    let ghost pages = event_pages(*e, sector_size, page_size);
    let ghost base = order_set_items(*set);
    let start = e.sector * sector_size;
    assert(start == event_start(*e, sector_size));
    let end = start + e.bytes as u64;
    assert(end == event_end(*e, sector_size));
    let lo = start / page_size;
    let hi = (end + page_size - 1) / page_size;
    let mut p = lo;
    assert(pages.take(0) =~= Seq::<u64>::empty());
    while p < hi
        invariant
            lo <= p,
            p <= hi || hi < lo,
            hi <= lo ==> p == lo,
            pages == event_pages(*e, sector_size, page_size),
            lo == event_start(*e, sector_size) / (page_size as int),
            hi == (event_end(*e, sector_size) + page_size - 1) / (page_size as int),
            order_set_items(*set) == append_new(base, pages.take(p - lo)),
        decreases hi - p,
    {
        order_set_insert(set, p);
        proof {
            assert(pages.take(p - lo + 1).drop_last() =~= pages.take(p - lo));
            assert(pages.take(p - lo + 1).last() == p);
        }
        p += 1;
    }
    proof {
        if hi > lo {
            assert(pages.take(p - lo) =~= pages);
        } else {
            assert(pages.take(p - lo) =~= pages);
        }
    }
}

/// The pages (of `page_size` bytes) that the read and write events touched,
/// where sectors are `sector_size` bytes; discards are left out.
pub fn touched_pages(events: &[BlkTraceEvent], sector_size: u64, page_size: u64) -> (r:
    TouchedPages)
    requires
        pages_fit(records(events@), sector_size, page_size),
    ensures
        r.rw@ == touched(records(events@), sector_size, page_size, 0),
        r.r@ == touched(records(events@), sector_size, page_size, 1),
        r.w@ == touched(records(events@), sector_size, page_size, 2),
        r.rw@.no_duplicates(),
        r.r@.no_duplicates(),
        r.w@.no_duplicates(),
{
    let ghost recs = records(events@);
    let mut rw = order_set_new();
    let mut rd = order_set_new();
    let mut wr = order_set_new();
    let mut i: usize = 0;
    assert(recs.take(0) =~= Seq::<BlkIoTrace>::empty());
    while i < events.len()
        invariant
            i <= events@.len(),
            recs == records(events@),
            pages_fit(recs, sector_size, page_size),
            order_set_items(rw) == touched(recs.take(i as int), sector_size, page_size, 0),
            order_set_items(rd) == touched(recs.take(i as int), sector_size, page_size, 1),
            order_set_items(wr) == touched(recs.take(i as int), sector_size, page_size, 2),
        decreases events.len() - i,
    {
        let ev = &events[i];
        let e = &ev.event;
        proof {
            assert(recs[i as int] == *e);
            assert(recs.take(i + 1).drop_last() =~= recs.take(i as int));
            assert(recs.take(i + 1).last() == *e);
            assert(event_end(recs[i as int], sector_size) + page_size <= u64::MAX);
        }
        if !ev.is_discard() && (ev.is_read() || ev.is_write()) {
            insert_pages(&mut rw, e, sector_size, page_size);
            if ev.is_read() {
                insert_pages(&mut rd, e, sector_size, page_size);
            }
            if ev.is_write() {
                insert_pages(&mut wr, e, sector_size, page_size);
            }
        }
        i += 1;
    }
    assert(recs.take(recs.len() as int) =~= recs);
    proof {
        lemma_touched_unique(recs, sector_size, page_size, 0);
        lemma_touched_unique(recs, sector_size, page_size, 1);
        lemma_touched_unique(recs, sector_size, page_size, 2);
    }
    TouchedPages {
        rw: order_set_to_vec(&rw),
        r: order_set_to_vec(&rd),
        w: order_set_to_vec(&wr),
    }
}

/// Each touched page is listed once.
pub proof fn lemma_touched_unique(
    events: Seq<BlkIoTrace>,
    sector_size: u64,
    page_size: u64,
    which: int,
)
    ensures
        touched(events, sector_size, page_size, which).no_duplicates(),
    decreases events.len(),
{
    if events.len() > 0 {
        lemma_touched_unique(events.drop_last(), sector_size, page_size, which);
        lemma_append_new_unique(
            touched(events.drop_last(), sector_size, page_size, which),
            event_pages(events.last(), sector_size, page_size),
        );
    }
}

// ---------------------------------------------------------------------------
// Tracing a block device
// ---------------------------------------------------------------------------

/// The size of each relay buffer that the kernel fills with trace records.
pub const BLK_TRACE_BUF_SIZE: u32 = 4194304;

/// The number of relay buffers that the kernel keeps spare.
pub const BLK_TRACE_BUF_COUNT: u32 = 16;

/// The categories of operations traced: reads and writes.
pub const BLK_TRACE_ACT_MASK: u16 = 3;

/// Why the name that the kernel gave a traced block device cannot be read.
#[derive(Debug, PartialEq, Eq, Structural)]
pub enum BlockNameError {
    /// The name field holds no NUL byte.
    NoNul,
    /// The bytes before the first NUL are not UTF-8.
    NotUtf8,
}

/// The position of the first NUL byte of `b`.
pub open spec fn first_nul(b: Seq<u8>) -> Option<int>
    decreases b.len(),
{
    if b.len() == 0 {
        None
    } else if b[0] == 0 {
        Some(0)
    } else {
        match first_nul(b.drop_first()) {
            Some(i) => Some(i + 1),
            None => None,
        }
    }
}

/// Where no byte before `i` is NUL and byte `i` is (or `i` is the end),
/// `first_nul` says so.
proof fn lemma_first_nul(b: Seq<u8>, i: int)
    requires
        0 <= i <= b.len(),
        forall|j: int| 0 <= j < i ==> #[trigger] b[j] != 0,
        i < b.len() ==> b[i] == 0,
    ensures
        first_nul(b) == if i < b.len() {
            Some(i)
        } else {
            None::<int>
        },
    decreases i,
{
    if i > 0 {
        assert forall|j: int| 0 <= j < i - 1 implies #[trigger] b.drop_first()[j] != 0 by {
            assert(b.drop_first()[j] == b[j + 1]);
        }
        lemma_first_nul(b.drop_first(), i - 1);
    }
}

/// The name of a traced block device, from the name field that the kernel
/// fills in: the bytes before the first NUL, read as UTF-8.
pub open spec fn spec_block_name(name: Seq<u8>) -> Result<Seq<char>, BlockNameError> {
    match first_nul(name) {
        None => Err(BlockNameError::NoNul),
        Some(i) => if valid_utf8(name.take(i)) {
            Ok(decode_utf8(name.take(i)))
        } else {
            Err(BlockNameError::NotUtf8)
        },
    }
}

/// The name of a traced block device, from the name field that the kernel
/// fills in when tracing is set up.
pub fn block_name(name: &[u8]) -> (r: Result<String, BlockNameError>)
    ensures
        r matches Ok(s) ==> spec_block_name(name@) == Ok::<Seq<char>, BlockNameError>(s@),
        r matches Err(e) ==> spec_block_name(name@) == Err::<Seq<char>, BlockNameError>(e),
{
    let mut i: usize = 0;
    while i < name.len() && name[i] != 0
        invariant
            i <= name@.len(),
            forall|j: int| 0 <= j < i ==> #[trigger] name@[j] != 0,
        decreases name.len() - i,
    {
        i += 1;
    }
    proof {
        lemma_first_nul(name@, i as int);
    }
    if i == name.len() {
        return Err(BlockNameError::NoNul);
    }
    let bytes = slice_to_vec(slice_subrange(name, 0, i));
    assert(bytes@ =~= name@.take(i as int));
    match utf8_text(bytes) {
        Some(s) => Ok(s),
        None => Err(BlockNameError::NotUtf8),
    }
}

/// The relay channel from which the trace records of one CPU are read.
pub open spec fn spec_relay_channel_path(block_name: Seq<char>, cpu: u64) -> Seq<char> {
    "/sys/kernel/debug/block/"@ + block_name + "/trace"@ + decimal(cpu as nat)
}

/// The relay channel from which the trace records of one CPU are read.
pub fn relay_channel_path(block_name: &str, cpu: u64) -> (r: String)
    ensures
        r@ == spec_relay_channel_path(block_name@, cpu),
{
    let mut p = chars_of("/sys/kernel/debug/block/");
    let n = chars_of(block_name);
    append_chars(&mut p, &n);
    let t = chars_of("/trace");
    append_chars(&mut p, &t);
    let d = decimal_exec(cpu);
    append_chars(&mut p, &d);
    string_of(&p)
}

/// The file that counts the trace records the kernel dropped.
pub fn dropped_path(block_name: &str) -> (r: String)
    ensures
        r@ == "/sys/kernel/debug/block/"@ + block_name@ + "/dropped"@,
{
    let mut p = chars_of("/sys/kernel/debug/block/");
    let n = chars_of(block_name);
    append_chars(&mut p, &n);
    let t = chars_of("/dropped");
    append_chars(&mut p, &t);
    string_of(&p)
}

/// The number of dropped records, from the text of the counter file: a
/// decimal number, once white space around it is trimmed.
pub fn parse_dropped(text: &str) -> (r: Option<u64>)
    ensures
        r == parse_u64(trim(text@)),
{
    let c = chars_of(text);
    let t = trim_chars(&c);
    parse_u64_exec(&t)
}

/// The records of a stream of trace data, each a 48-byte header followed by
/// `pdu_len` bytes of data, and how many bytes they take; a trailing record
/// that is not complete yet is left for later. An error where a header does
/// not carry the magic number of version 7.
pub open spec fn stream_records(b: Seq<u8>) -> Result<(Seq<(BlkIoTrace, Seq<u8>)>, nat), BlkTraceError>
    decreases b.len(),
{
    if b.len() < 48 {
        Ok((Seq::empty(), 0))
    } else {
        let t = spec_decode_blk_io_trace(b);
        let n: nat = (48 + t.pdu_len) as nat;
        if t.magic != BLK_IO_TRACE_MAGIC + BLK_IO_TRACE_VERSION {
            Err(BlkTraceError::MagicMismatch)
        } else if b.len() < n {
            Ok((Seq::empty(), 0))
        } else {
            match stream_records(b.skip(n as int)) {
                Ok((rs, c)) => Ok((seq![(t, b.subrange(48, n as int))] + rs, n + c)),
                Err(e) => Err(e),
            }
        }
    }
}

/// Records read so far, in front of what the rest of the stream yields.
pub open spec fn after_records(
    done: Seq<(BlkIoTrace, Seq<u8>)>,
    used: nat,
    rest: Result<(Seq<(BlkIoTrace, Seq<u8>)>, nat), BlkTraceError>,
) -> Result<(Seq<(BlkIoTrace, Seq<u8>)>, nat), BlkTraceError> {
    match rest {
        Ok((rs, c)) => Ok((done + rs, used + c)),
        Err(e) => Err(e),
    }
}

/// The record and data of a traced event.
pub open spec fn event_view(e: BlkTraceEvent) -> (BlkIoTrace, Seq<u8>) {
    (e.event, e.data@)
}

/// Splits a stream of trace data into events: the complete records at its
/// front, and the number of bytes they take (the rest waits for more data).
pub fn parse_trace_stream(b: &[u8]) -> (r: Result<(Vec<BlkTraceEvent>, usize), BlkTraceError>)
    ensures
        match stream_records(b@) {
            Ok((rs, c)) => r matches Ok((es, n)) && es@.map_values(|e: BlkTraceEvent| event_view(e))
                == rs && n == c,
            Err(e) => r == Err::<(Vec<BlkTraceEvent>, usize), BlkTraceError>(e),
        },
{
    let mut events: Vec<BlkTraceEvent> = Vec::new();
    let mut off: usize = 0;
    proof {
        assert(b@.skip(0) =~= b@);
        assert(Seq::<(BlkIoTrace, Seq<u8>)>::empty() + Seq::<(BlkIoTrace, Seq<u8>)>::empty()
            =~= Seq::<(BlkIoTrace, Seq<u8>)>::empty());
    }
    loop
        invariant
            off <= b@.len(),
            stream_records(b@) == after_records(
                events@.map_values(|e: BlkTraceEvent| event_view(e)),
                off as nat,
                stream_records(b@.skip(off as int)),
            ),
        decreases b@.len() - off,
    {
        let rest = slice_subrange(b, off, b.len());
        assert(rest@ =~= b@.skip(off as int));
        if rest.len() < BLK_IO_TRACE_SIZE {
            proof {
                let ev = events@.map_values(|e: BlkTraceEvent| event_view(e));
                assert(ev + Seq::<(BlkIoTrace, Seq<u8>)>::empty() =~= ev);
            }
            return Ok((events, off));
        }
        let t = match parse_blk_io_trace(rest) {
            Ok(t) => t,
            Err(e) => {
                return Err(e);
            },
        };
        let n: usize = 48 + t.pdu_len as usize;
        if rest.len() < n {
            proof {
                let ev = events@.map_values(|e: BlkTraceEvent| event_view(e));
                assert(ev + Seq::<(BlkIoTrace, Seq<u8>)>::empty() =~= ev);
            }
            return Ok((events, off));
        }
        let data = slice_to_vec(slice_subrange(rest, 48, n));
        let ghost ev0 = events@.map_values(|e: BlkTraceEvent| event_view(e));
        let ghost next = (t, rest@.subrange(48, n as int));
        events.push(BlkTraceEvent { event: t, data });
        proof {
            assert(events@.map_values(|e: BlkTraceEvent| event_view(e)) =~= ev0.push(next));
            assert(rest@.skip(n as int) =~= b@.skip(off + n));
            match stream_records(b@.skip(off + n)) {
                Ok((rs, c)) => {
                    assert(ev0 + (seq![next] + rs) =~= ev0.push(next) + rs);
                },
                Err(_) => {},
            }
        }
        off = off + n;
    }
}

} // verus!
