//! The decisions of one flash operation, chunk by chunk: whether a chunk is
//! written or skipped, what total size the progress reports, and when the
//! destinations are synced. The caller performs the I/O that each step asks
//! for and reports back.
use crate::header::{get_img_size_from_header, header_size};
use crate::progress::Progress;
use vstd::prelude::*;

verus! {

/// Header bytes kept for partition-table inference.
pub const HEADER_LIMIT: usize = 65536;

/// Header bytes needed before inference is tried.
pub const HEADER_MIN: usize = 1024;

/// The least total that an adaptive estimate reports (1 MiB).
pub const ADAPTIVE_FLOOR: u64 = 1048576;

/// Bytes between durability syncs with one destination (16 MiB).
pub const SYNC_THRESHOLD_SINGLE: u64 = 16777216;

/// Bytes between durability syncs with several destinations (32 MiB).
pub const SYNC_THRESHOLD_MULTI: u64 = 33554432;

/// What is known of the image's uncompressed size.
#[derive(Clone, Copy, Debug, PartialEq, Eq, Structural)]
pub enum SizeEstimate {
    Exact(u64),
    Adaptive,
}

/// How a chunk reaches every destination.
#[derive(Clone, Copy, Debug, PartialEq, Eq, Structural)]
pub enum ChunkWrite {
    /// All bytes are zero: advance each destination's cursor by the chunk's
    /// length without writing, then flush its buffer.
    Skip,
    /// Write the chunk verbatim to each destination.
    Copy,
}

#[derive(Clone, Copy, Debug, PartialEq, Eq, Structural)]
pub enum FlashError {
    /// The operation was given no destination.
    NoDestinations,
}

pub open spec fn all_zero(c: Seq<u8>) -> bool {
    forall|i: int| 0 <= i < c.len() ==> c[i] == 0
}

pub open spec fn plan_of(c: Seq<u8>) -> ChunkWrite {
    if all_zero(c) {
        ChunkWrite::Skip
    } else {
        ChunkWrite::Copy
    }
}

/// `content` with `chunk` written at `at`; a gap before `at` past the end
/// reads as zero.
pub open spec fn overwrite(content: Seq<u8>, at: nat, chunk: Seq<u8>) -> Seq<u8> {
    let end = at + chunk.len();
    let len = if content.len() > end {
        content.len()
    } else {
        end
    };
    Seq::new(
        len as nat,
        |i: int|
            if at <= i < end {
                chunk[i - at]
            } else if i < content.len() {
                content[i]
            } else {
                0u8
            },
    )
}

/// A destination, as its content and its write cursor, after it received
/// `chunk` in the way `w` says.
pub open spec fn apply_chunk(content: Seq<u8>, cursor: nat, chunk: Seq<u8>, w: ChunkWrite) -> (
    Seq<u8>,
    nat,
) {
    match w {
        ChunkWrite::Skip => (content, cursor + chunk.len()),
        ChunkWrite::Copy => (overwrite(content, cursor, chunk), cursor + chunk.len()),
    }
}

/// The adaptive total for `w` bytes written: the larger of 1.25 × w
/// (computed as `w + w / 4`) and 1 MiB, capped at the largest u64.
pub open spec fn adaptive_estimate(w: int) -> int {
    let e = w + w / 4;
    let t = if e > ADAPTIVE_FLOOR {
        e
    } else {
        ADAPTIVE_FLOOR as int
    };
    if t > u64::MAX {
        u64::MAX as int
    } else {
        t
    }
}

/// The total reported for `w` bytes written under `size`. An exact size is
/// raised to `w` when the source runs past it, so that the written bytes
/// never exceed the total.
pub open spec fn total_for(size: SizeEstimate, w: int) -> int {
    match size {
        SizeEstimate::Exact(n) => if w > n {
            w
        } else {
            n as int
        },
        SizeEstimate::Adaptive => adaptive_estimate(w),
    }
}

pub open spec fn min_int(a: int, b: int) -> int {
    if a < b {
        a
    } else {
        b
    }
}

/// Whether a chunk adds to the header buffer.
pub open spec fn collects_header(size: SizeEstimate, h: Seq<u8>) -> bool {
    size is Adaptive && h.len() < HEADER_LIMIT
}

/// The header buffer after a chunk: while the size is unknown, the chunk's
/// bytes are added up to the limit.
pub open spec fn header_after(size: SizeEstimate, h: Seq<u8>, chunk: Seq<u8>) -> Seq<u8> {
    if collects_header(size, h) {
        h + chunk.take(min_int(HEADER_LIMIT - h.len(), chunk.len() as int))
    } else {
        h
    }
}

/// The size after a chunk: once the header holds enough bytes, a size that
/// the partition table gives becomes exact.
pub open spec fn size_after(size: SizeEstimate, h: Seq<u8>, chunk: Seq<u8>) -> SizeEstimate {
    let h2 = header_after(size, h, chunk);
    if collects_header(size, h) && h2.len() >= HEADER_MIN && header_size(h2) > 0 {
        SizeEstimate::Exact(header_size(h2) as u64)
    } else {
        size
    }
}

pub open spec fn threshold_for(destination_count: int) -> u64 {
    if destination_count == 1 {
        SYNC_THRESHOLD_SINGLE
    } else {
        SYNC_THRESHOLD_MULTI
    }
}

/// Whether every byte of the chunk is zero.
pub fn is_all_zero(chunk: &[u8]) -> (r: bool)
    ensures
        r == all_zero(chunk@),
{
    let mut i: usize = 0;
    while i < chunk.len()
        invariant
            i <= chunk@.len(),
            forall|j: int| 0 <= j < i ==> chunk@[j] == 0,
        decreases chunk@.len() - i,
    {
        if chunk[i] != 0 {
            return false;
        }
        i = i + 1;
    }
    true
}

/// How a chunk is handed to the destinations: skipped when it is all zero,
/// written otherwise.
pub fn plan_chunk(chunk: &[u8]) -> (r: ChunkWrite)
    ensures
        r == plan_of(chunk@),
        r == ChunkWrite::Skip <==> all_zero(chunk@),
{
    if is_all_zero(chunk) {
        ChunkWrite::Skip
    } else {
        ChunkWrite::Copy
    }
}

/// The adaptive total for `written` bytes.
pub fn adaptive_total(written: u64) -> (r: u64)
    ensures
        r as int == adaptive_estimate(written as int),
        written < u64::MAX ==> r > written,
{
    let quarter = written / 4;
    let est = if written <= u64::MAX - quarter {
        written + quarter
    } else {
        u64::MAX
    };
    if est > ADAPTIVE_FLOOR {
        est
    } else {
        ADAPTIVE_FLOOR
    }
}

/// The sum of the chunk sizes.
pub open spec fn sum_of(sizes: Seq<u64>) -> int
    decreases sizes.len(),
{
    if sizes.len() == 0 {
        0
    } else {
        sum_of(sizes.drop_last()) + sizes.last()
    }
}

/// Whether the last of the chunks brings a durability sync: the bytes
/// unsynced before it plus its own length reach the threshold `t`.
pub open spec fn syncs_at_last(sizes: Seq<u64>, t: int) -> bool {
    sizes.len() > 0 && unsynced_after(sizes.drop_last(), t) + sizes.last() >= t
}

/// The bytes written since the last durability sync, after chunks of the
/// given sizes, with a sync whenever that count reaches `t`.
pub open spec fn unsynced_after(sizes: Seq<u64>, t: int) -> int
    decreases sizes.len(),
{
    if sizes.len() == 0 {
        0
    } else {
        let s = unsynced_after(sizes.drop_last(), t) + sizes.last();
        if s >= t {
            0
        } else {
            s
        }
    }
}

/// The state of one flash operation between chunks.
pub struct FlashStream {
    size: SizeEstimate,
    header: Vec<u8>,
    written: u64,
    since_sync: u64,
    sync_threshold: u64,
    pending: Option<u64>,
    finished: bool,
    chunks: Ghost<Seq<u64>>,
}

impl FlashStream {
    pub closed spec fn size(&self) -> SizeEstimate {
        self.size
    }

    pub closed spec fn header(&self) -> Seq<u8> {
        self.header@
    }

    /// Bytes handed to every destination so far.
    pub closed spec fn written(&self) -> u64 {
        self.written
    }

    /// Bytes written since the last durability sync.
    pub closed spec fn since_sync(&self) -> u64 {
        self.since_sync
    }

    pub closed spec fn threshold(&self) -> u64 {
        self.sync_threshold
    }

    /// The length of a chunk that was planned and not yet committed.
    pub closed spec fn pending(&self) -> Option<u64> {
        self.pending
    }

    /// Whether the stream has ended; the one final flush and full sync of
    /// every destination is then due, and no chunk is taken any more.
    pub closed spec fn finished(&self) -> bool {
        self.finished
    }

    /// The lengths of the chunks committed so far, in order.
    pub closed spec fn chunks(&self) -> Seq<u64> {
        self.chunks@
    }

    pub open spec fn wf(&self) -> bool {
        &&& self.threshold() > 0
        &&& self.written() == sum_of(self.chunks())
        &&& self.since_sync() == unsynced_after(self.chunks(), self.threshold() as int)
        &&& self.since_sync() < self.threshold()
        &&& self.header().len() <= HEADER_LIMIT
        &&& (self.pending() matches Some(n) ==> self.written() + n <= u64::MAX)
        &&& (self.finished() ==> self.pending() is None)
    }

    /// The state before the first chunk, or an error when there is no
    /// destination. With one destination, syncs come every 16 MiB; with
    /// several, every 32 MiB.
    pub fn new(size: SizeEstimate, destination_count: usize) -> (r: Result<
        FlashStream,
        FlashError,
    >)
        ensures
            destination_count == 0 <==> r is Err,
            r matches Err(e) ==> e == FlashError::NoDestinations,
            r matches Ok(s) ==> {
                &&& s.wf()
                &&& s.size() == size
                &&& s.header().len() == 0
                &&& s.written() == 0
                &&& s.since_sync() == 0
                &&& s.chunks().len() == 0
                &&& s.threshold() == threshold_for(destination_count as int)
                &&& s.pending() is None
                &&& !s.finished()
            },
    {
        if destination_count == 0 {
            return Err(FlashError::NoDestinations);
        }
        let sync_threshold = if destination_count == 1 {
            SYNC_THRESHOLD_SINGLE
        } else {
            SYNC_THRESHOLD_MULTI
        };
        Ok(
            FlashStream {
                size,
                header: Vec::new(),
                written: 0,
                since_sync: 0,
                sync_threshold,
                pending: None,
                finished: false,
                chunks: Ghost(Seq::empty()),
            },
        )
    }

    /// Sets what is known of the image's size, before the first chunk, and
    /// the total that the progress reports for it.
    pub fn resolve_size(&mut self, size: SizeEstimate, progress: &mut Progress)
        requires
            old(self).wf(),
            old(self).written() == 0,
            old(self).pending() is None,
        ensures
            final(self).wf(),
            final(self).size() == size,
            final(self).header() == old(self).header(),
            final(self).written() == old(self).written(),
            final(self).since_sync() == old(self).since_sync(),
            final(self).chunks() == old(self).chunks(),
            final(self).threshold() == old(self).threshold(),
            final(self).pending() == old(self).pending(),
            final(self).finished() == old(self).finished(),
            final(progress).bytes_written == old(progress).bytes_written,
            final(progress).total_bytes == total_for(size, 0),
    {
        self.size = size;
        let total = match size {
            SizeEstimate::Exact(t) => t,
            SizeEstimate::Adaptive => adaptive_total(0),
        };
        progress.set_total(total);
    }

    /// What is known of the image's size.
    pub fn size_estimate(&self) -> (r: SizeEstimate)
        ensures
            r == self.size(),
    {
        self.size
    }

    /// Bytes handed to every destination so far.
    pub fn bytes_written(&self) -> (r: u64)
        ensures
            r == self.written(),
    {
        self.written
    }

    /// Takes the next chunk read from the source: while the size is unknown,
    /// collects header bytes and tries to infer the size from them; then says
    /// how the chunk is to be written to each destination. The caller writes
    /// it and then calls `commit_chunk`.
    pub fn begin_chunk(&mut self, chunk: &[u8]) -> (r: ChunkWrite)
        requires
            old(self).wf(),
            !old(self).finished(),
            old(self).pending() is None,
            old(self).written() + chunk@.len() <= u64::MAX,
        ensures
            final(self).wf(),
            r == plan_of(chunk@),
            final(self).pending() == Some(chunk@.len() as u64),
            final(self).header() == header_after(old(self).size(), old(self).header(), chunk@),
            final(self).size() == size_after(old(self).size(), old(self).header(), chunk@),
            final(self).written() == old(self).written(),
            final(self).since_sync() == old(self).since_sync(),
            final(self).chunks() == old(self).chunks(),
            final(self).threshold() == old(self).threshold(),
            !final(self).finished(),
    {
        let ghost h0 = self.header@;
        if self.size == SizeEstimate::Adaptive && self.header.len() < HEADER_LIMIT {
            let room = HEADER_LIMIT - self.header.len();
            let take = if room < chunk.len() {
                room
            } else {
                chunk.len()
            };
            let mut i: usize = 0;
            while i < take
                invariant
                    i <= take,
                    take <= chunk@.len(),
                    h0.len() + take <= HEADER_LIMIT,
                    self.header@ == h0 + chunk@.take(i as int),
                    self.size == SizeEstimate::Adaptive,
                    self.written == old(self).written,
                    self.since_sync == old(self).since_sync,
                    self.sync_threshold == old(self).sync_threshold,
                    self.finished == old(self).finished,
                    self.pending == old(self).pending,
                    self.chunks == old(self).chunks,
                decreases take - i,
            {
                self.header.push(chunk[i]);
                i = i + 1;
                assert(self.header@ =~= h0 + chunk@.take(i as int));
            }
            if self.header.len() >= HEADER_MIN {
                let s = get_img_size_from_header(self.header.as_slice());
                if s > 0 {
                    self.size = SizeEstimate::Exact(s);
                }
            }
        }
        self.pending = Some(chunk.len() as u64);
        plan_chunk(chunk)
    }

    /// Records that the planned chunk reached every destination: adds its
    /// length to the stream's count and to the progress count, sets the
    /// progress total, and says whether a durability sync of every
    /// destination is due now (the count since the last one reached the
    /// threshold), after which that count starts again from 0.
    pub fn commit_chunk(&mut self, progress: &mut Progress) -> (sync: bool)
        requires
            old(self).wf(),
            old(self).pending() is Some,
            old(progress).bytes_written + old(self).pending()->0 <= u64::MAX,
        ensures
            final(self).wf(),
            final(self).pending() is None,
            final(self).chunks() == old(self).chunks().push(old(self).pending()->0),
            final(self).written() == old(self).written() + old(self).pending()->0,
            sync == (old(self).since_sync() + old(self).pending()->0 >= old(self).threshold()),
            sync == syncs_at_last(final(self).chunks(), final(self).threshold() as int),
            final(self).since_sync() == if sync {
                0
            } else {
                old(self).since_sync() + old(self).pending()->0
            },
            final(self).size() == old(self).size(),
            final(self).header() == old(self).header(),
            final(self).threshold() == old(self).threshold(),
            final(self).finished() == old(self).finished(),
            final(progress).bytes_written == old(progress).bytes_written + old(self).pending()->0,
            final(progress).total_bytes == total_for(final(self).size(), final(self).written() as int),
            old(progress).bytes_written == old(self).written() ==> {
                &&& final(progress).bytes_written == final(self).written()
                &&& final(progress).bytes_written <= final(progress).total_bytes
                &&& (final(self).size() is Adaptive && final(self).written() < u64::MAX
                    ==> final(progress).total_bytes > final(progress).bytes_written)
            },
    {
        let n = match self.pending {
            Some(n) => n,
            None => 0,
        };
        let ghost old_chunks = self.chunks@;
        self.pending = None;
        self.written = self.written + n;
        self.chunks = Ghost(self.chunks@.push(n));
        assert(self.chunks@.drop_last() =~= old_chunks);
        progress.record_written(n);
        let total = match self.size {
            SizeEstimate::Exact(t) => if self.written > t {
                self.written
            } else {
                t
            },
            SizeEstimate::Adaptive => adaptive_total(self.written),
        };
        progress.set_total(total);
        let sync = n >= self.sync_threshold - self.since_sync;
        if sync {
            self.since_sync = 0;
        } else {
            self.since_sync = self.since_sync + n;
        }
        sync
    }

    /// Ends the stream once the source is exhausted: an adaptive size
    /// becomes exactly the bytes written, and the progress total says so;
    /// the progress count is left as it is. The caller then flushes and
    /// fully syncs every destination, once: no chunk is taken afterwards,
    /// and the stream cannot be finished twice.
    pub fn finish(&mut self, progress: &mut Progress)
        requires
            old(self).wf(),
            !old(self).finished(),
            old(self).pending() is None,
        ensures
            final(self).wf(),
            final(self).finished(),
            final(self).pending() is None,
            final(self).written() == old(self).written(),
            final(self).chunks() == old(self).chunks(),
            final(self).since_sync() == old(self).since_sync(),
            final(self).threshold() == old(self).threshold(),
            final(self).size() == match old(self).size() {
                SizeEstimate::Adaptive => SizeEstimate::Exact(old(self).written()),
                SizeEstimate::Exact(n) => SizeEstimate::Exact(n),
            },
            final(progress).bytes_written == old(progress).bytes_written,
            final(progress).total_bytes == total_for(final(self).size(), final(self).written() as int),
            old(self).size() is Adaptive ==> final(progress).total_bytes == final(self).written(),
            old(progress).bytes_written == old(self).written() ==> final(progress).bytes_written
                <= final(progress).total_bytes,
    {
        if self.size == SizeEstimate::Adaptive {
            self.size = SizeEstimate::Exact(self.written);
        }
        let total = match self.size {
            SizeEstimate::Exact(t) => if self.written > t {
                self.written
            } else {
                t
            },
            SizeEstimate::Adaptive => adaptive_total(self.written),
        };
        progress.set_total(total);
        self.finished = true;
    }
}

/// A chunk of zeros, planned and handed to a destination, moves its cursor
/// by the chunk's length and leaves its content untouched.
pub proof fn lemma_zero_chunk_only_advances(content: Seq<u8>, cursor: nat, chunk: Seq<u8>)
    requires
        all_zero(chunk),
    ensures
        apply_chunk(content, cursor, chunk, plan_of(chunk)) == (content, cursor + chunk.len()),
{
}

/// On a destination that is zero where the chunk lands, skipping a chunk of
/// zeros leaves the same content and cursor as writing it would.
pub proof fn lemma_skip_matches_copy_on_zeroed(content: Seq<u8>, cursor: nat, chunk: Seq<u8>)
    requires
        cursor + chunk.len() <= content.len(),
        forall|i: int| cursor <= i < cursor + chunk.len() ==> content[i] == 0,
    ensures
        apply_chunk(content, cursor, chunk, plan_of(chunk)) == apply_chunk(
            content,
            cursor,
            chunk,
            ChunkWrite::Copy,
        ),
{
    if all_zero(chunk) {
        assert(overwrite(content, cursor, chunk) =~= content);
    }
}

/// Every total that progress reports covers the bytes written, and while the
/// size is adaptive it stays strictly above them.
pub proof fn lemma_total_covers_written(size: SizeEstimate, w: u64)
    ensures
        total_for(size, w as int) >= w,
        total_for(size, w as int) <= u64::MAX,
        size is Adaptive && w < u64::MAX ==> total_for(size, w as int) > w,
{
}

/// The chunks one after another: the image as read.
pub open spec fn concat_all(chunks: Seq<Seq<u8>>) -> Seq<u8>
    decreases chunks.len(),
{
    if chunks.len() == 0 {
        Seq::empty()
    } else {
        concat_all(chunks.drop_last()) + chunks.last()
    }
}

/// A destination after it received every chunk in the way `plan_chunk`
/// plans it, starting from `content` with its cursor at 0.
pub open spec fn apply_all(content: Seq<u8>, chunks: Seq<Seq<u8>>) -> (Seq<u8>, nat)
    decreases chunks.len(),
{
    if chunks.len() == 0 {
        (content, 0)
    } else {
        let prev = apply_all(content, chunks.drop_last());
        apply_chunk(prev.0, prev.1, chunks.last(), plan_of(chunks.last()))
    }
}

pub open spec fn zeros(n: nat) -> Seq<u8> {
    Seq::new(n, |i: int| 0u8)
}

/// A destination of `n` zero bytes that receives a whole image, chunk by
/// chunk as planned, holds exactly the image followed by its untouched
/// zeros, with its cursor at the image's end. Every destination receives the
/// same plans, so all of them end with the same content.
pub proof fn lemma_flash_writes_image(chunks: Seq<Seq<u8>>, n: nat)
    requires
        concat_all(chunks).len() <= n,
    ensures
        apply_all(zeros(n), chunks) == (
            concat_all(chunks) + zeros((n - concat_all(chunks).len()) as nat),
            concat_all(chunks).len(),
        ),
    decreases chunks.len(),
{
    if chunks.len() == 0 {
        assert(zeros(n) =~= concat_all(chunks) + zeros(n));
    } else {
        let init = chunks.drop_last();
        let c = chunks.last();
        let l0 = concat_all(init).len();
        lemma_flash_writes_image(init, n);
        let prev = apply_all(zeros(n), init);
        let expect = concat_all(chunks) + zeros((n - concat_all(chunks).len()) as nat);
        if all_zero(c) {
            assert(prev.0 =~= expect) by {
                assert forall|i: int| 0 <= i < expect.len() implies prev.0[i] == expect[i] by {
                    if l0 <= i < l0 + c.len() {
                        assert(c[i - l0] == 0);
                    }
                }
            }
        } else {
            assert(overwrite(prev.0, prev.1, c) =~= expect);
        }
    }
}

proof fn lemma_prefix_sums_monotone(sizes: Seq<u64>, i: int, j: int)
    requires
        0 <= i <= j <= sizes.len(),
    ensures
        sum_of(sizes.take(i)) <= sum_of(sizes.take(j)),
    decreases j - i,
{
    if i < j {
        assert(sizes.take(j).drop_last() =~= sizes.take(j - 1));
        lemma_prefix_sums_monotone(sizes, i, j - 1);
    }
}

proof fn lemma_unsynced_prefixes(sizes: Seq<u64>, t: int, k: int)
    requires
        t > 0,
        0 <= k <= sizes.len(),
    ensures
        0 <= unsynced_after(sizes.take(k), t) < t,
        k > 0 ==> (syncs_at_last(sizes.take(k), t) <==> unsynced_after(sizes.take(k - 1), t)
            + sizes[k - 1] >= t),
    decreases k,
{
    if k > 0 {
        assert(sizes.take(k).drop_last() =~= sizes.take(k - 1));
        lemma_unsynced_prefixes(sizes, t, k - 1);
    }
}

/// Throughout a run, the count of bytes written never decreases: after the
/// first `i` committed chunks it is at most what it is after the first
/// `j >= i`, and after all of them it is the stream's count.
pub proof fn lemma_written_monotone(s: FlashStream, i: int, j: int)
    requires
        s.wf(),
        0 <= i <= j <= s.chunks().len(),
    ensures
        sum_of(s.chunks().take(i)) <= sum_of(s.chunks().take(j)),
        sum_of(s.chunks().take(s.chunks().len() as int)) == s.written(),
{
    lemma_prefix_sums_monotone(s.chunks(), i, j);
    assert(s.chunks().take(s.chunks().len() as int) =~= s.chunks());
}

/// Throughout a run, after every committed chunk fewer bytes than the
/// threshold are unsynced, and the chunk that brings the count to the
/// threshold or past it is the one that asks for a durability sync; so at
/// most the threshold less one byte, plus one chunk, pass between syncs.
pub proof fn lemma_sync_cadence(s: FlashStream, k: int)
    requires
        s.wf(),
        0 <= k <= s.chunks().len(),
    ensures
        0 <= unsynced_after(s.chunks().take(k), s.threshold() as int) < s.threshold(),
        k > 0 ==> (syncs_at_last(s.chunks().take(k), s.threshold() as int) <==> unsynced_after(
            s.chunks().take(k - 1),
            s.threshold() as int,
        ) + s.chunks()[k - 1] >= s.threshold()),
{
    lemma_unsynced_prefixes(s.chunks(), s.threshold() as int, k);
}

} // verus!
