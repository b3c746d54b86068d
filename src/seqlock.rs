use vstd::prelude::*;
use vstd::bytes::*;

verus! {

/// A value that sits on a cache line of its own in the shared layout.
pub struct CacheAligned<T>(pub T);

/// Header of the SeqLock sub-region.
///
/// An even `sequence` means the payload is stable; an odd one means a
/// publish is in progress.
pub struct SeqLockHeader {
    pub sequence: CacheAligned<u64>,
    pub data_size: usize,
}

impl SeqLockHeader {
    /// A header with sequence 0 for a payload of `data_size` bytes.
    pub fn init(data_size: usize) -> (r: Self)
        ensures
            r.sequence.0 == 0,
            r.data_size == data_size,
    {
        SeqLockHeader { sequence: CacheAligned(0), data_size }
    }

    /// The payload capacity in bytes.
    pub fn data_size(&self) -> (r: usize)
        ensures
            r == self.data_size,
    {
        self.data_size
    }
}

/// The SeqLock sub-region of a channel: its header and its payload bytes.
pub struct SeqLockFrame {
    pub header: SeqLockHeader,
    pub data: Vec<u8>,
}

/// The sequence value after one increment of the counter (which wraps).
pub open spec fn next_seq(s: u64) -> u64 {
    if s == u64::MAX {
        0
    } else {
        (s + 1) as u64
    }
}

/// The smaller of two integers.
pub open spec fn min_int(a: int, b: int) -> int {
    if a <= b {
        a
    } else {
        b
    }
}

/// `src[0..n]` laid over the start of `dst`, the rest of `dst` kept.
pub open spec fn overlay(dst: Seq<u8>, src: Seq<u8>, n: int) -> Seq<u8> {
    src.subrange(0, n) + dst.subrange(n, dst.len() as int)
}

/// Payload bytes after a plain publish of `p` over `data`: the first
/// `min(len(p), len(data))` bytes are those of `p`, the rest unchanged.
pub open spec fn published(data: Seq<u8>, p: Seq<u8>) -> Seq<u8> {
    overlay(data, p, min_int(p.len() as int, data.len() as int))
}

/// Length stored in the prefix of a length-prefixed publish of `p` into a
/// payload of `data_size` bytes.
pub open spec fn prefixed_len(data_size: int, p: Seq<u8>) -> int {
    min_int(p.len() as int, data_size - 8)
}

/// Payload bytes after a length-prefixed publish of `p` over `data`: the
/// 8-byte little-endian length, then that many bytes of `p`, the rest unchanged.
pub open spec fn published_with_len(data: Seq<u8>, p: Seq<u8>) -> Seq<u8> {
    let n = prefixed_len(data.len() as int, p);
    spec_u64_to_le_bytes(n as u64) + p.subrange(0, n) + data.subrange(8 + n, data.len() as int)
}

/// The frame length recorded in the prefix of `data`.
pub open spec fn stored_len(data: Seq<u8>) -> u64 {
    spec_u64_from_le_bytes(data.subrange(0, 8))
}

/// Number of payload bytes a length-prefixed read copies into a buffer of
/// `buf_len` bytes: the recorded length, bounded by the buffer and by the
/// payload capacity.
pub open spec fn prefixed_copy_len(data: Seq<u8>, buf_len: int) -> int {
    min_int(min_int(stored_len(data) as int, buf_len), data.len() - 8)
}

impl SeqLockFrame {
    /// The payload has exactly the capacity the header announces.
    pub open spec fn wf(&self) -> bool {
        self.data@.len() == self.header.data_size
    }

    /// The current sequence value.
    pub open spec fn seq(&self) -> u64 {
        self.header.sequence.0
    }

    /// No publish is in progress.
    pub open spec fn stable(&self) -> bool {
        self.seq() % 2 == 0
    }

    /// A zeroed frame with `data_size` payload bytes and sequence 0.
    pub fn new(data_size: usize) -> (r: Self)
        ensures
            r.wf(),
            r.seq() == 0,
            r.header.data_size == data_size,
            r.data@ == Seq::new(data_size as nat, |i: int| 0u8),
    {
        let mut data: Vec<u8> = Vec::new();
        let mut i: usize = 0;
        while i < data_size
            invariant
                i <= data_size,
                data@ == Seq::new(i as nat, |k: int| 0u8),
            decreases data_size - i,
        {
            data.push(0u8);
            i = i + 1;
            assert(data@ =~= Seq::new(i as nat, |k: int| 0u8));
        }
        SeqLockFrame { header: SeqLockHeader::init(data_size), data }
    }
}

/// The writer role of a SeqLock. There is one writer per frame.
pub struct SeqLockWriter {}

/// The reader role of a SeqLock. Any number of readers may exist.
pub struct SeqLockReader {}

impl SeqLockWriter {
    /// The writer handle.
    pub fn new() -> (r: Self) {
        SeqLockWriter {}
    }

    /// Opens a publish: the sequence moves from even to odd.
    pub fn begin_write(&self, frame: &mut SeqLockFrame)
        ensures
            final(frame).seq() == next_seq(old(frame).seq()),
            final(frame).header.data_size == old(frame).header.data_size,
            final(frame).data@ == old(frame).data@,
    {
        frame.header.sequence.0 = frame.header.sequence.0.wrapping_add(1);
    }

    /// Closes a publish: the sequence moves from odd to even.
    pub fn end_write(&self, frame: &mut SeqLockFrame)
        ensures
            final(frame).seq() == next_seq(old(frame).seq()),
            final(frame).header.data_size == old(frame).header.data_size,
            final(frame).data@ == old(frame).data@,
    {
        frame.header.sequence.0 = frame.header.sequence.0.wrapping_add(1);
    }

    /// Copies `src[0..n]` into the payload at `offset`.
    fn copy_in(&self, frame: &mut SeqLockFrame, offset: usize, src: &[u8], n: usize)
        requires
            old(frame).wf(),
            n <= src@.len(),
            offset + n <= old(frame).data@.len(),
        ensures
            final(frame).wf(),
            final(frame).header == old(frame).header,
            final(frame).data@ == old(frame).data@.subrange(0, offset as int) + src@.subrange(
                0,
                n as int,
            ) + old(frame).data@.subrange(offset + n, old(frame).data@.len() as int),
    {
        let ghost before = frame.data@;
        let mut i: usize = 0;
        while i < n
            invariant
                i <= n,
                n <= src@.len(),
                offset + n <= before.len(),
                frame.header == old(frame).header,
                frame.data@.len() == before.len(),
                frame.header.data_size == before.len(),
                forall|k: int| 0 <= k < offset ==> frame.data@[k] == before[k],
                forall|k: int| 0 <= k < i ==> frame.data@[offset + k] == src@[k],
                forall|k: int| offset + i <= k < before.len() ==> frame.data@[k] == before[k],
            decreases n - i,
        {
            frame.data[offset + i] = src[i];
            i = i + 1;
        }
        assert(frame.data@ =~= before.subrange(0, offset as int) + src@.subrange(0, n as int)
            + before.subrange(offset + n, before.len() as int));
    }

    /// Publishes `data`, truncated to the payload capacity.
    ///
    /// The sequence advances by two and the first `min(len(data), data_size)`
    /// payload bytes become those of `data`; the bytes after them are left as
    /// they were.
    pub fn write(&self, frame: &mut SeqLockFrame, data: &[u8])
        requires
            old(frame).wf(),
        ensures
            final(frame).wf(),
            final(frame).header.data_size == old(frame).header.data_size,
            final(frame).seq() == next_seq(next_seq(old(frame).seq())),
            final(frame).data@ == published(old(frame).data@, data@),
    {
        let max_size = frame.header.data_size;
        let len = if data.len() < max_size {
            data.len()
        } else {
            max_size
        };
        self.begin_write(frame);
        self.copy_in(frame, 0, data, len);
        self.end_write(frame);
        assert(frame.data@ =~= published(old(frame).data@, data@));
    }

    /// Publishes `data` behind an 8-byte little-endian length prefix; at most
    /// `data_size - 8` bytes of `data` are stored and the prefix records how
    /// many.
    pub fn write_with_len(&self, frame: &mut SeqLockFrame, data: &[u8])
        requires
            old(frame).wf(),
            old(frame).header.data_size >= 8,
        ensures
            final(frame).wf(),
            final(frame).header.data_size == old(frame).header.data_size,
            final(frame).seq() == next_seq(next_seq(old(frame).seq())),
            final(frame).data@ == published_with_len(old(frame).data@, data@),
    {
        let max_size = frame.header.data_size;
        let len = if data.len() < max_size - 8 {
            data.len()
        } else {
            max_size - 8
        };
        self.begin_write(frame);
        let len_bytes = u64_to_le_bytes(len as u64);
        self.copy_in(frame, 0, len_bytes.as_slice(), 8);
        self.copy_in(frame, 8, data, len);
        self.end_write(frame);
        assert(frame.data@ =~= published_with_len(old(frame).data@, data@));
    }
}

impl SeqLockReader {
    /// The reader handle.
    pub fn new() -> (r: Self) {
        SeqLockReader {}
    }

    /// First observation of a read: the sequence value if no publish is in
    /// progress.
    pub fn begin_read(&self, frame: &SeqLockFrame) -> (r: Option<u64>)
        ensures
            r == (if frame.stable() {
                Some(frame.seq())
            } else {
                None::<u64>
            }),
    {
        let seq1 = frame.header.sequence.0;
        if seq1 % 2 == 1 {
            None
        } else {
            Some(seq1)
        }
    }

    /// Second observation of a read: the copy taken since `seq1` is
    /// consistent exactly when the sequence still reads `seq1`.
    pub fn validate_read(&self, frame: &SeqLockFrame, seq1: u64) -> (r: bool)
        ensures
            r == (frame.seq() == seq1),
    {
        frame.header.sequence.0 == seq1
    }

    /// Copies `n` payload bytes from `offset` into the start of `buf`.
    fn copy_out(&self, frame: &SeqLockFrame, offset: usize, buf: &mut [u8], n: usize)
        requires
            frame.wf(),
            n <= old(buf)@.len(),
            offset + n <= frame.data@.len(),
        ensures
            final(buf)@ == overlay(
                old(buf)@,
                frame.data@.subrange(offset as int, offset + n),
                n as int,
            ),
    {
        let ghost before = buf@;
        let mut i: usize = 0;
        while i < n
            invariant
                i <= n,
                n <= before.len(),
                offset + n <= frame.data@.len(),
                frame.wf(),
                buf@.len() == before.len(),
                forall|k: int| 0 <= k < i ==> buf@[k] == frame.data@[offset + k],
                forall|k: int| i <= k < before.len() ==> buf@[k] == before[k],
            decreases n - i,
        {
            buf[i] = frame.data[offset + i];
            i = i + 1;
        }
        assert(buf@ =~= overlay(before, frame.data@.subrange(offset as int, offset + n), n as int));
    }

    /// One read attempt: `None` when a publish is in progress, otherwise the
    /// first `min(data_size, len(buf))` payload bytes are copied into `buf`
    /// and their number returned.
    pub fn try_read(&self, frame: &SeqLockFrame, buf: &mut [u8]) -> (r: Option<usize>)
        requires
            frame.wf(),
        ensures
            !frame.stable() ==> r.is_none() && final(buf)@ == old(buf)@,
            frame.stable() ==> r == Some(
                min_int(frame.data@.len() as int, old(buf)@.len() as int) as usize,
            ) && final(buf)@ == published(old(buf)@, frame.data@),
    {
        let max_size = if frame.header.data_size < buf.len() {
            frame.header.data_size
        } else {
            buf.len()
        };
        match self.begin_read(frame) {
            None => None,
            Some(seq1) => {
                self.copy_out(frame, 0, buf, max_size);
                if self.validate_read(frame, seq1) {
                    Some(max_size)
                } else {
                    None
                }
            },
        }
    }

    /// Reads a consistent snapshot: the first `min(data_size, len(buf))`
    /// payload bytes are copied into `buf` and their number returned.
    ///
    /// A read waits while a publish is in progress, so the frame must be
    /// stable for the call to return.
    pub fn read(&self, frame: &SeqLockFrame, buf: &mut [u8]) -> (r: usize)
        requires
            frame.wf(),
            frame.stable(),
        ensures
            r == min_int(frame.data@.len() as int, old(buf)@.len() as int),
            final(buf)@ == published(old(buf)@, frame.data@),
    {
        // the frame is stable, so the attempt succeeds
        match self.try_read(frame, buf) {
            Some(n) => n,
            None => 0,
        }
    }

    /// Reads a length-prefixed frame: copies the recorded payload into the
    /// start of `buf`, bounded by the buffer, and returns the recorded length
    /// even when it exceeds the buffer.
    ///
    /// A read waits while a publish is in progress, so the frame must be
    /// stable for the call to return.
    pub fn read_with_len(&self, frame: &SeqLockFrame, buf: &mut [u8]) -> (r: usize)
        requires
            frame.wf(),
            frame.stable(),
            frame.data@.len() >= 8,
        ensures
            r == stored_len(frame.data@) as usize,
            final(buf)@ == overlay(
                old(buf)@,
                frame.data@.subrange(8, frame.data@.len() as int),
                prefixed_copy_len(frame.data@, old(buf)@.len() as int),
            ),
    {
        // the frame is stable, so the first observation succeeds and the
        // second one matches it
        let seq1 = match self.begin_read(frame) {
            Some(s) => s,
            None => {
                return 0;
            },
        };
        let len = u64_from_le_bytes(&frame.data.as_slice()[0..8]);
        let cap = frame.header.data_size - 8;
        let mut copy_len: usize = buf.len();
        if (len as u128) < (copy_len as u128) {
            copy_len = len as usize;
        }
        if cap < copy_len {
            copy_len = cap;
        }
        self.copy_out(frame, 8, buf, copy_len);
        proof {
            let d = frame.data@;
            assert(d.subrange(8, 8 + copy_len) =~= d.subrange(8, d.len() as int).subrange(
                0,
                copy_len as int,
            ));
        }
        if self.validate_read(frame, seq1) {
            len as usize
        } else {
            0
        }
    }
}

} // verus!

verus! {

/// Payload bytes after the length-prefixed publishes of `ps`, in order.
pub open spec fn published_all(data: Seq<u8>, ps: Seq<Seq<u8>>) -> Seq<u8>
    decreases ps.len(),
{
    if ps.len() == 0 {
        data
    } else {
        published_with_len(published_all(data, ps.drop_last()), ps.last())
    }
}

/// The payload holds `resp` behind its length prefix, truncated to the
/// capacity: the prefix records `min(len(resp), len(data) - 8)` and that
/// many bytes of `resp` follow it.
pub open spec fn holds_response(data: Seq<u8>, resp: Seq<u8>) -> bool {
    let n = prefixed_len(data.len() as int, resp);
    &&& stored_len(data) == n
    &&& data.subrange(8, 8 + n) == resp.subrange(0, n)
}

/// A length-prefixed publish of `p` leaves the payload holding `p`.
pub proof fn lemma_published_with_len_contents(data: Seq<u8>, p: Seq<u8>)
    requires
        8 <= data.len() <= u64::MAX,
    ensures
        holds_response(published_with_len(data, p), p),
        published_with_len(data, p).len() == data.len(),
{
    lemma_auto_spec_u64_to_from_le_bytes();
    let d = published_with_len(data, p);
    let n = prefixed_len(data.len() as int, p);
    assert(d.subrange(0, 8) =~= spec_u64_to_le_bytes(n as u64));
    assert(d.subrange(8, 8 + n) =~= p.subrange(0, n));
}

/// A length-prefixed publish keeps the payload's size.
pub proof fn lemma_published_with_len_size(data: Seq<u8>, p: Seq<u8>)
    requires
        data.len() >= 8,
    ensures
        published_with_len(data, p).len() == data.len(),
{
    lemma_auto_spec_u64_to_from_le_bytes();
}

/// Round trip: after a length-prefixed publish of a payload `p` that fits
/// (`len(p) <= data_size - 8`), a length-prefixed read reports `len(p)`, and
/// the bytes it copies into a buffer of any size are the matching prefix of
/// `p`.
pub proof fn lemma_round_trip_with_len(data: Seq<u8>, p: Seq<u8>, buf: Seq<u8>)
    requires
        8 <= data.len() <= u64::MAX,
        p.len() <= data.len() - 8,
    ensures
        stored_len(published_with_len(data, p)) == p.len(),
        ({
            let d = published_with_len(data, p);
            let n = min_int(p.len() as int, buf.len() as int);
            &&& prefixed_copy_len(d, buf.len() as int) == n
            &&& overlay(buf, d.subrange(8, d.len() as int), n).subrange(0, n) == p.subrange(0, n)
        }),
{
    lemma_auto_spec_u64_to_from_le_bytes();
    let d = published_with_len(data, p);
    let n = p.len();
    assert(d.subrange(0, 8) =~= spec_u64_to_le_bytes(n as u64));
    let m = min_int(p.len() as int, buf.len() as int);
    assert(overlay(buf, d.subrange(8, d.len() as int), m).subrange(0, m) =~= p.subrange(0, m));
}

/// Overlong payloads are truncated: a plain publish of `p` with
/// `len(p) > data_size` leaves exactly the first `data_size` bytes of `p` in
/// the payload.
pub proof fn lemma_overlong_write_truncates(data: Seq<u8>, p: Seq<u8>)
    requires
        p.len() > data.len(),
    ensures
        published(data, p) == p.subrange(0, data.len() as int),
{
    assert(published(data, p) =~= p.subrange(0, data.len() as int));
}

/// Atomicity of publish: after any non-empty run of length-prefixed
/// publishes of payloads that fit, a length-prefixed read sees exactly the
/// last payload, whole; no byte of an earlier payload shows through.
pub proof fn lemma_read_sees_one_publish(data: Seq<u8>, ps: Seq<Seq<u8>>)
    requires
        8 <= data.len() <= u64::MAX,
        ps.len() > 0,
        forall|i: int| 0 <= i < ps.len() ==> (#[trigger] ps[i]).len() <= data.len() - 8,
    ensures
        ({
            let d = published_all(data, ps);
            &&& stored_len(d) == ps.last().len()
            &&& d.subrange(8, 8 + ps.last().len() as int) == ps.last()
        }),
    decreases ps.len(),
{
    lemma_published_all_size(data, ps.drop_last());
    let before = published_all(data, ps.drop_last());
    lemma_round_trip_with_len(before, ps.last(), ps.last());
    lemma_auto_spec_u64_to_from_le_bytes();
    let d = published_with_len(before, ps.last());
    assert(d.subrange(8, 8 + ps.last().len() as int) =~= ps.last());
}

/// Publishing keeps the payload's size.
proof fn lemma_published_all_size(data: Seq<u8>, ps: Seq<Seq<u8>>)
    requires
        data.len() >= 8,
    ensures
        published_all(data, ps).len() == data.len(),
    decreases ps.len(),
{
    if ps.len() > 0 {
        lemma_published_all_size(data, ps.drop_last());
        lemma_published_with_len_size(published_all(data, ps.drop_last()), ps.last());
    }
}

/// One step of the writer on a frame seen as (sequence, payload): opening a
/// publish (even to odd, payload kept), copying (sequence odd and kept,
/// payload size kept), or closing it (odd to even, payload kept).
pub open spec fn writer_step(a: (u64, Seq<u8>), b: (u64, Seq<u8>)) -> bool {
    ||| (a.0 % 2 == 0 && b.0 == next_seq(a.0) && b.1 == a.1)
    ||| (a.0 % 2 == 1 && b.0 == a.0 && b.1.len() == a.1.len())
    ||| (a.0 % 2 == 1 && b.0 == next_seq(a.0) && b.1 == a.1)
}

/// Sequence parity: if a reader sees an even sequence, the writer then takes
/// any steps, and the reader sees the same sequence again, then the payload
/// stayed the same in every state in between, so any copy taken between the
/// two observations is consistent. The trace is short enough for the counter
/// not to wrap.
pub proof fn lemma_sequence_parity(t: Seq<(u64, Seq<u8>)>)
    requires
        t.len() >= 1,
        forall|i: int| 0 <= i < t.len() - 1 ==> writer_step(#[trigger] t[i], t[i + 1]),
        t[0].0 % 2 == 0,
        t.last().0 == t[0].0,
        t[0].0 + t.len() <= u64::MAX,
    ensures
        forall|i: int| 0 <= i < t.len() ==> (#[trigger] t[i]).1 == t[0].1,
{
    let s0 = t[0].0 as int;
    // every state's sequence is in [s0, s0 + i], and one at s0 still has the
    // first payload
    assert forall|i: int| 0 <= i < t.len() implies s0 <= (#[trigger] t[i]).0 <= s0 + i && (t[i].0
        == s0 ==> t[i].1 == t[0].1) by {
        lemma_parity_prefix(t, i);
    }
    // once the sequence has left s0 it never comes back
    assert forall|i: int| 0 <= i < t.len() implies (#[trigger] t[i]).0 == s0 by {
        if t[i].0 != s0 {
            lemma_parity_stays_above(t, i, t.len() - 1);
        }
    }
}

proof fn lemma_parity_prefix(t: Seq<(u64, Seq<u8>)>, i: int)
    requires
        0 <= i < t.len(),
        forall|j: int| 0 <= j < t.len() - 1 ==> writer_step(#[trigger] t[j], t[j + 1]),
        t[0].0 % 2 == 0,
        t[0].0 + t.len() <= u64::MAX,
    ensures
        t[0].0 <= t[i].0 <= t[0].0 + i,
        t[i].0 == t[0].0 ==> t[i].1 == t[0].1,
    decreases i,
{
    if i > 0 {
        lemma_parity_prefix(t, i - 1);
        assert(writer_step(t[i - 1], t[i]));
    }
}

proof fn lemma_parity_stays_above(t: Seq<(u64, Seq<u8>)>, i: int, j: int)
    requires
        0 <= i <= j < t.len(),
        forall|k: int| 0 <= k < t.len() - 1 ==> writer_step(#[trigger] t[k], t[k + 1]),
        t[0].0 % 2 == 0,
        t[0].0 + t.len() <= u64::MAX,
        t[i].0 > t[0].0,
    ensures
        t[j].0 > t[0].0,
    decreases j - i,
{
    if j > i {
        lemma_parity_stays_above(t, i, j - 1);
        lemma_parity_prefix(t, j - 1);
        assert(writer_step(t[j - 1], t[j]));
    }
}

} // verus!
