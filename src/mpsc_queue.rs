use vstd::prelude::*;
use vstd::arithmetic::div_mod::{lemma_fundamental_div_mod, lemma_mod_pos_bound, lemma_mod_add_multiples_vanish};
use crate::layout::{COMMAND_SLOT_SIZE, MAX_CMD_SIZE, MAX_SLOTS, MPSC_HEADER_SIZE};
use crate::seqlock::{CacheAligned, overlay, min_int};

verus! {

/// Slot state: free for a producer to claim.
pub const SLOT_EMPTY: u8 = 0;

/// Slot state: claimed by a producer that is filling it.
pub const SLOT_WRITING: u8 = 1;

/// Slot state: holds a complete command for the consumer.
pub const SLOT_READY: u8 = 2;

/// Slot state: being copied out by the consumer.
pub const SLOT_PROCESSING: u8 = 3;

/// One fixed-capacity entry of the command queue.
pub struct CommandSlot {
    pub state: u8,
    pub client_id: u32,
    pub cmd_len: u32,
    pub cmd_data: Vec<u8>,
}

impl CommandSlot {
    /// The payload area has its fixed capacity and the length fits in it.
    pub open spec fn wf(&self) -> bool {
        &&& self.cmd_data@.len() == MAX_CMD_SIZE
        &&& self.cmd_len <= MAX_CMD_SIZE
    }

    /// The command the slot holds: its producer's id and its bytes.
    pub open spec fn command(&self) -> (u32, Seq<u8>) {
        (self.client_id, self.cmd_data@.subrange(0, self.cmd_len as int))
    }

    /// An empty slot with a zeroed payload area.
    pub fn empty() -> (r: Self)
        ensures
            r.wf(),
            r.state == SLOT_EMPTY,
            r.client_id == 0,
            r.cmd_len == 0,
    {
        let mut cmd_data: Vec<u8> = Vec::new();
        let mut i: usize = 0;
        while i < MAX_CMD_SIZE
            invariant
                i <= MAX_CMD_SIZE,
                cmd_data@.len() == i,
            decreases MAX_CMD_SIZE - i,
        {
            cmd_data.push(0u8);
            i = i + 1;
        }
        CommandSlot { state: SLOT_EMPTY, client_id: 0, cmd_len: 0, cmd_data }
    }
}

/// The command queue sub-region: claim and consume counters and the slots.
///
/// Commands occupy the slots from `read_idx` up to `write_idx`, taken modulo
/// the number of slots; those slots are READY and all others EMPTY.
pub struct MpscQueueHeader {
    pub write_idx: CacheAligned<u64>,
    pub read_idx: CacheAligned<u64>,
    pub num_slots: usize,
    pub slots: Vec<CommandSlot>,
}

/// Queue contents after a producer with id `client_id` offers `cmd`, and
/// whether the offer was taken: it is taken exactly when the command fits a
/// slot and fewer than `capacity` commands are waiting.
pub open spec fn model_push(
    pending: Seq<(u32, Seq<u8>)>,
    capacity: int,
    client_id: u32,
    cmd: Seq<u8>,
) -> (Seq<(u32, Seq<u8>)>, bool) {
    if cmd.len() <= MAX_CMD_SIZE && pending.len() < capacity {
        (pending.push((client_id, cmd)), true)
    } else {
        (pending, false)
    }
}

/// Queue contents after the consumer takes one command, and the command
/// taken: the oldest one, if any.
pub open spec fn model_pop(pending: Seq<(u32, Seq<u8>)>) -> (
    Seq<(u32, Seq<u8>)>,
    Option<(u32, Seq<u8>)>,
) {
    if pending.len() == 0 {
        (pending, None)
    } else {
        (pending.drop_first(), Some(pending[0]))
    }
}

impl MpscQueueHeader {
    /// The slot the next claim goes to.
    pub open spec fn tail_slot(&self) -> int {
        (self.write_idx.0 as int) % (self.num_slots as int)
    }

    /// The slot the consumer reads next.
    pub open spec fn head_slot(&self) -> int {
        (self.read_idx.0 as int) % (self.num_slots as int)
    }
}

/// `new` is `old` after a producer with id `client_id` claimed the tail
/// slot for `cmd`: the claim counter moved on by one, the tail slot is READY
/// with the producer's id, the command's length and its bytes at the start
/// of the payload area (the rest of which is kept), and every other slot and
/// the read counter are unchanged.
pub open spec fn pushed(
    old: MpscQueueHeader,
    new: MpscQueueHeader,
    client_id: u32,
    cmd: Seq<u8>,
) -> bool {
    let i = old.tail_slot();
    &&& new.num_slots == old.num_slots
    &&& new.read_idx == old.read_idx
    &&& new.write_idx.0 == old.write_idx.0 + 1
    &&& new.slots@.len() == old.slots@.len()
    &&& forall|j: int|
        0 <= j < old.slots@.len() && j != i ==> #[trigger] new.slots@[j] == old.slots@[j]
    &&& new.slots@[i].state == SLOT_READY
    &&& new.slots@[i].client_id == client_id
    &&& new.slots@[i].cmd_len == cmd.len()
    &&& new.slots@[i].cmd_data@ == cmd + old.slots@[i].cmd_data@.subrange(
        cmd.len() as int,
        MAX_CMD_SIZE as int,
    )
}

/// `new` is `old` after the consumer took the head slot: that slot is EMPTY
/// with its other fields kept, the read counter moved on by one, and every
/// other slot and the claim counter are unchanged.
pub open spec fn popped(old: MpscQueueHeader, new: MpscQueueHeader) -> bool {
    let i = old.head_slot();
    &&& new.num_slots == old.num_slots
    &&& new.write_idx == old.write_idx
    &&& new.read_idx.0 == old.read_idx.0 + 1
    &&& new.slots@ == old.slots@.update(i, (CommandSlot { state: SLOT_EMPTY, ..old.slots@[i] }))
}

/// Distinct offsets below `n` from one base fall on distinct slots.
proof fn lemma_slot_distinct(r: int, a: int, b: int, n: int)
    requires
        0 <= r,
        0 < n,
        0 <= a < n,
        0 <= b < n,
        a != b,
    ensures
        (r + a) % n != (r + b) % n,
{
    lemma_fundamental_div_mod(r + a, n);
    lemma_fundamental_div_mod(r + b, n);
    let qa = (r + a) / n;
    let qb = (r + b) / n;
    if (r + a) % n == (r + b) % n {
        let m = (r + a) % n;
        assert(false) by (nonlinear_arith)
            requires
                r + a == n * qa + m,
                r + b == n * qb + m,
                0 < n,
                0 <= a < n,
                0 <= b < n,
                a != b,
        ;
    }
}

impl MpscQueueHeader {
    /// Bytes taken by a queue header with `num_slots` slots after it.
    pub open spec fn spec_size_for_slots(num_slots: int) -> int {
        MPSC_HEADER_SIZE + num_slots * COMMAND_SLOT_SIZE
    }

    /// Bytes taken by a queue header with `num_slots` slots after it.
    pub fn size_for_slots(num_slots: usize) -> (r: usize)
        requires
            Self::spec_size_for_slots(num_slots as int) <= usize::MAX,
        ensures
            r == Self::spec_size_for_slots(num_slots as int),
    {
        MPSC_HEADER_SIZE + num_slots * COMMAND_SLOT_SIZE
    }

    /// Number of commands waiting.
    pub open spec fn count(&self) -> int {
        self.write_idx.0 - self.read_idx.0
    }

    /// The slot holding the `k`-th oldest waiting command.
    pub open spec fn pos(&self, k: int) -> int {
        (self.read_idx.0 + k) % (self.num_slots as int)
    }

    /// The ring invariant of the queue.
    pub open spec fn wf(&self) -> bool {
        &&& 1 <= self.num_slots
        &&& self.slots@.len() == self.num_slots
        &&& self.read_idx.0 <= self.write_idx.0
        &&& self.count() <= self.num_slots
        &&& forall|j: int| 0 <= j < self.num_slots ==> (#[trigger] self.slots@[j]).wf()
        &&& forall|k: int|
            0 <= k < self.count() ==> (#[trigger] self.slots@[self.pos(k)]).state == SLOT_READY
        &&& forall|k: int|
            self.count() <= k < self.num_slots ==> (#[trigger] self.slots@[self.pos(
                k,
            )]).state == SLOT_EMPTY
    }

    /// The waiting commands, oldest first.
    pub open spec fn pending(&self) -> Seq<(u32, Seq<u8>)> {
        Seq::new(self.count() as nat, |k: int| self.slots@[self.pos(k)].command())
    }

    /// Every waiting command fits a slot.
    pub proof fn lemma_pending_fit(&self)
        requires
            self.wf(),
        ensures
            forall|k: int|
                0 <= k < self.pending().len() ==> (#[trigger] self.pending()[k]).1.len()
                    <= MAX_CMD_SIZE,
    {
        assert forall|k: int| 0 <= k < self.pending().len() implies (#[trigger] self.pending()[
            k
        ]).1.len() <= MAX_CMD_SIZE by {
            lemma_mod_pos_bound(self.read_idx.0 + k, self.num_slots as int);
            assert(self.slots@[self.pos(k)].wf());
        }
    }

    /// A queue of `num_slots` empty slots with both counters at 0.
    pub fn init(num_slots: usize) -> (r: Self)
        requires
            1 <= num_slots <= MAX_SLOTS,
        ensures
            r.wf(),
            r.num_slots == num_slots,
            r.write_idx.0 == 0,
            r.read_idx.0 == 0,
            r.pending() == Seq::<(u32, Seq<u8>)>::empty(),
            forall|j: int| 0 <= j < num_slots ==> (#[trigger] r.slots@[j]).state == SLOT_EMPTY,
    {
        let mut slots: Vec<CommandSlot> = Vec::new();
        let mut i: usize = 0;
        while i < num_slots
            invariant
                i <= num_slots,
                slots@.len() == i,
                forall|j: int| 0 <= j < i ==> (#[trigger] slots@[j]).wf() && slots@[j].state
                    == SLOT_EMPTY,
            decreases num_slots - i,
        {
            slots.push(CommandSlot::empty());
            i = i + 1;
        }
        let r = MpscQueueHeader {
            write_idx: CacheAligned(0),
            read_idx: CacheAligned(0),
            num_slots,
            slots,
        };
        assert forall|k: int| r.count() <= k < r.num_slots implies (#[trigger] r.slots@[r.pos(
            k,
        )]).state == SLOT_EMPTY by {
            lemma_mod_pos_bound(k, num_slots as int);
        }
        assert(r.pending() =~= Seq::<(u32, Seq<u8>)>::empty());
        r
    }
}

/// The producer role of the queue, bound to the id of the shell that sends.
pub struct MpscProducer {
    pub client_id: u32,
}

/// The consumer role of the queue. There is one consumer per queue.
pub struct MpscConsumer {}

impl MpscProducer {
    /// A producer that tags its commands with `client_id`.
    pub fn new(client_id: u32) -> (r: Self)
        ensures
            r.client_id == client_id,
    {
        MpscProducer { client_id }
    }

    /// Writes the command into a claimed slot and publishes it.
    fn fill_slot(&self, slot: &mut CommandSlot, cmd: &[u8])
        requires
            old(slot).wf(),
            cmd@.len() <= MAX_CMD_SIZE,
        ensures
            final(slot).wf(),
            final(slot).state == SLOT_READY,
            final(slot).command() == (self.client_id, cmd@),
            final(slot).client_id == self.client_id,
            final(slot).cmd_len == cmd@.len(),
            final(slot).cmd_data@ == cmd@ + old(slot).cmd_data@.subrange(
                cmd@.len() as int,
                MAX_CMD_SIZE as int,
            ),
    {
        slot.state = SLOT_WRITING;
        slot.client_id = self.client_id;
        slot.cmd_len = cmd.len() as u32;
        let ghost before = slot.cmd_data@;
        let n = cmd.len();
        let mut i: usize = 0;
        while i < n
            invariant
                i <= n,
                n == cmd@.len(),
                n <= MAX_CMD_SIZE,
                slot.cmd_data@.len() == MAX_CMD_SIZE,
                slot.client_id == self.client_id,
                slot.cmd_len == n,
                before.len() == MAX_CMD_SIZE,
                forall|k: int| 0 <= k < i ==> slot.cmd_data@[k] == cmd@[k],
                forall|k: int| i <= k < MAX_CMD_SIZE ==> slot.cmd_data@[k] == before[k],
            decreases n - i,
        {
            slot.cmd_data[i] = cmd[i];
            i = i + 1;
        }
        assert(slot.cmd_data@.subrange(0, n as int) =~= cmd@);
        assert(slot.cmd_data@ =~= cmd@ + before.subrange(n as int, MAX_CMD_SIZE as int));
        slot.state = SLOT_READY;
    }

    /// Offers a command without waiting.
    ///
    /// The command is taken, tagged with this producer's id and queued after
    /// every waiting command, exactly when it is at most `MAX_CMD_SIZE` bytes
    /// long and a slot is free; otherwise the queue is left as it was.
    pub fn try_push(&self, q: &mut MpscQueueHeader, cmd: &[u8]) -> (r: bool)
        requires
            old(q).wf(),
            old(q).write_idx.0 < u64::MAX,
        ensures
            final(q).wf(),
            final(q).num_slots == old(q).num_slots,
            (final(q).pending(), r) == model_push(
                old(q).pending(),
                old(q).num_slots as int,
                self.client_id,
                cmd@,
            ),
            final(q).read_idx == old(q).read_idx,
            final(q).write_idx.0 == old(q).write_idx.0 + if r {
                1int
            } else {
                0int
            },
            !r ==> *final(q) == *old(q),
            r ==> pushed(*old(q), *final(q), self.client_id, cmd@),
    {
        if cmd.len() > MAX_CMD_SIZE {
            return false;
        }
        let n = q.num_slots;
        let idx = q.write_idx.0;
        let slot_idx = (idx % (n as u64)) as usize;
        let ghost c = q.count();
        proof {
            lemma_mod_pos_bound(idx as int, n as int);
            assert(slot_idx == q.pos(c));
            if c == n {
                lemma_mod_add_multiples_vanish(q.read_idx.0 as int, n as int);
                assert(q.pos(0) == slot_idx);
            }
        }
        if q.slots[slot_idx].state != SLOT_EMPTY {
            return false;
        }
        let ghost old_q = *q;
        self.fill_slot(&mut q.slots[slot_idx], cmd);
        q.write_idx.0 = idx + 1;
        proof {
            assert(c < n);
            assert forall|k: int| 0 <= k < n && k != c implies q.slots@[q.pos(k)] == old_q.slots@[old_q.pos(k)] by {
                lemma_slot_distinct(q.read_idx.0 as int, k, c, n as int);
                lemma_mod_pos_bound(q.read_idx.0 + k, n as int);
            }
            assert forall|j: int| 0 <= j < n implies (#[trigger] q.slots@[j]).wf() by {
            }
            assert forall|k: int| 0 <= k < q.count() implies (#[trigger] q.slots@[q.pos(k)]).state == SLOT_READY by {
                if k != c {
                    lemma_slot_distinct(q.read_idx.0 as int, k, c, n as int);
                    assert(q.slots@[q.pos(k)] == old_q.slots@[old_q.pos(k)]);
                    assert(old_q.slots@[old_q.pos(k)].state == SLOT_READY);
                }
            }
            assert forall|k: int| q.count() <= k < q.num_slots implies (#[trigger] q.slots@[q.pos(k)]).state == SLOT_EMPTY by {
                lemma_slot_distinct(q.read_idx.0 as int, k, c, n as int);
                assert(q.slots@[q.pos(k)] == old_q.slots@[old_q.pos(k)]);
                assert(old_q.slots@[old_q.pos(k)].state == SLOT_EMPTY);
            }
            assert(q.pending() =~= old_q.pending().push((self.client_id, cmd@)));
            assert(slot_idx == old_q.tail_slot());
        }
        true
    }

    /// Sends a command, retrying until a slot is free.
    ///
    /// A retry only succeeds once the consumer frees a slot, so the call
    /// returns when the command fits a slot and fewer than `num_slots`
    /// commands are waiting; it is then queued as by `try_push`.
    pub fn push(&self, q: &mut MpscQueueHeader, cmd: &[u8])
        requires
            old(q).wf(),
            old(q).write_idx.0 < u64::MAX,
            cmd@.len() <= MAX_CMD_SIZE,
            old(q).count() < old(q).num_slots,
        ensures
            final(q).wf(),
            final(q).num_slots == old(q).num_slots,
            final(q).pending() == old(q).pending().push((self.client_id, cmd@)),
            final(q).read_idx == old(q).read_idx,
            final(q).write_idx.0 == old(q).write_idx.0 + 1,
            pushed(*old(q), *final(q), self.client_id, cmd@),
    {
        let ok = self.try_push(q, cmd);
        assert(ok);
    }
}

impl MpscConsumer {
    /// The consumer handle.
    pub fn new() -> (r: Self) {
        MpscConsumer {}
    }

    /// Takes the oldest waiting command without waiting.
    ///
    /// With no command waiting the result is `None` and nothing changes.
    /// Otherwise the oldest command leaves the queue, its first
    /// `min(len, len(buf))` bytes are copied into `buf`, and the result holds
    /// its producer's id and its full length.
    pub fn try_pop(&self, q: &mut MpscQueueHeader, buf: &mut [u8]) -> (r: Option<(u32, usize)>)
        requires
            old(q).wf(),
        ensures
            r.is_none() ==> *final(q) == *old(q),
            r.is_some() ==> popped(*old(q), *final(q)),
            final(q).wf(),
            final(q).num_slots == old(q).num_slots,
            final(q).write_idx == old(q).write_idx,
            final(q).pending() == model_pop(old(q).pending()).0,
            old(q).pending().len() == 0 ==> r.is_none() && final(buf)@ == old(buf)@,
            old(q).pending().len() > 0 ==> {
                let (id, data) = old(q).pending()[0];
                &&& r == Some((id, data.len() as usize))
                &&& final(buf)@ == overlay(
                    old(buf)@,
                    data,
                    min_int(data.len() as int, old(buf)@.len() as int),
                )
            },
    {
        let n = q.num_slots;
        let ridx = q.read_idx.0;
        let slot_idx = (ridx % (n as u64)) as usize;
        proof {
            lemma_mod_pos_bound(ridx as int, n as int);
            assert(slot_idx == q.pos(0));
        }
        if q.slots[slot_idx].state != SLOT_READY {
            assert(q.count() == 0);
            assert(q.pending() =~= model_pop(q.pending()).0);
            return None;
        }
        let ghost old_q = *q;
        let ghost data = old_q.slots@[slot_idx as int].command().1;
        assert(slot_idx == old_q.head_slot());
        let client_id = q.slots[slot_idx].client_id;
        let cmd_len = q.slots[slot_idx].cmd_len as usize;
        let copy_len = if cmd_len < buf.len() {
            cmd_len
        } else {
            buf.len()
        };
        let ghost buf_before = buf@;
        let mut i: usize = 0;
        while i < copy_len
            invariant
                i <= copy_len,
                copy_len <= cmd_len,
                copy_len <= buf_before.len(),
                *q == old_q,
                0 <= slot_idx < old_q.slots@.len(),
                cmd_len == old_q.slots@[slot_idx as int].cmd_len,
                old_q.slots@[slot_idx as int].wf(),
                buf@.len() == buf_before.len(),
                forall|k: int| 0 <= k < i ==> buf@[k] == old_q.slots@[slot_idx as int].cmd_data@[k],
                forall|k: int| i <= k < buf_before.len() ==> buf@[k] == buf_before[k],
            decreases copy_len - i,
        {
            buf[i] = q.slots[slot_idx].cmd_data[i];
            i = i + 1;
        }
        assert(buf@ =~= overlay(buf_before, data, copy_len as int));
        q.slots[slot_idx].state = SLOT_PROCESSING;
        q.slots[slot_idx].state = SLOT_EMPTY;
        q.read_idx.0 = ridx + 1;
        proof {
            let c = old_q.count();
            assert(c > 0);
            assert forall|k: int| 0 <= k < n && k != 0 implies q.slots@[old_q.pos(k)] == old_q.slots@[old_q.pos(k)] by {
                lemma_slot_distinct(ridx as int, k, 0, n as int);
                lemma_mod_pos_bound(ridx + k, n as int);
            }
            assert forall|k: int| 0 <= k < n - 1 implies q.pos(k) == old_q.pos(k + 1) by {
            }
            assert(q.pos(n - 1) == old_q.pos(0)) by {
                lemma_mod_add_multiples_vanish(ridx as int, n as int);
            }
            assert forall|j: int| 0 <= j < n implies (#[trigger] q.slots@[j]).wf() by {
            }
            assert forall|k: int| 0 <= k < q.count() implies (#[trigger] q.slots@[q.pos(k)]).state == SLOT_READY by {
                assert(q.pos(k) == old_q.pos(k + 1));
            }
            assert forall|k: int| q.count() <= k < q.num_slots implies (#[trigger] q.slots@[q.pos(k)]).state == SLOT_EMPTY by {
                if k < n - 1 {
                    assert(q.pos(k) == old_q.pos(k + 1));
                }
            }
            assert(q.pending() =~= old_q.pending().drop_first());
            assert(q.slots@ =~= old_q.slots@.update(
                slot_idx as int,
                (CommandSlot { state: SLOT_EMPTY, ..old_q.slots@[slot_idx as int] }),
            ));
        }
        Some((client_id, cmd_len))
    }

    /// Takes the oldest waiting command, waiting until one is there.
    ///
    /// The call returns only once a command is waiting; it is then taken as
    /// by `try_pop`.
    pub fn pop(&self, q: &mut MpscQueueHeader, buf: &mut [u8]) -> (r: (u32, usize))
        requires
            old(q).wf(),
            old(q).pending().len() > 0,
        ensures
            final(q).wf(),
            final(q).num_slots == old(q).num_slots,
            final(q).write_idx == old(q).write_idx,
            final(q).pending() == old(q).pending().drop_first(),
            popped(*old(q), *final(q)),
            r == (old(q).pending()[0].0, old(q).pending()[0].1.len() as usize),
            final(buf)@ == overlay(
                old(buf)@,
                old(q).pending()[0].1,
                min_int(old(q).pending()[0].1.len() as int, old(buf)@.len() as int),
            ),
    {
        // a command is waiting, so the attempt succeeds
        match self.try_pop(q, buf) {
            Some(r) => r,
            None => (0, 0),
        }
    }

    /// Takes the oldest waiting command, trying at most `max_spins` times.
    ///
    /// Nothing else runs between the attempts, so the result is that of a
    /// single `try_pop` when `max_spins` is at least 1, and `None` with
    /// nothing changed when it is 0.
    pub fn pop_with_spins(&self, q: &mut MpscQueueHeader, buf: &mut [u8], max_spins: u32) -> (r:
        Option<(u32, usize)>)
        requires
            old(q).wf(),
        ensures
            final(q).wf(),
            final(q).num_slots == old(q).num_slots,
            final(q).write_idx == old(q).write_idx,
            (max_spins == 0 || old(q).pending().len() == 0) ==> r.is_none() && *final(q) == *old(
                q,
            ) && final(buf)@ == old(buf)@,
            max_spins > 0 ==> final(q).pending() == model_pop(old(q).pending()).0,
            r.is_none() ==> *final(q) == *old(q),
            r.is_some() ==> popped(*old(q), *final(q)),
            (max_spins > 0 && old(q).pending().len() > 0) ==> {
                let (id, data) = old(q).pending()[0];
                &&& r == Some((id, data.len() as usize))
                &&& final(buf)@ == overlay(
                    old(buf)@,
                    data,
                    min_int(data.len() as int, old(buf)@.len() as int),
                )
            },
    {
        let mut spins: u32 = 0;
        while spins < max_spins
            invariant
                spins <= max_spins,
                q.wf(),
                spins > 0 ==> old(q).pending().len() == 0,
                *q == *old(q),
                buf@ == old(buf)@,
            decreases max_spins - spins,
        {
            if has_pending(q) {
                return self.try_pop(q, buf);
            }
            spins = spins + 1;
        }
        None
    }
}

/// Whether a command is waiting.
fn has_pending(q: &MpscQueueHeader) -> (r: bool)
    requires
        q.wf(),
    ensures
        r == (q.pending().len() > 0),
{
    q.write_idx.0 != q.read_idx.0
}

} // verus!

verus! {

/// One operation on the queue: a producer with id `.1` offering the command
/// `.2` when `.0` is true, the consumer taking a command otherwise.
pub type QueueOp = (bool, u32, Seq<u8>);

/// Waiting commands, commands taken by producers and commands received by
/// the consumer after running `ops` from `pending` on a queue of `capacity`
/// slots; failed offers and empty takes leave no trace.
pub open spec fn run_ops(pending: Seq<(u32, Seq<u8>)>, capacity: int, ops: Seq<QueueOp>) -> (
    Seq<(u32, Seq<u8>)>,
    Seq<(u32, Seq<u8>)>,
    Seq<(u32, Seq<u8>)>,
)
    decreases ops.len(),
{
    if ops.len() == 0 {
        (pending, Seq::empty(), Seq::empty())
    } else {
        let (p, sent, received) = run_ops(pending, capacity, ops.drop_last());
        let op = ops.last();
        if op.0 {
            let (p2, ok) = model_push(p, capacity, op.1, op.2);
            (p2, if ok {
                sent.push((op.1, op.2))
            } else {
                sent
            }, received)
        } else {
            let (p2, got) = model_pop(p);
            (p2, sent, if got is Some {
                received.push(got->Some_0)
            } else {
                received
            })
        }
    }
}

/// Nothing is lost or reordered: whatever the interleaving of offers and
/// takes, the commands received followed by those still waiting are the
/// commands that were waiting followed by those taken from producers, in
/// order.
pub proof fn lemma_queue_conserves(pending: Seq<(u32, Seq<u8>)>, capacity: int, ops: Seq<QueueOp>)
    ensures
        ({
            let (p, sent, received) = run_ops(pending, capacity, ops);
            received + p == pending + sent
        }),
    decreases ops.len(),
{
    if ops.len() > 0 {
        lemma_queue_conserves(pending, capacity, ops.drop_last());
        let (p, sent, received) = run_ops(pending, capacity, ops.drop_last());
        let op = ops.last();
        if op.0 {
            let (p2, ok) = model_push(p, capacity, op.1, op.2);
            if ok {
                let x = (op.1, op.2);
                assert(received + p.push(x) =~= (received + p).push(x));
                assert(pending + sent.push(x) =~= (pending + sent).push(x));
            }
        } else {
            let (p2, got) = model_pop(p);
            if got is Some {
                assert(received.push(got->Some_0) + p2 =~= received + p);
            }
        }
    }
}

/// No lost command: on a queue that starts empty, once the consumer has
/// taken everything, it has received exactly the commands the producers got
/// in, in the order they got in. With a single producer these are its
/// commands in the order it sent them.
pub proof fn lemma_no_lost_command(capacity: int, ops: Seq<QueueOp>)
    requires
        run_ops(Seq::empty(), capacity, ops).0.len() == 0,
    ensures
        run_ops(Seq::empty(), capacity, ops).2 == run_ops(Seq::empty(), capacity, ops).1,
{
    lemma_queue_conserves(Seq::empty(), capacity, ops);
    let (p, sent, received) = run_ops(Seq::empty(), capacity, ops);
    assert(received + p =~= received);
    assert(Seq::<(u32, Seq<u8>)>::empty() + sent =~= sent);
}

/// Slot-FIFO: with any number of producers interleaved, on a queue that
/// starts empty and is drained, the consumer receives as many commands as
/// got in, and for every producer id, the commands attributed to it are
/// exactly those it got in, in its order.
pub proof fn lemma_slot_fifo(capacity: int, ops: Seq<QueueOp>, client_id: u32)
    requires
        run_ops(Seq::empty(), capacity, ops).0.len() == 0,
    ensures
        ({
            let (p, sent, received) = run_ops(Seq::empty(), capacity, ops);
            &&& received.len() == sent.len()
            &&& received.filter(|c: (u32, Seq<u8>)| c.0 == client_id) == sent.filter(
                |c: (u32, Seq<u8>)| c.0 == client_id,
            )
        }),
{
    lemma_no_lost_command(capacity, ops);
}

} // verus!
