use vstd::prelude::*;
use vstd::string::StringExecFns;
use crate::error::VenomError;
use crate::layout::{
    align_up, lemma_align_up_bounds, spec_align_up, CHANNEL_HEADER_SIZE, DEFAULT_CMD_SLOTS, DEFAULT_DATA_SIZE,
    DEFAULT_MAX_CLIENTS, MAX_CMD_SIZE, MAX_SLOTS, SEQLOCK_HEADER_SIZE, VENOM_MAGIC, VENOM_VERSION,
};
use crate::mpsc_queue::{
    model_pop, model_push, popped, pushed, MpscConsumer, MpscProducer, MpscQueueHeader, SLOT_EMPTY,
};
use crate::seqlock::{
    holds_response, lemma_published_with_len_contents, min_int, next_seq, overlay, CacheAligned, prefixed_copy_len, published, published_with_len, stored_len,
    SeqLockFrame, SeqLockReader, SeqLockWriter,
};
use crate::shm::shm_name;
use vstd::bytes::*;

verus! {

/// Sizes a channel is created with.
pub struct ChannelConfig {
    /// Payload capacity of the data frame, in bytes.
    pub data_size: usize,
    /// Number of command slots.
    pub cmd_slots: usize,
    /// Advisory cap on attached shells.
    pub max_clients: usize,
}

/// Total bytes of a channel region: the header, the SeqLock sub-region and
/// the command queue, each rounded up to a cache line.
pub open spec fn spec_total_size(data_size: int, cmd_slots: int) -> int {
    spec_align_up(CHANNEL_HEADER_SIZE as int) + spec_align_up(SEQLOCK_HEADER_SIZE + data_size)
        + spec_align_up(MpscQueueHeader::spec_size_for_slots(cmd_slots))
}

impl ChannelConfig {
    /// The configuration can be laid out: at least one and at most
    /// `MAX_SLOTS` command slots, and a region size that fits in `usize`.
    pub open spec fn spec_valid(&self) -> bool {
        &&& 1 <= self.cmd_slots <= MAX_SLOTS
        &&& spec_total_size(self.data_size as int, self.cmd_slots as int) <= usize::MAX
    }

    /// Whether the configuration can be laid out (see `spec_valid`).
    pub fn is_valid(&self) -> (r: bool)
        ensures
            r == self.spec_valid(),
    {
        if self.cmd_slots < 1 || self.cmd_slots > MAX_SLOTS {
            return false;
        }
        proof {
            lemma_align_up_bounds(SEQLOCK_HEADER_SIZE + self.data_size);
            lemma_align_up_bounds(MpscQueueHeader::spec_size_for_slots(self.cmd_slots as int));
            lemma_align_up_bounds(CHANNEL_HEADER_SIZE as int);
        }
        if self.data_size > usize::MAX - (SEQLOCK_HEADER_SIZE + 63) {
            return false;
        }
        let seqlock_size = align_up(SEQLOCK_HEADER_SIZE + self.data_size);
        let queue_size = align_up(MpscQueueHeader::size_for_slots(self.cmd_slots));
        match seqlock_size.checked_add(queue_size) {
            None => false,
            Some(t) => t.checked_add(align_up(CHANNEL_HEADER_SIZE)).is_some(),
        }
    }
}

impl Default for ChannelConfig {
    fn default() -> (r: Self)
        ensures
            r.data_size == DEFAULT_DATA_SIZE,
            r.cmd_slots == DEFAULT_CMD_SLOTS,
            r.max_clients == DEFAULT_MAX_CLIENTS,
    {
        ChannelConfig {
            data_size: DEFAULT_DATA_SIZE,
            cmd_slots: DEFAULT_CMD_SLOTS,
            max_clients: DEFAULT_MAX_CLIENTS,
        }
    }
}

/// The configuration as foreign callers pass it.
pub struct VenomConfig {
    pub data_size: usize,
    pub cmd_slots: usize,
    pub max_clients: usize,
}

impl VenomConfig {
    /// The same sizes as a `ChannelConfig`.
    pub fn to_channel_config(&self) -> (r: ChannelConfig)
        ensures
            r.data_size == self.data_size,
            r.cmd_slots == self.cmd_slots,
            r.max_clients == self.max_clients,
    {
        ChannelConfig {
            data_size: self.data_size,
            cmd_slots: self.cmd_slots,
            max_clients: self.max_clients,
        }
    }
}

/// The header at offset 0 of a channel region.
pub struct ChannelHeader {
    pub magic: u32,
    pub version: u32,
    pub data_size: usize,
    pub cmd_slots: usize,
    pub max_clients: usize,
    pub next_client_id: u32,
    pub seqlock_offset: usize,
    pub cmd_queue_offset: usize,
}

/// Offset of the SeqLock sub-region: right after the header.
pub open spec fn spec_seqlock_offset() -> int {
    spec_align_up(CHANNEL_HEADER_SIZE as int)
}

/// Offset of the command queue: right after the SeqLock sub-region.
pub open spec fn spec_cmd_queue_offset(data_size: int) -> int {
    spec_seqlock_offset() + spec_align_up(SEQLOCK_HEADER_SIZE + data_size)
}

/// The header a daemon stamps for `config`.
pub open spec fn spec_new_header(config: ChannelConfig) -> ChannelHeader {
    ChannelHeader {
        magic: VENOM_MAGIC,
        version: VENOM_VERSION,
        data_size: config.data_size,
        cmd_slots: config.cmd_slots,
        max_clients: config.max_clients,
        next_client_id: 1,
        seqlock_offset: spec_seqlock_offset() as usize,
        cmd_queue_offset: spec_cmd_queue_offset(config.data_size as int) as usize,
    }
}

/// The header after one shell attached: the id counter moves on (and wraps).
pub open spec fn spec_after_attach(h: ChannelHeader) -> ChannelHeader {
    ChannelHeader { next_client_id: (if h.next_client_id == u32::MAX {
        0
    } else {
        h.next_client_id + 1
    }) as u32, ..h }
}

/// The outcome of checking a header at attach time.
pub open spec fn spec_check_header(h: ChannelHeader) -> Result<(), VenomError> {
    if h.magic != VENOM_MAGIC {
        Err(VenomError::InvalidMagic { expected: VENOM_MAGIC, got: h.magic })
    } else if h.version != VENOM_VERSION {
        Err(VenomError::VersionMismatch { expected: VENOM_VERSION, got: h.version })
    } else {
        Ok(())
    }
}

impl ChannelHeader {
    /// Total bytes of the region a daemon creates for `config`.
    pub fn total_size(config: &ChannelConfig) -> (r: usize)
        requires
            config.spec_valid(),
        ensures
            r == spec_total_size(config.data_size as int, config.cmd_slots as int),
    {
        let header_size = align_up(CHANNEL_HEADER_SIZE);
        let seqlock_size = align_up(SEQLOCK_HEADER_SIZE + config.data_size);
        let queue_size = align_up(MpscQueueHeader::size_for_slots(config.cmd_slots));
        header_size + seqlock_size + queue_size
    }

    /// Checks the sentinel, then the layout version.
    ///
    /// The result is `InvalidMagic` with the sentinel expected and the value
    /// found when the sentinel differs, else `VersionMismatch` when the
    /// version differs, else `Ok`.
    pub fn check(&self) -> (r: Result<(), VenomError>)
        ensures
            r == spec_check_header(*self),
    {
        if self.magic != VENOM_MAGIC {
            return Err(VenomError::InvalidMagic { expected: VENOM_MAGIC, got: self.magic });
        }
        if self.version != VENOM_VERSION {
            return Err(VenomError::VersionMismatch { expected: VENOM_VERSION, got: self.version });
        }
        Ok(())
    }
}

/// The contents of a channel's shared region.
pub struct ChannelRegion {
    pub header: ChannelHeader,
    pub frame: SeqLockFrame,
    pub queue: MpscQueueHeader,
}

impl ChannelRegion {
    /// The region was laid out by a daemon: header, frame and queue agree.
    pub open spec fn formatted(&self) -> bool {
        &&& self.header.magic == VENOM_MAGIC
        &&& self.header.version == VENOM_VERSION
        &&& self.frame.wf()
        &&& self.queue.wf()
        &&& self.frame.header.data_size == self.header.data_size
        &&& self.queue.num_slots == self.header.cmd_slots
    }

    /// A region is either laid out by a daemon, or does not pass the header
    /// check at all.
    pub open spec fn wf(&self) -> bool {
        spec_check_header(self.header) is Ok ==> self.formatted()
    }

    /// A region of zero bytes, as the operating system hands out a fresh
    /// shared object that no daemon has laid out.
    pub fn zeroed() -> (r: Self)
        ensures
            r.wf(),
            r.header.magic == 0,
            r.header.version == 0,
    {
        ChannelRegion {
            header: ChannelHeader {
                magic: 0,
                version: 0,
                data_size: 0,
                cmd_slots: 0,
                max_clients: 0,
                next_client_id: 0,
                seqlock_offset: 0,
                cmd_queue_offset: 0,
            },
            frame: SeqLockFrame::new(0),
            queue: MpscQueueHeader {
                write_idx: CacheAligned(0),
                read_idx: CacheAligned(0),
                num_slots: 0,
                slots: Vec::new(),
            },
        }
    }
}

/// The command that makes `DaemonChannel::run` return: the bytes of
/// `__SHUTDOWN__`.
pub open spec fn shutdown_command() -> Seq<u8> {
    seq![95u8, 95u8, 83u8, 72u8, 85u8, 84u8, 68u8, 79u8, 87u8, 78u8, 95u8, 95u8]
}

/// Whether `cmd` is the shutdown command.
pub fn is_shutdown(cmd: &[u8]) -> (r: bool)
    ensures
        r == (cmd@ == shutdown_command()),
{
    let expected: [u8; 12] = [95, 95, 83, 72, 85, 84, 68, 79, 87, 78, 95, 95];
    if cmd.len() != 12 {
        return false;
    }
    let mut i: usize = 0;
    while i < 12
        invariant
            i <= 12,
            cmd@.len() == 12,
            expected@ == shutdown_command(),
            forall|k: int| 0 <= k < i ==> cmd@[k] == shutdown_command()[k],
        decreases 12 - i,
    {
        if cmd[i] != expected[i] {
            return false;
        }
        i = i + 1;
    }
    assert(cmd@ =~= shutdown_command());
    true
}

/// The waiting commands hold a shutdown command at `k` and none before it.
pub open spec fn first_shutdown(pending: Seq<(u32, Seq<u8>)>, k: int) -> bool {
    &&& 0 <= k < pending.len()
    &&& pending[k].1 == shutdown_command()
    &&& forall|j: int| 0 <= j < k ==> pending[j].1 != shutdown_command()
}

/// `s` moved on by `n` increments of the (wrapping) counter.
pub open spec fn seq_plus(s: u64, n: int) -> u64 {
    ((s as int + n) % 0x1_0000_0000_0000_0000int) as u64
}

/// Two increments from `seq_plus(s, n)` give `seq_plus(s, n + 2)`.
pub proof fn lemma_seq_plus_two(s: u64, n: int)
    requires
        n >= 0,
    ensures
        next_seq(next_seq(seq_plus(s, n))) == seq_plus(s, n + 2),
{
    let m = 0x1_0000_0000_0000_0000int;
    vstd::arithmetic::div_mod::lemma_add_mod_noop(s + n, 1, m);
    vstd::arithmetic::div_mod::lemma_add_mod_noop(s + n + 1, 1, m);
    vstd::arithmetic::div_mod::lemma_mod_pos_bound(s + n, m);
    vstd::arithmetic::div_mod::lemma_mod_pos_bound(s + n + 1, m);
    vstd::arithmetic::div_mod::lemma_small_mod(1, m as nat);
    vstd::arithmetic::div_mod::lemma_mod_self_0(m);
}

/// `handler` may answer the command `cmd` from `id` with `resp`.
pub open spec fn may_answer<F: FnMut(u32, &[u8]) -> Vec<u8>>(
    handler: F,
    id: u32,
    cmd: Seq<u8>,
    resp: Seq<u8>,
) -> bool {
    exists|c: &[u8], r: Vec<u8>| c@ == cmd && r@ == resp && #[trigger] handler.ensures((id, c), r)
}

/// `after` is `before` once the first `k` waiting commands were served: `k`
/// publishes advanced the sequence by `2k`, the frame is unchanged when
/// `k == 0`, and otherwise its payload holds, behind its length prefix, a
/// response a handler of type `F`, in the state it had at that call, may
/// give to the `k`-th command.
pub open spec fn served<F: FnMut(u32, &[u8]) -> Vec<u8>>(
    pending: Seq<(u32, Seq<u8>)>,
    k: int,
    before: SeqLockFrame,
    after: SeqLockFrame,
) -> bool {
    &&& after.seq() == seq_plus(before.seq(), 2 * k)
    &&& k == 0 ==> after == before
    &&& k > 0 ==> exists|h: F, resp: Seq<u8>|
        #[trigger] may_answer(h, pending[k - 1].0, pending[k - 1].1, resp) && holds_response(
            after.data@,
            resp,
        )
}

/// The daemon side of a channel: the sole frame writer and command consumer.
pub struct DaemonChannel {
    pub namespace: String,
    pub data_writer: SeqLockWriter,
    pub cmd_consumer: MpscConsumer,
}

impl DaemonChannel {
    /// Creates a channel under `namespace` and lays out its region.
    ///
    /// Fails with `NamespaceTooLong` exactly when the namespace is longer
    /// than the name limit allows. Otherwise the region carries the header
    /// for `config` (next client id 1), a zeroed frame at sequence 0 and an
    /// empty queue of `cmd_slots` slots; the SeqLock sub-region ends before
    /// the queue starts and the queue ends within the total size.
    pub fn create(namespace: &str, config: ChannelConfig) -> (r: Result<
        (DaemonChannel, ChannelRegion),
        VenomError,
    >)
        requires
            config.spec_valid(),
        ensures
            namespace.len() <= crate::shm::MAX_NAME_LEN <==> (r is Ok),
            (r is Err) ==> (r->Err_0 == (VenomError::NamespaceTooLong {
                max: crate::shm::MAX_NAME_LEN,
                got: namespace.len(),
            })),
            (r is Ok) ==> ({
                let (d, region) = r->Ok_0;
                &&& d.namespace@ == namespace@
                &&& region.wf()
                &&& region.formatted()
                &&& region.header == spec_new_header(config)
                &&& region.frame.seq() == 0
                &&& region.frame.data@ == Seq::new(config.data_size as nat, |i: int| 0u8)
                &&& region.queue.pending() == Seq::<(u32, Seq<u8>)>::empty()
                &&& region.queue.write_idx.0 == 0
                &&& region.queue.read_idx.0 == 0
                &&& region.queue.num_slots == config.cmd_slots
                &&& forall|j: int|
                    0 <= j < config.cmd_slots ==> (#[trigger] region.queue.slots@[j]).state
                        == SLOT_EMPTY
                &&& region.header.seqlock_offset + SEQLOCK_HEADER_SIZE + config.data_size
                    <= region.header.cmd_queue_offset
                &&& region.header.cmd_queue_offset + MpscQueueHeader::spec_size_for_slots(
                    config.cmd_slots as int,
                ) <= spec_total_size(config.data_size as int, config.cmd_slots as int)
            }),
    {
        match shm_name(namespace) {
            Err(e) => {
                return Err(e);
            },
            Ok(_) => {},
        }
        let seqlock_offset = align_up(CHANNEL_HEADER_SIZE);
        let seqlock_size = SEQLOCK_HEADER_SIZE + config.data_size;
        let cmd_queue_offset = seqlock_offset + align_up(seqlock_size);
        let header = ChannelHeader {
            magic: VENOM_MAGIC,
            version: VENOM_VERSION,
            data_size: config.data_size,
            cmd_slots: config.cmd_slots,
            max_clients: config.max_clients,
            next_client_id: 1,
            seqlock_offset,
            cmd_queue_offset,
        };
        let region = ChannelRegion {
            header,
            frame: SeqLockFrame::new(config.data_size),
            queue: MpscQueueHeader::init(config.cmd_slots),
        };
        let daemon = DaemonChannel {
            namespace: String::from_str(namespace),
            data_writer: SeqLockWriter::new(),
            cmd_consumer: MpscConsumer::new(),
        };
        Ok((daemon, region))
    }

    /// Publishes `data` to every shell, truncated to the payload capacity
    /// (see `SeqLockWriter::write`).
    pub fn write_data(&self, region: &mut ChannelRegion, data: &[u8])
        requires
            old(region).formatted(),
        ensures
            final(region).formatted(),
            final(region).header == old(region).header,
            final(region).queue == old(region).queue,
            final(region).frame.seq() == next_seq(next_seq(old(region).frame.seq())),
            final(region).frame.data@ == published(old(region).frame.data@, data@),
    {
        self.data_writer.write(&mut region.frame, data);
    }

    /// Publishes `data` behind a length prefix (see
    /// `SeqLockWriter::write_with_len`).
    pub fn write_data_with_len(&self, region: &mut ChannelRegion, data: &[u8])
        requires
            old(region).formatted(),
            old(region).header.data_size >= 8,
        ensures
            final(region).formatted(),
            final(region).header == old(region).header,
            final(region).queue == old(region).queue,
            final(region).frame.seq() == next_seq(next_seq(old(region).frame.seq())),
            final(region).frame.data@ == published_with_len(old(region).frame.data@, data@),
    {
        self.data_writer.write_with_len(&mut region.frame, data);
    }

    /// Takes the oldest waiting command, if any (see `MpscConsumer::try_pop`).
    pub fn try_recv_command(&self, region: &mut ChannelRegion, buf: &mut [u8]) -> (r: Option<
        (u32, usize),
    >)
        requires
            old(region).formatted(),
        ensures
            final(region).formatted(),
            final(region).header == old(region).header,
            final(region).frame == old(region).frame,
            final(region).queue.write_idx == old(region).queue.write_idx,
            final(region).queue.pending() == model_pop(old(region).queue.pending()).0,
            r.is_none() ==> *final(region) == *old(region),
            r.is_some() ==> popped(old(region).queue, final(region).queue),
            old(region).queue.pending().len() == 0 ==> r.is_none() && final(buf)@ == old(buf)@,
            old(region).queue.pending().len() > 0 ==> {
                let (id, data) = old(region).queue.pending()[0];
                &&& r == Some((id, data.len() as usize))
                &&& final(buf)@ == overlay(
                    old(buf)@,
                    data,
                    min_int(data.len() as int, old(buf)@.len() as int),
                )
            },
    {
        self.cmd_consumer.try_pop(&mut region.queue, buf)
    }

    /// Takes the oldest waiting command; returns once one is waiting (see
    /// `MpscConsumer::pop`).
    pub fn recv_command(&self, region: &mut ChannelRegion, buf: &mut [u8]) -> (r: (u32, usize))
        requires
            old(region).formatted(),
            old(region).queue.pending().len() > 0,
        ensures
            final(region).formatted(),
            final(region).header == old(region).header,
            final(region).frame == old(region).frame,
            final(region).queue.write_idx == old(region).queue.write_idx,
            final(region).queue.pending() == old(region).queue.pending().drop_first(),
            popped(old(region).queue, final(region).queue),
            r == (old(region).queue.pending()[0].0, old(region).queue.pending()[0].1.len() as usize),
            final(buf)@ == overlay(
                old(buf)@,
                old(region).queue.pending()[0].1,
                min_int(old(region).queue.pending()[0].1.len() as int, old(buf)@.len() as int),
            ),
    {
        self.cmd_consumer.pop(&mut region.queue, buf)
    }

    /// Serves commands until the shutdown command arrives.
    ///
    /// Each of the `k` commands before it is passed with its sender's id to
    /// `handler`, whose response is published behind a length prefix. The
    /// shutdown command is taken from the queue without being passed to
    /// `handler`, and the call returns; the commands after it stay queued.
    /// The frame then went through `k` publishes, and when `k > 0` it holds
    /// a response `handler` may give to the last command before the shutdown
    /// command. The call returns only once a shutdown command is waiting.
    pub fn run<F: FnMut(u32, &[u8]) -> Vec<u8>>(&self, region: &mut ChannelRegion, mut handler: F)
        requires
            old(region).formatted(),
            old(region).header.data_size >= 8,
            exists|k: int| first_shutdown(old(region).queue.pending(), k),
            forall|id: u32, cmd: &[u8]| #[trigger] handler.requires((id, cmd)),
        ensures
            final(region).formatted(),
            final(region).header == old(region).header,
            exists|k: int|
                #[trigger] first_shutdown(old(region).queue.pending(), k) && served::<F>(
                    old(region).queue.pending(),
                    k,
                    old(region).frame,
                    final(region).frame,
                ) && final(region).queue.pending() == old(region).queue.pending().skip(k + 1),
    {
        let ghost orig = old(region).queue.pending();
        let ghost k = choose|k: int| first_shutdown(orig, k);
        let mut cmd_buf: Vec<u8> = Vec::new();
        let mut i: usize = 0;
        while i < MAX_CMD_SIZE
            invariant
                i <= MAX_CMD_SIZE,
                cmd_buf@.len() == i,
            decreases MAX_CMD_SIZE - i,
        {
            cmd_buf.push(0u8);
            i = i + 1;
        }
        let ghost mut done: int = 0;
        loop
            invariant
                region.formatted(),
                region.header == old(region).header,
                region.header.data_size >= 8,
                cmd_buf@.len() == MAX_CMD_SIZE,
                orig == old(region).queue.pending(),
                first_shutdown(orig, k),
                0 <= done <= k,
                region.queue.pending() == orig.skip(done),
                served::<F>(orig, done, old(region).frame, region.frame),
                forall|id: u32, cmd: &[u8]| #[trigger] handler.requires((id, cmd)),
            decreases region.queue.pending().len(),
        {
            assert(region.queue.pending()[0] == orig[done]);
            proof {
                region.queue.lemma_pending_fit();
            }
            let (client_id, cmd_len) = self.recv_command(region, cmd_buf.as_mut_slice());
            proof {
                assert(region.queue.pending() =~= orig.skip(done + 1));
            }
            let cmd = slice_prefix(cmd_buf.as_slice(), cmd_len);
            assert(cmd@ =~= orig[done].1);
            if is_shutdown(cmd) {
                assert(done == k);
                assert(region.queue.pending() == orig.skip(k + 1));
                assert(first_shutdown(orig, k));
                return;
            }
            let ghost before = region.frame;
            let ghost handler_before = handler;
            let response = handler(client_id, cmd);
            self.write_data_with_len(region, response.as_slice());
            proof {
                assert(may_answer(handler_before, client_id, cmd@, response@));
                lemma_published_with_len_contents(before.data@, response@);
                lemma_seq_plus_two(old(region).frame.seq(), 2 * done);
                assert(orig[done].0 == client_id);
                assert(may_answer(handler_before, orig[done].0, orig[done].1, response@));
                assert(holds_response(region.frame.data@, response@));
                let served_now = done + 1;
                assert(served_now - 1 == done);
                assert(may_answer(handler_before, orig[served_now - 1].0, orig[served_now - 1].1, response@)
                    && holds_response(region.frame.data@, response@));
                done = served_now;
            }
        }
    }

    /// The namespace the channel was created under.
    pub fn namespace(&self) -> (r: &str)
        ensures
            r@ == self.namespace@,
    {
        self.namespace.as_str()
    }
}

/// The first `n` elements of `s`.
fn slice_prefix(s: &[u8], n: usize) -> (r: &[u8])
    requires
        n <= s@.len(),
    ensures
        r@ == s@.subrange(0, n as int),
{
    &s[0..n]
}

/// The shell side of a channel: a frame reader and a command producer.
pub struct ShellChannel {
    pub namespace: String,
    pub data_reader: SeqLockReader,
    pub cmd_producer: MpscProducer,
    pub client_id: u32,
}

impl ShellChannel {
    /// Attaches to the channel in `region`.
    ///
    /// The header is checked as by `ChannelHeader::check`, and a failure is
    /// returned with the region unchanged. Otherwise the shell takes the
    /// header's next client id, which moves on by one.
    pub fn connect(namespace: &str, region: &mut ChannelRegion) -> (r: Result<
        ShellChannel,
        VenomError,
    >)
        requires
            old(region).wf(),
        ensures
            final(region).wf(),
            final(region).frame == old(region).frame,
            final(region).queue == old(region).queue,
            (r is Ok) <==> (spec_check_header(old(region).header) is Ok),
            (r is Err) ==> (final(region).header == old(region).header && spec_check_header(
                old(region).header,
            ) == Err::<(), VenomError>(r->Err_0)),
            (r is Ok) ==> (final(region).header == spec_after_attach(old(region).header)
                && r->Ok_0.client_id == old(region).header.next_client_id
                && r->Ok_0.cmd_producer.client_id == old(region).header.next_client_id
                && r->Ok_0.namespace@ == namespace@),
    {
        match region.header.check() {
            Err(e) => {
                return Err(e);
            },
            Ok(()) => {},
        }
        let client_id = region.header.next_client_id;
        region.header.next_client_id = client_id.wrapping_add(1);
        Ok(ShellChannel {
            namespace: String::from_str(namespace),
            data_reader: SeqLockReader::new(),
            cmd_producer: MpscProducer::new(client_id),
            client_id,
        })
    }

    /// This shell's client id.
    pub fn client_id(&self) -> (r: u32)
        ensures
            r == self.client_id,
    {
        self.client_id
    }

    /// Reads the frame (see `SeqLockReader::read`).
    pub fn read_data(&self, region: &ChannelRegion, buf: &mut [u8]) -> (r: usize)
        requires
            region.formatted(),
            region.frame.stable(),
        ensures
            r == min_int(region.frame.data@.len() as int, old(buf)@.len() as int),
            final(buf)@ == published(old(buf)@, region.frame.data@),
    {
        self.data_reader.read(&region.frame, buf)
    }

    /// Reads a length-prefixed frame (see `SeqLockReader::read_with_len`).
    pub fn read_data_with_len(&self, region: &ChannelRegion, buf: &mut [u8]) -> (r: usize)
        requires
            region.formatted(),
            region.frame.stable(),
            region.header.data_size >= 8,
        ensures
            r == stored_len(region.frame.data@) as usize,
            final(buf)@ == overlay(
                old(buf)@,
                region.frame.data@.subrange(8, region.frame.data@.len() as int),
                prefixed_copy_len(region.frame.data@, old(buf)@.len() as int),
            ),
    {
        self.data_reader.read_with_len(&region.frame, buf)
    }

    /// One read attempt (see `SeqLockReader::try_read`).
    pub fn try_read_data(&self, region: &ChannelRegion, buf: &mut [u8]) -> (r: Option<usize>)
        requires
            region.formatted(),
        ensures
            !region.frame.stable() ==> r.is_none() && final(buf)@ == old(buf)@,
            region.frame.stable() ==> r == Some(
                min_int(region.frame.data@.len() as int, old(buf)@.len() as int) as usize,
            ) && final(buf)@ == published(old(buf)@, region.frame.data@),
    {
        self.data_reader.try_read(&region.frame, buf)
    }

    /// Offers a command without waiting (see `MpscProducer::try_push`).
    pub fn try_send_command(&self, region: &mut ChannelRegion, cmd: &[u8]) -> (r: bool)
        requires
            old(region).formatted(),
            old(region).queue.write_idx.0 < u64::MAX,
        ensures
            final(region).formatted(),
            final(region).header == old(region).header,
            final(region).frame == old(region).frame,
            (final(region).queue.pending(), r) == model_push(
                old(region).queue.pending(),
                old(region).header.cmd_slots as int,
                self.cmd_producer.client_id,
                cmd@,
            ),
            final(region).queue.write_idx.0 == old(region).queue.write_idx.0 + if r {
                1int
            } else {
                0int
            },
            !r ==> *final(region) == *old(region),
            r ==> pushed(old(region).queue, final(region).queue, self.cmd_producer.client_id, cmd@),
    {
        self.cmd_producer.try_push(&mut region.queue, cmd)
    }

    /// Sends a command; returns once a slot was free (see
    /// `MpscProducer::push`).
    pub fn send_command(&self, region: &mut ChannelRegion, cmd: &[u8])
        requires
            old(region).formatted(),
            old(region).queue.write_idx.0 < u64::MAX,
            cmd@.len() <= MAX_CMD_SIZE,
            old(region).queue.pending().len() < old(region).header.cmd_slots,
        ensures
            final(region).formatted(),
            final(region).header == old(region).header,
            final(region).frame == old(region).frame,
            final(region).queue.pending() == old(region).queue.pending().push(
                (self.cmd_producer.client_id, cmd@),
            ),
            final(region).queue.write_idx.0 == old(region).queue.write_idx.0 + 1,
            pushed(old(region).queue, final(region).queue, self.cmd_producer.client_id, cmd@),
    {
        self.cmd_producer.push(&mut region.queue, cmd)
    }

    /// Sends a command, then reads the length-prefixed frame until it is not
    /// empty, and returns its recorded length.
    ///
    /// The command is queued as by `send_command` and the frame is read as
    /// by `read_data_with_len`; the call returns once the frame records a
    /// length above 0.
    pub fn request(&self, region: &mut ChannelRegion, cmd: &[u8], response_buf: &mut [u8]) -> (r:
        usize)
        requires
            old(region).formatted(),
            old(region).queue.write_idx.0 < u64::MAX,
            cmd@.len() <= MAX_CMD_SIZE,
            old(region).queue.pending().len() < old(region).header.cmd_slots,
            old(region).header.data_size >= 8,
            old(region).frame.stable(),
            stored_len(old(region).frame.data@) as usize > 0,
        ensures
            final(region).formatted(),
            final(region).header == old(region).header,
            final(region).frame == old(region).frame,
            final(region).queue.pending() == old(region).queue.pending().push(
                (self.cmd_producer.client_id, cmd@),
            ),
            r == stored_len(old(region).frame.data@) as usize,
            final(response_buf)@ == overlay(
                old(response_buf)@,
                old(region).frame.data@.subrange(8, old(region).frame.data@.len() as int),
                prefixed_copy_len(old(region).frame.data@, old(response_buf)@.len() as int),
            ),
    {
        self.send_command(region, cmd);
        self.read_data_with_len(region, response_buf)
    }

    /// The namespace the shell attached to.
    pub fn namespace(&self) -> (r: &str)
        ensures
            r@ == self.namespace@,
    {
        self.namespace.as_str()
    }
}

} // verus!

verus! {

/// The header after `n` shells attached to `h`, and the ids they got, in
/// order.
pub open spec fn attach_n(h: ChannelHeader, n: nat) -> (ChannelHeader, Seq<u32>)
    decreases n,
{
    if n == 0 {
        (h, Seq::empty())
    } else {
        let (h1, ids) = attach_n(h, (n - 1) as nat);
        (spec_after_attach(h1), ids.push(h1.next_client_id))
    }
}

/// Handshake: on a freshly created channel, `n` consecutive attaches all
/// pass the header check and hand out the ids 1, 2, ..., n in that order
/// (for fewer attaches than the id counter can count).
pub proof fn lemma_handshake(config: ChannelConfig, n: nat)
    requires
        n < u32::MAX,
    ensures
        ({
            let (h, ids) = attach_n(spec_new_header(config), n);
            &&& ids == Seq::new(n, |i: int| (i + 1) as u32)
            &&& h.next_client_id == n + 1
            &&& spec_check_header(h) is Ok
        }),
    decreases n,
{
    if n > 0 {
        lemma_handshake(config, (n - 1) as nat);
        let (h1, ids) = attach_n(spec_new_header(config), (n - 1) as nat);
        assert(ids.push(h1.next_client_id) =~= Seq::new(n, |i: int| (i + 1) as u32));
    } else {
        assert(Seq::<u32>::empty() =~= Seq::new(0, |i: int| (i + 1) as u32));
    }
}

} // verus!

verus! {

/// `n` zero bytes.
pub open spec fn zeros(n: nat) -> Seq<u8> {
    Seq::new(n, |i: int| 0u8)
}

/// The 64-byte little-endian image of a header: magic, version, data size,
/// slot count, client cap, next client id, 4 bytes of padding, SeqLock
/// offset, queue offset, 8 bytes of padding.
pub open spec fn spec_header_bytes(h: ChannelHeader) -> Seq<u8> {
    spec_u32_to_le_bytes(h.magic) + spec_u32_to_le_bytes(h.version) + spec_u64_to_le_bytes(
        h.data_size as u64,
    ) + spec_u64_to_le_bytes(h.cmd_slots as u64) + spec_u64_to_le_bytes(h.max_clients as u64)
        + spec_u32_to_le_bytes(h.next_client_id) + zeros(4) + spec_u64_to_le_bytes(
        h.seqlock_offset as u64,
    ) + spec_u64_to_le_bytes(h.cmd_queue_offset as u64) + zeros(8)
}

/// The header read from the first 64 bytes of `b`.
pub open spec fn spec_header_from_bytes(b: Seq<u8>) -> ChannelHeader {
    ChannelHeader {
        magic: spec_u32_from_le_bytes(b.subrange(0, 4)),
        version: spec_u32_from_le_bytes(b.subrange(4, 8)),
        data_size: spec_u64_from_le_bytes(b.subrange(8, 16)) as usize,
        cmd_slots: spec_u64_from_le_bytes(b.subrange(16, 24)) as usize,
        max_clients: spec_u64_from_le_bytes(b.subrange(24, 32)) as usize,
        next_client_id: spec_u32_from_le_bytes(b.subrange(32, 36)),
        seqlock_offset: spec_u64_from_le_bytes(b.subrange(40, 48)) as usize,
        cmd_queue_offset: spec_u64_from_le_bytes(b.subrange(48, 56)) as usize,
    }
}

/// Appends `n` zero bytes.
fn push_zeros(v: &mut Vec<u8>, n: usize)
    ensures
        final(v)@ == old(v)@ + zeros(n as nat),
{
    let mut i: usize = 0;
    while i < n
        invariant
            i <= n,
            v@ == old(v)@ + zeros(i as nat),
        decreases n - i,
    {
        v.push(0u8);
        i = i + 1;
        assert(v@ =~= old(v)@ + zeros(i as nat));
    }
}

impl ChannelHeader {
    /// The header's 64-byte image as laid out in the shared region.
    pub fn to_bytes(&self) -> (r: Vec<u8>)
        ensures
            r@ == spec_header_bytes(*self),
            r@.len() == CHANNEL_HEADER_SIZE,
    {
        proof {
            lemma_auto_spec_u64_to_from_le_bytes();
            lemma_auto_spec_u32_to_from_le_bytes();
        }
        let mut v = u32_to_le_bytes(self.magic);
        let mut b = u32_to_le_bytes(self.version);
        v.append(&mut b);
        let mut b = u64_to_le_bytes(self.data_size as u64);
        v.append(&mut b);
        let mut b = u64_to_le_bytes(self.cmd_slots as u64);
        v.append(&mut b);
        let mut b = u64_to_le_bytes(self.max_clients as u64);
        v.append(&mut b);
        let mut b = u32_to_le_bytes(self.next_client_id);
        v.append(&mut b);
        push_zeros(&mut v, 4);
        let mut b = u64_to_le_bytes(self.seqlock_offset as u64);
        v.append(&mut b);
        let mut b = u64_to_le_bytes(self.cmd_queue_offset as u64);
        v.append(&mut b);
        push_zeros(&mut v, 8);
        v
    }

    /// Reads a header from the first 64 bytes of `b`.
    pub fn from_bytes(b: &[u8]) -> (r: ChannelHeader)
        requires
            b@.len() >= CHANNEL_HEADER_SIZE,
        ensures
            r == spec_header_from_bytes(b@),
    {
        ChannelHeader {
            magic: u32_from_le_bytes(&b[0..4]),
            version: u32_from_le_bytes(&b[4..8]),
            data_size: u64_from_le_bytes(&b[8..16]) as usize,
            cmd_slots: u64_from_le_bytes(&b[16..24]) as usize,
            max_clients: u64_from_le_bytes(&b[24..32]) as usize,
            next_client_id: u32_from_le_bytes(&b[32..36]),
            seqlock_offset: u64_from_le_bytes(&b[40..48]) as usize,
            cmd_queue_offset: u64_from_le_bytes(&b[48..56]) as usize,
        }
    }
}

/// A header read back from its own image is the same header.
pub proof fn lemma_header_bytes_round_trip(h: ChannelHeader)
    ensures
        spec_header_bytes(h).len() == CHANNEL_HEADER_SIZE,
        spec_header_from_bytes(spec_header_bytes(h)) == h,
{
    lemma_auto_spec_u64_to_from_le_bytes();
    lemma_auto_spec_u32_to_from_le_bytes();
    let b = spec_header_bytes(h);
    assert(b.subrange(0, 4) =~= spec_u32_to_le_bytes(h.magic));
    assert(b.subrange(4, 8) =~= spec_u32_to_le_bytes(h.version));
    assert(b.subrange(8, 16) =~= spec_u64_to_le_bytes(h.data_size as u64));
    assert(b.subrange(16, 24) =~= spec_u64_to_le_bytes(h.cmd_slots as u64));
    assert(b.subrange(24, 32) =~= spec_u64_to_le_bytes(h.max_clients as u64));
    assert(b.subrange(32, 36) =~= spec_u32_to_le_bytes(h.next_client_id));
    assert(b.subrange(40, 48) =~= spec_u64_to_le_bytes(h.seqlock_offset as u64));
    assert(b.subrange(48, 56) =~= spec_u64_to_le_bytes(h.cmd_queue_offset as u64));
}

} // verus!
