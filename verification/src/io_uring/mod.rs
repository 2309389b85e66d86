//! Transfers in the background: the operations that are under way, and what the host must offer.

use slab::Slab;
use vstd::prelude::*;

use crate::devices::virtio::block::request::PendingRequest;

verus! {

/// The most files that can be registered.
pub const IORING_MAX_FIXED_FILES: usize = 0x8000;

/// Feature: completions are not dropped.
pub const IORING_FEAT_NODROP: u32 = 2;

/// Flag of a probe: the operation is there.
pub const IO_URING_OP_SUPPORTED: u32 = 1;

/// Operation: read.
pub const IORING_OP_READ: u8 = 22;

/// Operation: write.
pub const IORING_OP_WRITE: u8 = 23;

#[verifier::external_type_specification]
#[verifier::external_body]
#[verifier::reject_recursive_types(T)]
pub struct ExSlab<T>(Slab<T>);

/// The requests that a slab holds, by their keys.
pub uninterp spec fn slab_requests(s: Slab<PendingRequest>) -> Map<int, PendingRequest>;

/// No requests.
pub open spec fn no_requests() -> Map<int, PendingRequest> {
    Map::empty()
}

/// `Slab::with_capacity` gives an empty slab with room for a number of values. It panics where the
/// room cannot be addressed.
#[verifier::external_body]
fn slab_with_capacity(capacity: usize) -> (s: Slab<PendingRequest>)
    requires
        capacity <= isize::MAX / 256,
    ensures
        slab_requests(s) == no_requests(),
{
    Slab::with_capacity(capacity)
}

/// `Slab::insert` puts a value under a key that was free, which it gives back. All other values
/// stay.
#[verifier::external_body]
fn slab_insert(s: &mut Slab<PendingRequest>, request: PendingRequest) -> (key: usize)
    ensures
        !slab_requests(*old(s)).contains_key(key as int),
        slab_requests(*final(s)) == slab_requests(*old(s)).insert(key as int, request),
{
    s.insert(request)
}

/// `Slab::try_remove` takes the value out that is under a key, if there is one. All other values
/// stay.
#[verifier::external_body]
fn slab_try_remove(s: &mut Slab<PendingRequest>, key: usize) -> (r: Option<PendingRequest>)
    ensures
        r == (if slab_requests(*old(s)).contains_key(key as int) {
            Some(slab_requests(*old(s))[key as int])
        } else {
            None
        }),
        slab_requests(*final(s)) == slab_requests(*old(s)).remove(key as int),
{
    s.try_remove(key)
}

/// An operation that a ring must offer.
#[derive(Debug, Clone, Copy, PartialEq, Eq, Structural)]
pub enum OpCode {
    /// Read.
    Read,
    /// Write.
    Write,
}

impl OpCode {
    /// The number of the operation.
    pub fn code(&self) -> (r: u8)
        ensures
            r == opcode_number(*self),
    {
        match self {
            OpCode::Read => IORING_OP_READ,
            OpCode::Write => IORING_OP_WRITE,
        }
    }
}

/// The number of an operation.
pub open spec fn opcode_number(op: OpCode) -> u8 {
    match op {
        OpCode::Read => IORING_OP_READ,
        OpCode::Write => IORING_OP_WRITE,
    }
}

/// Why the submission queue takes no entry.
#[derive(Debug, Clone, Copy, PartialEq, Eq, Structural)]
pub enum SQueueError {
    /// It is full.
    FullQueue,
    /// It is in a bad state.
    Corrupted,
}

/// Why a completion cannot be taken.
#[derive(Debug, Clone, Copy, PartialEq, Eq, Structural)]
pub enum CQueueError {
    /// It is for no operation that is under way.
    UnknownOperation(u64),
}

/// Why a ring cannot be used.
#[derive(Debug, Clone, Copy, PartialEq, Eq, Structural)]
pub enum IoUringError {
    /// The completion queue failed.
    CQueue(CQueueError),
    /// As many operations are under way as there is room for completions.
    FullCQueue,
    /// The file is not registered.
    InvalidFixedFd(u32),
    /// No file is registered.
    NoRegisteredFds,
    /// Too many files are registered.
    RegisterFileLimitExceeded,
    /// The submission queue failed.
    SQueue(SQueueError),
    /// The host does not keep completions.
    UnsupportedFeature,
    /// The host does not offer an operation.
    UnsupportedOperation(OpCode),
}

impl IoUringError {
    /// Whether a queue was full, so that a later attempt can succeed.
    pub fn is_throttling_err(&self) -> (r: bool)
        ensures
            r == (*self == IoUringError::FullCQueue || *self == IoUringError::SQueue(
                SQueueError::FullQueue,
            )),
    {
        match self {
            IoUringError::FullCQueue => true,
            IoUringError::SQueue(SQueueError::FullQueue) => true,
            _ => false,
        }
    }
}

/// An operation on a registered file.
#[derive(Debug, Clone, Copy, PartialEq, Eq, Structural)]
pub struct Operation {
    /// The operation.
    pub opcode: OpCode,
    /// Index of the file among the registered ones.
    pub fd: u32,
    /// Host address of the data.
    pub addr: u64,
    /// Length of the data.
    pub len: u32,
    /// Offset in the file.
    pub offset: u64,
    /// The request that the operation is for.
    pub user_data: PendingRequest,
}

/// An entry for the submission queue.
#[derive(Debug, Clone, Copy, PartialEq, Eq, Structural)]
pub struct Sqe {
    /// Number of the operation.
    pub opcode: u8,
    /// Index of the file among the registered ones.
    pub fd: u32,
    /// Host address of the data.
    pub addr: u64,
    /// Length of the data.
    pub len: u32,
    /// Offset in the file.
    pub offset: u64,
    /// Key of the request.
    pub user_data: u64,
}

/// A completion as it comes from the completion queue.
#[derive(Debug, Clone, Copy, PartialEq, Eq, Structural)]
pub struct RawCqe {
    /// Key of the request.
    pub user_data: u64,
    /// Result: a count, or a negative error number.
    pub res: i32,
}

/// A completion and the request that it is for.
#[derive(Debug, Clone, Copy, PartialEq, Eq, Structural)]
pub struct Cqe {
    /// Result: a count, or a negative error number.
    pub res: i32,
    /// The request.
    pub user_data: PendingRequest,
}

impl Cqe {
    /// The count that was transferred, or the error number.
    pub fn result(&self) -> (r: Result<u32, i32>)
        requires
            self.res > i32::MIN,
        ensures
            self.res < 0 ==> r is Err && r->Err_0 == -self.res,
            self.res >= 0 ==> r is Ok && r->Ok_0 == self.res,
    {
        if self.res < 0 {
            Err(-self.res)
        } else {
            Ok(self.res as u32)
        }
    }
}

/// A ring of operations.
#[derive(Debug)]
pub struct IoUring {
    /// Number of registered files.
    pub registered_fds_count: u32,
    /// Room for completions.
    pub cq_count: u32,
    /// Number of operations under way.
    pub num_ops: u32,
    /// The requests of the operations under way.
    pub slab: Slab<PendingRequest>,
}

/// Why an operation is refused before it reaches the submission queue.
pub open spec fn refusal(ring: IoUring, op: Operation) -> Option<IoUringError> {
    if ring.registered_fds_count == 0 {
        Some(IoUringError::NoRegisteredFds)
    } else if op.fd >= ring.registered_fds_count {
        Some(IoUringError::InvalidFixedFd(op.fd))
    } else if ring.num_ops >= ring.cq_count {
        Some(IoUringError::FullCQueue)
    } else {
        None
    }
}

/// The entry for an operation under a key.
pub open spec fn entry_for(op: Operation, key: int) -> Sqe {
    Sqe {
        opcode: opcode_number(op.opcode),
        fd: op.fd,
        addr: op.addr,
        len: op.len,
        offset: op.offset,
        user_data: key as u64,
    }
}

/// A probe of an operation: its number and flags.
pub open spec fn offers(probes: Seq<(u8, u16)>, op: OpCode) -> bool {
    exists|i: int|
        0 <= i < probes.len() && (#[trigger] probes[i]).0 == opcode_number(op) && (probes[i].1
            as u32) & IO_URING_OP_SUPPORTED != 0
}

/// Whether probes say that an operation is there.
fn probe_offers(probes: &Vec<(u8, u16)>, op: OpCode) -> (r: bool)
    ensures
        r == offers(probes@, op),
{
    let mut i: usize = 0;
    while i < probes.len()
        invariant
            i <= probes@.len(),
            forall|j: int|
                0 <= j < i ==> !((#[trigger] probes@[j]).0 == opcode_number(op) && (probes@[j].1
                    as u32) & IO_URING_OP_SUPPORTED != 0),
        decreases probes@.len() - i,
    {
        if probes[i].0 == op.code() && (probes[i].1 as u32) & IO_URING_OP_SUPPORTED != 0 {
            assert(probes@[i as int].0 == opcode_number(op));
            return true;
        }
        i += 1;
    }
    false
}

/// Whether the host keeps completions.
pub fn check_features(features: u32) -> (r: Result<(), IoUringError>)
    ensures
        features & IORING_FEAT_NODROP == 0 ==> r is Err && r->Err_0
            == IoUringError::UnsupportedFeature,
        features & IORING_FEAT_NODROP != 0 ==> r is Ok,
{
    if features & IORING_FEAT_NODROP == 0 {
        return Err(IoUringError::UnsupportedFeature);
    }
    Ok(())
}

/// Whether the host offers reads and writes.
pub fn check_operations(probes: &Vec<(u8, u16)>) -> (r: Result<(), IoUringError>)
    ensures
        !offers(probes@, OpCode::Read) ==> r is Err && r->Err_0
            == IoUringError::UnsupportedOperation(OpCode::Read),
        offers(probes@, OpCode::Read) && !offers(probes@, OpCode::Write) ==> r is Err && r->Err_0
            == IoUringError::UnsupportedOperation(OpCode::Write),
        offers(probes@, OpCode::Read) && offers(probes@, OpCode::Write) ==> r is Ok,
{
    if !probe_offers(probes, OpCode::Read) {
        return Err(IoUringError::UnsupportedOperation(OpCode::Read));
    }
    if !probe_offers(probes, OpCode::Write) {
        return Err(IoUringError::UnsupportedOperation(OpCode::Write));
    }
    Ok(())
}

/// What is done to set a ring up, once it was created and its features were checked.
#[derive(Debug, Clone, Copy, PartialEq, Eq, Structural)]
pub enum SetupStep {
    /// The operations that the host offers are checked.
    CheckOperations,
    /// Completions are signalled.
    RegisterEventfd,
    /// What the ring can be used for is restricted.
    RegisterRestrictions,
    /// Files are registered.
    RegisterFiles,
    /// The ring is enabled.
    Enable,
}

/// What is done to set a ring up.
pub open spec fn setup_steps(eventfd: bool, restrictions: usize, files: usize) -> Seq<SetupStep> {
    let events = if eventfd {
        seq![SetupStep::RegisterEventfd]
    } else {
        seq![]
    };
    let limits = if restrictions > 0 {
        seq![SetupStep::RegisterRestrictions]
    } else {
        seq![]
    };
    let known = if files > 0 {
        seq![SetupStep::RegisterFiles]
    } else {
        seq![]
    };
    seq![SetupStep::CheckOperations] + events + limits + known + seq![SetupStep::Enable]
}

/// A ring is enabled last, after everything that it is set up with.
pub proof fn law_enabled_last(eventfd: bool, restrictions: usize, files: usize, at: int)
    requires
        0 <= at < setup_steps(eventfd, restrictions, files).len(),
        setup_steps(eventfd, restrictions, files)[at] == SetupStep::Enable,
    ensures
        at == setup_steps(eventfd, restrictions, files).len() - 1,
{
}

/// Whether an operation was put into the ring with an entry: its request is kept under a key that
/// was free, the entry carries the key, and there is one operation more.
pub open spec fn pushed(before: IoUring, after: IoUring, op: Operation, sqe: Sqe) -> bool {
    &&& sqe == entry_for(op, sqe.user_data as int)
    &&& !slab_requests(before.slab).contains_key(sqe.user_data as int)
    &&& slab_requests(after.slab) == slab_requests(before.slab).insert(
        sqe.user_data as int,
        op.user_data,
    )
    &&& after.num_ops == before.num_ops + 1
    &&& after.cq_count == before.cq_count
    &&& after.registered_fds_count == before.registered_fds_count
}

/// Whether a completion was taken with a result: it finds the request that is kept under its key,
/// which is then kept no longer, or it is an error.
pub open spec fn popped(
    before: IoUring,
    after: IoUring,
    c: RawCqe,
    r: Result<Option<Cqe>, IoUringError>,
) -> bool {
    if slab_requests(before.slab).contains_key(c.user_data as int) {
        &&& r == Ok::<Option<Cqe>, IoUringError>(
            Some(Cqe { res: c.res, user_data: slab_requests(before.slab)[c.user_data as int] }),
        )
        &&& slab_requests(after.slab) == slab_requests(before.slab).remove(c.user_data as int)
        &&& after.num_ops == (if before.num_ops > 0 {
            before.num_ops - 1
        } else {
            0
        })
        &&& after.cq_count == before.cq_count
        &&& after.registered_fds_count == before.registered_fds_count
    } else {
        &&& r == Err::<Option<Cqe>, IoUringError>(
            IoUringError::CQueue(CQueueError::UnknownOperation(c.user_data)),
        )
        &&& slab_requests(after.slab) == slab_requests(before.slab)
        &&& after == (IoUring { slab: after.slab, ..before })
    }
}

/// What is done to set a ring up.
pub fn setup(eventfd: bool, restrictions: usize, files: usize) -> (r: Vec<SetupStep>)
    ensures
        r@ == setup_steps(eventfd, restrictions, files),
{
    let mut steps: Vec<SetupStep> = Vec::new();
    steps.push(SetupStep::CheckOperations);
    if eventfd {
        steps.push(SetupStep::RegisterEventfd);
    }
    if restrictions > 0 {
        steps.push(SetupStep::RegisterRestrictions);
    }
    if files > 0 {
        steps.push(SetupStep::RegisterFiles);
    }
    steps.push(SetupStep::Enable);
    assert(steps@ =~= setup_steps(eventfd, restrictions, files));
    steps
}

impl IoUring {
    /// No more operations are under way than there is room for completions.
    pub open spec fn wf(self) -> bool {
        self.num_ops <= self.cq_count
    }

    /// A ring without files, with room for a number of submissions and completions.
    pub fn new(sq_entries: u32, cq_entries: u32) -> (r: IoUring)
        requires
            sq_entries + cq_entries <= isize::MAX / 256,
        ensures
            r.wf(),
            r.registered_fds_count == 0,
            r.cq_count == cq_entries,
            r.num_ops == 0,
            slab_requests(r.slab) == no_requests(),
    {
        IoUring {
            registered_fds_count: 0,
            cq_count: cq_entries,
            num_ops: 0,
            slab: slab_with_capacity(sq_entries as usize + cq_entries as usize),
        }
    }

    /// Whether a number of files can be registered.
    pub fn check_files(&self, count: usize) -> (r: Result<(), IoUringError>)
        ensures
            count > 0 && self.registered_fds_count + count > IORING_MAX_FIXED_FILES ==> r is Err
                && r->Err_0 == IoUringError::RegisterFileLimitExceeded,
            count == 0 || self.registered_fds_count + count <= IORING_MAX_FIXED_FILES ==> r is Ok,
    {
        if count == 0 {
            return Ok(());
        }
        if (self.registered_fds_count as usize).saturating_add(count) > IORING_MAX_FIXED_FILES {
            return Err(IoUringError::RegisterFileLimitExceeded);
        }
        Ok(())
    }

    /// Takes note of registered files.
    pub fn register_files(&mut self, count: usize)
        requires
            old(self).registered_fds_count + count <= IORING_MAX_FIXED_FILES,
        ensures
            *final(self) == (IoUring {
                registered_fds_count: (old(self).registered_fds_count + count) as u32,
                ..*old(self)
            }),
    {
        self.registered_fds_count = self.registered_fds_count + count as u32;
    }

    /// Takes an operation and gives back the entry for the submission queue.
    pub fn prepare(&mut self, op: Operation) -> (r: Result<Sqe, (IoUringError, PendingRequest)>)
        ensures
            match refusal(*old(self), op) {
                Some(e) => {
                    &&& r == Err::<Sqe, (IoUringError, PendingRequest)>((e, op.user_data))
                    &&& *final(self) == *old(self)
                },
                None => {
                    &&& r matches Ok(sqe)
                    &&& sqe == entry_for(op, sqe.user_data as int)
                    &&& sqe.user_data <= usize::MAX
                    &&& !slab_requests(old(self).slab).contains_key(sqe.user_data as int)
                    &&& slab_requests(final(self).slab) == slab_requests(old(self).slab).insert(
                        sqe.user_data as int,
                        op.user_data,
                    )
                    &&& *final(self) == (IoUring { slab: final(self).slab, ..*old(self) })
                },
            },
    {
        if self.registered_fds_count == 0 {
            return Err((IoUringError::NoRegisteredFds, op.user_data));
        }
        if op.fd >= self.registered_fds_count {
            return Err((IoUringError::InvalidFixedFd(op.fd), op.user_data));
        }
        if self.num_ops >= self.cq_count {
            return Err((IoUringError::FullCQueue, op.user_data));
        }
        let key: usize = slab_insert(&mut self.slab, op.user_data);
        Ok(
            Sqe {
                opcode: op.opcode.code(),
                fd: op.fd,
                addr: op.addr,
                len: op.len,
                offset: op.offset,
                user_data: key as u64,
            },
        )
    }

    /// Takes note of what the submission queue made of an entry. A request that it did not take is
    /// given back.
    pub fn submitted(&mut self, sqe: &Sqe, result: Result<(), SQueueError>) -> (r: Result<
        (),
        (IoUringError, Option<PendingRequest>),
    >)
        requires
            old(self).num_ops < old(self).cq_count,
            sqe.user_data <= usize::MAX,
        ensures
            final(self).wf(),
            match result {
                Ok(_) => {
                    &&& r is Ok
                    &&& *final(self) == (IoUring {
                        num_ops: (old(self).num_ops + 1) as u32,
                        ..*old(self)
                    })
                },
                Err(e) => {
                    &&& r is Err
                    &&& r->Err_0.0 == IoUringError::SQueue(e)
                    &&& r->Err_0.1 == (if slab_requests(old(self).slab).contains_key(
                        sqe.user_data as int,
                    ) {
                        Some(slab_requests(old(self).slab)[sqe.user_data as int])
                    } else {
                        None
                    })
                    &&& slab_requests(final(self).slab) == slab_requests(old(self).slab).remove(
                        sqe.user_data as int,
                    )
                    &&& *final(self) == (IoUring { slab: final(self).slab, ..*old(self) })
                },
            },
    {
        match result {
            Ok(_) => {
                self.num_ops = self.num_ops + 1;
                Ok(())
            },
            Err(e) => Err(
                (
                    IoUringError::SQueue(e),
                    slab_try_remove(&mut self.slab, sqe.user_data as usize),
                ),
            ),
        }
    }

    /// Takes an operation, of which the submission queue makes what `result` says. Where it is
    /// refused, the request is given back and nothing changes.
    pub fn push(&mut self, op: Operation, result: Result<(), SQueueError>) -> (r: Result<
        Sqe,
        (IoUringError, PendingRequest),
    >)
        requires
            old(self).wf(),
        ensures
            final(self).wf(),
            match refusal(*old(self), op) {
                Some(e) => {
                    &&& r == Err::<Sqe, (IoUringError, PendingRequest)>((e, op.user_data))
                    &&& *final(self) == *old(self)
                },
                None => match result {
                    Ok(_) => r matches Ok(sqe) && pushed(*old(self), *final(self), op, sqe),
                    Err(e) => {
                        &&& r == Err::<Sqe, (IoUringError, PendingRequest)>(
                            (IoUringError::SQueue(e), op.user_data),
                        )
                        &&& slab_requests(final(self).slab) == slab_requests(old(self).slab)
                        &&& *final(self) == (IoUring { slab: final(self).slab, ..*old(self) })
                    },
                },
            },
    {
        let user_data = op.user_data;
        let ghost before = slab_requests(self.slab);
        let sqe = match self.prepare(op) {
            Ok(sqe) => sqe,
            Err(e) => {
                return Err(e);
            },
        };
        proof {
            assert(before.insert(sqe.user_data as int, user_data).remove(sqe.user_data as int)
                =~= before);
        }
        match self.submitted(&sqe, result) {
            Ok(()) => Ok(sqe),
            Err((e, _)) => Err((e, user_data)),
        }
    }

    /// Takes what the completion queue has, and finds the request that it is for.
    pub fn pop(&mut self, raw: Option<RawCqe>) -> (r: Result<Option<Cqe>, IoUringError>)
        requires
            raw matches Some(c) ==> c.user_data <= usize::MAX,
            old(self).wf(),
        ensures
            final(self).wf(),
            match raw {
                None => r == Ok::<Option<Cqe>, IoUringError>(None) && *final(self) == *old(self),
                Some(c) => popped(*old(self), *final(self), c, r),
            },
    {
        let c = match raw {
            None => {
                return Ok(None);
            },
            Some(c) => c,
        };
        let ghost before = slab_requests(self.slab);
        match slab_try_remove(&mut self.slab, c.user_data as usize) {
            Some(user_data) => {
                self.num_ops = self.num_ops.saturating_sub(1);
                Ok(Some(Cqe { res: c.res, user_data }))
            },
            None => {
                assert(before.remove(c.user_data as int) =~= before);
                Err(IoUringError::CQueue(CQueueError::UnknownOperation(c.user_data)))
            },
        }
    }

    /// The number of completions to wait for when all operations are waited for.
    pub fn num_ops(&self) -> (r: u32)
        ensures
            r == self.num_ops,
    {
        self.num_ops
    }
}

/// The completion of an operation finds the request that was pushed with it, and the ring holds
/// the same requests as before the push.
pub proof fn law_completion_finds_request(
    before: IoUring,
    between: IoUring,
    after: IoUring,
    op: Operation,
    sqe: Sqe,
    c: RawCqe,
    r: Result<Option<Cqe>, IoUringError>,
)
    requires
        pushed(before, between, op, sqe),
        c.user_data == sqe.user_data,
        popped(between, after, c, r),
    ensures
        r == Ok::<Option<Cqe>, IoUringError>(Some(Cqe { res: c.res, user_data: op.user_data })),
        slab_requests(after.slab) == slab_requests(before.slab),
        after.num_ops == before.num_ops,
{
    assert(slab_requests(after.slab) =~= slab_requests(before.slab));
}

/// A request that waits for its completion stays, whatever is pushed and whichever other
/// completion is taken.
pub proof fn law_waiting_requests_stay(
    before: IoUring,
    between: IoUring,
    after: IoUring,
    op: Operation,
    sqe: Sqe,
    c: RawCqe,
    r: Result<Option<Cqe>, IoUringError>,
    key: int,
)
    requires
        slab_requests(before.slab).contains_key(key),
        pushed(before, between, op, sqe),
        c.user_data != key,
        popped(between, after, c, r),
    ensures
        slab_requests(between.slab).contains_key(key),
        slab_requests(between.slab)[key] == slab_requests(before.slab)[key],
        slab_requests(after.slab).contains_key(key),
        slab_requests(after.slab)[key] == slab_requests(before.slab)[key],
{
}

/// An operation is handed to the kernel as it is: a read under number 22 and a write under number 23,
/// of its own file, buffer, length and offset.
pub proof fn law_operations_are_handed_over(op: Operation, key: int)
    ensures
        ({
            let sqe = entry_for(op, key);
            &&& sqe.opcode == (if op.opcode == OpCode::Read {
                22u8
            } else {
                23
            })
            &&& sqe.fd == op.fd
            &&& sqe.addr == op.addr
            &&& sqe.len == op.len
            &&& sqe.offset == op.offset
        }),
{
}

/// An operation is taken exactly when its file is registered and there is room for its completion.
pub proof fn law_which_operations_are_taken(ring: IoUring, op: Operation)
    ensures
        refusal(ring, op) is None <==> op.fd < ring.registered_fds_count && ring.num_ops
            < ring.cq_count,
        refusal(ring, op) == Some(IoUringError::FullCQueue) <==> op.fd < ring.registered_fds_count
            && ring.num_ops >= ring.cq_count,
        refusal(ring, op) == Some(IoUringError::NoRegisteredFds) <==> ring.registered_fds_count
            == 0,
{
}

/// A ring is set up in order: its operations are checked, events, restrictions and files are
/// registered as far as there are any, and only then it is enabled.
pub proof fn law_rings_are_set_up_in_order(eventfd: bool, restrictions: usize, files: usize)
    ensures
        ({
            let steps = setup_steps(eventfd, restrictions, files);
            &&& steps[0] == SetupStep::CheckOperations
            &&& steps.last() == SetupStep::Enable
            &&& steps.len() == 2 + (if eventfd {
                1int
            } else {
                0
            }) + (if restrictions > 0 {
                1int
            } else {
                0
            }) + (if files > 0 {
                1int
            } else {
                0
            })
            &&& eventfd ==> steps[1] == SetupStep::RegisterEventfd
            &&& files > 0 ==> steps[steps.len() - 2] == SetupStep::RegisterFiles
            &&& restrictions > 0 ==> steps[if eventfd {
                2
            } else {
                1
            }] == SetupStep::RegisterRestrictions
        }),
{
}

/// An operation is on offer exactly when the kernel names it, with its lowest flag set: 22 for reads,
/// 23 for writes. Other operations do not matter.
pub proof fn law_offered_operations(probes: Seq<(u8, u16)>, probe: (u8, u16), op: OpCode)
    ensures
        offers(probes.push(probe), op) <==> offers(probes, op) || (probe.0 == (match op {
            OpCode::Read => 22u8,
            OpCode::Write => 23u8,
        }) && probe.1 % 2 == 1),
        !offers(seq![], op),
{
    let flags = probe.1;
    assert((flags as u32) & 1u32 != 0 <==> flags % 2 == 1) by (bit_vector);
    let more = probes.push(probe);
    assert(more[probes.len() as int] == probe);
    if offers(probes, op) {
        let i = choose|i: int|
            0 <= i < probes.len() && (#[trigger] probes[i]).0 == opcode_number(op) && (probes[i].1
                as u32) & IO_URING_OP_SUPPORTED != 0;
        assert(more[i] == probes[i]);
    }
    if offers(more, op) {
        let i = choose|i: int|
            0 <= i < more.len() && (#[trigger] more[i]).0 == opcode_number(op) && (more[i].1
                as u32) & IO_URING_OP_SUPPORTED != 0;
        if i < probes.len() {
            assert(probes[i] == more[i]);
        }
    }
}

} // verus!
