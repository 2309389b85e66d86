//! Requests of a block device: parsing, limiting, dispatching and finishing.

use vstd::prelude::*;

use crate::devices::virtio::queue::{names_next, ChainView, DescriptorChain};
use crate::rate_limiter::{
    consumed, consumed_op, grants, grants_op, law_an_operation_costs_one_token_and_its_bytes,
    law_limits_are_separate, tokens_held, RateLimiter, TokenType,
};
use crate::vstate::guest_memory::{le32, le64, read_le32, read_le64, GuestMemory};

verus! {

/// Size of a sector.
pub const SECTOR_SIZE: u32 = 512;

/// Binary logarithm of the size of a sector.
pub const SECTOR_SHIFT: u32 = 9;

/// Length of the identifier of a disk image.
pub const VIRTIO_BLK_ID_BYTES: u32 = 20;

/// Code of a read request.
pub const VIRTIO_BLK_T_IN: u32 = 0;

/// Code of a write request.
pub const VIRTIO_BLK_T_OUT: u32 = 1;

/// Code of a flush request.
pub const VIRTIO_BLK_T_FLUSH: u32 = 4;

/// Code of a request for the identifier of the disk image.
pub const VIRTIO_BLK_T_GET_ID: u32 = 8;

/// Status of a request that succeeded.
pub const VIRTIO_BLK_S_OK: u8 = 0;

/// Status of a request that failed.
pub const VIRTIO_BLK_S_IOERR: u8 = 1;

/// Status of a request that the device does not know.
pub const VIRTIO_BLK_S_UNSUPP: u8 = 2;

/// Why a block device or one of its requests is refused.
#[derive(Debug, Clone, Copy, PartialEq, Eq, Structural)]
pub enum VirtioBlockError {
    /// The configuration is not one of a virtio block device.
    Config,
    /// The guest gave a descriptor that was too short to use.
    DescriptorLengthTooSmall,
    /// The guest gave too few descriptors.
    DescriptorChainTooShort,
    /// The guest gave an address that is not backed by memory.
    GuestMemory,
    /// The length of the data is invalid.
    InvalidDataLength,
    /// The offset lies past the end of the disk.
    InvalidOffset,
    /// The guest gave a read-only descriptor where the device must write.
    UnexpectedReadOnlyDescriptor,
    /// The guest gave a write-only descriptor where the device must read.
    UnexpectedWriteOnlyDescriptor,
}

/// Why a transfer did not complete.
#[derive(Debug, Clone, Copy, PartialEq, Eq, Structural)]
pub enum IoErr {
    /// The identifier could not be written to guest memory.
    GetId,
    /// Less was transferred than was asked for.
    PartialTransfer {
        /// Bytes that were transferred.
        completed: u32,
        /// Bytes that were asked for.
        expected: u32,
    },
    /// The file engine failed.
    FileEngine,
}

/// What a request asks for.
#[derive(Debug, Clone, Copy, PartialEq, Eq, Structural)]
pub enum RequestType {
    /// Read from the disk.
    In,
    /// Write to the disk.
    Out,
    /// Flush the disk.
    Flush,
    /// Read the identifier of the disk image.
    GetDeviceID,
    /// Something else.
    Unsupported(u32),
}

/// The type of request with a given code.
pub open spec fn request_type_of(value: u32) -> RequestType {
    if value == VIRTIO_BLK_T_IN {
        RequestType::In
    } else if value == VIRTIO_BLK_T_OUT {
        RequestType::Out
    } else if value == VIRTIO_BLK_T_FLUSH {
        RequestType::Flush
    } else if value == VIRTIO_BLK_T_GET_ID {
        RequestType::GetDeviceID
    } else {
        RequestType::Unsupported(value)
    }
}

impl From<u32> for RequestType {
    fn from(value: u32) -> (r: RequestType) {
        if value == VIRTIO_BLK_T_IN {
            RequestType::In
        } else if value == VIRTIO_BLK_T_OUT {
            RequestType::Out
        } else if value == VIRTIO_BLK_T_FLUSH {
            RequestType::Flush
        } else if value == VIRTIO_BLK_T_GET_ID {
            RequestType::GetDeviceID
        } else {
            RequestType::Unsupported(value)
        }
    }
}

impl vstd::std_specs::convert::FromSpecImpl<u32> for RequestType {
    open spec fn obeys_from_spec() -> bool {
        true
    }

    open spec fn from_spec(value: u32) -> RequestType {
        request_type_of(value)
    }
}

/// A request that is done.
#[derive(Debug, Clone, Copy, PartialEq, Eq, Structural)]
pub struct FinishedRequest {
    /// Bytes that the device wrote to guest memory.
    pub num_bytes_to_mem: u32,
    /// Head of the chain of the request.
    pub desc_idx: u16,
}

/// Where a request stands after it was dispatched.
#[derive(Debug, Clone, Copy, PartialEq, Eq, Structural)]
pub enum ProcessingResult {
    /// The file engine works on it.
    Submitted,
    /// The file engine takes no more requests for now.
    Throttled,
    /// It is done.
    Executed(FinishedRequest),
}

/// Outcome of a request.
#[derive(Debug, Clone, Copy, PartialEq, Eq, Structural)]
pub enum Status {
    /// The request succeeded.
    Success {
        /// Bytes that the device wrote to guest memory.
        num_bytes_to_mem: u32,
    },
    /// The request failed.
    IoErr {
        /// Bytes that the device wrote to guest memory.
        num_bytes_to_mem: u32,
        /// Why.
        err: IoErr,
    },
    /// The device does not know the request.
    Unsupported {
        /// Code of the request.
        op: u32,
    },
}

impl Status {
    /// The outcome of a transfer of `transferred` bytes out of `data_len`.
    pub open spec fn of_data(data_len: u32, transferred: u32, data_to_mem: bool) -> Status {
        let num_bytes_to_mem = if data_to_mem {
            transferred
        } else {
            0u32
        };
        if transferred == data_len {
            Status::Success { num_bytes_to_mem }
        } else {
            Status::IoErr {
                num_bytes_to_mem,
                err: IoErr::PartialTransfer { completed: transferred, expected: data_len },
            }
        }
    }

    /// The bytes that the device wrote to guest memory.
    pub open spec fn bytes_to_mem(self) -> u32 {
        match self {
            Status::Success { num_bytes_to_mem } => num_bytes_to_mem,
            Status::IoErr { num_bytes_to_mem, err } => num_bytes_to_mem,
            Status::Unsupported { op } => 0,
        }
    }

    /// The status byte.
    pub open spec fn code(self) -> u8 {
        match self {
            Status::Success { num_bytes_to_mem } => VIRTIO_BLK_S_OK,
            Status::IoErr { num_bytes_to_mem, err } => VIRTIO_BLK_S_IOERR,
            Status::Unsupported { op } => VIRTIO_BLK_S_UNSUPP,
        }
    }

    fn from_data(data_len: u32, transferred_data_len: u32, data_to_mem: bool) -> (r: Status)
        ensures
            r == Status::of_data(data_len, transferred_data_len, data_to_mem),
    {
        let num_bytes_to_mem: u32 = if data_to_mem {
            transferred_data_len
        } else {
            0
        };
        if transferred_data_len == data_len {
            Status::Success { num_bytes_to_mem }
        } else {
            Status::IoErr {
                num_bytes_to_mem,
                err: IoErr::PartialTransfer { completed: transferred_data_len, expected: data_len },
            }
        }
    }
}

/// A request that waits for its transfer.
#[derive(Debug, Clone, Copy, PartialEq, Eq, Structural)]
pub struct PendingRequest {
    /// What was asked for.
    pub request_type: RequestType,
    /// Length of the data.
    pub data_len: u32,
    /// Guest address of the status byte.
    pub status_addr: u64,
    /// Head of the chain of the request.
    pub desc_idx: u16,
}

/// The outcome of a request, given what came of its transfer.
pub open spec fn outcome(request: PendingRequest, res: Result<u32, IoErr>) -> Status {
    match request.request_type {
        RequestType::Unsupported(op) => Status::Unsupported { op },
        _ => match res {
            Err(err) => Status::IoErr { num_bytes_to_mem: 0, err },
            Ok(transferred) => match request.request_type {
                RequestType::In => Status::of_data(request.data_len, transferred, true),
                RequestType::Out => Status::of_data(request.data_len, transferred, false),
                RequestType::GetDeviceID => Status::of_data(request.data_len, transferred, true),
                _ => Status::Success { num_bytes_to_mem: 0 },
            },
        },
    }
}

/// The finished form of a request with a given outcome: the status byte counts as written, and
/// a chain whose status cannot be written is given back with nothing.
pub open spec fn finished(
    request: PendingRequest,
    status: Status,
    status_written: bool,
) -> FinishedRequest {
    FinishedRequest {
        num_bytes_to_mem: if status_written {
            (status.bytes_to_mem() + 1) as u32
        } else {
            0
        },
        desc_idx: request.desc_idx,
    }
}

/// Whether `after` is `before` with the status byte of a request written, where there is memory
/// for it.
pub open spec fn status_in_memory(
    before: GuestMemory,
    after: GuestMemory,
    request: PendingRequest,
    status: Status,
) -> bool {
    if before.has(request.status_addr as int) {
        after.written(before, request.status_addr as int, seq![status.code()])
    } else {
        after == before
    }
}

/// Whether a request was finished correctly after its transfer.
pub open spec fn request_finished(
    request: PendingRequest,
    res: Result<u32, IoErr>,
    before: GuestMemory,
    after: GuestMemory,
    r: FinishedRequest,
) -> bool {
    &&& r == finished(request, outcome(request, res), before.has(request.status_addr as int))
    &&& status_in_memory(before, after, request, outcome(request, res))
}

impl PendingRequest {
    /// Whether there is room for the status byte in the count of the bytes that go to guest memory:
    /// those of a read and of an identifier do.
    pub open spec fn counts(self, transferred: u32) -> bool {
        self.request_type == RequestType::In || self.request_type == RequestType::GetDeviceID
            ==> transferred < u32::MAX
    }

    fn write_status_and_finish(self, status: &Status, mem: &mut GuestMemory) -> (r: FinishedRequest)
        requires
            old(mem).wf(),
            status.bytes_to_mem() < u32::MAX,
        ensures
            final(mem).wf(),
            r == finished(self, *status, old(mem).has(self.status_addr as int)),
            status_in_memory(*old(mem), *final(mem), self, *status),
    {
        let (num_bytes_to_mem, status_code): (u32, u8) = match *status {
            Status::Success { num_bytes_to_mem } => (num_bytes_to_mem, VIRTIO_BLK_S_OK),
            Status::IoErr { num_bytes_to_mem, err: _ } => (num_bytes_to_mem, VIRTIO_BLK_S_IOERR),
            Status::Unsupported { op: _ } => (0, VIRTIO_BLK_S_UNSUPP),
        };
        let num_bytes_to_mem: u32 = match mem.read_byte(self.status_addr) {
            Some(_) => {
                mem.write_byte(self.status_addr, status_code);
                num_bytes_to_mem + 1
            },
            None => 0,
        };
        FinishedRequest { num_bytes_to_mem, desc_idx: self.desc_idx }
    }

    /// Finishes a request once its transfer came to an end.
    pub fn finish(self, mem: &mut GuestMemory, res: Result<u32, IoErr>) -> (r: FinishedRequest)
        requires
            old(mem).wf(),
            res matches Ok(transferred) ==> self.counts(transferred),
        ensures
            final(mem).wf(),
            request_finished(self, res, *old(mem), *final(mem), r),
    {
        let status = match (res, self.request_type) {
            (Ok(transferred), RequestType::In) => {
                Status::from_data(self.data_len, transferred, true)
            },
            (Ok(transferred), RequestType::Out) => {
                Status::from_data(self.data_len, transferred, false)
            },
            (Ok(_), RequestType::Flush) => Status::Success { num_bytes_to_mem: 0 },
            (Ok(transferred), RequestType::GetDeviceID) => {
                Status::from_data(self.data_len, transferred, true)
            },
            (_, RequestType::Unsupported(op)) => Status::Unsupported { op },
            (Err(err), _) => Status::IoErr { num_bytes_to_mem: 0, err },
        };
        self.write_status_and_finish(&status, mem)
    }
}

/// The mandatory fields at the start of every request.
#[derive(Debug, Clone, Copy, PartialEq, Eq, Structural)]
pub struct RequestHeader {
    /// Code of the type of request.
    pub request_type: u32,
    /// Not used.
    pub reserved: u32,
    /// Sector at which a read or a write starts.
    pub sector: u64,
}

/// Length of a request header in guest memory.
pub const REQUEST_HEADER_LEN: usize = 16;

/// The header at a guest address: the type, a reserved word and the sector, each with the least
/// significant byte first.
pub open spec fn header_at(mem: GuestMemory, addr: u64) -> Option<RequestHeader> {
    if mem.has_range(addr as int, 16) {
        let b = mem.bytes(addr as int, 16);
        Some(
            RequestHeader {
                request_type: le32(b.subrange(0, 4)),
                reserved: le32(b.subrange(4, 8)),
                sector: le64(b.subrange(8, 16)),
            },
        )
    } else {
        None
    }
}

impl RequestHeader {
    /// A header with the given type and sector.
    pub fn new(request_type: u32, sector: u64) -> (r: RequestHeader)
        ensures
            r.request_type == request_type,
            r.reserved == 0,
            r.sector == sector,
    {
        RequestHeader { request_type, reserved: 0, sector }
    }

    fn read_from(memory: &GuestMemory, addr: u64) -> (r: Result<RequestHeader, VirtioBlockError>)
        requires
            memory.wf(),
        ensures
            r == (match header_at(*memory, addr) {
                Some(header) => Ok::<RequestHeader, VirtioBlockError>(header),
                None => Err(VirtioBlockError::GuestMemory),
            }),
    {
        match memory.read(addr, REQUEST_HEADER_LEN) {
            Some(b) => Ok(
                RequestHeader {
                    request_type: read_le32(b.as_slice(), 0),
                    reserved: read_le32(b.as_slice(), 4),
                    sector: read_le64(b.as_slice(), 8),
                },
            ),
            None => Err(VirtioBlockError::GuestMemory),
        }
    }
}

/// A parsed request.
#[derive(Debug, Clone, Copy, PartialEq, Eq, Structural)]
pub struct Request {
    /// What is asked for.
    pub request_type: RequestType,
    /// Length of the data.
    pub data_len: u32,
    /// Guest address of the status byte.
    pub status_addr: u64,
    /// Sector at which a read or a write starts.
    pub sector: u64,
    /// Guest address of the data.
    pub data_addr: u64,
}

/// Why a data buffer is not fit for a type of request.
pub open spec fn data_direction(request_type: RequestType, write_only: bool) -> Option<
    VirtioBlockError,
> {
    if write_only && request_type == RequestType::Out {
        Some(VirtioBlockError::UnexpectedWriteOnlyDescriptor)
    } else if !write_only && (request_type == RequestType::In || request_type
        == RequestType::GetDeviceID) {
        Some(VirtioBlockError::UnexpectedReadOnlyDescriptor)
    } else {
        None
    }
}

/// Why the extent of a transfer is not valid: reads and writes move whole sectors that lie on
/// the disk, and an identifier needs room.
pub open spec fn data_extent(
    request_type: RequestType,
    sector: u64,
    data_len: u32,
    num_disk_sectors: u64,
) -> Option<VirtioBlockError> {
    match request_type {
        RequestType::In | RequestType::Out => {
            if data_len % SECTOR_SIZE != 0 {
                Some(VirtioBlockError::InvalidDataLength)
            } else if sector + data_len / SECTOR_SIZE > num_disk_sectors {
                Some(VirtioBlockError::InvalidOffset)
            } else {
                None
            }
        },
        RequestType::GetDeviceID => if data_len < VIRTIO_BLK_ID_BYTES {
            Some(VirtioBlockError::InvalidDataLength)
        } else {
            None
        },
        _ => None,
    }
}

/// The request that a chain holds: a readable header, the data unless the request is a flush
/// without any, and a writable status byte. The second buffer is the data where it names a third.
pub open spec fn parsed(
    chain: ChainView,
    mem: GuestMemory,
    num_disk_sectors: u64,
) -> Result<Request, VirtioBlockError> {
    let header = header_at(mem, chain.descs[0].addr);
    if chain.descs[0].write_only {
        Err(VirtioBlockError::UnexpectedWriteOnlyDescriptor)
    } else if header is None {
        Err(VirtioBlockError::GuestMemory)
    } else {
        let request_type = request_type_of(header->0.request_type);
        let has_data = names_next(chain, 1);
        if chain.descs.len() < 2 || has_data && chain.descs.len() < 3 || !has_data && request_type
            != RequestType::Flush {
            Err(VirtioBlockError::DescriptorChainTooShort)
        } else {
            let status = chain.descs[if has_data {
                2
            } else {
                1int
            }];
            let data_addr = if has_data {
                chain.descs[1].addr
            } else {
                0
            };
            let data_len = if has_data {
                chain.descs[1].len
            } else {
                0
            };
            let sector = header->0.sector;
            let extent = data_extent(request_type, sector, data_len, num_disk_sectors);
            if has_data && data_direction(request_type, chain.descs[1].write_only) is Some {
                Err(data_direction(request_type, chain.descs[1].write_only)->0)
            } else if extent is Some {
                Err(extent->0)
            } else if !status.write_only {
                Err(VirtioBlockError::UnexpectedReadOnlyDescriptor)
            } else if status.len < 1 {
                Err(VirtioBlockError::DescriptorLengthTooSmall)
            } else {
                Ok(Request { request_type, data_len, status_addr: status.addr, sector, data_addr })
            }
        }
    }
}

/// What the file engine is asked to do.
#[derive(Debug, Clone, Copy, PartialEq, Eq, Structural)]
pub enum EngineOp {
    /// Read from the file into guest memory.
    Read,
    /// Write from guest memory to the file.
    Write,
    /// Flush the file.
    Flush,
}

/// Work for the file engine.
#[derive(Debug, Clone, Copy, PartialEq, Eq, Structural)]
pub struct EngineRequest {
    /// What to do.
    pub op: EngineOp,
    /// Offset in the file.
    pub offset: u64,
    /// Guest address of the data.
    pub addr: u64,
    /// Length of the data.
    pub count: u32,
    /// The request that waits for the engine.
    pub req: PendingRequest,
}

/// What the file engine answered.
#[derive(Debug, Clone, Copy, PartialEq, Eq, Structural)]
pub enum EngineAnswer {
    /// It works on the request.
    Submitted,
    /// It is done and moved this many bytes.
    Executed(u32),
    /// It takes no more requests for now.
    Throttled,
    /// It failed.
    Failed,
}

/// Where a request stands after its dispatch was started.
#[derive(Debug, Clone, Copy, PartialEq, Eq, Structural)]
pub enum Dispatch {
    /// The file engine must do something.
    Engine(EngineRequest),
    /// The request is done.
    Executed(FinishedRequest),
}

/// What came of writing the identifier of a disk image for a request.
pub open spec fn id_written(request: Request, mem: GuestMemory) -> Result<u32, IoErr> {
    if mem.has_range(request.data_addr as int, VIRTIO_BLK_ID_BYTES as int) {
        Ok(VIRTIO_BLK_ID_BYTES)
    } else {
        Err(IoErr::GetId)
    }
}

/// The work for the file engine that a request asks for.
pub open spec fn engine_work(request: Request, desc_idx: u16) -> Option<EngineRequest> {
    let req = request.pending(desc_idx);
    let offset = request.sector << SECTOR_SHIFT;
    match request.request_type {
        RequestType::In => Some(
            EngineRequest {
                op: EngineOp::Read,
                offset,
                addr: request.data_addr,
                count: request.data_len,
                req,
            },
        ),
        RequestType::Out => Some(
            EngineRequest {
                op: EngineOp::Write,
                offset,
                addr: request.data_addr,
                count: request.data_len,
                req,
            },
        ),
        RequestType::Flush => Some(
            EngineRequest { op: EngineOp::Flush, offset: 0, addr: 0, count: 0, req },
        ),
        _ => None,
    }
}

/// Whether a request that needs no file engine was dispatched correctly: the identifier of the
/// disk image is in memory as far as there is room, then the status.
pub open spec fn answered_at_once(
    request: Request,
    image_id: Seq<u8>,
    desc_idx: u16,
    before: GuestMemory,
    after: GuestMemory,
    done: FinishedRequest,
) -> bool {
    let pending = request.pending(desc_idx);
    if request.request_type == RequestType::GetDeviceID {
        let status = outcome(pending, id_written(request, before));
        &&& done == finished(pending, status, before.has(request.status_addr as int))
        &&& exists|mid: GuestMemory|
            {
                &&& #[trigger] mid.written(
                    before,
                    request.data_addr as int,
                    image_id.take(before.reach(request.data_addr as int, image_id.len()) as int),
                )
                &&& status_in_memory(mid, after, pending, status)
            }
    } else {
        let status = outcome(pending, Ok(0));
        &&& done == finished(pending, status, before.has(request.status_addr as int))
        &&& status_in_memory(before, after, pending, status)
    }
}

/// Whether a request was dispatched correctly: to the file engine if there is work for it, else
/// it is answered at once.
pub open spec fn dispatched(
    request: Request,
    image_id: Seq<u8>,
    desc_idx: u16,
    before: GuestMemory,
    after: GuestMemory,
    r: Dispatch,
) -> bool {
    match r {
        Dispatch::Engine(work) => {
            &&& engine_work(request, desc_idx) == Some(work)
            &&& after == before
        },
        Dispatch::Executed(done) => {
            &&& engine_work(request, desc_idx) is None
            &&& answered_at_once(request, image_id, desc_idx, before, after, done)
        },
    }
}

/// What the limiter is asked for a request: an operation, and the bytes of a transfer.
pub open spec fn limited(request: Request, limiter: RateLimiter) -> bool {
    if request.request_type == RequestType::In || request.request_type == RequestType::Out {
        !grants_op(limiter, request.data_len as u64)
    } else {
        !grants(limiter, 1, TokenType::Ops)
    }
}

/// The limiter after a request was held against it.
pub open spec fn limiter_after(request: Request, limiter: RateLimiter) -> RateLimiter {
    if request.request_type == RequestType::In || request.request_type == RequestType::Out {
        consumed_op(limiter, request.data_len as u64)
    } else {
        consumed(limiter, 1, TokenType::Ops)
    }
}

impl Request {
    /// The form in which the request waits for its transfer.
    pub open spec fn pending(self, desc_idx: u16) -> PendingRequest {
        PendingRequest {
            request_type: self.request_type,
            data_len: self.data_len,
            status_addr: self.status_addr,
            desc_idx,
        }
    }

    /// Parses the request that a chain holds.
    pub fn parse(avail_desc: &DescriptorChain, mem: &GuestMemory, num_disk_sectors: u64) -> (r:
        Result<Request, VirtioBlockError>)
        requires
            mem.wf(),
        ensures
            r == parsed(avail_desc@, *mem, num_disk_sectors),
    {
        // The head holds the type of the request, which must be readable.
        if avail_desc.head.write_only {
            return Err(VirtioBlockError::UnexpectedWriteOnlyDescriptor);
        }
        let request_header = match RequestHeader::read_from(mem, avail_desc.head.addr) {
            Ok(header) => header,
            Err(e) => {
                return Err(e);
            },
        };
        let mut req = Request {
            request_type: RequestType::from(request_header.request_type),
            sector: request_header.sector,
            data_addr: 0,
            data_len: 0,
            status_addr: 0,
        };
        let desc = match avail_desc.get(1) {
            Some(desc) => desc,
            None => {
                return Err(VirtioBlockError::DescriptorChainTooShort);
            },
        };
        let status_desc = if !avail_desc.has_next(1) {
            // Only a flush may do without data.
            if req.request_type != RequestType::Flush {
                return Err(VirtioBlockError::DescriptorChainTooShort);
            }
            desc
        } else {
            let status_desc = match avail_desc.get(2) {
                Some(status_desc) => status_desc,
                None => {
                    return Err(VirtioBlockError::DescriptorChainTooShort);
                },
            };
            if desc.write_only && req.request_type == RequestType::Out {
                return Err(VirtioBlockError::UnexpectedWriteOnlyDescriptor);
            }
            if !desc.write_only && req.request_type == RequestType::In {
                return Err(VirtioBlockError::UnexpectedReadOnlyDescriptor);
            }
            if !desc.write_only && req.request_type == RequestType::GetDeviceID {
                return Err(VirtioBlockError::UnexpectedReadOnlyDescriptor);
            }
            req.data_addr = desc.addr;
            req.data_len = desc.len;
            status_desc
        };
        match req.request_type {
            RequestType::In | RequestType::Out => {
                if req.data_len % SECTOR_SIZE != 0 {
                    return Err(VirtioBlockError::InvalidDataLength);
                }
                let top_sector: u64 = match req.sector.checked_add(
                    (req.data_len / SECTOR_SIZE) as u64,
                ) {
                    Some(top_sector) => top_sector,
                    None => {
                        return Err(VirtioBlockError::InvalidOffset);
                    },
                };
                if top_sector > num_disk_sectors {
                    return Err(VirtioBlockError::InvalidOffset);
                }
            },
            RequestType::GetDeviceID => {
                if req.data_len < VIRTIO_BLK_ID_BYTES {
                    return Err(VirtioBlockError::InvalidDataLength);
                }
            },
            _ => {},
        }
        // The status must always be writable.
        if !status_desc.write_only {
            return Err(VirtioBlockError::UnexpectedReadOnlyDescriptor);
        }
        if status_desc.len < 1 {
            return Err(VirtioBlockError::DescriptorLengthTooSmall);
        }
        req.status_addr = status_desc.addr;
        Ok(req)
    }

    /// Holds the request against a limiter and says whether it has to wait.
    pub fn rate_limit(&self, rate_limiter: &mut RateLimiter) -> (r: bool)
        ensures
            r == limited(*self, *old(rate_limiter)),
            *final(rate_limiter) == limiter_after(*self, *old(rate_limiter)),
    {
        // Without budget for an operation, everything has to wait.
        if !rate_limiter.consume(1, TokenType::Ops) {
            return true;
        }
        // Only a transfer of data costs bytes.
        if self.request_type == RequestType::In || self.request_type == RequestType::Out {
            if !rate_limiter.consume(self.data_len as u64, TokenType::Bytes) {
                rate_limiter.manual_replenish(1, TokenType::Ops);
                return true;
            }
        }
        false
    }

    /// The offset in the file of the first sector.
    pub fn offset(&self) -> (r: u64)
        ensures
            r == self.sector << SECTOR_SHIFT,
            self.sector < 0x80_0000_0000_0000 ==> r == self.sector * SECTOR_SIZE,
    {
        let sector: u64 = self.sector;
        proof {
            assert(sector < 0x80_0000_0000_0000 ==> sector << 9u32 == sector * 512) by (bit_vector);
        }
        sector << SECTOR_SHIFT
    }

    /// The form in which the request waits for its transfer.
    pub fn to_pending_request(&self, desc_idx: u16) -> (r: PendingRequest)
        ensures
            r == self.pending(desc_idx),
    {
        PendingRequest {
            request_type: self.request_type,
            data_len: self.data_len,
            status_addr: self.status_addr,
            desc_idx,
        }
    }

    /// Dispatches the request: either the file engine has to work on it, or it is answered at
    /// once.
    pub fn process(self, image_id: &[u8], desc_idx: u16, mem: &mut GuestMemory) -> (r: Dispatch)
        requires
            old(mem).wf(),
            image_id@.len() == VIRTIO_BLK_ID_BYTES,
        ensures
            final(mem).wf(),
            dispatched(self, image_id@, desc_idx, *old(mem), *final(mem), r),
    {
        let pending = self.to_pending_request(desc_idx);
        match self.request_type {
            RequestType::In => Dispatch::Engine(
                EngineRequest {
                    op: EngineOp::Read,
                    offset: self.offset(),
                    addr: self.data_addr,
                    count: self.data_len,
                    req: pending,
                },
            ),
            RequestType::Out => Dispatch::Engine(
                EngineRequest {
                    op: EngineOp::Write,
                    offset: self.offset(),
                    addr: self.data_addr,
                    count: self.data_len,
                    req: pending,
                },
            ),
            RequestType::Flush => Dispatch::Engine(
                EngineRequest { op: EngineOp::Flush, offset: 0, addr: 0, count: 0, req: pending },
            ),
            RequestType::GetDeviceID => {
                let ghost before = *mem;
                let complete: bool = mem.write(self.data_addr, image_id);
                let res: Result<u32, IoErr> = if complete {
                    Ok(VIRTIO_BLK_ID_BYTES)
                } else {
                    Err(IoErr::GetId)
                };
                proof {
                    mem.lemma_same_shape(before);
                    assert(before.has(self.status_addr as int) == mem.has(self.status_addr as int));
                }
                Dispatch::Executed(pending.finish(mem, res))
            },
            RequestType::Unsupported(_) => Dispatch::Executed(pending.finish(mem, Ok(0))),
        }
    }
}

/// What the answer of the file engine makes of a request.
pub open spec fn engine_result(
    work: EngineRequest,
    answer: EngineAnswer,
    status_written: bool,
) -> ProcessingResult {
    match answer {
        EngineAnswer::Submitted => ProcessingResult::Submitted,
        EngineAnswer::Throttled => ProcessingResult::Throttled,
        EngineAnswer::Executed(count) => ProcessingResult::Executed(
            finished(work.req, outcome(work.req, Ok(count)), status_written),
        ),
        EngineAnswer::Failed => ProcessingResult::Executed(
            finished(work.req, outcome(work.req, Err(IoErr::FileEngine)), status_written),
        ),
    }
}

impl EngineRequest {
    /// Goes on with a request once the file engine answered.
    pub fn answered(self, answer: EngineAnswer, mem: &mut GuestMemory) -> (r: ProcessingResult)
        requires
            old(mem).wf(),
            answer matches EngineAnswer::Executed(count) ==> self.req.counts(count),
        ensures
            final(mem).wf(),
            r == engine_result(self, answer, old(mem).has(self.req.status_addr as int)),
            match answer {
                EngineAnswer::Executed(count) => status_in_memory(
                    *old(mem),
                    *final(mem),
                    self.req,
                    outcome(self.req, Ok(count)),
                ),
                EngineAnswer::Failed => status_in_memory(
                    *old(mem),
                    *final(mem),
                    self.req,
                    outcome(self.req, Err(IoErr::FileEngine)),
                ),
                _ => *final(mem) == *old(mem),
            },
    {
        match answer {
            EngineAnswer::Submitted => ProcessingResult::Submitted,
            EngineAnswer::Throttled => ProcessingResult::Throttled,
            EngineAnswer::Executed(count) => {
                ProcessingResult::Executed(self.req.finish(mem, Ok(count)))
            },
            EngineAnswer::Failed => {
                ProcessingResult::Executed(self.req.finish(mem, Err(IoErr::FileEngine)))
            },
        }
    }
}

/// The code of the request that a chain holds: the first word that its head points to.
pub open spec fn code_in_chain(chain: ChainView, mem: GuestMemory) -> u32 {
    le32(mem.bytes(chain.descs[0].addr as int, 4))
}

/// The first sector of the request that a chain holds: the eight bytes from the ninth on.
pub open spec fn sector_in_chain(chain: ChainView, mem: GuestMemory) -> u64 {
    le64(mem.bytes(chain.descs[0].addr + 8, 8))
}

proof fn lemma_header_words(mem: GuestMemory, addr: u64)
    requires
        mem.has_range(addr as int, 16),
    ensures
        header_at(mem, addr) is Some,
        header_at(mem, addr)->0.request_type == le32(mem.bytes(addr as int, 4)),
        header_at(mem, addr)->0.sector == le64(mem.bytes(addr + 8, 8)),
{
    let b = mem.bytes(addr as int, 16);
    assert(b.subrange(0, 4) =~= mem.bytes(addr as int, 4));
    assert(b.subrange(8, 16) =~= mem.bytes(addr + 8, 8));
}

/// A chain of a header, a data buffer and a status byte is a request exactly when its buffers fit
/// what it asks for. What is read from the disk or is its identifier goes to a buffer that the
/// device may write to, what is written to the disk comes from one that it may not. Transfers
/// move whole sectors of 512 bytes that are on the disk, and an identifier takes 20 bytes. The
/// request is then the one that the header, the data buffer and the status buffer describe.
pub proof fn law_fitting_chains_are_requests(
    chain: ChainView,
    mem: GuestMemory,
    num_disk_sectors: u64,
)
    requires
        chain.descs.len() >= 3,
        names_next(chain, 1),
        mem.has_range(chain.descs[0].addr as int, 16),
    ensures
        ({
            let code = code_in_chain(chain, mem);
            let data = chain.descs[1];
            let status = chain.descs[2];
            let on_disk = data.len as int % 512 == 0 && sector_in_chain(chain, mem) * 512 + data.len
                <= num_disk_sectors * 512;
            let fits = if code == 0 {
                data.write_only && on_disk
            } else if code == 1 {
                !data.write_only && on_disk
            } else if code == 8 {
                data.write_only && data.len >= 20
            } else {
                true
            };
            let r = parsed(chain, mem, num_disk_sectors);
            &&& r is Ok <==> !chain.descs[0].write_only && fits && status.write_only && status.len
                >= 1
            &&& r matches Ok(request) ==> {
                &&& request.sector == sector_in_chain(chain, mem)
                &&& request.data_addr == data.addr
                &&& request.data_len == data.len
                &&& request.status_addr == status.addr
            }
        }),
{
    lemma_header_words(mem, chain.descs[0].addr);
}

/// A chain of two buffers is a request only if it asks for a flush, which needs no data.
pub proof fn law_only_a_flush_needs_no_data(
    chain: ChainView,
    mem: GuestMemory,
    num_disk_sectors: u64,
)
    requires
        chain.descs.len() >= 2,
        !names_next(chain, 1),
        mem.has_range(chain.descs[0].addr as int, 16),
    ensures
        parsed(chain, mem, num_disk_sectors) is Ok <==> code_in_chain(chain, mem) == 4
            && !chain.descs[0].write_only && chain.descs[1].write_only && chain.descs[1].len >= 1,
        parsed(chain, mem, num_disk_sectors) matches Ok(request) ==> request.status_addr
            == chain.descs[1].addr && request.data_addr == 0 && request.data_len == 0
            && request.request_type == RequestType::Flush,
{
    lemma_header_words(mem, chain.descs[0].addr);
}

/// Which work a parsed request is. Code 0 reads from the file to the data buffer, code 1 writes
/// the data buffer to the file, both from 512 times the sector on, and code 4 flushes the file.
/// Guest memory stays as it is until the file engine answers. Any other request is answered at
/// once: the file is only ever changed for a request with code 1.
pub proof fn law_code_decides_the_work(
    chain: ChainView,
    mem: GuestMemory,
    num_disk_sectors: u64,
    request: Request,
    image_id: Seq<u8>,
    desc_idx: u16,
    after: GuestMemory,
    r: Dispatch,
)
    requires
        num_disk_sectors < 0x80_0000_0000_0000,
        parsed(chain, mem, num_disk_sectors) == Ok::<Request, VirtioBlockError>(request),
        dispatched(request, image_id, desc_idx, mem, after, r),
    ensures
        r is Engine <==> code_in_chain(chain, mem) == 0 || code_in_chain(chain, mem) == 1
            || code_in_chain(chain, mem) == 4,
        r matches Dispatch::Engine(work) ==> {
            let code = code_in_chain(chain, mem);
            &&& work.op == EngineOp::Read <==> code == 0
            &&& work.op == EngineOp::Write <==> code == 1
            &&& work.op == EngineOp::Flush <==> code == 4
            &&& code != 4 ==> {
                &&& work.offset == sector_in_chain(chain, mem) * 512
                &&& work.addr == chain.descs[1].addr
                &&& work.count == chain.descs[1].len
                &&& work.req.data_len == chain.descs[1].len
                &&& work.req.status_addr == chain.descs[2].addr
            }
            &&& work.req.desc_idx == desc_idx
            &&& after == mem
        },
{
    lemma_header_words(mem, chain.descs[0].addr);
    let sector = request.sector;
    assert(sector < 0x80_0000_0000_0000 ==> sector << 9u32 == sector * 512) by (bit_vector);
}

/// What a parsed request asks for is what its code says: 0 is a read, 1 a write, 4 a flush, 8 asks for
/// the identifier, and the device does not know any other.
pub proof fn law_code_of_parsed_requests(
    chain: ChainView,
    mem: GuestMemory,
    num_disk_sectors: u64,
    request: Request,
)
    requires
        parsed(chain, mem, num_disk_sectors) == Ok::<Request, VirtioBlockError>(request),
    ensures
        request.request_type == (if code_in_chain(chain, mem) == 0 {
            RequestType::In
        } else if code_in_chain(chain, mem) == 1 {
            RequestType::Out
        } else if code_in_chain(chain, mem) == 4 {
            RequestType::Flush
        } else if code_in_chain(chain, mem) == 8 {
            RequestType::GetDeviceID
        } else {
            RequestType::Unsupported(code_in_chain(chain, mem))
        }),
{
    lemma_header_words(mem, chain.descs[0].addr);
}

/// What a request that the file engine does not work on is answered. For code 8 the identifier
/// goes to the data buffer, where there is memory for all of it, with status 0. A request with
/// any other code than 0, 1, 4 and 8 gets status 2, and nothing else of memory changes. The used
/// length counts the identifier and the status byte.
pub proof fn law_identifier_and_unknown_requests(
    chain: ChainView,
    mem: GuestMemory,
    num_disk_sectors: u64,
    request: Request,
    image_id: Seq<u8>,
    desc_idx: u16,
    after: GuestMemory,
    done: FinishedRequest,
)
    requires
        image_id.len() == 20,
        parsed(chain, mem, num_disk_sectors) == Ok::<Request, VirtioBlockError>(request),
        dispatched(request, image_id, desc_idx, mem, after, Dispatch::Executed(done)),
        mem.has(request.status_addr as int),
    ensures
        done.desc_idx == desc_idx,
        code_in_chain(chain, mem) == 8 && request.data_len == 20 && mem.has_range(
            request.data_addr as int,
            20,
        ) ==> {
            &&& after.at(request.status_addr as int) == 0
            &&& done.num_bytes_to_mem == 21
            &&& forall|k: int|
                0 <= k < 20 && request.data_addr + k != request.status_addr ==> #[trigger] after.at(
                    request.data_addr + k,
                ) == image_id[k]
        },
        code_in_chain(chain, mem) == 8 && !mem.has_range(request.data_addr as int, 20) ==> {
            &&& after.at(request.status_addr as int) == 1
            &&& done.num_bytes_to_mem == 1
        },
        code_in_chain(chain, mem) != 8 ==> {
            &&& after.at(request.status_addr as int) == 2
            &&& done.num_bytes_to_mem == 1
            &&& forall|a: int|
                mem.has(a) && a != request.status_addr ==> #[trigger] after.at(a) == mem.at(a)
        },
{
    lemma_header_words(mem, chain.descs[0].addr);
    let pending = request.pending(desc_idx);
    let s = request.status_addr as int;
    if code_in_chain(chain, mem) == 8 {
        let status = outcome(pending, id_written(request, mem));
        let id = image_id.take(mem.reach(request.data_addr as int, image_id.len()) as int);
        let mid = choose|mid: GuestMemory|
            #[trigger] mid.written(mem, request.data_addr as int, id) && status_in_memory(
                mid,
                after,
                pending,
                status,
            );
        mid.lemma_same_shape(mem);
        assert(mid.has(s));
        assert(after.at(s) == status.code());
        if mem.has_range(request.data_addr as int, 20) {
            lemma_full_reach(mem, request.data_addr as int, 20);
            assert(id =~= image_id);
            assert forall|k: int| 0 <= k < 20 && request.data_addr + k != s implies #[trigger] after.at(
                request.data_addr + k,
            ) == image_id[k] by {
                let a = request.data_addr + k;
                assert(mem.has(a));
                assert(mid.has(a));
                assert(mid.at(a) == image_id[k]);
            }
        }
    }
}

/// Where all of a range is backed by memory, all of it is reached.
proof fn lemma_full_reach(mem: GuestMemory, addr: int, len: nat)
    requires
        mem.has_range(addr, len as int),
    ensures
        mem.reach(addr, len) == len,
    decreases len,
{
    if len > 0 {
        assert(mem.has(addr));
        assert(mem.has_range(addr + 1, len - 1));
        lemma_full_reach(mem, addr + 1, (len - 1) as nat);
    }
}

/// What the guest is told of a request. The status byte is 0 if all that was asked for was moved,
/// 1 if not, and 2 if the device does not know the request. The used length counts the status
/// byte and, where the device writes data to guest memory, the bytes that were moved. Nothing but
/// the status byte changes, and a chain whose status has no memory is given back with length 0.
pub proof fn law_status_tells_the_outcome(
    request: PendingRequest,
    res: Result<u32, IoErr>,
    before: GuestMemory,
    after: GuestMemory,
    r: FinishedRequest,
)
    requires
        request_finished(request, res, before, after, r),
        res matches Ok(n) ==> n < u32::MAX,
    ensures
        r.desc_idx == request.desc_idx,
        !before.has(request.status_addr as int) ==> after == before && r.num_bytes_to_mem == 0,
        before.has(request.status_addr as int) ==> {
            let status = after.at(request.status_addr as int);
            let known = !(request.request_type is Unsupported);
            &&& forall|a: int|
                before.has(a) && a != request.status_addr ==> #[trigger] after.at(a) == before.at(a)
            &&& !known ==> status == 2
            &&& known && res is Err ==> status == 1
            &&& known && res is Ok && request.request_type == RequestType::Flush ==> status == 0
            &&& known && res is Ok && request.request_type != RequestType::Flush ==> status == (if res->Ok_0
                == request.data_len {
                0u8
            } else {
                1u8
            })
            &&& r.num_bytes_to_mem == (if res is Ok && (request.request_type == RequestType::In
                || request.request_type == RequestType::GetDeviceID) {
                res->Ok_0 + 1
            } else {
                1
            })
        },
{
}

/// A request takes one token for an operation, and a read or a write one for each byte on top. A
/// limiter that is not blocked and holds these tokens does not make it wait.
pub proof fn law_transfers_cost_their_bytes(request: Request, limiter: RateLimiter)
    requires
        !limiter.timer_active,
        limiter.ops matches Some(b) ==> tokens_held(b) >= 1,
        limiter.bandwidth matches Some(b) ==> tokens_held(b) >= request.data_len,
    ensures
        !limited(request, limiter),
        limiter.ops matches Some(b) ==> limiter_after(request, limiter).ops is Some && tokens_held(
            limiter_after(request, limiter).ops->0,
        ) == tokens_held(b) - 1,
        limiter.bandwidth matches Some(b) ==> limiter_after(request, limiter).bandwidth is Some
            && tokens_held(limiter_after(request, limiter).bandwidth->0) == tokens_held(b) - (
        if request.request_type == RequestType::In || request.request_type == RequestType::Out {
            request.data_len as int
        } else {
            0
        }),
{
    law_an_operation_costs_one_token_and_its_bytes(limiter, request.data_len as u64);
    law_limits_are_separate(limiter, 1, TokenType::Ops);
}

/// A read or a write that was parsed stays on the disk, and its offset does not wrap.
pub proof fn law_transfers_stay_on_disk(
    chain: ChainView,
    mem: GuestMemory,
    num_disk_sectors: u64,
    request: Request,
)
    requires
        num_disk_sectors < 0x80_0000_0000_0000,
        parsed(chain, mem, num_disk_sectors) == Ok::<Request, VirtioBlockError>(request),
        request.request_type == RequestType::In || request.request_type == RequestType::Out,
    ensures
        request.data_len % SECTOR_SIZE == 0,
        (request.sector << SECTOR_SHIFT) == request.sector * SECTOR_SIZE,
        (request.sector << SECTOR_SHIFT) + request.data_len <= num_disk_sectors * SECTOR_SIZE,
{
    let sector = request.sector;
    assert(sector < 0x80_0000_0000_0000 ==> sector << 9u32 == sector * 512) by (bit_vector);
}

/// The direction of the data buffer of a parsed request fits the request: the device only writes
/// to buffers that it may write to, and only reads those that it may read.
pub proof fn law_parsed_direction_fits(
    chain: ChainView,
    mem: GuestMemory,
    num_disk_sectors: u64,
    request: Request,
)
    requires
        parsed(chain, mem, num_disk_sectors) == Ok::<Request, VirtioBlockError>(request),
    ensures
        request.request_type == RequestType::In || request.request_type
            == RequestType::GetDeviceID ==> chain.descs.len() >= 3 && chain.descs[1].write_only
            && request.data_addr == chain.descs[1].addr,
        request.request_type == RequestType::Out ==> chain.descs.len() >= 3
            && !chain.descs[1].write_only && request.data_addr == chain.descs[1].addr,
{
}

/// What the file engine answers decides where a request stands: one that it took on is answered
/// later, one that it has no room for is tried again, and any other is answered now, with the chain
/// that it came in. One that was read or failed has at least its status written.
pub proof fn law_engine_decides_where_a_request_stands(
    work: EngineRequest,
    answer: EngineAnswer,
    status_written: bool,
)
    requires
        answer matches EngineAnswer::Executed(n) ==> n < u32::MAX,
    ensures
        ({
            let r = engine_result(work, answer, status_written);
            let reads = work.req.request_type == RequestType::In || work.req.request_type
                == RequestType::GetDeviceID;
            &&& r is Submitted <==> answer is Submitted
            &&& r is Throttled <==> answer is Throttled
            &&& r matches ProcessingResult::Executed(done) ==> {
                &&& done.desc_idx == work.req.desc_idx
                &&& !status_written ==> done.num_bytes_to_mem == 0
                &&& status_written && answer is Failed ==> done.num_bytes_to_mem == 1
                &&& status_written && answer is Executed && !reads ==> done.num_bytes_to_mem == 1
                &&& status_written && answer is Executed && reads ==> done.num_bytes_to_mem
                    == answer->Executed_0 + 1
            }
        }),
{
}

/// A request waits while a timer runs, while no operation is left, and, if it moves data, while there
/// are too few bytes left for it. What moves no data needs no bytes.
pub proof fn law_requests_wait_for_tokens(request: Request, limiter: RateLimiter)
    ensures
        ({
            let moves = request.request_type == RequestType::In || request.request_type
                == RequestType::Out;
            &&& limiter.timer_active ==> limited(request, limiter)
            &&& limiter.ops matches Some(b) ==> (tokens_held(b) == 0 && b.size >= 1 ==> limited(
                request,
                limiter,
            ))
            &&& limiter.bandwidth matches Some(b) ==> (moves && request.data_len > tokens_held(b)
                && request.data_len - b.one_time_burst <= b.size ==> limited(request, limiter))
            &&& !moves && !limiter.timer_active && limiter.ops is None ==> !limited(
                request,
                limiter,
            )
        }),
{
    law_limits_are_separate(limiter, 1, TokenType::Ops);
    let left = consumed(limiter, 1, TokenType::Ops);
    law_limits_are_separate(left, request.data_len as u64, TokenType::Bytes);
}

} // verus!
