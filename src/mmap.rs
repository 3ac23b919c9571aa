//! Page-aligned memory regions backed by a shareable descriptor.

use vstd::prelude::*;

verus! {

/// `p` is a power of two.
pub open spec fn is_pow2(p: usize) -> bool {
    p > 0 && p & ((p - 1) as usize) == 0
}

/// The smallest multiple of `page` that is at least `size`.
pub open spec fn rounded_to_page(size: int, page: int) -> int {
    ((size + page - 1) / page) * page
}

/// A value whose bits below a power of two `p` are clear is a multiple of `p`.
proof fn lemma_aligned_is_multiple(r: u64, p: u64)
    requires
        p > 0,
        p & ((p - 1) as u64) == 0,
        r & ((p - 1) as u64) == 0,
    ensures
        r % p == 0,
    decreases p,
{
    if p > 1 {
        let hr = r / 2;
        let hp = p / 2;
        assert(r % 2 == 0 && p % 2 == 0 && hp > 0 && hp & ((hp - 1) as u64) == 0 && hr & (
        (hp - 1) as u64) == 0) by (bit_vector)
            requires
                p > 1,
                p & ((p - 1) as u64) == 0,
                r & ((p - 1) as u64) == 0,
                hr == r / 2,
                hp == p / 2,
        ;
        lemma_aligned_is_multiple(hr, hp);
        assert(r % p == 0) by (nonlinear_arith)
            requires
                r == 2 * hr,
                p == 2 * hp,
                hr % hp == 0,
                hp > 0,
        {
            let c = hr / hp;
            assert(hr == c * hp);
            assert(r == c * p);
        }
    }
}

/// Round `size` up to the nearest multiple of `page_size`.
pub fn round_up_to_page_size(size: usize, page_size: usize) -> (r: usize)
    requires
        is_pow2(page_size),
        size + page_size - 1 <= usize::MAX,
    ensures
        r == rounded_to_page(size as int, page_size as int),
        r % page_size == 0,
        size <= r < size + page_size,
{
    let mask: usize = page_size - 1;
    let s: usize = size + mask;
    let r: usize = s & !mask;
    assert(r <= s && s - r == s & mask && s & mask < page_size) by (bit_vector)
        requires
            r == s & !mask,
            mask == page_size - 1,
            page_size > 0,
    ;
    assert(r & mask == 0) by (bit_vector)
        requires
            r == s & !mask,
    ;
    proof {
        assert((r as u64) & ((page_size - 1) as u64) == 0 && (page_size as u64) & ((page_size - 1) as u64) == 0) by (bit_vector)
            requires
                r & mask == 0,
                page_size & mask == 0,
                mask == page_size - 1,
                page_size > 0,
        ;
        lemma_aligned_is_multiple(r as u64, page_size as u64);
    }
    assert(r == rounded_to_page(size as int, page_size as int)) by (nonlinear_arith)
        requires
            r % page_size == 0,
            size <= r < size + page_size,
            page_size > 0,
    {
        let q = r / page_size;
        assert(r == q * page_size);
    }
    r
}

/// The address that an empty region reports: non-null and aligned for bytes,
/// as an empty slice needs.
pub const EMPTY_ADDR: usize = 1;

/// The value a failed `mmap` returns, as an address.
pub const MAP_FAILED: usize = usize::MAX;

/// An operating-system operation that building, duplicating or releasing a
/// region asks its host to perform.
#[derive(Debug, PartialEq, Eq, Structural)]
pub enum RegionOp {
    /// Create a new shareable memory descriptor.
    CreateMemfd,
    /// Set the size of `memfd` to `size` bytes.
    Resize { memfd: i32, size: usize },
    /// Map `size` bytes of `memfd` readable and writable at an address of the
    /// system's choosing; shared with the descriptor, or a private
    /// copy-on-write view of it.
    MapFd { memfd: i32, size: usize, shared: bool },
    /// Make `len` bytes from `addr` readable and writable.
    Protect { addr: usize, len: usize },
    /// Unmap `len` bytes at `addr`.
    Unmap { addr: usize, len: usize },
    /// Release `memfd`.
    Close { memfd: i32 },
}

/// What a region is, as plain values.
pub ghost struct RegionModel {
    /// Base address.
    pub ptr: usize,
    /// Reserved length in bytes.
    pub len: nat,
    /// Length of the readable and writable prefix.
    pub accessible: nat,
    /// The shareable descriptor behind the region, if it can be duplicated.
    pub memfd: Option<i32>,
}

/// A page-aligned region of reserved address space, the start of which is
/// readable and writable.
#[derive(Debug)]
pub struct Mmap {
    ptr: usize,
    len: usize,
    accessible: usize,
    memfd: Option<i32>,
}

impl View for Mmap {
    type V = RegionModel;

    closed spec fn view(&self) -> RegionModel {
        RegionModel {
            ptr: self.ptr,
            len: self.len as nat,
            accessible: self.accessible as nat,
            memfd: self.memfd,
        }
    }
}

/// The region that holds nothing.
pub open spec fn empty_region() -> RegionModel {
    RegionModel { ptr: EMPTY_ADDR, len: 0, accessible: 0, memfd: None }
}

impl RegionModel {
    /// The committed prefix lies inside the reservation, the reservation inside
    /// the address space, and an empty region has no descriptor.
    pub open spec fn wf(self) -> bool {
        &&& self.accessible <= self.len
        &&& self.ptr + self.len <= usize::MAX
        &&& self.len == 0 ==> self.memfd.is_none()
    }

    /// The committed prefix after `[start, start + len)` was made accessible.
    pub open spec fn grown(self, start: nat, len: nat) -> nat {
        if start <= self.accessible && self.accessible < start + len {
            start + len
        } else {
            self.accessible
        }
    }
}

/// The mapping that duplicating `m` asks for: a private view of its
/// descriptor, where it has one.
pub open spec fn duplicate_request(m: RegionModel) -> Option<RegionOp> {
    match m.memfd {
        Some(memfd) => Some(RegionOp::MapFd { memfd, size: m.len as usize, shared: false }),
        None => None,
    }
}

/// The copy of `m` that a private mapping at `addr` gives, where `addr` is a
/// mapping that fits in the address space.
pub open spec fn duplicate_result(m: RegionModel, addr: usize) -> Option<RegionModel> {
    if addr != MAP_FAILED && addr + m.len <= usize::MAX {
        Some(RegionModel { ptr: addr, len: m.len, accessible: m.len, memfd: None })
    } else {
        None
    }
}

/// Only a region with a shareable descriptor can be duplicated; the copy has
/// the same length, is accessible throughout, is well formed, and cannot be
/// duplicated in turn.
pub proof fn lemma_duplicate_zygote_only(m: RegionModel, addr: usize)
    requires
        m.wf(),
    ensures
        duplicate_request(m) is Some <==> m.memfd is Some,
        duplicate_result(m, addr) is Some ==> {
            let c = duplicate_result(m, addr)->Some_0;
            &&& c.wf()
            &&& c.len == m.len
            &&& c.accessible == c.len
            &&& duplicate_request(c) is None
        },
{
}

/// Relies on region::page::size: the operating system's page size.
#[verifier::external_body]
fn os_page_size() -> (r: usize) {
    region::page::size()
}

impl Mmap {
    /// Construct a new empty region.
    pub fn new() -> (r: Mmap)
        ensures
            r@ == empty_region(),
            r@.wf(),
    {
        Mmap { ptr: EMPTY_ADDR, len: 0, accessible: 0, memfd: None }
    }

    /// Begin a region of at least `size` accessible bytes, rounded up to the
    /// page size of this system.
    pub fn with_at_least(size: usize) -> (r: Result<Reserve, String>)
        ensures
            r is Ok ==> {
                let res = r->Ok_0;
                &&& res.stage == ReserveStage::Begin
                &&& res.memfd.is_none()
                &&& res.accessible_size == res.mapping_size
                &&& size <= res.mapping_size
                &&& res.wf()
            },
    {
        let page_size = os_page_size();
        Self::with_at_least_page(size, page_size)
    }

    /// Begin a region of at least `size` accessible bytes, rounded up to
    /// `page_size`; fails where `page_size` is not a power of two or the
    /// rounded size does not fit in `usize`.
    pub fn with_at_least_page(size: usize, page_size: usize) -> (r: Result<Reserve, String>)
        ensures
            r is Ok <==> is_pow2(page_size) && size + page_size - 1 <= usize::MAX,
            r is Ok ==> r->Ok_0 == Reserve::new_spec(
                rounded_to_page(size as int, page_size as int) as usize,
                rounded_to_page(size as int, page_size as int) as usize,
                None,
            ),
            r is Ok ==> r->Ok_0.wf() && size <= r->Ok_0.mapping_size,
    {
        if page_size == 0 || page_size & (page_size - 1) != 0 {
            return Err("page size is not a power of two".to_owned());
        }
        if size > usize::MAX - (page_size - 1) {
            return Err("size too large to round to a page".to_owned());
        }
        let rounded = round_up_to_page_size(size, page_size);
        Ok(Self::accessible_reserved(rounded, rounded, page_size, None))
    }

    /// Begin a region of `accessible_size` readable and writable bytes within
    /// a reservation of `mapping_size` bytes, both multiples of `page_size`.
    /// With no `memfd` given a new shareable descriptor is created, so that
    /// the region can be duplicated.
    pub fn accessible_reserved(
        accessible_size: usize,
        mapping_size: usize,
        page_size: usize,
        memfd: Option<i32>,
    ) -> (r: Reserve)
        requires
            is_pow2(page_size),
            accessible_size <= mapping_size,
            mapping_size % page_size == 0,
            accessible_size % page_size == 0,
        ensures
            r == Reserve::new_spec(accessible_size, mapping_size, memfd),
            r.wf(),
    {
        Reserve { accessible_size, mapping_size, memfd, ptr: 0, stage: ReserveStage::Begin }
    }

    /// Can this region be duplicated?
    pub fn is_zygote(&self) -> (r: bool)
        ensures
            r == self@.memfd.is_some(),
    {
        self.memfd.is_some()
    }

    /// Give up this region and return its shareable descriptor, if any.
    pub fn into_memfd(self) -> (r: Option<i32>)
        ensures
            r == self@.memfd,
    {
        self.memfd
    }

    /// The base address of the region.
    pub fn as_ptr(&self) -> (r: usize)
        ensures
            r == self@.ptr,
    {
        self.ptr
    }

    /// The base address of the region, for writing.
    pub fn as_mut_ptr(&mut self) -> (r: usize)
        ensures
            r == old(self)@.ptr,
            *final(self) == *old(self),
    {
        self.ptr
    }

    /// The reserved length in bytes.
    pub fn len(&self) -> (r: usize)
        ensures
            r == self@.len,
    {
        self.len
    }

    /// Whether nothing is reserved.
    pub fn is_empty(&self) -> (r: bool)
        ensures
            r == (self@.len == 0),
    {
        self.len == 0
    }

    /// The length of the readable and writable prefix.
    pub fn accessible_len(&self) -> (r: usize)
        ensures
            r == self@.accessible,
    {
        self.accessible
    }

    /// The operation that makes `len` bytes from `start` accessible; `start`
    /// and `len` are multiples of `page_size` and lie within the reservation.
    pub fn make_accessible(&self, start: usize, len: usize, page_size: usize) -> (r: RegionOp)
        requires
            self@.wf(),
            is_pow2(page_size),
            start % page_size == 0,
            len % page_size == 0,
            start + len <= self@.len,
        ensures
            r == (RegionOp::Protect { addr: (self@.ptr + start) as usize, len }),
    {
        RegionOp::Protect { addr: self.ptr + start, len }
    }

    /// Record how the operation of `make_accessible(start, len, _)` went:
    /// on success the committed prefix grows over the range.
    pub fn made_accessible(&mut self, start: usize, len: usize, outcome: Result<(), String>) -> (r:
        Result<(), String>)
        requires
            old(self)@.wf(),
            start + len <= old(self)@.len,
        ensures
            r == outcome,
            final(self)@.wf(),
            final(self)@ == (RegionModel {
                accessible: if outcome is Ok {
                    old(self)@.grown(start as nat, len as nat)
                } else {
                    old(self)@.accessible
                },
                ..old(self)@
            }),
    {
        if outcome.is_ok() && start <= self.accessible && self.accessible < start + len {
            self.accessible = start + len;
        }
        outcome
    }

    /// The operation that maps a private copy-on-write view of this region,
    /// or an error where the region has no shareable descriptor.
    pub fn duplicate(&self) -> (r: Result<RegionOp, String>)
        ensures
            r is Ok <==> duplicate_request(self@) is Some,
            r is Ok ==> r->Ok_0 == duplicate_request(self@)->Some_0,
    {
        match self.memfd {
            Some(memfd) => Ok(RegionOp::MapFd { memfd, size: self.len, shared: false }),
            None => Err("Not a Zygote".to_owned()),
        }
    }

    /// The region that the mapping of `duplicate()` produced at `addr`, or
    /// `os_error` where the mapping failed. The copy is accessible throughout
    /// and has no descriptor of its own, so it cannot be duplicated in turn.
    pub fn duplicated(&self, addr: usize, os_error: String) -> (r: Result<Mmap, String>)
        requires
            self@.wf(),
        ensures
            r is Ok <==> duplicate_result(self@, addr) is Some,
            addr == MAP_FAILED ==> r == Err::<Mmap, String>(os_error),
            r is Ok ==> r->Ok_0@ == duplicate_result(self@, addr)->Some_0,
            r is Ok ==> r->Ok_0@.wf(),
    {
        if addr == MAP_FAILED {
            return Err(os_error);
        }
        if addr > usize::MAX - self.len {
            return Err("mapping does not fit in the address space".to_owned());
        }
        Ok(Mmap { ptr: addr, len: self.len, accessible: self.len, memfd: None })
    }

    /// The operations that release this region: unmap it, then close its
    /// descriptor. An empty region holds nothing to release.
    pub fn release(&self) -> (r: Vec<RegionOp>)
        ensures
            self@.len == 0 ==> r@ == Seq::<RegionOp>::empty(),
            self@.len != 0 && self@.memfd is None ==> r@ == seq![
                RegionOp::Unmap { addr: self@.ptr, len: self@.len as usize },
            ],
            self@.len != 0 && self@.memfd is Some ==> r@ == seq![
                RegionOp::Unmap { addr: self@.ptr, len: self@.len as usize },
                RegionOp::Close { memfd: self@.memfd->Some_0 },
            ],
    {
        let mut ops: Vec<RegionOp> = Vec::new();
        if self.len != 0 {
            ops.push(RegionOp::Unmap { addr: self.ptr, len: self.len });
            if let Some(memfd) = self.memfd {
                ops.push(RegionOp::Close { memfd });
            }
        }
        ops
    }
}

/// Where a reservation stands.
#[derive(Debug, Clone, Copy, PartialEq, Eq, Structural)]
pub enum ReserveStage {
    /// Nothing asked yet.
    Begin,
    /// Waiting for a new descriptor.
    Creating,
    /// Waiting for the descriptor to be sized.
    Resizing,
    /// Waiting for the mapping.
    Mapping,
    /// Waiting for the accessible prefix to be committed.
    Committing,
    /// Finished, one way or the other.
    Done,
}

/// What a reservation asks for next.
#[derive(Debug)]
pub enum ReserveStep {
    /// Perform this operation and report how it went.
    Perform(RegionOp),
    /// The region is ready.
    Ready(Mmap),
    /// The reservation failed; the operations release what it had built.
    Failed(String, Vec<RegionOp>),
}

/// A region being built: descriptor, size, mapping, committed prefix.
#[derive(Debug)]
pub struct Reserve {
    /// Bytes to make readable and writable, from the start.
    pub accessible_size: usize,
    /// Bytes of address space to reserve.
    pub mapping_size: usize,
    /// The descriptor behind the mapping, once known.
    pub memfd: Option<i32>,
    /// Where the mapping landed, once it is mapped.
    pub ptr: usize,
    /// What the reservation waits for.
    pub stage: ReserveStage,
}

impl Reserve {
    /// A reservation that has not asked for anything yet.
    pub open spec fn new_spec(accessible_size: usize, mapping_size: usize, memfd: Option<i32>) -> Reserve {
        Reserve { accessible_size, mapping_size, memfd, ptr: 0, stage: ReserveStage::Begin }
    }

    /// Sizes in order, and the descriptor known from the moment it is sized.
    pub open spec fn wf(&self) -> bool {
        &&& self.accessible_size <= self.mapping_size
        &&& self.stage != ReserveStage::Begin && self.stage != ReserveStage::Done
            ==> self.mapping_size > 0
        &&& (self.stage == ReserveStage::Resizing || self.stage == ReserveStage::Mapping
            || self.stage == ReserveStage::Committing) ==> self.memfd is Some
        &&& self.stage == ReserveStage::Committing ==> {
            &&& 0 < self.accessible_size < self.mapping_size
            &&& self.ptr + self.mapping_size <= usize::MAX
        }
    }

    /// The region this reservation describes, mapped at `ptr` with `accessible`
    /// bytes committed.
    pub open spec fn region_at(&self, ptr: usize, accessible: nat) -> RegionModel {
        RegionModel { ptr, len: self.mapping_size as nat, accessible, memfd: self.memfd }
    }

    /// The first step: an empty region where nothing is to be mapped, else
    /// sizing the given descriptor or creating one.
    pub fn begin(&mut self) -> (r: ReserveStep)
        requires
            old(self).wf(),
            old(self).stage == ReserveStage::Begin,
        ensures
            final(self).wf(),
            old(self).mapping_size == 0 ==> final(self).stage == ReserveStage::Done && r is Ready
                && r->Ready_0@ == empty_region(),
            old(self).mapping_size != 0 && old(self).memfd is Some ==> {
                &&& final(self).stage == ReserveStage::Resizing
                &&& r == ReserveStep::Perform(RegionOp::Resize {
                    memfd: old(self).memfd->Some_0,
                    size: old(self).mapping_size,
                })
            },
            old(self).mapping_size != 0 && old(self).memfd is None ==> {
                &&& final(self).stage == ReserveStage::Creating
                &&& r == ReserveStep::Perform(RegionOp::CreateMemfd)
            },
            final(self).memfd == old(self).memfd,
            final(self).accessible_size == old(self).accessible_size,
            final(self).mapping_size == old(self).mapping_size,
    {
        if self.mapping_size == 0 {
            self.stage = ReserveStage::Done;
            return ReserveStep::Ready(Mmap::new());
        }
        match self.memfd {
            Some(memfd) => {
                self.stage = ReserveStage::Resizing;
                ReserveStep::Perform(RegionOp::Resize { memfd, size: self.mapping_size })
            },
            None => {
                self.stage = ReserveStage::Creating;
                ReserveStep::Perform(RegionOp::CreateMemfd)
            },
        }
    }

    /// Take the outcome of `CreateMemfd`: size the new descriptor, or fail.
    pub fn memfd_created(&mut self, outcome: Result<i32, String>) -> (r: ReserveStep)
        requires
            old(self).wf(),
            old(self).stage == ReserveStage::Creating,
        ensures
            final(self).wf(),
            final(self).accessible_size == old(self).accessible_size,
            final(self).mapping_size == old(self).mapping_size,
            match outcome {
                Ok(fd) => {
                    &&& final(self).stage == ReserveStage::Resizing
                    &&& final(self).memfd == Some(fd)
                    &&& r == ReserveStep::Perform(
                        RegionOp::Resize { memfd: fd, size: old(self).mapping_size },
                    )
                },
                Err(e) => {
                    &&& final(self).stage == ReserveStage::Done
                    &&& r is Failed && r->Failed_0 == e && r->Failed_1@.len() == 0
                },
            },
    {
        match outcome {
            Ok(fd) => {
                self.memfd = Some(fd);
                self.stage = ReserveStage::Resizing;
                ReserveStep::Perform(RegionOp::Resize { memfd: fd, size: self.mapping_size })
            },
            Err(e) => {
                self.stage = ReserveStage::Done;
                ReserveStep::Failed(e, Vec::new())
            },
        }
    }

    /// Take the outcome of `Resize`: map the descriptor shared, or fail.
    pub fn resized(&mut self, outcome: Result<(), String>) -> (r: ReserveStep)
        requires
            old(self).wf(),
            old(self).stage == ReserveStage::Resizing,
        ensures
            final(self).wf(),
            final(self).memfd == old(self).memfd,
            final(self).accessible_size == old(self).accessible_size,
            final(self).mapping_size == old(self).mapping_size,
            match outcome {
                Ok(_) => {
                    &&& final(self).stage == ReserveStage::Mapping
                    &&& r == ReserveStep::Perform(RegionOp::MapFd {
                        memfd: old(self).memfd->Some_0,
                        size: old(self).mapping_size,
                        shared: true,
                    })
                },
                Err(e) => {
                    &&& final(self).stage == ReserveStage::Done
                    &&& r is Failed && r->Failed_0 == e && r->Failed_1@.len() == 0
                },
            },
    {
        match outcome {
            Ok(()) => {
                self.stage = ReserveStage::Mapping;
                let memfd = self.memfd.unwrap();
                ReserveStep::Perform(RegionOp::MapFd { memfd, size: self.mapping_size, shared: true })
            },
            Err(e) => {
                self.stage = ReserveStage::Done;
                ReserveStep::Failed(e, Vec::new())
            },
        }
    }

    /// Take the address that `Map` returned, or `os_error` where it failed:
    /// the region is ready where all of it or none of it is to be accessible,
    /// else its accessible prefix is committed next.
    pub fn mapped(&mut self, addr: usize, os_error: String) -> (r: ReserveStep)
        requires
            old(self).wf(),
            old(self).stage == ReserveStage::Mapping,
        ensures
            final(self).wf(),
            final(self).memfd == old(self).memfd,
            final(self).accessible_size == old(self).accessible_size,
            final(self).mapping_size == old(self).mapping_size,
            addr == MAP_FAILED ==> {
                &&& final(self).stage == ReserveStage::Done
                &&& r is Failed && r->Failed_0 == os_error && r->Failed_1@.len() == 0
            },
            addr != MAP_FAILED && addr + old(self).mapping_size > usize::MAX ==> final(self).stage
                == ReserveStage::Done && r is Failed,
            addr != MAP_FAILED && addr + old(self).mapping_size <= usize::MAX ==> {
                let s = old(self);
                if s.accessible_size == s.mapping_size || s.accessible_size == 0 {
                    &&& final(self).stage == ReserveStage::Done
                    &&& r is Ready
                    &&& r->Ready_0@ == s.region_at(addr, s.accessible_size as nat)
                    &&& r->Ready_0@.wf()
                } else {
                    &&& final(self).stage == ReserveStage::Committing
                    &&& final(self).ptr == addr
                    &&& r == ReserveStep::Perform(
                        RegionOp::Protect { addr, len: s.accessible_size },
                    )
                }
            },
    {
        if addr == MAP_FAILED {
            self.stage = ReserveStage::Done;
            return ReserveStep::Failed(os_error, Vec::new());
        }
        if addr > usize::MAX - self.mapping_size {
            self.stage = ReserveStage::Done;
            return ReserveStep::Failed(
                "mapping does not fit in the address space".to_owned(),
                Vec::new(),
            );
        }
        if self.accessible_size == self.mapping_size || self.accessible_size == 0 {
            self.stage = ReserveStage::Done;
            ReserveStep::Ready(
                Mmap {
                    ptr: addr,
                    len: self.mapping_size,
                    accessible: self.accessible_size,
                    memfd: self.memfd,
                },
            )
        } else {
            self.ptr = addr;
            self.stage = ReserveStage::Committing;
            ReserveStep::Perform(RegionOp::Protect { addr, len: self.accessible_size })
        }
    }

    /// Take the outcome of `Protect`: the region is ready, or the reservation
    /// fails and its mapping and descriptor are to be released.
    pub fn committed(&mut self, outcome: Result<(), String>) -> (r: ReserveStep)
        requires
            old(self).wf(),
            old(self).stage == ReserveStage::Committing,
        ensures
            final(self).stage == ReserveStage::Done,
            final(self).wf(),
            match outcome {
                Ok(_) => {
                    &&& r is Ready
                    &&& r->Ready_0@ == old(self).region_at(
                        old(self).ptr,
                        old(self).accessible_size as nat,
                    )
                    &&& r->Ready_0@.wf()
                },
                Err(e) => {
                    &&& r is Failed
                    &&& r->Failed_0 == e
                    &&& r->Failed_1@ == seq![
                        RegionOp::Unmap { addr: old(self).ptr, len: old(self).mapping_size },
                        RegionOp::Close { memfd: old(self).memfd->Some_0 },
                    ]
                },
            },
    {
        self.stage = ReserveStage::Done;
        match outcome {
            Ok(()) => ReserveStep::Ready(
                Mmap {
                    ptr: self.ptr,
                    len: self.mapping_size,
                    accessible: self.accessible_size,
                    memfd: self.memfd,
                },
            ),
            Err(e) => {
                let memfd = self.memfd.unwrap();
                let mut ops: Vec<RegionOp> = Vec::new();
                ops.push(RegionOp::Unmap { addr: self.ptr, len: self.mapping_size });
                ops.push(RegionOp::Close { memfd });
                ReserveStep::Failed(e, ops)
            },
        }
    }
}

} // verus!
