use vstd::prelude::*;
use crate::byteseq::{copy_range, push_all, push_zeros, zeros, read_u16_at, read_u32_at, read_u64_at, u16_at, u32_at, u64_at};

verus! {

/// State of committed memory.
pub const MEM_COMMIT: u32 = 0x1000;

pub const PAGE_READONLY: u32 = 0x02;
pub const PAGE_READWRITE: u32 = 0x04;
pub const PAGE_WRITECOPY: u32 = 0x08;
pub const PAGE_EXECUTE_READ: u32 = 0x20;
pub const PAGE_EXECUTE_READWRITE: u32 = 0x40;
pub const PAGE_EXECUTE_WRITECOPY: u32 = 0x80;

/// Regions larger than this are read in chunks of this size.
pub const CHUNK_SIZE: usize = 0x10_0000;

/// Failure of a memory access: the range is not readable or writable as a whole.
#[derive(Clone, Copy, Debug, PartialEq, Eq, Structural)]
pub enum MemoryError {
    Unreadable,
    Unwritable,
}

/// Information about a memory region.
#[derive(Clone, Copy, Debug, PartialEq, Eq, Structural)]
pub struct MemoryRegion {
    pub base_address: usize,
    pub size: usize,
    pub protection: u32,
    pub state: u32,
    pub is_readable: bool,
    pub is_writable: bool,
    pub is_executable: bool,
}

pub open spec fn protection_readable(p: u32) -> bool {
    p == PAGE_READONLY || p == PAGE_READWRITE || p == PAGE_WRITECOPY || p == PAGE_EXECUTE_READ
        || p == PAGE_EXECUTE_READWRITE || p == PAGE_EXECUTE_WRITECOPY
}

pub open spec fn protection_writable(p: u32) -> bool {
    p == PAGE_READWRITE || p == PAGE_WRITECOPY || p == PAGE_EXECUTE_READWRITE || p
        == PAGE_EXECUTE_WRITECOPY
}

pub open spec fn protection_executable(p: u32) -> bool {
    p == PAGE_EXECUTE_READ || p == PAGE_EXECUTE_READWRITE || p == PAGE_EXECUTE_WRITECOPY
}

impl MemoryRegion {
    /// A region lies inside the address space.
    pub open spec fn wf(self) -> bool {
        self.base_address + self.size <= usize::MAX
    }

    /// Whether `[addr, addr + len)` lies inside this region.
    pub open spec fn covers(self, addr: int, len: int) -> bool {
        self.base_address <= addr && addr + len <= self.base_address + self.size
    }

    /// Builds a region, deriving the three access flags from the protection mask.
    pub fn from_protection(base_address: usize, size: usize, protection: u32, state: u32) -> (r:
        MemoryRegion)
        ensures
            r.base_address == base_address,
            r.size == size,
            r.protection == protection,
            r.state == state,
            r.is_readable == protection_readable(protection),
            r.is_writable == protection_writable(protection),
            r.is_executable == protection_executable(protection),
    {
        let p = protection;
        MemoryRegion {
            base_address,
            size,
            protection,
            state,
            is_readable: p == PAGE_READONLY || p == PAGE_READWRITE || p == PAGE_WRITECOPY || p
                == PAGE_EXECUTE_READ || p == PAGE_EXECUTE_READWRITE || p == PAGE_EXECUTE_WRITECOPY,
            is_writable: p == PAGE_READWRITE || p == PAGE_WRITECOPY || p == PAGE_EXECUTE_READWRITE
                || p == PAGE_EXECUTE_WRITECOPY,
            is_executable: p == PAGE_EXECUTE_READ || p == PAGE_EXECUTE_READWRITE || p
                == PAGE_EXECUTE_WRITECOPY,
        }
    }
}

/// Bytes of the target that can be read, starting at `base`.
#[derive(Clone, Debug)]
pub struct MemoryBlock {
    pub base: usize,
    pub bytes: Vec<u8>,
}

impl MemoryBlock {
    pub open spec fn wf(self) -> bool {
        self.base + self.bytes@.len() <= usize::MAX
    }

    pub open spec fn contains(self, addr: int, len: int) -> bool {
        self.base <= addr && addr + len <= self.base + self.bytes@.len()
    }
}

/// The target's address space as the library sees it: its memory map (the
/// committed regions, in ascending order of base) and the bytes that can be
/// read or written. A read or write of a range goes to the first block that
/// holds the whole range, and fails when none does.
pub struct MemoryImage {
    pub regions: Vec<MemoryRegion>,
    pub blocks: Vec<MemoryBlock>,
}

/// Block `i` is the first one that holds `[addr, addr + len)`.
pub open spec fn is_holder(blocks: Seq<MemoryBlock>, addr: int, len: int, i: int) -> bool {
    &&& 0 <= i < blocks.len()
    &&& blocks[i].contains(addr, len)
    &&& forall|j: int| 0 <= j < i ==> !(#[trigger] blocks[j]).contains(addr, len)
}

/// The bytes of `[addr, addr + len)` in `blocks`, if some block holds them all.
pub open spec fn read_blocks(blocks: Seq<MemoryBlock>, addr: int, len: int) -> Option<Seq<u8>> {
    if exists|i: int| is_holder(blocks, addr, len, i) {
        let i = choose|i: int| is_holder(blocks, addr, len, i);
        let off = addr - blocks[i].base;
        Some(blocks[i].bytes@.subrange(off, off + len))
    } else {
        None
    }
}

proof fn lemma_write_then_read(
    old_blocks: Seq<MemoryBlock>,
    new_blocks: Seq<MemoryBlock>,
    addr: int,
    data: Seq<u8>,
    i: int,
)
    requires
        is_holder(old_blocks, addr, data.len() as int, i),
        new_blocks.len() == old_blocks.len(),
        forall|j: int| 0 <= j < old_blocks.len() && j != i ==> new_blocks[j] == old_blocks[j],
        new_blocks[i].base == old_blocks[i].base,
        new_blocks[i].bytes@ == old_blocks[i].bytes@.subrange(0, addr - old_blocks[i].base) + data
            + old_blocks[i].bytes@.subrange(
            addr - old_blocks[i].base + data.len(),
            old_blocks[i].bytes@.len() as int,
        ),
    ensures
        read_blocks(new_blocks, addr, data.len() as int) == Some(data),
{
    let len = data.len() as int;
    assert(new_blocks[i].bytes@.len() == old_blocks[i].bytes@.len());
    assert forall|j: int| 0 <= j < i implies !(#[trigger] new_blocks[j]).contains(addr, len) by {
        assert(new_blocks[j] == old_blocks[j]);
    }
    assert(is_holder(new_blocks, addr, len, i));
    assert forall|k: int| is_holder(new_blocks, addr, len, k) implies k == i by {
        if k < i {
            assert(!new_blocks[k].contains(addr, len));
        } else if i < k {
            assert(!new_blocks[i].contains(addr, len));
        }
    }
    let off = addr - old_blocks[i].base;
    assert(new_blocks[i].bytes@.subrange(off, off + len) =~= data);
}

proof fn lemma_holder_unique(blocks: Seq<MemoryBlock>, addr: int, len: int, i: int, j: int)
    requires
        is_holder(blocks, addr, len, i),
        is_holder(blocks, addr, len, j),
    ensures
        i == j,
{
    if i < j {
        assert(!blocks[i].contains(addr, len));
    } else if j < i {
        assert(!blocks[j].contains(addr, len));
    }
}

/// Bytes of a region read in chunks of `CHUNK_SIZE` from offset `off` on; a
/// chunk that cannot be read counts as zeros.
pub open spec fn chunked_bytes(img: MemoryImage, base: int, size: int, off: int) -> Seq<u8>
    decreases size - off,
{
    if off >= size || off < 0 {
        Seq::empty()
    } else {
        let n = if size - off < CHUNK_SIZE {
            size - off
        } else {
            CHUNK_SIZE as int
        };
        let chunk = match img.spec_read(base + off, n) {
            Some(b) => b,
            None => zeros(n as nat),
        };
        chunk + chunked_bytes(img, base, size, off + n)
    }
}

/// The bytes of a whole region: read at once when it fits in one chunk (and
/// nothing when that read fails), else chunk by chunk.
pub open spec fn region_bytes(img: MemoryImage, region: MemoryRegion) -> Option<Seq<u8>> {
    if region.size <= CHUNK_SIZE {
        img.spec_read(region.base_address as int, region.size as int)
    } else {
        Some(chunked_bytes(img, region.base_address as int, region.size as int, 0))
    }
}

pub proof fn lemma_chunked_len(img: MemoryImage, base: int, size: int, off: int)
    requires
        0 <= off <= size,
    ensures
        chunked_bytes(img, base, size, off).len() == size - off,
    decreases size - off,
{
    if off < size {
        let n = if size - off < CHUNK_SIZE {
            size - off
        } else {
            CHUNK_SIZE as int
        };
        lemma_chunked_len(img, base, size, off + n);
        if let Some(b) = img.spec_read(base + off, n) {
            img.lemma_read_len(base + off, n);
        }
    }
}

/// A region's bytes, when there are any, are as long as the region.
pub proof fn lemma_region_bytes_len(img: MemoryImage, region: MemoryRegion)
    requires
        region_bytes(img, region) is Some,
    ensures
        region_bytes(img, region)->0.len() == region.size,
{
    if region.size <= CHUNK_SIZE {
        img.lemma_read_len(region.base_address as int, region.size as int);
    } else {
        lemma_chunked_len(img, region.base_address as int, region.size as int, 0);
    }
}

impl MemoryImage {
    /// Every region and block lies inside the address space.
    pub open spec fn wf(self) -> bool {
        &&& forall|i: int| 0 <= i < self.regions@.len() ==> (#[trigger] self.regions@[i]).wf()
        &&& forall|i: int| 0 <= i < self.blocks@.len() ==> (#[trigger] self.blocks@[i]).wf()
    }

    /// The bytes of `[addr, addr + len)`, if they can be read as a whole.
    pub open spec fn spec_read(self, addr: int, len: int) -> Option<Seq<u8>> {
        read_blocks(self.blocks@, addr, len)
    }

    pub proof fn lemma_read_len(self, addr: int, len: int)
        requires
            self.spec_read(addr, len) is Some,
            len >= 0,
        ensures
            self.spec_read(addr, len)->0.len() == len,
    {
    }

    /// The little-endian `u64` at `addr`, if readable.
    pub open spec fn spec_u64(self, addr: int) -> Option<u64> {
        match self.spec_read(addr, 8) {
            Some(b) => Some(u64_at(b, 0)),
            None => None,
        }
    }

    /// The little-endian `u32` at `addr`, if readable.
    pub open spec fn spec_u32(self, addr: int) -> Option<u32> {
        match self.spec_read(addr, 4) {
            Some(b) => Some(u32_at(b, 0)),
            None => None,
        }
    }

    /// The little-endian `u16` at `addr`, if readable.
    pub open spec fn spec_u16(self, addr: int) -> Option<u16> {
        match self.spec_read(addr, 2) {
            Some(b) => Some(u16_at(b, 0)),
            None => None,
        }
    }

    /// Reads the little-endian `u64` at `address`.
    pub fn read_u64(&self, address: usize) -> (r: Result<u64, MemoryError>)
        ensures
            r is Ok <==> self.spec_u64(address as int) is Some,
            r is Ok ==> r->Ok_0 == self.spec_u64(address as int)->0,
            r is Err ==> r->Err_0 == MemoryError::Unreadable,
    {
        let b = self.read_memory(address, 8)?;
        proof {
            self.lemma_read_len(address as int, 8);
        }
        Ok(read_u64_at(b.as_slice(), 0))
    }

    /// Reads the little-endian `u32` at `address`.
    pub fn read_u32(&self, address: usize) -> (r: Result<u32, MemoryError>)
        ensures
            r is Ok <==> self.spec_u32(address as int) is Some,
            r is Ok ==> r->Ok_0 == self.spec_u32(address as int)->0,
            r is Err ==> r->Err_0 == MemoryError::Unreadable,
    {
        let b = self.read_memory(address, 4)?;
        proof {
            self.lemma_read_len(address as int, 4);
        }
        Ok(read_u32_at(b.as_slice(), 0))
    }

    /// Reads the little-endian `u16` at `address`.
    pub fn read_u16(&self, address: usize) -> (r: Result<u16, MemoryError>)
        ensures
            r is Ok <==> self.spec_u16(address as int) is Some,
            r is Ok ==> r->Ok_0 == self.spec_u16(address as int)->0,
            r is Err ==> r->Err_0 == MemoryError::Unreadable,
    {
        let b = self.read_memory(address, 2)?;
        proof {
            self.lemma_read_len(address as int, 2);
        }
        Ok(read_u16_at(b.as_slice(), 0))
    }

    /// Nothing that reaches past the end of the address space can be read.
    pub proof fn lemma_read_beyond(self, addr: int, len: int)
        requires
            self.wf(),
            addr + len > usize::MAX,
        ensures
            self.spec_read(addr, len) is None,
    {
        assert forall|i: int| !is_holder(self.blocks@, addr, len, i) by {
            if 0 <= i < self.blocks@.len() {
                assert(self.blocks@[i].wf());
            }
        }
    }

    /// An empty address space.
    pub fn new() -> (r: MemoryImage)
        ensures
            r.wf(),
            r.regions@.len() == 0,
            r.blocks@.len() == 0,
    {
        MemoryImage { regions: Vec::new(), blocks: Vec::new() }
    }

    /// Adds a region to the memory map; refused when it wraps around the
    /// address space.
    pub fn add_region(&mut self, region: MemoryRegion) -> (r: bool)
        requires
            old(self).wf(),
        ensures
            final(self).wf(),
            r == region.wf(),
            r ==> final(self).regions@ == old(self).regions@.push(region),
            !r ==> final(self).regions@ == old(self).regions@,
            final(self).blocks@ == old(self).blocks@,
    {
        if region.size > usize::MAX - region.base_address {
            return false;
        }
        self.regions.push(region);
        true
    }

    /// Adds readable bytes at `base`; refused when they wrap around the
    /// address space.
    pub fn add_block(&mut self, base: usize, bytes: Vec<u8>) -> (r: bool)
        requires
            old(self).wf(),
        ensures
            final(self).wf(),
            r == (base + bytes@.len() <= usize::MAX),
            r ==> final(self).blocks@ == old(self).blocks@.push(MemoryBlock { base, bytes }),
            !r ==> final(self).blocks@ == old(self).blocks@,
            final(self).regions@ == old(self).regions@,
    {
        if bytes.len() > usize::MAX - base {
            return false;
        }
        self.blocks.push(MemoryBlock { base, bytes });
        true
    }

    /// Adds a region together with its bytes, which must be as long as the region.
    pub fn add_region_with_bytes(&mut self, region: MemoryRegion, bytes: Vec<u8>) -> (r: bool)
        requires
            old(self).wf(),
        ensures
            final(self).wf(),
            r == (region.wf() && bytes@.len() == region.size),
            r ==> final(self).regions@ == old(self).regions@.push(region),
            r ==> final(self).blocks@ == old(self).blocks@.push(
                MemoryBlock { base: region.base_address, bytes },
            ),
            !r ==> final(self).regions@ == old(self).regions@,
            !r ==> final(self).blocks@ == old(self).blocks@,
    {
        if region.size > usize::MAX - region.base_address || bytes.len() != region.size {
            return false;
        }
        self.regions.push(region);
        self.blocks.push(MemoryBlock { base: region.base_address, bytes });
        true
    }

    /// The index of the first block holding `[addr, addr + len)`.
    fn find_block(&self, addr: usize, len: usize) -> (r: Option<usize>)
        ensures
            r is Some ==> is_holder(self.blocks@, addr as int, len as int, r->0 as int),
            r is None ==> !exists|i: int| is_holder(self.blocks@, addr as int, len as int, i),
    {
        let mut i: usize = 0;
        while i < self.blocks.len()
            invariant
                i <= self.blocks@.len(),
                forall|j: int| 0 <= j < i ==> !(#[trigger] self.blocks@[j]).contains(
                    addr as int,
                    len as int,
                ),
            decreases self.blocks@.len() - i,
        {
            let b = &self.blocks[i];
            if addr >= b.base && addr - b.base <= b.bytes.len() && len <= b.bytes.len() - (addr
                - b.base) {
                return Some(i);
            }
            i = i + 1;
        }
        assert forall|k: int| !is_holder(self.blocks@, addr as int, len as int, k) by {
            if 0 <= k < self.blocks@.len() {
                assert(!self.blocks@[k].contains(addr as int, len as int));
            }
        }
        None
    }

    /// The memory map: all committed regions.
    pub fn query_regions(&self) -> (r: Vec<MemoryRegion>)
        ensures
            r@ == self.regions@,
    {
        let mut r: Vec<MemoryRegion> = Vec::new();
        let mut i: usize = 0;
        while i < self.regions.len()
            invariant
                i <= self.regions@.len(),
                r@ == self.regions@.subrange(0, i as int),
            decreases self.regions@.len() - i,
        {
            r.push(self.regions[i]);
            i = i + 1;
            assert(r@ =~= self.regions@.subrange(0, i as int));
        }
        assert(r@ =~= self.regions@);
        r
    }

    /// Reads `size` bytes at `address`; a partial read is a failure.
    pub fn read_memory(&self, address: usize, size: usize) -> (r: Result<Vec<u8>, MemoryError>)
        ensures
            r is Ok <==> self.spec_read(address as int, size as int) is Some,
            r is Ok ==> r->Ok_0@ == self.spec_read(address as int, size as int)->0,
            r is Err ==> r->Err_0 == MemoryError::Unreadable,
    {
        match self.find_block(address, size) {
            Some(i) => {
                proof {
                    assert forall|k: int| is_holder(self.blocks@, address as int, size as int, k)
                        implies k == i by {
                        lemma_holder_unique(self.blocks@, address as int, size as int, i as int, k);
                    }
                }
                let b = &self.blocks[i];
                let off = address - b.base;
                Ok(copy_range(b.bytes.as_slice(), off, size))
            },
            None => Err(MemoryError::Unreadable),
        }
    }

    /// Writes `data` at `address`; fails, changing nothing, unless one block
    /// holds the whole range.
    pub fn write_memory(&mut self, address: usize, data: &[u8]) -> (r: Result<(), MemoryError>)
        requires
            old(self).wf(),
        ensures
            final(self).wf(),
            final(self).regions@ == old(self).regions@,
            r is Ok <==> exists|i: int|
                is_holder(old(self).blocks@, address as int, data@.len() as int, i),
            r is Err ==> r->Err_0 == MemoryError::Unwritable && final(self).blocks@ == old(
                self,
            ).blocks@,
            r is Ok ==> final(self).spec_read(address as int, data@.len() as int) == Some(data@),
            r is Ok ==> ({
                let i = choose|i: int|
                    is_holder(old(self).blocks@, address as int, data@.len() as int, i);
                let old_b = old(self).blocks@[i];
                let off = address - old_b.base;
                &&& final(self).blocks@.len() == old(self).blocks@.len()
                &&& forall|j: int|
                    0 <= j < old(self).blocks@.len() && j != i ==> final(self).blocks@[j] == old(
                        self,
                    ).blocks@[j]
                &&& final(self).blocks@[i].base == old_b.base
                &&& final(self).blocks@[i].bytes@ == old_b.bytes@.subrange(0, off) + data@
                    + old_b.bytes@.subrange(off + data@.len(), old_b.bytes@.len() as int)
            }),
    {
        match self.find_block(address, data.len()) {
            Some(i) => {
                proof {
                    assert forall|k: int|
                        is_holder(self.blocks@, address as int, data@.len() as int, k) implies k
                        == i by {
                        lemma_holder_unique(
                            self.blocks@,
                            address as int,
                            data@.len() as int,
                            i as int,
                            k,
                        );
                    }
                }
                let base = self.blocks[i].base;
                let off = address - base;
                let old_len = self.blocks[i].bytes.len();
                let mut nb: Vec<u8> = copy_range(self.blocks[i].bytes.as_slice(), 0, off);
                push_all(&mut nb, data);
                let tail_start = off + data.len();
                let tail = copy_range(
                    self.blocks[i].bytes.as_slice(),
                    tail_start,
                    old_len - tail_start,
                );
                push_all(&mut nb, tail.as_slice());
                let ghost old_blocks = self.blocks@;
                self.blocks.set(i, MemoryBlock { base, bytes: nb });
                proof {
                    lemma_write_then_read(old_blocks, self.blocks@, address as int, data@, i as int);
                }
                Ok(())
            },
            None => Err(MemoryError::Unwritable),
        }
    }
}

/// Reads and filters the target's memory for a scan.
pub struct MemoryScanner<'a> {
    memory: &'a MemoryImage,
}

impl<'a> MemoryScanner<'a> {
    pub closed spec fn image(&self) -> &'a MemoryImage {
        self.memory
    }

    pub fn new(memory: &'a MemoryImage) -> (r: MemoryScanner<'a>)
        ensures
            r.image() == memory,
    {
        MemoryScanner { memory }
    }

    /// Queries all memory regions of the target.
    pub fn query_regions(&self) -> (r: Vec<MemoryRegion>)
        ensures
            r@ == self.image().regions@,
    {
        self.memory.query_regions()
    }

    /// Keeps the regions that pass the three access filters, in order.
    pub fn filter_regions(
        &self,
        regions: Vec<MemoryRegion>,
        readable_only: bool,
        writable_only: bool,
        executable_only: bool,
    ) -> (r: Vec<MemoryRegion>)
        ensures
            r@ == regions@.filter(
                |g: MemoryRegion| region_passes(g, readable_only, writable_only, executable_only),
            ),
    {
        let ghost f = |g: MemoryRegion|
            region_passes(g, readable_only, writable_only, executable_only);
        let mut r: Vec<MemoryRegion> = Vec::new();
        let mut i: usize = 0;
        while i < regions.len()
            invariant
                i <= regions@.len(),
                f == (|g: MemoryRegion|
                    region_passes(g, readable_only, writable_only, executable_only)),
                r@ == regions@.subrange(0, i as int).filter(f),
            decreases regions@.len() - i,
        {
            let g = regions[i];
            proof {
                reveal(Seq::filter);
                assert(regions@.subrange(0, i + 1).drop_last() =~= regions@.subrange(0, i as int));
            }
            if (!readable_only || g.is_readable) && (!writable_only || g.is_writable) && (
            !executable_only || g.is_executable) {
                r.push(g);
            }
            i = i + 1;
        }
        assert(regions@.subrange(0, regions@.len() as int) =~= regions@);
        r
    }

    /// Reads memory at a specific address.
    pub fn read_memory(&self, address: usize, size: usize) -> (r: Result<Vec<u8>, MemoryError>)
        ensures
            r is Ok <==> self.image().spec_read(address as int, size as int) is Some,
            r is Ok ==> r->Ok_0@ == self.image().spec_read(address as int, size as int)->0,
    {
        self.memory.read_memory(address, size)
    }

    /// Reads a whole region: at once when it fits in one chunk, else chunk by
    /// chunk, with a chunk that cannot be read replaced by zeros.
    pub fn read_region(&self, region: &MemoryRegion) -> (r: Result<Vec<u8>, MemoryError>)
        requires
            region.wf(),
        ensures
            r is Ok <==> region_bytes(*self.image(), *region) is Some,
            r is Ok ==> r->Ok_0@ == region_bytes(*self.image(), *region)->0,
    {
        if region.size <= CHUNK_SIZE {
            return self.memory.read_memory(region.base_address, region.size);
        }
        let ghost img = *self.memory;
        let ghost base = region.base_address as int;
        let ghost size = region.size as int;
        let mut buffer: Vec<u8> = Vec::new();
        let mut offset: usize = 0;
        while offset < region.size
            invariant
                offset <= region.size,
                region.wf(),
                img == *self.memory,
                base == region.base_address,
                size == region.size,
                buffer@ + chunked_bytes(img, base, size, offset as int) == chunked_bytes(
                    img,
                    base,
                    size,
                    0,
                ),
            decreases region.size - offset,
        {
            let chunk_size = if region.size - offset < CHUNK_SIZE {
                region.size - offset
            } else {
                CHUNK_SIZE
            };
            let ghost before = buffer@;
            match self.memory.read_memory(region.base_address + offset, chunk_size) {
                Ok(chunk) => {
                    push_all(&mut buffer, chunk.as_slice());
                },
                Err(_) => {
                    push_zeros(&mut buffer, chunk_size);
                },
            }
            proof {
                let c = match img.spec_read(base + offset, chunk_size as int) {
                    Some(b) => b,
                    None => zeros(chunk_size as nat),
                };
                assert(buffer@ == before + c);
                assert(chunked_bytes(img, base, size, offset as int) == c + chunked_bytes(
                    img,
                    base,
                    size,
                    offset + chunk_size,
                ));
                assert(before + c + chunked_bytes(img, base, size, offset + chunk_size) =~= before
                    + (c + chunked_bytes(img, base, size, offset + chunk_size)));
            }
            offset = offset + chunk_size;
        }
        assert(chunked_bytes(img, base, size, offset as int) =~= Seq::<u8>::empty());
        assert(buffer@ =~= buffer@ + Seq::<u8>::empty());
        Ok(buffer)
    }

    /// The chunks of a region that can be read, each with its address, in
    /// order; chunks that cannot be read are left out.
    pub fn iter_region_chunks(&self, region: &MemoryRegion) -> (r: Vec<(usize, Vec<u8>)>)
        requires
            region.wf(),
        ensures
            r@.len() == readable_chunks(*self.image(), region.base_address as int, region.size as int, 0).len(),
            forall|k: int|
                0 <= k < r@.len() ==> {
                    let c = readable_chunks(*self.image(), region.base_address as int, region.size as int, 0)[k];
                    &&& (#[trigger] r@[k]).0 == c.0
                    &&& r@[k].1@ == c.1
                },
    {
        let ghost img = *self.memory;
        let ghost base = region.base_address as int;
        let ghost size = region.size as int;
        let ghost acc: Seq<(usize, Seq<u8>)> = Seq::empty();
        let mut out: Vec<(usize, Vec<u8>)> = Vec::new();
        let mut offset: usize = 0;
        while offset < region.size
            invariant
                offset <= region.size,
                region.wf(),
                img == *self.memory,
                base == region.base_address,
                size == region.size,
                acc + readable_chunks(img, base, size, offset as int) == readable_chunks(img, base, size, 0),
                out@.len() == acc.len(),
                forall|k: int| 0 <= k < out@.len() ==> (#[trigger] out@[k]).0 == acc[k].0 && out@[k].1@ == acc[k].1,
            decreases region.size - offset,
        {
            let chunk_size = if region.size - offset < CHUNK_SIZE {
                region.size - offset
            } else {
                CHUNK_SIZE
            };
            let address = region.base_address + offset;
            let ghost here: Seq<(usize, Seq<u8>)> = Seq::empty();
            if let Ok(data) = self.memory.read_memory(address, chunk_size) {
                proof {
                    here = seq![(address, data@)];
                }
                out.push((address, data));
            }
            proof {
                let next = readable_chunks(img, base, size, offset + chunk_size);
                assert(readable_chunks(img, base, size, offset as int) == here + next);
                assert(acc + (here + next) =~= (acc + here) + next);
                acc = acc + here;
            }
            offset = offset + chunk_size;
        }
        proof {
            assert(readable_chunks(img, base, size, offset as int) =~= Seq::empty());
            assert(acc + Seq::<(usize, Seq<u8>)>::empty() =~= acc);
        }
        out
    }
}

/// The chunks of a region from offset `off` on that can be read, each with
/// its address.
pub open spec fn readable_chunks(img: MemoryImage, base: int, size: int, off: int) -> Seq<(usize, Seq<u8>)>
    decreases size - off,
{
    if off >= size || off < 0 {
        Seq::empty()
    } else {
        let n = if size - off < CHUNK_SIZE {
            size - off
        } else {
            CHUNK_SIZE as int
        };
        (match img.spec_read(base + off, n) {
            Some(b) => seq![((base + off) as usize, b)],
            None => Seq::empty(),
        }) + readable_chunks(img, base, size, off + n)
    }
}

/// Whether a region passes the three access filters.
pub open spec fn region_passes(
    g: MemoryRegion,
    readable_only: bool,
    writable_only: bool,
    executable_only: bool,
) -> bool {
    (!readable_only || g.is_readable) && (!writable_only || g.is_writable) && (!executable_only
        || g.is_executable)
}

} // verus!
