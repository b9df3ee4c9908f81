use vstd::prelude::*;
use crate::byteseq::{copy_range, read_u16_at, read_u32_at, read_u64_at, u16_at, u32_at, u64_at};
use crate::memory::MemoryImage;
use crate::text::{decode_utf16_lossy, decode_utf8_lossy, le_units, to_units, utf16_lossy_of, utf8_lossy_of};

verus! {

/// Failure to read an engine structure from the target.
#[derive(Clone, Copy, Debug, PartialEq, Eq, Structural)]
pub enum StructError {
    /// The bytes could not be read.
    Unreadable,
    /// A block or chunk pointer is null.
    NullPointer,
    /// An index is outside the array.
    OutOfBounds,
    /// The slot holds no live object.
    InvalidObject,
    /// An address computation leaves the address space.
    AddressOverflow,
}

/// `FName`: a name as an index into the name pool and a number.
#[derive(Clone, Copy, Debug, PartialEq, Eq, Structural)]
pub struct FName {
    pub comparison_index: u32,
    pub number: u32,
}

impl FName {
    pub fn read(memory: &MemoryImage, address: usize) -> (r: Result<FName, StructError>)
        ensures
            r is Ok <==> memory.spec_read(address as int, 8) is Some,
            r is Ok ==> r->Ok_0 == (FName {
                comparison_index: u32_at(memory.spec_read(address as int, 8)->0, 0),
                number: u32_at(memory.spec_read(address as int, 8)->0, 4),
            }),
    {
        match memory.read_memory(address, 8) {
            Ok(b) => {
                proof {
                    memory.lemma_read_len(address as int, 8);
                }
                Ok(
                    FName {
                        comparison_index: read_u32_at(b.as_slice(), 0),
                        number: read_u32_at(b.as_slice(), 4),
                    },
                )
            },
            Err(_) => Err(StructError::Unreadable),
        }
    }
}

/// Size of the base object header.
pub const UOBJECT_SIZE: usize = 40;

/// `UObject`, the base of every engine object.
#[derive(Clone, Copy, Debug, PartialEq, Eq, Structural)]
pub struct UObject {
    pub vtable: usize,
    pub object_flags: u32,
    pub internal_index: i32,
    pub class: usize,
    pub name: FName,
    pub outer: usize,
}

/// The object header decoded from its 40 bytes.
pub open spec fn uobject_of(b: Seq<u8>) -> UObject {
    UObject {
        vtable: u64_at(b, 0) as usize,
        object_flags: u32_at(b, 8),
        internal_index: u32_at(b, 12) as i32,
        class: u64_at(b, 16) as usize,
        name: FName { comparison_index: u32_at(b, 24), number: u32_at(b, 28) },
        outer: u64_at(b, 32) as usize,
    }
}

/// The object header at `addr`, if readable.
pub open spec fn uobject_at(img: MemoryImage, addr: int) -> Option<UObject> {
    match img.spec_read(addr, UOBJECT_SIZE as int) {
        Some(b) => Some(uobject_of(b)),
        None => None,
    }
}

impl UObject {
    pub fn read(memory: &MemoryImage, address: usize) -> (r: Result<UObject, StructError>)
        ensures
            r is Ok <==> uobject_at(*memory, address as int) is Some,
            r is Ok ==> r->Ok_0 == uobject_at(*memory, address as int)->0,
            r is Err ==> r->Err_0 == StructError::Unreadable,
    {
        match memory.read_memory(address, UOBJECT_SIZE) {
            Ok(b) => {
                proof {
                    memory.lemma_read_len(address as int, UOBJECT_SIZE as int);
                }
                let s = b.as_slice();
                Ok(
                    UObject {
                        vtable: read_u64_at(s, 0) as usize,
                        object_flags: read_u32_at(s, 8),
                        internal_index: read_u32_at(s, 12) as i32,
                        class: read_u64_at(s, 16) as usize,
                        name: FName {
                            comparison_index: read_u32_at(s, 24),
                            number: read_u32_at(s, 28),
                        },
                        outer: read_u64_at(s, 32) as usize,
                    },
                )
            },
            Err(_) => Err(StructError::Unreadable),
        }
    }
}

/// Text of a name entry: UTF-16 when wide, else bytes decoded as UTF-8.
pub open spec fn entry_text(wide: bool, bytes: Seq<u8>) -> Seq<char> {
    if wide {
        utf16_lossy_of(le_units(bytes))
    } else {
        utf8_lossy_of(bytes)
    }
}

/// Decodes the text of a name entry.
pub fn decode_entry_text(wide: bool, bytes: &[u8]) -> (r: String)
    ensures
        r@ == entry_text(wide, bytes@),
{
    if wide {
        let units = to_units(bytes);
        decode_utf16_lossy(units.as_slice())
    } else {
        decode_utf8_lossy(bytes)
    }
}

/// Bytes of name storage read with an entry.
pub const NAME_ENTRY_CAPACITY: usize = 1024;

/// `FNameEntry`: a 16-bit header (bit 0: wide, bits 6 and up: length) and
/// the stored characters.
pub struct FNameEntry {
    pub header: u16,
    pub name: Vec<u8>,
}

impl FNameEntry {
    /// Length in characters.
    pub open spec fn spec_len(self) -> nat {
        (self.header / 64) as nat
    }

    /// Whether the characters are UTF-16.
    pub open spec fn spec_wide(self) -> bool {
        self.header % 2 == 1
    }

    pub fn read(memory: &MemoryImage, address: usize) -> (r: Result<FNameEntry, StructError>)
        ensures
            r is Ok <==> memory.spec_read(address as int, 2 + NAME_ENTRY_CAPACITY) is Some,
            r is Ok ==> r->Ok_0.header == u16_at(
                memory.spec_read(address as int, 2 + NAME_ENTRY_CAPACITY)->0,
                0,
            ) && r->Ok_0.name@ == memory.spec_read(
                address as int,
                2 + NAME_ENTRY_CAPACITY,
            )->0.subrange(2, 2 + NAME_ENTRY_CAPACITY),
    {
        match memory.read_memory(address, 2 + NAME_ENTRY_CAPACITY) {
            Ok(b) => {
                proof {
                    memory.lemma_read_len(address as int, 2 + NAME_ENTRY_CAPACITY);
                }
                let header = read_u16_at(b.as_slice(), 0);
                let name = copy_range(b.as_slice(), 2, NAME_ENTRY_CAPACITY);
                Ok(FNameEntry { header, name })
            },
            Err(_) => Err(StructError::Unreadable),
        }
    }

    pub fn is_wide(&self) -> (r: bool)
        ensures
            r == self.spec_wide(),
    {
        let h = self.header;
        assert((h & 1 != 0) == (h % 2 == 1)) by (bit_vector);
        (h & 1) != 0
    }

    pub fn len(&self) -> (r: usize)
        ensures
            r == self.spec_len(),
    {
        let h = self.header;
        assert(h >> 6 == h / 64) by (bit_vector);
        (h >> 6) as usize
    }

    /// The entry's text; when the stored characters are fewer than the
    /// header's length, those that are stored.
    pub fn get_string(&self) -> (r: String)
        ensures
            ({
                let n = if self.spec_wide() {
                    2 * self.spec_len()
                } else {
                    self.spec_len()
                };
                let m = if n <= self.name@.len() {
                    n
                } else {
                    self.name@.len()
                };
                r@ == if self.spec_len() == 0 {
                    Seq::<char>::empty()
                } else {
                    entry_text(self.spec_wide(), self.name@.subrange(0, m as int))
                }
            }),
    {
        let len = self.len();
        if len == 0 {
            return String::new();
        }
        let wide = self.is_wide();
        let n = if wide {
            2 * len
        } else {
            len
        };
        let m = if n <= self.name.len() {
            n
        } else {
            self.name.len()
        };
        let bytes = copy_range(self.name.as_slice(), 0, m);
        decode_entry_text(wide, bytes.as_slice())
    }
}

/// The allocator of name entries: a table of block pointers.
pub struct FNameEntryAllocator {
    pub blocks_addr: usize,
}

/// Number of low bits of an entry id that give the offset in a block.
pub const BLOCK_OFFSET_BITS: u32 = 16;
/// Entries within a block lie this many bytes apart per offset unit.
pub const STRIDE: usize = 2;

/// The address of the entry with id `index`: block `index / 2^16` of the
/// table at `blocks`, plus twice the offset `index % 2^16`.
pub open spec fn entry_address(img: MemoryImage, blocks: usize, index: u32) -> Option<usize> {
    let block = index / 0x10000;
    let offset = index % 0x10000;
    let slot = blocks + block * 8;
    if slot > usize::MAX {
        None
    } else {
        match img.spec_u64(slot) {
            None => None,
            Some(p) => if p == 0 || p + offset * 2 > usize::MAX {
                None
            } else {
                Some((p + offset * 2) as usize)
            },
        }
    }
}

impl FNameEntryAllocator {
    /// Splits an entry id into block and offset.
    pub fn decode_id(id: u32) -> (r: (u32, u32))
        ensures
            r.0 == id / 0x10000,
            r.1 == id % 0x10000,
    {
        assert(id >> 16u32 == id / 0x10000) by (bit_vector);
        assert(id & 0xffffu32 == id % 0x10000) by (bit_vector);
        let block = id >> BLOCK_OFFSET_BITS;
        let offset = id & 0xffff;
        (block, offset)
    }

    /// The address of the entry with id `index`, through the block table at
    /// `blocks_addr`; fails when the block pointer is null or unreadable.
    pub fn get_entry_address(blocks_addr: usize, memory: &MemoryImage, index: u32) -> (r: Result<
        usize,
        StructError,
    >)
        ensures
            r is Ok <==> entry_address(*memory, blocks_addr, index) is Some,
            r is Ok ==> r->Ok_0 == entry_address(*memory, blocks_addr, index)->0,
    {
        let (block_index, offset) = Self::decode_id(index);
        let b = block_index as usize;
        if b > (usize::MAX - blocks_addr) / 8 {
            return Err(StructError::AddressOverflow);
        }
        let block_ptr_addr = blocks_addr + b * 8;
        let block_ptr = match memory.read_u64(block_ptr_addr) {
            Ok(v) => v,
            Err(_) => {
                return Err(StructError::Unreadable);
            },
        };
        if block_ptr == 0 {
            return Err(StructError::NullPointer);
        }
        let o = offset as usize * STRIDE;
        if block_ptr as u128 + o as u128 > usize::MAX as u128 {
            return Err(StructError::AddressOverflow);
        }
        Ok(block_ptr as usize + o)
    }
}

/// The text of the name with id `index` in the pool whose block table is at
/// `blocks`: the entry's header gives its length and width, and that many
/// characters follow it.
pub open spec fn fname_text(img: MemoryImage, blocks: usize, index: u32) -> Option<Seq<char>> {
    match entry_address(img, blocks, index) {
        None => None,
        Some(e) => match img.spec_u16(e as int) {
            None => None,
            Some(h) => {
                let len = (h / 64) as int;
                let wide = h % 2 == 1;
                if len == 0 {
                    Some(Seq::empty())
                } else if e + 2 > usize::MAX {
                    None
                } else {
                    let n = if wide {
                        2 * len
                    } else {
                        len
                    };
                    match img.spec_read(e + 2, n) {
                        None => None,
                        Some(b) => Some(entry_text(wide, b)),
                    }
                }
            },
        },
    }
}

/// Reads the name with id `index` from the pool whose block table is at `blocks`.
pub fn read_fname(memory: &MemoryImage, blocks: usize, index: u32) -> (r: Result<String, StructError>)
    ensures
        r is Ok <==> fname_text(*memory, blocks, index) is Some,
        r is Ok ==> r->Ok_0@ == fname_text(*memory, blocks, index)->0,
{
    let entry_addr = FNameEntryAllocator::get_entry_address(blocks, memory, index)?;
    let header = match memory.read_u16(entry_addr) {
        Ok(h) => h,
        Err(_) => {
            return Err(StructError::Unreadable);
        },
    };
    assert(header & 1 == header % 2) by (bit_vector);
    assert(header >> 6 == header / 64) by (bit_vector);
    let is_wide = (header & 1) != 0;
    let len = (header >> 6) as usize;
    if len == 0 {
        return Ok(String::new());
    }
    if entry_addr > usize::MAX - 2 {
        return Err(StructError::AddressOverflow);
    }
    let n = if is_wide {
        len * 2
    } else {
        len
    };
    let data = match memory.read_memory(entry_addr + 2, n) {
        Ok(d) => d,
        Err(_) => {
            return Err(StructError::Unreadable);
        },
    };
    Ok(decode_entry_text(is_wide, data.as_slice()))
}

/// Ids composed from a block and an offset decode back to them, and name
/// lookup resolves such an id to the entry at the block's pointer plus twice
/// the offset.
pub proof fn lemma_name_id_round_trip(img: MemoryImage, blocks: usize, block: u32, offset: u32)
    requires
        block < 0x10000,
        offset < 0x10000,
    ensures
        ((block << 16u32) | offset) / 0x10000 == block,
        ((block << 16u32) | offset) % 0x10000 == offset,
        ({
            let slot = blocks + block * 8;
            slot <= usize::MAX ==> match img.spec_u64(slot) {
                Some(p) => p != 0 && p + offset * 2 <= usize::MAX ==> entry_address(
                    img,
                    blocks,
                    (block << 16u32) | offset,
                ) == Some((p + offset * 2) as usize),
                None => entry_address(img, blocks, (block << 16u32) | offset) is None,
            }
        }),
{
    assert(block < 0x10000 && offset < 0x10000 ==> ((block << 16u32) | offset) / 0x10000 == block)
        by (bit_vector);
    assert(block < 0x10000 && offset < 0x10000 ==> ((block << 16u32) | offset) % 0x10000 == offset)
        by (bit_vector);
}

/// One slot of the global object array.
#[derive(Clone, Copy, Debug, PartialEq, Eq, Structural)]
pub struct FUObjectItem {
    pub object: usize,
    pub flags: i32,
    pub cluster_root_index: i32,
    pub serial_number: i32,
    pub ref_count: i32,
}

/// Bytes of one slot of the object array.
pub const OBJECT_ITEM_SIZE: usize = 16;

/// The slot decoded from its 16 bytes.
pub open spec fn item_of(b: Seq<u8>) -> FUObjectItem {
    FUObjectItem {
        object: u64_at(b, 0) as usize,
        flags: u32_at(b, 8) as i32,
        cluster_root_index: u32_at(b, 12) as i32,
        serial_number: 0,
        ref_count: 0,
    }
}

/// A slot holds a live object: a non-null pointer and a clear low flag bit.
pub open spec fn item_valid(item: FUObjectItem) -> bool {
    item.object != 0 && item.flags % 2 == 0
}

impl FUObjectItem {
    pub fn read(memory: &MemoryImage, address: usize) -> (r: Result<FUObjectItem, StructError>)
        ensures
            r is Ok <==> memory.spec_read(address as int, OBJECT_ITEM_SIZE as int) is Some,
            r is Ok ==> r->Ok_0 == item_of(
                memory.spec_read(address as int, OBJECT_ITEM_SIZE as int)->0,
            ),
    {
        match memory.read_memory(address, OBJECT_ITEM_SIZE) {
            Ok(b) => {
                proof {
                    memory.lemma_read_len(address as int, OBJECT_ITEM_SIZE as int);
                }
                let s = b.as_slice();
                Ok(
                    FUObjectItem {
                        object: read_u64_at(s, 0) as usize,
                        flags: read_u32_at(s, 8) as i32,
                        cluster_root_index: read_u32_at(s, 12) as i32,
                        serial_number: 0,
                        ref_count: 0,
                    },
                )
            },
            Err(_) => Err(StructError::Unreadable),
        }
    }

    pub fn is_valid(&self) -> (r: bool)
        ensures
            r == item_valid(*self),
    {
        let f = self.flags;
        assert((f & 1i32 == 0) == (f % 2 == 0)) by (bit_vector);
        self.object != 0 && (self.flags & 1) == 0
    }
}

/// Objects per chunk of the object array.
pub const NUM_ELEMENTS_PER_CHUNK: usize = 0x10000;

/// The chunked array of object slots.
#[derive(Clone, Copy, Debug, PartialEq, Eq, Structural)]
pub struct FChunkedFixedUObjectArray {
    pub objects: usize,
    pub pre_allocated_objects: usize,
    pub max_elements: i32,
    pub num_elements: i32,
    pub max_chunks: i32,
    pub num_chunks: i32,
}

/// The chunked array decoded from 32 bytes starting at `off` of `b`.
pub open spec fn chunked_of(b: Seq<u8>, off: int) -> FChunkedFixedUObjectArray {
    FChunkedFixedUObjectArray {
        objects: u64_at(b, off) as usize,
        pre_allocated_objects: u64_at(b, off + 8) as usize,
        max_elements: u32_at(b, off + 16) as i32,
        num_elements: u32_at(b, off + 20) as i32,
        max_chunks: u32_at(b, off + 24) as i32,
        num_chunks: u32_at(b, off + 28) as i32,
    }
}

fn decode_chunked(s: &[u8], off: usize) -> (r: FChunkedFixedUObjectArray)
    requires
        off <= 16,
        off + 32 <= s@.len(),
    ensures
        r == chunked_of(s@, off as int),
{
    FChunkedFixedUObjectArray {
        objects: read_u64_at(s, off) as usize,
        pre_allocated_objects: read_u64_at(s, off + 8) as usize,
        max_elements: read_u32_at(s, off + 16) as i32,
        num_elements: read_u32_at(s, off + 20) as i32,
        max_chunks: read_u32_at(s, off + 24) as i32,
        num_chunks: read_u32_at(s, off + 28) as i32,
    }
}

/// The address of slot `index`: chunk `index / 2^16` of the chunk table,
/// plus 16 bytes per position within the chunk.
pub open spec fn item_address(img: MemoryImage, arr: FChunkedFixedUObjectArray, index: int) -> Option<
    usize,
> {
    if index < 0 || index >= arr.num_elements {
        None
    } else {
        let chunk = index / 0x10000;
        let within = index % 0x10000;
        let slot = arr.objects + chunk * 8;
        if slot > usize::MAX {
            None
        } else {
            match img.spec_u64(slot) {
                None => None,
                Some(p) => if p == 0 || p + within * 16 > usize::MAX {
                    None
                } else {
                    Some((p + within * 16) as usize)
                },
            }
        }
    }
}

impl FChunkedFixedUObjectArray {
    pub fn read(memory: &MemoryImage, address: usize) -> (r: Result<
        FChunkedFixedUObjectArray,
        StructError,
    >)
        ensures
            r is Ok <==> memory.spec_read(address as int, 32) is Some,
            r is Ok ==> r->Ok_0 == chunked_of(memory.spec_read(address as int, 32)->0, 0),
    {
        match memory.read_memory(address, 32) {
            Ok(b) => {
                proof {
                    memory.lemma_read_len(address as int, 32);
                }
                Ok(decode_chunked(b.as_slice(), 0))
            },
            Err(_) => Err(StructError::Unreadable),
        }
    }

    /// The address of the slot of `index`.
    pub fn get_object_item_address(&self, memory: &MemoryImage, index: i32) -> (r: Result<
        usize,
        StructError,
    >)
        ensures
            r is Ok <==> item_address(*memory, *self, index as int) is Some,
            r is Ok ==> r->Ok_0 == item_address(*memory, *self, index as int)->0,
            (index < 0 || index >= self.num_elements) ==> r == Err::<usize, StructError>(
                StructError::OutOfBounds,
            ),
    {
        if index < 0 || index >= self.num_elements {
            return Err(StructError::OutOfBounds);
        }
        let chunk_index = (index as usize) / NUM_ELEMENTS_PER_CHUNK;
        let within_chunk_index = (index as usize) % NUM_ELEMENTS_PER_CHUNK;
        if chunk_index > (usize::MAX - self.objects) / 8 {
            return Err(StructError::AddressOverflow);
        }
        let chunk_ptr_addr = self.objects + chunk_index * 8;
        let chunk_ptr = match memory.read_u64(chunk_ptr_addr) {
            Ok(v) => v,
            Err(_) => {
                return Err(StructError::Unreadable);
            },
        };
        if chunk_ptr == 0 {
            return Err(StructError::NullPointer);
        }
        let o = within_chunk_index * OBJECT_ITEM_SIZE;
        if chunk_ptr as u128 + o as u128 > usize::MAX as u128 {
            return Err(StructError::AddressOverflow);
        }
        Ok(chunk_ptr as usize + o)
    }
}

/// The live object in slot `index`, if any.
pub open spec fn object_at(img: MemoryImage, arr: FChunkedFixedUObjectArray, index: int) -> Option<
    usize,
> {
    match item_address(img, arr, index) {
        None => None,
        Some(a) => match img.spec_read(a as int, OBJECT_ITEM_SIZE as int) {
            None => None,
            Some(b) => if item_valid(item_of(b)) {
                Some(item_of(b).object)
            } else {
                None
            },
        },
    }
}

/// The live objects in slots `0..n`, in slot order.
pub open spec fn objects_upto(img: MemoryImage, arr: FChunkedFixedUObjectArray, n: int) -> Seq<usize>
    decreases n,
{
    if n <= 0 {
        Seq::empty()
    } else {
        objects_upto(img, arr, n - 1) + match object_at(img, arr, n - 1) {
            Some(o) => seq![o],
            None => Seq::empty(),
        }
    }
}

/// Offset of the chunked array inside the global object array.
pub const OBJ_OBJECTS_OFFSET: usize = 16;

/// The global object array.
#[derive(Clone, Copy, Debug, PartialEq, Eq, Structural)]
pub struct FUObjectArray {
    pub obj_first_gc_index: i32,
    pub obj_last_non_gc_index: i32,
    pub max_objects_not_consid_by_gc: i32,
    pub open_for_disregard_for_gc: bool,
    pub obj_objects: FChunkedFixedUObjectArray,
}

/// The global object array decoded from its 48 bytes.
pub open spec fn object_array_of(b: Seq<u8>) -> FUObjectArray {
    FUObjectArray {
        obj_first_gc_index: u32_at(b, 0) as i32,
        obj_last_non_gc_index: u32_at(b, 4) as i32,
        max_objects_not_consid_by_gc: u32_at(b, 8) as i32,
        open_for_disregard_for_gc: b[12] != 0,
        obj_objects: chunked_of(b, OBJ_OBJECTS_OFFSET as int),
    }
}

impl FUObjectArray {
    pub fn read(memory: &MemoryImage, address: usize) -> (r: Result<FUObjectArray, StructError>)
        ensures
            r is Ok <==> memory.spec_read(address as int, 48) is Some,
            r is Ok ==> r->Ok_0 == object_array_of(memory.spec_read(address as int, 48)->0),
    {
        let data = match memory.read_memory(address, 48) {
            Ok(d) => d,
            Err(_) => {
                return Err(StructError::Unreadable);
            },
        };
        proof {
            memory.lemma_read_len(address as int, 48);
        }
        let s = data.as_slice();
        Ok(
            FUObjectArray {
                obj_first_gc_index: read_u32_at(s, 0) as i32,
                obj_last_non_gc_index: read_u32_at(s, 4) as i32,
                max_objects_not_consid_by_gc: read_u32_at(s, 8) as i32,
                open_for_disregard_for_gc: s[12] != 0,
                obj_objects: decode_chunked(s, OBJ_OBJECTS_OFFSET),
            },
        )
    }

    /// The live object in slot `index`.
    pub fn get_object_address(&self, memory: &MemoryImage, index: i32) -> (r: Result<
        usize,
        StructError,
    >)
        ensures
            r is Ok <==> object_at(*memory, self.obj_objects, index as int) is Some,
            r is Ok ==> r->Ok_0 == object_at(*memory, self.obj_objects, index as int)->0,
    {
        let item_addr = self.obj_objects.get_object_item_address(memory, index)?;
        let item = FUObjectItem::read(memory, item_addr)?;
        if !item.is_valid() {
            return Err(StructError::InvalidObject);
        }
        Ok(item.object)
    }

    /// Every live object, in slot order: slots that cannot be read, and
    /// those with a null object or the low flag bit set, are skipped.
    pub fn get_all_objects(&self, memory: &MemoryImage) -> (r: Vec<usize>)
        ensures
            r@ == objects_upto(*memory, self.obj_objects, self.obj_objects.num_elements as int),
    {
        let mut objects: Vec<usize> = Vec::new();
        let mut i: i32 = 0;
        let n = self.obj_objects.num_elements;
        if n <= 0 {
            proof {
                assert(objects_upto(*memory, self.obj_objects, n as int) =~= Seq::empty());
            }
            return objects;
        }
        while i < n
            invariant
                0 <= i <= n,
                n == self.obj_objects.num_elements,
                objects@ == objects_upto(*memory, self.obj_objects, i as int),
            decreases n - i,
        {
            match self.get_object_address(memory, i) {
                Ok(addr) => {
                    objects.push(addr);
                },
                Err(_) => {},
            }
            proof {
                assert(objects@ =~= objects_upto(*memory, self.obj_objects, i + 1));
            }
            i = i + 1;
        }
        objects
    }
}

/// `UField`: the link to the next field.
#[derive(Clone, Copy, Debug, PartialEq, Eq, Structural)]
pub struct UField {
    pub next: usize,
}

/// Offset of the next-field link inside a `UField`.
pub const UFIELD_NEXT_OFFSET: usize = 40;

/// `UStruct`'s own fields.
#[derive(Clone, Copy, Debug, PartialEq, Eq, Structural)]
pub struct UStruct {
    pub super_struct: usize,
    pub children: usize,
    pub child_properties: usize,
    pub properties_size: i32,
    pub min_alignment: i32,
}

/// The struct fields decoded from 32 bytes.
pub open spec fn ustruct_of(b: Seq<u8>) -> UStruct {
    UStruct {
        super_struct: u64_at(b, 0) as usize,
        children: u64_at(b, 8) as usize,
        child_properties: u64_at(b, 16) as usize,
        properties_size: u32_at(b, 24) as i32,
        min_alignment: u32_at(b, 28) as i32,
    }
}

/// Decoded struct fields that look right: a size below 2^20, an alignment
/// of at most 16, and a parent that is null or a plausible heap pointer.
pub open spec fn ustruct_plausible(u: UStruct) -> bool {
    &&& 0 <= u.properties_size < 0x10_0000
    &&& 0 <= u.min_alignment <= 16
    &&& (u.super_struct == 0 || (0x10000 < u.super_struct < 0x7FFF_FFFF_FFFF))
}

/// The offsets tried for the struct fields, in order.
pub open spec fn probe_offset(k: int) -> int {
    if k == 0 {
        64
    } else if k == 1 {
        48
    } else if k == 2 {
        56
    } else {
        72
    }
}

/// The struct fields at `addr + probe_offset(k)`, if readable and plausible.
pub open spec fn probe_at(img: MemoryImage, addr: int, k: int) -> Option<UStruct> {
    match img.spec_read(addr + probe_offset(k), 32) {
        Some(b) => if ustruct_plausible(ustruct_of(b)) {
            Some(ustruct_of(b))
        } else {
            None
        },
        None => None,
    }
}

/// The first plausible probe from `k` on, else the fields at offset 48.
pub open spec fn probe_from(img: MemoryImage, addr: int, k: int) -> Option<UStruct>
    decreases 4 - k,
{
    if k >= 4 || k < 0 {
        match img.spec_read(addr + 48, 32) {
            Some(b) => Some(ustruct_of(b)),
            None => None,
        }
    } else {
        match probe_at(img, addr, k) {
            Some(u) => Some(u),
            None => probe_from(img, addr, k + 1),
        }
    }
}

fn decode_ustruct(s: &[u8]) -> (r: UStruct)
    requires
        32 <= s@.len(),
    ensures
        r == ustruct_of(s@),
{
    UStruct {
        super_struct: read_u64_at(s, 0) as usize,
        children: read_u64_at(s, 8) as usize,
        child_properties: read_u64_at(s, 16) as usize,
        properties_size: read_u32_at(s, 24) as i32,
        min_alignment: read_u32_at(s, 28) as i32,
    }
}

impl UStruct {
    /// Reads the struct fields of the object at `address`, probing the
    /// offsets 64, 48, 56 and 72 in turn and taking the first plausible
    /// reading, else the reading at 48.
    pub fn read(memory: &MemoryImage, address: usize) -> (r: Result<UStruct, StructError>)
        requires
            memory.wf(),
        ensures
            r is Ok <==> probe_from(*memory, address as int, 0) is Some,
            r is Ok ==> r->Ok_0 == probe_from(*memory, address as int, 0)->0,
    {
        let offsets: [usize; 4] = [64, 48, 56, 72];
        let mut k: usize = 0;
        while k < 4
            invariant
                k <= 4,
                memory.wf(),
                offsets@ == seq![64usize, 48usize, 56usize, 72usize],
                probe_from(*memory, address as int, 0) == probe_from(*memory, address as int, k as int),
            decreases 4 - k,
        {
            let offset = offsets[k];
            assert(offset == probe_offset(k as int));
            if address <= usize::MAX - offset {
                if let Ok(data) = memory.read_memory(address + offset, 32) {
                    proof {
                        memory.lemma_read_len(address + offset, 32);
                    }
                    let u = decode_ustruct(data.as_slice());
                    let sup = u.super_struct as u64;
                    let super_valid = sup == 0 || (sup > 0x10000 && sup < 0x7FFF_FFFF_FFFF);
                    if u.properties_size >= 0 && u.properties_size < 0x10_0000 && u.min_alignment
                        >= 0 && u.min_alignment <= 16 && super_valid {
                        return Ok(u);
                    }
                }
            } else {
                proof {
                    assert(memory.spec_read(address + offset, 32) is None) by {
                        lemma_read_past_end(*memory, address + offset, 32);
                    }
                }
            }
            k = k + 1;
        }
        if address > usize::MAX - 48 {
            proof {
                lemma_read_past_end(*memory, address + 48, 32);
            }
            return Err(StructError::AddressOverflow);
        }
        match memory.read_memory(address + 48, 32) {
            Ok(data) => {
                proof {
                    memory.lemma_read_len(address + 48, 32);
                }
                Ok(decode_ustruct(data.as_slice()))
            },
            Err(_) => Err(StructError::Unreadable),
        }
    }
}

/// Nothing beyond the address space can be read.
pub proof fn lemma_read_past_end(img: MemoryImage, addr: int, len: int)
    requires
        img.wf(),
        addr > usize::MAX,
        len >= 0,
    ensures
        img.spec_read(addr, len) is None,
{
    assert forall|i: int| !crate::memory::is_holder(img.blocks@, addr, len, i) by {
        if 0 <= i < img.blocks@.len() {
            assert(img.blocks@[i].wf());
        }
    }
}

/// `FField`, the base of a property.
#[derive(Clone, Copy, Debug, PartialEq, Eq, Structural)]
pub struct FField {
    pub class_private: usize,
    pub owner: usize,
    pub next: usize,
    pub name: FName,
    pub flags: u32,
}

/// Bytes read for a property's base.
pub const FFIELD_SIZE: usize = 40;

/// The property base decoded from its bytes.
pub open spec fn ffield_of(b: Seq<u8>) -> FField {
    FField {
        class_private: u64_at(b, 0) as usize,
        owner: u64_at(b, 8) as usize,
        next: u64_at(b, 16) as usize,
        name: FName { comparison_index: u32_at(b, 24), number: u32_at(b, 28) },
        flags: u32_at(b, 32),
    }
}

/// The property base at `addr`, if readable.
pub open spec fn ffield_at(img: MemoryImage, addr: int) -> Option<FField> {
    match img.spec_read(addr, FFIELD_SIZE as int) {
        Some(b) => Some(ffield_of(b)),
        None => None,
    }
}

impl FField {
    pub fn read(memory: &MemoryImage, address: usize) -> (r: Result<FField, StructError>)
        ensures
            r is Ok <==> ffield_at(*memory, address as int) is Some,
            r is Ok ==> r->Ok_0 == ffield_at(*memory, address as int)->0,
    {
        match memory.read_memory(address, FFIELD_SIZE) {
            Ok(b) => {
                proof {
                    memory.lemma_read_len(address as int, FFIELD_SIZE as int);
                }
                let s = b.as_slice();
                Ok(
                    FField {
                        class_private: read_u64_at(s, 0) as usize,
                        owner: read_u64_at(s, 8) as usize,
                        next: read_u64_at(s, 16) as usize,
                        name: FName {
                            comparison_index: read_u32_at(s, 24),
                            number: read_u32_at(s, 28),
                        },
                        flags: read_u32_at(s, 32),
                    },
                )
            },
            Err(_) => Err(StructError::Unreadable),
        }
    }
}

/// `UFunction`'s flags and layout values.
#[derive(Clone, Copy, Debug, PartialEq, Eq, Structural)]
pub struct UFunction {
    pub function_flags: u32,
    pub num_params: u8,
    pub params_size: u16,
    pub return_value_offset: u16,
    pub rpc_id: u16,
    pub rpc_response_id: u16,
    pub first_property_to_init: usize,
    pub native_func: usize,
}

/// Flag of a native function.
pub const FUNC_NATIVE: u32 = 0x400;
/// Flag of a function callable from blueprints.
pub const FUNC_BLUEPRINT_CALLABLE: u32 = 0x1;

impl UFunction {
    pub fn is_native(&self) -> (r: bool)
        ensures
            r == (self.function_flags & FUNC_NATIVE != 0),
    {
        (self.function_flags & FUNC_NATIVE) != 0
    }

    pub fn is_blueprint_callable(&self) -> (r: bool)
        ensures
            r == (self.function_flags & FUNC_BLUEPRINT_CALLABLE != 0),
    {
        (self.function_flags & FUNC_BLUEPRINT_CALLABLE) != 0
    }
}

} // verus!
