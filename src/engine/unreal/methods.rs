use vstd::prelude::*;
use vstd::bytes::{
    spec_u16_from_le_bytes, spec_u16_to_le_bytes, spec_u32_to_le_bytes, spec_u64_to_le_bytes,
    u16_from_le_bytes, u16_to_le_bytes, u32_to_le_bytes, u64_to_le_bytes,
};
use crate::byteseq::{copy_range, push_all, read_u32_at, read_u64_at, u32_at, u64_at};
use crate::engine::error::{EngineError, ErrorKind, error_with};
use crate::engine::types::{
    FieldHandle, FieldInfo, InstanceHandle, MethodHandle, MethodInfo, PrimitiveType, TypeInfo,
    TypeKind, Value,
};
use crate::memory::MemoryImage;
use super::objects::{Lookup, object_name};
use super::structures::{FField, UFIELD_NEXT_OFFSET, UStruct, ffield_at, fname_text, probe_from};
use super::UnrealEngine;

verus! {

/// Links followed at most along a list of methods or properties.
pub const MAX_LINKS: usize = 1000;

/// The next method after the one at `current`, if the link can be read.
pub open spec fn next_method(img: MemoryImage, current: usize) -> Option<usize> {
    match img.spec_u64(current + UFIELD_NEXT_OFFSET) {
        Some(n) => Some(n as usize),
        None => None,
    }
}

/// Looks up a method named `name` along the list from `current`.
pub open spec fn method_lookup(img: MemoryImage, gnames: usize, current: usize, name: Seq<char>, fuel: nat) -> Lookup
    decreases fuel,
{
    if fuel == 0 || current == 0 {
        Lookup::NotFound
    } else if object_name(img, gnames, current) == Some(name) {
        Lookup::Found(current)
    } else {
        match next_method(img, current) {
            None => Lookup::Unreadable,
            Some(n) => method_lookup(img, gnames, n, name, (fuel - 1) as nat),
        }
    }
}

/// The methods with a readable name along the list from `current`; the walk
/// stops at a null or unreadable link.
pub open spec fn methods_from(img: MemoryImage, gnames: usize, current: usize, fuel: nat) -> Seq<usize>
    decreases fuel,
{
    if fuel == 0 || current == 0 {
        Seq::empty()
    } else {
        (if object_name(img, gnames, current) is Some {
            seq![current]
        } else {
            Seq::empty()
        }) + match next_method(img, current) {
            None => Seq::empty(),
            Some(n) => methods_from(img, gnames, n, (fuel - 1) as nat),
        }
    }
}

/// `info` describes the method at `addr`.
pub open spec fn method_info_matches(info: MethodInfo, img: MemoryImage, gnames: usize, addr: usize) -> bool {
    &&& object_name(img, gnames, addr) is Some
    &&& info.name@ == object_name(img, gnames, addr)->0
    &&& info.handle == MethodHandle(addr)
    &&& info.params@.len() == 0
    &&& info.return_type is None
    &&& !info.is_static
}

/// Looks up a property named `name` along the list from `current`; the walk
/// stops at a null link or an unreadable node.
pub open spec fn field_lookup(img: MemoryImage, gnames: usize, current: usize, name: Seq<char>, fuel: nat) -> Lookup
    decreases fuel,
{
    if fuel == 0 || current == 0 {
        Lookup::NotFound
    } else {
        match ffield_at(img, current as int) {
            None => Lookup::NotFound,
            Some(f) => if fname_text(img, gnames, f.name.comparison_index) == Some(name) {
                Lookup::Found(current)
            } else {
                field_lookup(img, gnames, f.next, name, (fuel - 1) as nat)
            },
        }
    }
}

/// The offsets probed for a property's offset, in order.
pub open spec fn field_probe(k: int) -> int {
    if k == 0 {
        56
    } else if k == 1 {
        60
    } else if k == 2 {
        64
    } else if k == 3 {
        68
    } else if k == 4 {
        72
    } else if k == 5 {
        44
    } else if k == 6 {
        48
    } else {
        52
    }
}

/// The offset of the property at `addr` in its owner: the first probed
/// value in `[0, 2^16)`, else 0.
pub open spec fn field_offset_from(img: MemoryImage, addr: usize, k: int) -> usize
    decreases 8 - k,
{
    if k >= 8 || k < 0 {
        0
    } else {
        match img.spec_u32(addr + field_probe(k)) {
            Some(v) => if 0 <= (v as i32) < 0x10000 {
                v as usize
            } else {
                field_offset_from(img, addr, k + 1)
            },
            None => field_offset_from(img, addr, k + 1),
        }
    }
}

/// The name and offset of the property at `addr`.
pub open spec fn field_info_of(img: MemoryImage, gnames: usize, addr: usize) -> Option<(Seq<char>, usize)> {
    match ffield_at(img, addr as int) {
        None => None,
        Some(f) => match fname_text(img, gnames, f.name.comparison_index) {
            None => None,
            Some(n) => Some((n, field_offset_from(img, addr, 0))),
        },
    }
}

/// `info` describes the property at `addr`.
pub open spec fn field_info_matches(info: FieldInfo, img: MemoryImage, gnames: usize, addr: usize) -> bool {
    match field_info_of(img, gnames, addr) {
        None => false,
        Some((n, off)) => {
            &&& info.name@ == n
            &&& info.handle == FieldHandle(addr)
            &&& info.offset == off
            &&& info.type_info.size == 0
            &&& info.type_info.kind == TypeKind::Unknown
        },
    }
}

/// The properties with a readable description along the list from `current`.
pub open spec fn fields_from(img: MemoryImage, gnames: usize, current: usize, fuel: nat) -> Seq<usize>
    decreases fuel,
{
    if fuel == 0 || current == 0 {
        Seq::empty()
    } else {
        match ffield_at(img, current as int) {
            None => Seq::empty(),
            Some(f) => (if field_info_of(img, gnames, current) is Some {
                seq![current]
            } else {
                Seq::empty()
            }) + fields_from(img, gnames, f.next, (fuel - 1) as nat),
        }
    }
}

/// `v` is the value of kind `p` that the bytes `b` encode.
pub open spec fn decodes_as(v: Value, p: PrimitiveType, b: Seq<u8>) -> bool {
    match (p, v) {
        (PrimitiveType::Bool, Value::Bool(x)) => x == (b[0] != 0),
        (PrimitiveType::I8, Value::I8(x)) => x == b[0] as i8,
        (PrimitiveType::U8, Value::U8(x)) => x == b[0],
        (PrimitiveType::I16, Value::I16(x)) => x == spec_u16_from_le_bytes(b) as i16,
        (PrimitiveType::U16, Value::U16(x)) => x == spec_u16_from_le_bytes(b),
        (PrimitiveType::I32, Value::I32(x)) => x == u32_at(b, 0) as i32,
        (PrimitiveType::U32, Value::U32(x)) => x == u32_at(b, 0),
        (PrimitiveType::F32, Value::F32(x)) => x == u32_at(b, 0),
        (PrimitiveType::I64, Value::I64(x)) => x == u64_at(b, 0) as i64,
        (PrimitiveType::U64, Value::U64(x)) => x == u64_at(b, 0),
        (PrimitiveType::F64, Value::F64(x)) => x == u64_at(b, 0),
        _ => false,
    }
}

/// The little-endian bytes a field write of `v` stores, if `v` can be stored.
pub open spec fn value_bytes(v: Value) -> Option<Seq<u8>> {
    match v {
        Value::Bool(x) => Some(seq![if x { 1u8 } else { 0u8 }]),
        Value::I8(x) => Some(seq![x as u8]),
        Value::U8(x) => Some(seq![x]),
        Value::I16(x) => Some(spec_u16_to_le_bytes(x as u16)),
        Value::U16(x) => Some(spec_u16_to_le_bytes(x)),
        Value::I32(x) => Some(spec_u32_to_le_bytes(x as u32)),
        Value::U32(x) => Some(spec_u32_to_le_bytes(x)),
        Value::F32(x) => Some(spec_u32_to_le_bytes(x)),
        Value::I64(x) => Some(spec_u64_to_le_bytes(x as u64)),
        Value::U64(x) => Some(spec_u64_to_le_bytes(x)),
        Value::F64(x) => Some(spec_u64_to_le_bytes(x)),
        Value::Struct(b) => Some(b@),
        _ => None,
    }
}

/// What a remote call needs: the object, the function, the size of the
/// parameter buffer to allocate, and the address of `ProcessEvent`.
#[derive(Clone, Copy, Debug, PartialEq, Eq, Structural)]
pub struct InvokeRequest {
    pub instance: usize,
    pub method: usize,
    pub params_size: usize,
    pub process_event: usize,
}

/// Size of the parameter buffer of a remote call.
pub const PARAMS_BUFFER_SIZE: usize = 0x100;

/// The x86-64 thunk that calls `ProcessEvent(instance, function, params)`:
/// reserve shadow space, load `rcx`, `rdx`, `r8` and `rax`, call `rax`,
/// release the shadow space, return.
pub open spec fn shellcode_bytes(instance: usize, function: usize, params: usize, process_event: usize) -> Seq<u8> {
    seq![0x48u8, 0x83, 0xEC, 0x28] + seq![0x48u8, 0xB9] + spec_u64_to_le_bytes(instance as u64)
        + seq![0x48u8, 0xBA] + spec_u64_to_le_bytes(function as u64) + seq![0x49u8, 0xB8]
        + spec_u64_to_le_bytes(params as u64) + seq![0x48u8, 0xB8] + spec_u64_to_le_bytes(
        process_event as u64,
    ) + seq![0xFFu8, 0xD0] + seq![0x48u8, 0x83, 0xC4, 0x28] + seq![0xC3u8]
}

/// What `UnrealEngine::find_method` guarantees.
pub open spec fn find_method_post(e: UnrealEngine, class_addr: usize, method_name: Seq<char>, r: Result<MethodHandle, EngineError>) -> bool {
    &&& !e.initialized ==> r is Err && r->Err_0.spec_kind() == ErrorKind::NotInitialized
    &&& e.initialized && probe_from(e.process.memory, class_addr as int, 0) is None ==> r is Err
    &&& e.initialized && probe_from(e.process.memory, class_addr as int, 0) is Some ==> {
                    let l = method_lookup(
                        e.process.memory,
                        e.gnames,
                        probe_from(e.process.memory, class_addr as int, 0)->0.children,
                        method_name,
                        MAX_LINKS as nat,
                    );
                    &&& (r is Ok <==> l is Found)
                    &&& l is Found ==> r == Ok::<MethodHandle, EngineError>(MethodHandle(l->Found_0))
                    &&& l is NotFound ==> r->Err_0.spec_kind() == ErrorKind::MethodNotFound
                    &&& l is Unreadable ==> r->Err_0.spec_kind() == ErrorKind::MemoryError
                }
}

/// What `UnrealEngine::get_method_info` guarantees.
pub open spec fn get_method_info_post(e: UnrealEngine, method_addr: usize, r: Result<MethodInfo, EngineError>) -> bool {
    &&& !e.initialized ==> r is Err && r->Err_0.spec_kind() == ErrorKind::NotInitialized
    &&& e.initialized ==> (r is Ok <==> object_name(e.process.memory, e.gnames, method_addr) is Some)
    &&& r is Ok ==> method_info_matches(r->Ok_0, e.process.memory, e.gnames, method_addr)
}

/// What `UnrealEngine::enumerate_methods` guarantees.
pub open spec fn enumerate_methods_post(e: UnrealEngine, class_addr: usize, r: Result<Vec<MethodInfo>, EngineError>) -> bool {
    &&& !e.initialized ==> r is Err && r->Err_0.spec_kind() == ErrorKind::NotInitialized
    &&& e.initialized ==> (r is Ok <==> probe_from(e.process.memory, class_addr as int, 0) is Some)
    &&& r is Ok ==> {
                    let ms = methods_from(
                        e.process.memory,
                        e.gnames,
                        probe_from(e.process.memory, class_addr as int, 0)->0.children,
                        MAX_LINKS as nat,
                    );
                    &&& r->Ok_0@.len() == ms.len()
                    &&& forall|k: int|
                        0 <= k < ms.len() ==> method_info_matches(
                            #[trigger] r->Ok_0@[k],
                            e.process.memory,
                            e.gnames,
                            ms[k],
                        )
                }
}

/// What `UnrealEngine::find_field` guarantees.
pub open spec fn find_field_post(e: UnrealEngine, class_addr: usize, field_name: Seq<char>, r: Result<FieldHandle, EngineError>) -> bool {
    &&& !e.initialized ==> r is Err && r->Err_0.spec_kind() == ErrorKind::NotInitialized
    &&& e.initialized && probe_from(e.process.memory, class_addr as int, 0) is None ==> r is Err
    &&& e.initialized && probe_from(e.process.memory, class_addr as int, 0) is Some ==> {
                    let l = field_lookup(
                        e.process.memory,
                        e.gnames,
                        probe_from(e.process.memory, class_addr as int, 0)->0.child_properties,
                        field_name,
                        MAX_LINKS as nat,
                    );
                    &&& (r is Ok <==> l is Found)
                    &&& l is Found ==> r == Ok::<FieldHandle, EngineError>(FieldHandle(l->Found_0))
                    &&& !(l is Found) ==> r->Err_0.spec_kind() == ErrorKind::FieldNotFound
                }
}

/// What `UnrealEngine::get_field_info` guarantees.
pub open spec fn get_field_info_post(e: UnrealEngine, field_addr: usize, r: Result<FieldInfo, EngineError>) -> bool {
    &&& !e.initialized ==> r is Err && r->Err_0.spec_kind() == ErrorKind::NotInitialized
    &&& e.initialized ==> (r is Ok <==> field_info_of(e.process.memory, e.gnames, field_addr) is Some)
    &&& r is Ok ==> field_info_matches(r->Ok_0, e.process.memory, e.gnames, field_addr)
}

/// What `UnrealEngine::enumerate_fields` guarantees.
pub open spec fn enumerate_fields_post(e: UnrealEngine, class_addr: usize, r: Result<Vec<FieldInfo>, EngineError>) -> bool {
    &&& !e.initialized ==> r is Err && r->Err_0.spec_kind() == ErrorKind::NotInitialized
    &&& e.initialized ==> (r is Ok <==> probe_from(e.process.memory, class_addr as int, 0) is Some)
    &&& r is Ok ==> {
                    let fs = fields_from(
                        e.process.memory,
                        e.gnames,
                        probe_from(e.process.memory, class_addr as int, 0)->0.child_properties,
                        MAX_LINKS as nat,
                    );
                    &&& r->Ok_0@.len() == fs.len()
                    &&& forall|k: int|
                        0 <= k < fs.len() ==> field_info_matches(
                            #[trigger] r->Ok_0@[k],
                            e.process.memory,
                            e.gnames,
                            fs[k],
                        )
                }
}

/// What `UnrealEngine::invoke` guarantees.
pub open spec fn invoke_post(e: UnrealEngine, instance: Option<InstanceHandle>, method: MethodHandle, args: Seq<Value>, r: Result<InvokeRequest, EngineError>) -> bool {
    &&& !e.initialized ==> r is Err && r->Err_0.spec_kind() == ErrorKind::NotInitialized
    &&& e.initialized && instance is None ==> r is Err && r->Err_0.spec_kind() == ErrorKind::InvocationFailed
    &&& e.initialized && instance is Some && args.len() > 0 ==> r is Err && r->Err_0.spec_kind()
                    == ErrorKind::UnsupportedOperation
    &&& e.initialized && instance is Some && args.len() == 0 ==> r == Ok::<InvokeRequest, EngineError>(InvokeRequest {
                    instance: (instance->0).0,
                    method: method.0,
                    params_size: PARAMS_BUFFER_SIZE,
                    process_event: e.process_event,
                })
}

/// What `UnrealEngine::write_field_impl` guarantees, from state `o` to state `n`.
pub open spec fn write_field_post(o: UnrealEngine, n: UnrealEngine, instance_addr: usize, field_offset: usize, value: Value, r: Result<(), EngineError>) -> bool {
    &&& (n.process.memory.wf())
    &&& (n.process.memory.regions@ == o.process.memory.regions@)
    &&& (n.initialized == o.initialized)
    &&& (n.gnames == o.gnames && n.gobjects == o.gobjects)
    &&& (!o.initialized ==> r is Err && r->Err_0.spec_kind() == ErrorKind::NotInitialized)
    &&& (o.initialized && value_bytes(value) is None ==> r is Err && r->Err_0.spec_kind()
                == ErrorKind::TypeMismatch)
    &&& (r is Err ==> n.process.memory.blocks@ == o.process.memory.blocks@)
    &&& (r is Ok ==> o.initialized && value_bytes(value) is Some && n.process.memory.spec_read(
                instance_addr + field_offset,
                value_bytes(value)->0.len() as int,
            ) == value_bytes(value))
    &&& (o.initialized && value_bytes(value) is Some && instance_addr + field_offset <= usize::MAX
                && (exists|i: int| #[trigger] crate::memory::is_holder(o.process.memory.blocks@, instance_addr + field_offset, value_bytes(value)->0.len() as int, i))
                ==> r is Ok)
}

impl UnrealEngine {
    /// The next method after `current`, reading the link at offset 40.
    fn read_next_method(&self, current: usize) -> (r: Option<usize>)
        requires
            self.process.memory.wf(),
        ensures
            r == next_method(self.process.memory, current),
    {
        if current > usize::MAX - UFIELD_NEXT_OFFSET {
            proof {
                self.process.memory.lemma_read_beyond(current + UFIELD_NEXT_OFFSET, 8);
            }
            return None;
        }
        match self.process.memory.read_u64(current + UFIELD_NEXT_OFFSET) {
            Ok(v) => Some(v as usize),
            Err(_) => None,
        }
    }

    /// Finds the method named `method_name` of the class at `class_addr`.
    pub fn find_method(&self, class_addr: usize, method_name: &str) -> (r: Result<MethodHandle, EngineError>)
        requires
            self.process.memory.wf(),
        ensures
            find_method_post(*self, class_addr, method_name@, r),

    {
        if !self.initialized {
            return Err(EngineError::NotInitialized);
        }
        let ustruct = match UStruct::read(&self.process.memory, class_addr) {
            Ok(u) => u,
            Err(_) => {
                return Err(error_with(ErrorKind::MemoryError, "UStruct read failed"));
            },
        };
        let target = method_name.to_owned();
        let ghost img = self.process.memory;
        let ghost start = ustruct.children;
        let mut current = ustruct.children;
        let mut count: usize = 0;
        while current != 0 && count < MAX_LINKS
            invariant
                count <= MAX_LINKS,
                img == self.process.memory,
                img.wf(),
                self.initialized,
                target@ == method_name@,
                probe_from(img, class_addr as int, 0) == Some(ustruct),
                start == ustruct.children,
                method_lookup(img, self.gnames, start, method_name@, MAX_LINKS as nat) == method_lookup(
                    img,
                    self.gnames,
                    current,
                    method_name@,
                    (MAX_LINKS - count) as nat,
                ),
            decreases MAX_LINKS - count,
        {
            if let Ok(name) = self.get_object_name(current) {
                if name == target {
                    return Ok(MethodHandle(current));
                }
            }
            current = match self.read_next_method(current) {
                Some(n) => n,
                None => {
                    return Err(error_with(ErrorKind::MemoryError, "method link unreadable"));
                },
            };
            count = count + 1;
        }
        proof {
            assert(method_lookup(img, self.gnames, current, method_name@, (MAX_LINKS - count) as nat) == Lookup::NotFound);
        }
        Err(error_with(ErrorKind::MethodNotFound, method_name))
    }

    /// The description of the method at `method_addr`; parameters are not read.
    pub fn get_method_info(&self, method_addr: usize) -> (r: Result<MethodInfo, EngineError>)
        ensures
            get_method_info_post(*self, method_addr, r),

    {
        let name = self.get_object_name(method_addr)?;
        Ok(
            MethodInfo {
                name,
                handle: MethodHandle(method_addr),
                params: Vec::new(),
                return_type: None,
                is_static: false,
            },
        )
    }

    /// Every method of the class at `class_addr` whose name can be read, at
    /// most a thousand links along the list.
    pub fn enumerate_methods(&self, class_addr: usize) -> (r: Result<Vec<MethodInfo>, EngineError>)
        requires
            self.process.memory.wf(),
        ensures
            enumerate_methods_post(*self, class_addr, r),

    {
        if !self.initialized {
            return Err(EngineError::NotInitialized);
        }
        let ustruct = match UStruct::read(&self.process.memory, class_addr) {
            Ok(u) => u,
            Err(_) => {
                return Err(error_with(ErrorKind::MemoryError, "UStruct read failed"));
            },
        };
        let ghost img = self.process.memory;
        let ghost total = methods_from(img, self.gnames, ustruct.children, MAX_LINKS as nat);
        let mut current = ustruct.children;
        let mut methods: Vec<MethodInfo> = Vec::new();
        let ghost acc: Seq<usize> = Seq::empty();
        let mut count: usize = 0;
        while current != 0 && count < MAX_LINKS
            invariant
                count <= MAX_LINKS,
                img == self.process.memory,
                img.wf(),
                self.initialized,
                probe_from(img, class_addr as int, 0) == Some(ustruct),
                total == methods_from(img, self.gnames, ustruct.children, MAX_LINKS as nat),
                acc + methods_from(img, self.gnames, current, (MAX_LINKS - count) as nat) == total,
                methods@.len() == acc.len(),
                forall|k: int|
                    0 <= k < acc.len() ==> method_info_matches(
                        #[trigger] methods@[k],
                        img,
                        self.gnames,
                        acc[k],
                    ),
            decreases MAX_LINKS - count,
        {
            let ghost here: Seq<usize> = Seq::empty();
            if let Ok(info) = self.get_method_info(current) {
                methods.push(info);
                proof {
                    here = seq![current];
                }
            }
            let ghost fuel = (MAX_LINKS - count) as nat;
            match self.read_next_method(current) {
                Some(n) => {
                    proof {
                        assert(methods_from(img, self.gnames, current, fuel) == here + methods_from(
                            img,
                            self.gnames,
                            n,
                            (fuel - 1) as nat,
                        ));
                        assert(acc + (here + methods_from(img, self.gnames, n, (fuel - 1) as nat))
                            =~= (acc + here) + methods_from(img, self.gnames, n, (fuel - 1) as nat));
                        acc = acc + here;
                    }
                    current = n;
                },
                None => {
                    proof {
                        assert(methods_from(img, self.gnames, current, fuel) =~= here);
                        acc = acc + here;
                    }
                    return Ok(methods);
                },
            }
            count = count + 1;
        }
        proof {
            assert(methods_from(img, self.gnames, current, (MAX_LINKS - count) as nat) =~= Seq::empty());
            assert(acc + Seq::<usize>::empty() =~= acc);
        }
        Ok(methods)
    }

    /// Finds the property named `field_name` of the class at `class_addr`,
    /// at most a thousand links along the list.
    pub fn find_field(&self, class_addr: usize, field_name: &str) -> (r: Result<FieldHandle, EngineError>)
        requires
            self.process.memory.wf(),
        ensures
            find_field_post(*self, class_addr, field_name@, r),

    {
        if !self.initialized {
            return Err(EngineError::NotInitialized);
        }
        let ustruct = match UStruct::read(&self.process.memory, class_addr) {
            Ok(u) => u,
            Err(_) => {
                return Err(error_with(ErrorKind::MemoryError, "UStruct read failed"));
            },
        };
        let target = field_name.to_owned();
        let ghost img = self.process.memory;
        let ghost start = ustruct.child_properties;
        let mut current = ustruct.child_properties;
        let mut count: usize = 0;
        while current != 0 && count < MAX_LINKS
            invariant
                count <= MAX_LINKS,
                img == self.process.memory,
                self.initialized,
                target@ == field_name@,
                probe_from(img, class_addr as int, 0) == Some(ustruct),
                start == ustruct.child_properties,
                field_lookup(img, self.gnames, start, field_name@, MAX_LINKS as nat) == field_lookup(
                    img,
                    self.gnames,
                    current,
                    field_name@,
                    (MAX_LINKS - count) as nat,
                ),
            decreases MAX_LINKS - count,
        {
            let field = match FField::read(&self.process.memory, current) {
                Ok(f) => f,
                Err(_) => {
                    return Err(error_with(ErrorKind::FieldNotFound, field_name));
                },
            };
            if let Ok(name) = self.get_fname(field.name.comparison_index) {
                if name == target {
                    return Ok(FieldHandle(current));
                }
            }
            current = field.next;
            count = count + 1;
        }
        proof {
            assert(field_lookup(img, self.gnames, current, field_name@, (MAX_LINKS - count) as nat) == Lookup::NotFound);
        }
        Err(error_with(ErrorKind::FieldNotFound, field_name))
    }

    /// The offset of the property at `field_addr`, by probing.
    fn probe_field_offset(&self, field_addr: usize) -> (r: usize)
        requires
            self.process.memory.wf(),
        ensures
            r == field_offset_from(self.process.memory, field_addr, 0),
    {
        let probes: [usize; 8] = [56, 60, 64, 68, 72, 44, 48, 52];
        let ghost img = self.process.memory;
        let mut k: usize = 0;
        while k < 8
            invariant
                k <= 8,
                img == self.process.memory,
                img.wf(),
                probes@ == seq![56usize, 60usize, 64usize, 68usize, 72usize, 44usize, 48usize, 52usize],
                field_offset_from(img, field_addr, 0) == field_offset_from(img, field_addr, k as int),
            decreases 8 - k,
        {
            let off = probes[k];
            assert(off == field_probe(k as int));
            if field_addr <= usize::MAX - off {
                if let Ok(v) = self.process.memory.read_u32(field_addr + off) {
                    let val = v as i32;
                    if val >= 0 && val < 0x10000 {
                        return v as usize;
                    }
                }
            } else {
                proof {
                    img.lemma_read_beyond(field_addr + off, 4);
                }
            }
            k = k + 1;
        }
        0
    }

    /// The description of the property at `field_addr`.
    pub fn get_field_info(&self, field_addr: usize) -> (r: Result<FieldInfo, EngineError>)
        requires
            self.process.memory.wf(),
        ensures
            get_field_info_post(*self, field_addr, r),

    {
        if !self.initialized {
            return Err(EngineError::NotInitialized);
        }
        let field = match FField::read(&self.process.memory, field_addr) {
            Ok(f) => f,
            Err(_) => {
                return Err(error_with(ErrorKind::MemoryError, "property unreadable"));
            },
        };
        let name = self.get_fname(field.name.comparison_index)?;
        let offset = self.probe_field_offset(field_addr);
        Ok(
            FieldInfo {
                name,
                handle: FieldHandle(field_addr),
                offset,
                type_info: TypeInfo { name: "unknown".to_owned(), size: 0, kind: TypeKind::Unknown },
            },
        )
    }

    /// Every property of the class at `class_addr` whose description can be
    /// read, at most a thousand links along the list.
    pub fn enumerate_fields(&self, class_addr: usize) -> (r: Result<Vec<FieldInfo>, EngineError>)
        requires
            self.process.memory.wf(),
        ensures
            enumerate_fields_post(*self, class_addr, r),

    {
        if !self.initialized {
            return Err(EngineError::NotInitialized);
        }
        let ustruct = match UStruct::read(&self.process.memory, class_addr) {
            Ok(u) => u,
            Err(_) => {
                return Err(error_with(ErrorKind::MemoryError, "UStruct read failed"));
            },
        };
        let ghost img = self.process.memory;
        let ghost total = fields_from(img, self.gnames, ustruct.child_properties, MAX_LINKS as nat);
        let mut current = ustruct.child_properties;
        let mut fields: Vec<FieldInfo> = Vec::new();
        let ghost acc: Seq<usize> = Seq::empty();
        let mut count: usize = 0;
        while current != 0 && count < MAX_LINKS
            invariant
                count <= MAX_LINKS,
                img == self.process.memory,
                img.wf(),
                self.initialized,
                probe_from(img, class_addr as int, 0) == Some(ustruct),
                total == fields_from(img, self.gnames, ustruct.child_properties, MAX_LINKS as nat),
                acc + fields_from(img, self.gnames, current, (MAX_LINKS - count) as nat) == total,
                fields@.len() == acc.len(),
                forall|k: int|
                    0 <= k < acc.len() ==> field_info_matches(
                        #[trigger] fields@[k],
                        img,
                        self.gnames,
                        acc[k],
                    ),
            decreases MAX_LINKS - count,
        {
            let ghost fuel = (MAX_LINKS - count) as nat;
            let field = match FField::read(&self.process.memory, current) {
                Ok(f) => f,
                Err(_) => {
                    proof {
                        assert(fields_from(img, self.gnames, current, fuel) =~= Seq::empty());
                        assert(acc + Seq::<usize>::empty() =~= acc);
                    }
                    return Ok(fields);
                },
            };
            let ghost here: Seq<usize> = Seq::empty();
            if let Ok(info) = self.get_field_info(current) {
                fields.push(info);
                proof {
                    here = seq![current];
                }
            }
            proof {
                assert(fields_from(img, self.gnames, current, fuel) == here + fields_from(
                    img,
                    self.gnames,
                    field.next,
                    (fuel - 1) as nat,
                ));
                assert(acc + (here + fields_from(img, self.gnames, field.next, (fuel - 1) as nat))
                    =~= (acc + here) + fields_from(img, self.gnames, field.next, (fuel - 1) as nat));
                acc = acc + here;
            }
            current = field.next;
            count = count + 1;
        }
        proof {
            assert(fields_from(img, self.gnames, current, (MAX_LINKS - count) as nat) =~= Seq::empty());
            assert(acc + Seq::<usize>::empty() =~= acc);
        }
        Ok(fields)
    }

    /// Reads the field at `field_offset` of the object at `instance_addr`:
    /// a primitive kind decodes its bytes, any other kind gives its raw
    /// bytes as a struct value.
    pub fn read_field_impl(&self, instance_addr: usize, field_offset: usize, field_type: &TypeInfo) -> (r: Result<Value, EngineError>)
        ensures
            !self.initialized ==> r is Err && r->Err_0.spec_kind() == ErrorKind::NotInitialized,
            self.initialized ==> {
                let addr = instance_addr + field_offset;
                let size = match field_type.kind {
                    TypeKind::Primitive(p) => p.spec_size() as int,
                    _ => field_type.size as int,
                };
                let bytes = self.process.memory.spec_read(addr, size);
                &&& (r is Ok <==> addr <= usize::MAX && bytes is Some)
                &&& r is Err ==> r->Err_0.spec_kind() == ErrorKind::MemoryError
                &&& r is Ok ==> match field_type.kind {
                    TypeKind::Primitive(p) => decodes_as(r->Ok_0, p, bytes->0),
                    _ => r->Ok_0 matches Value::Struct(b) && b@ == bytes->0,
                }
            },
    {
        if !self.initialized {
            return Err(EngineError::NotInitialized);
        }
        if instance_addr > usize::MAX - field_offset {
            return Err(error_with(ErrorKind::MemoryError, "field address overflows"));
        }
        let addr = instance_addr + field_offset;
        let size = match &field_type.kind {
            TypeKind::Primitive(p) => p.size(),
            _ => field_type.size,
        };
        let data = match self.process.memory.read_memory(addr, size) {
            Ok(d) => d,
            Err(_) => {
                return Err(error_with(ErrorKind::MemoryError, "field unreadable"));
            },
        };
        proof {
            self.process.memory.lemma_read_len(addr as int, size as int);
        }
        match &field_type.kind {
            TypeKind::Primitive(p) => {
                let s = data.as_slice();
                let v = match p {
                    PrimitiveType::Bool => Value::Bool(s[0] != 0),
                    PrimitiveType::I8 => Value::I8(s[0] as i8),
                    PrimitiveType::U8 => Value::U8(s[0]),
                    PrimitiveType::I16 => Value::I16(u16_from_le_bytes(s) as i16),
                    PrimitiveType::U16 => Value::U16(u16_from_le_bytes(s)),
                    PrimitiveType::I32 => Value::I32(read_u32_at(s, 0) as i32),
                    PrimitiveType::U32 => Value::U32(read_u32_at(s, 0)),
                    PrimitiveType::F32 => Value::F32(read_u32_at(s, 0)),
                    PrimitiveType::I64 => Value::I64(read_u64_at(s, 0) as i64),
                    PrimitiveType::U64 => Value::U64(read_u64_at(s, 0)),
                    PrimitiveType::F64 => Value::F64(read_u64_at(s, 0)),
                };
                Ok(v)
            },
            _ => Ok(Value::Struct(data)),
        }
    }

    /// Writes `value` into the field at `field_offset` of the object at
    /// `instance_addr`: primitives as little-endian bytes, struct values as
    /// their raw bytes; other values are a type mismatch.
    pub fn write_field_impl(&mut self, instance_addr: usize, field_offset: usize, value: &Value) -> (r: Result<(), EngineError>)
        requires
            old(self).process.memory.wf(),
        ensures
            write_field_post(*old(self), *final(self), instance_addr, field_offset, *value, r),
    {
        if !self.initialized {
            return Err(EngineError::NotInitialized);
        }
        let data: Vec<u8> = match value {
            Value::Bool(v) => vec![if *v { 1u8 } else { 0u8 }],
            Value::I8(v) => vec![*v as u8],
            Value::U8(v) => vec![*v],
            Value::I16(v) => u16_to_le_bytes(*v as u16),
            Value::U16(v) => u16_to_le_bytes(*v),
            Value::I32(v) => u32_to_le_bytes(*v as u32),
            Value::U32(v) => u32_to_le_bytes(*v),
            Value::F32(v) => u32_to_le_bytes(*v),
            Value::I64(v) => u64_to_le_bytes(*v as u64),
            Value::U64(v) => u64_to_le_bytes(*v),
            Value::F64(v) => u64_to_le_bytes(*v),
            Value::Struct(v) => copy_range(v.as_slice(), 0, v.len()),
            _ => {
                return Err(
                    EngineError::TypeMismatch {
                        expected: "primitive or struct".to_owned(),
                        got: "other value".to_owned(),
                    },
                );
            },
        };
        proof {
            assert(data@ =~= value_bytes(*value)->0);
        }
        if instance_addr > usize::MAX - field_offset {
            return Err(error_with(ErrorKind::MemoryError, "field address overflows"));
        }
        match self.process.memory.write_memory(instance_addr + field_offset, data.as_slice()) {
            Ok(()) => Ok(()),
            Err(_) => Err(error_with(ErrorKind::MemoryError, "field write failed")),
        }
    }

    /// Prepares a call of the method at `method` on `instance`: the engine
    /// must be initialized, an instance is required, and arguments are not
    /// supported yet.
    pub fn invoke(&self, instance: Option<InstanceHandle>, method: MethodHandle, args: &Vec<Value>) -> (r: Result<InvokeRequest, EngineError>)
        ensures
            invoke_post(*self, instance, method, args@, r),

    {
        if !self.initialized {
            return Err(EngineError::NotInitialized);
        }
        let instance_addr = match instance {
            Some(h) => h.0,
            None => {
                return Err(error_with(ErrorKind::InvocationFailed, "UE requires instance for method call"));
            },
        };
        if args.len() > 0 {
            return Err(error_with(ErrorKind::UnsupportedOperation, "argument marshaling is not supported"));
        }
        Ok(
            InvokeRequest {
                instance: instance_addr,
                method: method.0,
                params_size: PARAMS_BUFFER_SIZE,
                process_event: self.process_event,
            },
        )
    }

    /// The thunk that calls `ProcessEvent(instance, function, params)`.
    pub fn generate_process_event_shellcode(&self, instance: usize, function: usize, params: usize) -> (r: Vec<u8>)
        ensures
            r@ == shellcode_bytes(instance, function, params, self.process_event),
    {
        let mut code: Vec<u8> = Vec::new();
        let sub_rsp: Vec<u8> = vec![0x48, 0x83, 0xEC, 0x28];
        let mov_rcx: Vec<u8> = vec![0x48, 0xB9];
        let mov_rdx: Vec<u8> = vec![0x48, 0xBA];
        let mov_r8: Vec<u8> = vec![0x49, 0xB8];
        let mov_rax: Vec<u8> = vec![0x48, 0xB8];
        let call_rax: Vec<u8> = vec![0xFF, 0xD0];
        let add_rsp: Vec<u8> = vec![0x48, 0x83, 0xC4, 0x28];
        let ret: Vec<u8> = vec![0xC3];
        push_all(&mut code, sub_rsp.as_slice());
        push_all(&mut code, mov_rcx.as_slice());
        push_all(&mut code, u64_to_le_bytes(instance as u64).as_slice());
        push_all(&mut code, mov_rdx.as_slice());
        push_all(&mut code, u64_to_le_bytes(function as u64).as_slice());
        push_all(&mut code, mov_r8.as_slice());
        push_all(&mut code, u64_to_le_bytes(params as u64).as_slice());
        push_all(&mut code, mov_rax.as_slice());
        push_all(&mut code, u64_to_le_bytes(self.process_event as u64).as_slice());
        push_all(&mut code, call_rax.as_slice());
        push_all(&mut code, add_rsp.as_slice());
        push_all(&mut code, ret.as_slice());
        proof {
            assert(sub_rsp@ =~= seq![0x48u8, 0x83, 0xEC, 0x28]);
            assert(mov_rcx@ =~= seq![0x48u8, 0xB9]);
            assert(mov_rdx@ =~= seq![0x48u8, 0xBA]);
            assert(mov_r8@ =~= seq![0x49u8, 0xB8]);
            assert(mov_rax@ =~= seq![0x48u8, 0xB8]);
            assert(call_rax@ =~= seq![0xFFu8, 0xD0]);
            assert(add_rsp@ =~= seq![0x48u8, 0x83, 0xC4, 0x28]);
            assert(ret@ =~= seq![0xC3u8]);
            assert(code@ =~= shellcode_bytes(instance, function, params, self.process_event));
        }
        code
    }
}

} // verus!
