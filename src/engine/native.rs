use vstd::prelude::*;
use super::error::{EngineError, ErrorKind, error_with};
use crate::byteseq::push_all;
use crate::text::{decode_utf8_lossy, utf8_lossy_of};
use super::types::{ClassHandle, ClassInfo, FieldHandle, FieldInfo, InstanceHandle, MethodHandle, MethodInfo};

verus! {

/// An upper-case hexadecimal digit.
pub open spec fn hex_digit_upper(d: nat) -> u8 {
    if d < 10 {
        (0x30 + d) as u8
    } else {
        (0x41 + d - 10) as u8
    }
}

/// `v` written in upper-case hexadecimal, without leading zeros.
pub open spec fn hex_upper(v: nat) -> Seq<u8>
    decreases v,
{
    if v < 16 {
        seq![hex_digit_upper(v)]
    } else {
        hex_upper(v / 16).push(hex_digit_upper(v % 16))
    }
}

/// The name given to a function known only by its address: `func_0x`
/// followed by the address in upper-case hexadecimal.
pub open spec fn fallback_name_bytes(addr: usize) -> Seq<u8> {
    seq![0x66u8, 0x75, 0x6E, 0x63, 0x5F, 0x30, 0x78] + hex_upper(addr as nat)
}

fn hex_upper_exec(v: usize) -> (r: Vec<u8>)
    ensures
        r@ == hex_upper(v as nat),
    decreases v,
{
    let d = (v % 16) as u8;
    let c = if d < 10 {
        0x30 + d
    } else {
        0x41 + d - 10
    };
    if v < 16 {
        vec![c]
    } else {
        let mut r = hex_upper_exec(v / 16);
        r.push(c);
        r
    }
}

/// The fallback name of the function at `addr`.
fn fallback_name(addr: usize) -> (r: String)
    ensures
        r@ == utf8_lossy_of(fallback_name_bytes(addr)),
{
    let mut bytes: Vec<u8> = vec![0x66u8, 0x75, 0x6E, 0x63, 0x5F, 0x30, 0x78];
    let digits = hex_upper_exec(addr);
    push_all(&mut bytes, digits.as_slice());
    assert(bytes@ =~= fallback_name_bytes(addr));
    decode_utf8_lossy(bytes.as_slice())
}

/// The name of the first symbol at `addr`, from position `i` on.
pub open spec fn symbol_name_from(syms: Seq<(String, usize)>, addr: usize, i: int) -> Option<Seq<char>>
    decreases syms.len() - i,
{
    if i < 0 || i >= syms.len() {
        None
    } else if syms[i].1 == addr {
        Some(syms[i].0@)
    } else {
        symbol_name_from(syms, addr, i + 1)
    }
}

/// The name `get_method_info` gives the function at `addr`: its first
/// exported name, else the fallback name.
pub open spec fn method_name_of(syms: Seq<(String, usize)>, addr: usize) -> Seq<char> {
    match symbol_name_from(syms, addr, 0) {
        Some(n) => n,
        None => utf8_lossy_of(fallback_name_bytes(addr)),
    }
}

/// What `NativeEngine::find_method` guarantees.
pub open spec fn native_find_method_post(e: NativeEngine, name: Seq<char>, r: Result<MethodHandle, EngineError>) -> bool {
    &&& !e.spec_initialized() ==> r is Err && r->Err_0.spec_kind() == ErrorKind::NotInitialized
    &&& e.spec_initialized() ==> (r is Ok <==> exists|k: int|
        0 <= k < e.spec_symbols().len() && (#[trigger] e.spec_symbols()[k]).0@ == name)
    &&& r is Ok ==> exists|k: int|
        0 <= k < e.spec_symbols().len() && (#[trigger] e.spec_symbols()[k]).0@ == name
            && r->Ok_0 == MethodHandle(e.spec_symbols()[k].1)
    &&& e.spec_initialized() && r is Err ==> r->Err_0.spec_kind() == ErrorKind::MethodNotFound
}

/// What `NativeEngine::get_method_info` guarantees.
pub open spec fn native_method_info_post(e: NativeEngine, method: MethodHandle, r: Result<MethodInfo, EngineError>) -> bool {
    &&& !e.spec_initialized() ==> r is Err && r->Err_0.spec_kind() == ErrorKind::NotInitialized
    &&& e.spec_initialized() ==> r is Ok
    &&& r is Ok ==> r->Ok_0.handle == method && r->Ok_0.is_static && r->Ok_0.params@.len() == 0
        && r->Ok_0.return_type is None
    &&& r is Ok ==> r->Ok_0.name@ == method_name_of(e.spec_symbols(), method.0)
}

/// What `NativeEngine::enumerate_methods` guarantees.
pub open spec fn native_methods_post(e: NativeEngine, r: Result<Vec<MethodInfo>, EngineError>) -> bool {
    &&& !e.spec_initialized() ==> r is Err && r->Err_0.spec_kind() == ErrorKind::NotInitialized
    &&& e.spec_initialized() ==> r is Ok && r->Ok_0@.len() == e.spec_symbols().len()
    &&& r is Ok ==> forall|k: int| 0 <= k < r->Ok_0@.len() ==> {
        &&& (#[trigger] r->Ok_0@[k]).name@ == e.spec_symbols()[k].0@
        &&& r->Ok_0@[k].handle == MethodHandle(e.spec_symbols()[k].1)
        &&& r->Ok_0@[k].is_static
    }
}

/// The native backend: functions from the export table, no classes.
pub struct NativeEngine {
    process_handle: usize,
    symbols: Vec<(String, usize)>,
    initialized: bool,
}

impl NativeEngine {
    pub closed spec fn spec_initialized(&self) -> bool {
        self.initialized
    }

    /// The exported functions, by name and address.
    pub closed spec fn spec_symbols(&self) -> Seq<(String, usize)> {
        self.symbols@
    }

    /// Exported names are unique, as in a map from name to address.
    pub open spec fn wf(&self) -> bool {
        forall|a: int, b: int|
            0 <= a < b < self.spec_symbols().len() ==> (#[trigger] self.spec_symbols()[a]).0@
                != (#[trigger] self.spec_symbols()[b]).0@
    }

    pub fn new(process_handle: usize) -> (r: NativeEngine)
        ensures
            !r.spec_initialized(),
            r.spec_symbols().len() == 0,
            r.wf(),
    {
        NativeEngine { process_handle, symbols: Vec::new(), initialized: false }
    }

    pub fn name(&self) -> (r: &'static str)
        ensures
            r@ == "Native"@,
    {
        "Native"
    }

    pub fn is_initialized(&self) -> (r: bool)
        ensures
            r == self.spec_initialized(),
    {
        self.initialized
    }

    /// Reading the export table is not implemented: no symbols are added.
    fn parse_export_table(&mut self) -> (r: Result<(), EngineError>)
        ensures
            r is Ok,
            final(self).spec_symbols() == old(self).spec_symbols(),
            final(self).spec_initialized() == old(self).spec_initialized(),
    {
        Ok(())
    }

    /// Initializes the backend; succeeds.
    pub fn initialize(&mut self) -> (r: Result<(), EngineError>)
        ensures
            r is Ok,
            final(self).spec_initialized(),
            final(self).spec_symbols() == old(self).spec_symbols(),
    {
        if self.initialized {
            return Ok(());
        }
        self.parse_export_table()?;
        self.initialized = true;
        Ok(())
    }

    /// No classes: not-initialized before initialization, else class-not-found.
    pub fn find_class(&self, name: &str) -> (r: Result<ClassHandle, EngineError>)
        ensures
            r is Err,
            !self.spec_initialized() ==> r->Err_0.spec_kind() == ErrorKind::NotInitialized,
            self.spec_initialized() ==> r->Err_0.spec_kind() == ErrorKind::ClassNotFound,
    {
        if !self.initialized {
            return Err(EngineError::NotInitialized);
        }
        Err(error_with(ErrorKind::ClassNotFound, name))
    }

    pub fn enumerate_classes(&self) -> (r: Result<Vec<ClassInfo>, EngineError>)
        ensures
            !self.spec_initialized() ==> r is Err && r->Err_0.spec_kind() == ErrorKind::NotInitialized,
            self.spec_initialized() ==> r is Ok && r->Ok_0@.len() == 0,
    {
        if !self.initialized {
            return Err(EngineError::NotInitialized);
        }
        Ok(Vec::new())
    }

    /// The address of the exported function named `name`.
    pub fn find_method(&self, _class: ClassHandle, name: &str) -> (r: Result<MethodHandle, EngineError>)
        ensures
            native_find_method_post(*self, name@, r),
    {
        if !self.initialized {
            return Err(EngineError::NotInitialized);
        }
        let target = name.to_owned();
        let mut i: usize = 0;
        while i < self.symbols.len()
            invariant
                i <= self.symbols@.len(),
                self.initialized,
                target@ == name@,
                forall|j: int| 0 <= j < i ==> (#[trigger] self.symbols@[j]).0@ != name@,
            decreases self.symbols@.len() - i,
        {
            if self.symbols[i].0 == target {
                proof {
                    assert(self.spec_symbols()[i as int].0@ == name@);
                }
                return Ok(MethodHandle(self.symbols[i].1));
            }
            i = i + 1;
        }
        Err(error_with(ErrorKind::MethodNotFound, name))
    }

    /// The function at `method`: its first exported name, else a name made
    /// from its address.
    pub fn get_method_info(&self, method: MethodHandle) -> (r: Result<MethodInfo, EngineError>)
        ensures
            native_method_info_post(*self, method, r),
    {
        if !self.initialized {
            return Err(EngineError::NotInitialized);
        }
        let mut i: usize = 0;
        while i < self.symbols.len()
            invariant
                i <= self.symbols@.len(),
                self.initialized,
                symbol_name_from(self.symbols@, method.0, 0) == symbol_name_from(self.symbols@, method.0, i as int),
            decreases self.symbols@.len() - i,
        {
            if self.symbols[i].1 == method.0 {
                let name = self.symbols[i].0.clone();
                proof {
                    assert(symbol_name_from(self.symbols@, method.0, i as int) == Some(self.symbols@[i as int].0@));
                    assert(name@ == method_name_of(self.spec_symbols(), method.0));
                }
                return Ok(MethodInfo { name, handle: method, params: Vec::new(), return_type: None, is_static: true });
            }
            i = i + 1;
        }
        let name = fallback_name(method.0);
        Ok(MethodInfo { name, handle: method, params: Vec::new(), return_type: None, is_static: true })
    }

    /// Every exported function, as a static method.
    pub fn enumerate_methods(&self, _class: ClassHandle) -> (r: Result<Vec<MethodInfo>, EngineError>)
        ensures
            native_methods_post(*self, r),
    {
        if !self.initialized {
            return Err(EngineError::NotInitialized);
        }
        let mut out: Vec<MethodInfo> = Vec::new();
        let mut i: usize = 0;
        while i < self.symbols.len()
            invariant
                i <= self.symbols@.len(),
                out@.len() == i,
                forall|k: int| 0 <= k < i ==> {
                    &&& (#[trigger] out@[k]).name@ == self.symbols@[k].0@
                    &&& out@[k].handle == MethodHandle(self.symbols@[k].1)
                    &&& out@[k].is_static
                },
            decreases self.symbols@.len() - i,
        {
            out.push(
                MethodInfo {
                    name: self.symbols[i].0.clone(),
                    handle: MethodHandle(self.symbols[i].1),
                    params: Vec::new(),
                    return_type: None,
                    is_static: true,
                },
            );
            i = i + 1;
        }
        Ok(out)
    }

    pub fn find_field(&self, _class: ClassHandle, name: &str) -> (r: Result<FieldHandle, EngineError>)
        ensures
            r is Err,
            !self.spec_initialized() ==> r->Err_0.spec_kind() == ErrorKind::NotInitialized,
            self.spec_initialized() ==> r->Err_0.spec_kind() == ErrorKind::FieldNotFound,
    {
        if !self.initialized {
            return Err(EngineError::NotInitialized);
        }
        Err(error_with(ErrorKind::FieldNotFound, name))
    }

    pub fn enumerate_fields(&self, _class: ClassHandle) -> (r: Result<Vec<FieldInfo>, EngineError>)
        ensures
            !self.spec_initialized() ==> r is Err && r->Err_0.spec_kind() == ErrorKind::NotInitialized,
            self.spec_initialized() ==> r is Ok && r->Ok_0@.len() == 0,
    {
        if !self.initialized {
            return Err(EngineError::NotInitialized);
        }
        Ok(Vec::new())
    }

    pub fn get_instances(&self, _class: ClassHandle) -> (r: Result<Vec<InstanceHandle>, EngineError>)
        ensures
            !self.spec_initialized() ==> r is Err && r->Err_0.spec_kind() == ErrorKind::NotInitialized,
            self.spec_initialized() ==> r is Ok && r->Ok_0@.len() == 0,
    {
        if !self.initialized {
            return Err(EngineError::NotInitialized);
        }
        Ok(Vec::new())
    }

    /// Class info, field info, instance classes, invocation and field access
    /// are not supported: not-initialized before initialization, else unsupported.
    pub fn unsupported(&self) -> (r: EngineError)
        ensures
            !self.spec_initialized() ==> r.spec_kind() == ErrorKind::NotInitialized,
            self.spec_initialized() ==> r.spec_kind() == ErrorKind::UnsupportedOperation,
    {
        if !self.initialized {
            return EngineError::NotInitialized;
        }
        error_with(ErrorKind::UnsupportedOperation, "Native engine does not support this operation")
    }
}

} // verus!
