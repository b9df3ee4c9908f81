use vstd::prelude::*;
use crate::process::Process;
use crate::engine::error::{EngineError, ErrorKind, error_with};
use crate::engine::types::{ClassHandle, FieldHandle, InstanceHandle, MethodInfo, PrimitiveType, TypeInfo, TypeKind, Value};
use methods::decodes_as;

pub mod implementation;
pub mod methods;
pub mod objects;
pub mod offsets;
pub mod scanner;
pub mod signatures;
pub mod structures;

verus! {

/// Unreal Engine versions.
#[derive(Clone, Copy, Debug, PartialEq, Eq, Structural)]
pub enum UEVersion {
    UE4_20,
    UE4_21,
    UE4_22,
    UE4_23,
    UE4_24,
    UE4_25,
    UE4_26,
    UE4_27,
    UE5_0,
    UE5_1,
    UE5_2,
    UE5_3,
    UE5_4,
    Unknown,
}

/// The Unreal Engine backend: a target and the globals found in it.
pub struct UnrealEngine {
    pub process: Process,
    pub module_base: usize,
    pub module_size: usize,
    /// Where the pointer to the name pool was found.
    pub gnames_ptr: usize,
    /// The name pool's block table.
    pub gnames: usize,
    /// Where the global object array was found.
    pub gobjects_ptr: usize,
    /// The global object array.
    pub gobjects: usize,
    pub process_event: usize,
    pub version: UEVersion,
    pub initialized: bool,
}

impl UnrealEngine {
    /// A backend on `process`, not yet initialized.
    pub fn new(process: Process) -> (r: UnrealEngine)
        ensures
            r.process == process,
            !r.initialized,
            r.module_base == 0 && r.module_size == 0,
            r.gnames_ptr == 0 && r.gnames == 0 && r.gobjects_ptr == 0 && r.gobjects == 0,
            r.process_event == 0,
            r.version == UEVersion::Unknown,
    {
        UnrealEngine {
            process,
            module_base: 0,
            module_size: 0,
            gnames_ptr: 0,
            gnames: 0,
            gobjects_ptr: 0,
            gobjects: 0,
            process_event: 0,
            version: UEVersion::Unknown,
            initialized: false,
        }
    }
}

/// The name of an engine version.
pub open spec fn version_name(v: UEVersion) -> Seq<char> {
    match v {
        UEVersion::UE4_20 => "UE4_20"@,
        UEVersion::UE4_21 => "UE4_21"@,
        UEVersion::UE4_22 => "UE4_22"@,
        UEVersion::UE4_23 => "UE4_23"@,
        UEVersion::UE4_24 => "UE4_24"@,
        UEVersion::UE4_25 => "UE4_25"@,
        UEVersion::UE4_26 => "UE4_26"@,
        UEVersion::UE4_27 => "UE4_27"@,
        UEVersion::UE5_0 => "UE5_0"@,
        UEVersion::UE5_1 => "UE5_1"@,
        UEVersion::UE5_2 => "UE5_2"@,
        UEVersion::UE5_3 => "UE5_3"@,
        UEVersion::UE5_4 => "UE5_4"@,
        UEVersion::Unknown => "Unknown"@,
    }
}

/// What `UnrealEngine::read_field` guarantees: the field is read as an `i32`.
pub open spec fn read_field_post(e: UnrealEngine, instance: InstanceHandle, field: FieldHandle, r: Result<Value, EngineError>) -> bool {
    &&& !e.initialized ==> r is Err && r->Err_0.spec_kind() == ErrorKind::NotInitialized
    &&& e.initialized ==> (r is Ok <==> instance.0 + field.0 <= usize::MAX
        && e.process.memory.spec_read(instance.0 + field.0, 4) is Some)
    &&& e.initialized && r is Err ==> r->Err_0.spec_kind() == ErrorKind::MemoryError
    &&& r is Ok ==> decodes_as(r->Ok_0, PrimitiveType::I32, e.process.memory.spec_read(instance.0 + field.0, 4)->0)
}

impl UnrealEngine {
    pub fn name(&self) -> (r: &'static str)
        ensures
            r@ == "Unreal Engine"@,
    {
        "Unreal Engine"
    }

    /// The name of the engine version.
    pub fn version(&self) -> (r: Option<String>)
        ensures
            r is Some && r->0@ == version_name(self.version),
    {
        let v = match self.version {
            UEVersion::UE4_20 => "UE4_20",
            UEVersion::UE4_21 => "UE4_21",
            UEVersion::UE4_22 => "UE4_22",
            UEVersion::UE4_23 => "UE4_23",
            UEVersion::UE4_24 => "UE4_24",
            UEVersion::UE4_25 => "UE4_25",
            UEVersion::UE4_26 => "UE4_26",
            UEVersion::UE4_27 => "UE4_27",
            UEVersion::UE5_0 => "UE5_0",
            UEVersion::UE5_1 => "UE5_1",
            UEVersion::UE5_2 => "UE5_2",
            UEVersion::UE5_3 => "UE5_3",
            UEVersion::UE5_4 => "UE5_4",
            UEVersion::Unknown => "Unknown",
        };
        Some(v.to_owned())
    }

    pub fn is_initialized(&self) -> (r: bool)
        ensures
            r == self.initialized,
    {
        self.initialized
    }

    /// Instances of a class are not collected: an empty list once initialized.
    pub fn get_instances(&self, _class: ClassHandle) -> (r: Result<Vec<InstanceHandle>, EngineError>)
        ensures
            !self.initialized ==> r is Err && r->Err_0.spec_kind() == ErrorKind::NotInitialized,
            self.initialized ==> r is Ok && r->Ok_0@.len() == 0,
    {
        if !self.initialized {
            return Err(EngineError::NotInitialized);
        }
        Ok(Vec::new())
    }

    /// Reading an instance's class is not supported.
    pub fn get_instance_class(&self, _instance: InstanceHandle) -> (r: Result<ClassHandle, EngineError>)
        ensures
            r is Err,
            !self.initialized ==> r->Err_0.spec_kind() == ErrorKind::NotInitialized,
            self.initialized ==> r->Err_0.spec_kind() == ErrorKind::UnsupportedOperation,
    {
        if !self.initialized {
            return Err(EngineError::NotInitialized);
        }
        Err(error_with(ErrorKind::UnsupportedOperation, "Instance class reading not implemented"))
    }

    /// Reads the field whose handle is its offset, as an `i32`.
    pub fn read_field(&self, instance: InstanceHandle, field: FieldHandle) -> (r: Result<Value, EngineError>)
        ensures
            read_field_post(*self, instance, field, r),
    {
        let type_info = TypeInfo {
            name: "unknown".to_owned(),
            size: 4,
            kind: TypeKind::Primitive(PrimitiveType::I32),
        };
        self.read_field_impl(instance.0, field.0, &type_info)
    }

    /// Writes `value` into the field whose handle is its offset.
    pub fn write_field(&mut self, instance: InstanceHandle, field: FieldHandle, value: &Value) -> (r: Result<(), EngineError>)
        requires
            old(self).process.memory.wf(),
        ensures
            methods::write_field_post(*old(self), *final(self), instance.0, field.0, *value, r),
    {
        self.write_field_impl(instance.0, field.0, value)
    }

    /// Listing blueprint-callable functions is not supported.
    pub fn enumerate_blueprint_functions(&self, _class: ClassHandle) -> (r: Result<Vec<MethodInfo>, EngineError>)
        ensures
            r is Err,
            !self.initialized ==> r->Err_0.spec_kind() == ErrorKind::NotInitialized,
            self.initialized ==> r->Err_0.spec_kind() == ErrorKind::UnsupportedOperation,
    {
        if !self.initialized {
            return Err(EngineError::NotInitialized);
        }
        Err(error_with(ErrorKind::UnsupportedOperation, "Blueprint enumeration not implemented"))
    }

    /// Console commands are not supported.
    pub fn execute_console_command(&self, _command: &str) -> (r: Result<(), EngineError>)
        ensures
            r is Err,
            !self.initialized ==> r->Err_0.spec_kind() == ErrorKind::NotInitialized,
            self.initialized ==> r->Err_0.spec_kind() == ErrorKind::UnsupportedOperation,
    {
        if !self.initialized {
            return Err(EngineError::NotInitialized);
        }
        Err(error_with(ErrorKind::UnsupportedOperation, "Console command not implemented"))
    }
}

} // verus!
