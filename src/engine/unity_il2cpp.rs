use vstd::prelude::*;
use super::error::{EngineError, ErrorKind, error_with};
use super::types::{ClassHandle, ClassInfo, FieldHandle, FieldInfo, InstanceHandle, MethodHandle, MethodInfo};

verus! {

/// The Unity (IL2CPP) backend; not implemented, so it never initializes.
pub struct UnityIL2CppEngine {
    process_handle: usize,
    il2cpp_module: usize,
    global_metadata: usize,
    initialized: bool,
}

impl UnityIL2CppEngine {
    pub closed spec fn spec_initialized(&self) -> bool {
        self.initialized
    }

    pub fn new(process_handle: usize) -> (r: UnityIL2CppEngine)
        ensures
            !r.spec_initialized(),
    {
        UnityIL2CppEngine { process_handle, il2cpp_module: 0, global_metadata: 0, initialized: false }
    }

    pub fn name(&self) -> (r: &'static str)
        ensures
            r@ == "Unity (IL2CPP)"@,
    {
        "Unity (IL2CPP)"
    }

    pub fn is_initialized(&self) -> (r: bool)
        ensures
            r == self.spec_initialized(),
    {
        self.initialized
    }

    /// Fails: the backend is not implemented (an initialized backend stays so).
    pub fn initialize(&mut self) -> (r: Result<(), EngineError>)
        ensures
            r is Ok <==> old(self).spec_initialized(),
            r is Err ==> r->Err_0.spec_kind() == ErrorKind::InitializationFailed,
            final(self).spec_initialized() == old(self).spec_initialized(),
    {
        if self.initialized {
            return Ok(());
        }
        Err(error_with(ErrorKind::InitializationFailed, "Unity IL2CPP backend not implemented"))
    }

    /// Fails with not-initialized before initialization, else finds nothing.
    pub fn find_class(&self, name: &str) -> (r: Result<ClassHandle, EngineError>)
        ensures
            r is Err,
            !self.spec_initialized() ==> r->Err_0.spec_kind() == ErrorKind::NotInitialized,
            self.spec_initialized() ==> r->Err_0.spec_kind() == ErrorKind::ClassNotFound,
    {
        if !self.initialized {
            return Err(EngineError::NotInitialized);
        }
        Err(error_with(ErrorKind::ClassNotFound, name))
    }

    /// Fails with not-initialized before initialization, else unsupported.
    pub fn get_class_info(&self, _class: ClassHandle) -> (r: Result<ClassInfo, EngineError>)
        ensures
            r is Err,
            !self.spec_initialized() ==> r->Err_0.spec_kind() == ErrorKind::NotInitialized,
            self.spec_initialized() ==> r->Err_0.spec_kind() == ErrorKind::UnsupportedOperation,
    {
        if !self.initialized {
            return Err(EngineError::NotInitialized);
        }
        Err(error_with(ErrorKind::UnsupportedOperation, "Not implemented"))
    }

    /// Fails with not-initialized before initialization, else lists nothing.
    pub fn enumerate_classes(&self) -> (r: Result<Vec<ClassInfo>, EngineError>)
        ensures
            !self.spec_initialized() ==> r is Err && r->Err_0.spec_kind() == ErrorKind::NotInitialized,
            self.spec_initialized() ==> r is Ok && r->Ok_0@.len() == 0,
    {
        if !self.initialized {
            return Err(EngineError::NotInitialized);
        }
        Ok(Vec::new())
    }

    pub fn find_method(&self, _class: ClassHandle, name: &str) -> (r: Result<MethodHandle, EngineError>)
        ensures
            r is Err,
            !self.spec_initialized() ==> r->Err_0.spec_kind() == ErrorKind::NotInitialized,
            self.spec_initialized() ==> r->Err_0.spec_kind() == ErrorKind::MethodNotFound,
    {
        if !self.initialized {
            return Err(EngineError::NotInitialized);
        }
        Err(error_with(ErrorKind::MethodNotFound, name))
    }

    pub fn get_method_info(&self, _method: MethodHandle) -> (r: Result<MethodInfo, EngineError>)
        ensures
            r is Err,
            !self.spec_initialized() ==> r->Err_0.spec_kind() == ErrorKind::NotInitialized,
            self.spec_initialized() ==> r->Err_0.spec_kind() == ErrorKind::UnsupportedOperation,
    {
        if !self.initialized {
            return Err(EngineError::NotInitialized);
        }
        Err(error_with(ErrorKind::UnsupportedOperation, "Not implemented"))
    }

    pub fn enumerate_methods(&self, _class: ClassHandle) -> (r: Result<Vec<MethodInfo>, EngineError>)
        ensures
            !self.spec_initialized() ==> r is Err && r->Err_0.spec_kind() == ErrorKind::NotInitialized,
            self.spec_initialized() ==> r is Ok && r->Ok_0@.len() == 0,
    {
        if !self.initialized {
            return Err(EngineError::NotInitialized);
        }
        Ok(Vec::new())
    }

    pub fn find_field(&self, _class: ClassHandle, name: &str) -> (r: Result<FieldHandle, EngineError>)
        ensures
            r is Err,
            !self.spec_initialized() ==> r->Err_0.spec_kind() == ErrorKind::NotInitialized,
            self.spec_initialized() ==> r->Err_0.spec_kind() == ErrorKind::FieldNotFound,
    {
        if !self.initialized {
            return Err(EngineError::NotInitialized);
        }
        Err(error_with(ErrorKind::FieldNotFound, name))
    }

    pub fn get_field_info(&self, _field: FieldHandle) -> (r: Result<FieldInfo, EngineError>)
        ensures
            r is Err,
            !self.spec_initialized() ==> r->Err_0.spec_kind() == ErrorKind::NotInitialized,
            self.spec_initialized() ==> r->Err_0.spec_kind() == ErrorKind::UnsupportedOperation,
    {
        if !self.initialized {
            return Err(EngineError::NotInitialized);
        }
        Err(error_with(ErrorKind::UnsupportedOperation, "Not implemented"))
    }

    pub fn enumerate_fields(&self, _class: ClassHandle) -> (r: Result<Vec<FieldInfo>, EngineError>)
        ensures
            !self.spec_initialized() ==> r is Err && r->Err_0.spec_kind() == ErrorKind::NotInitialized,
            self.spec_initialized() ==> r is Ok && r->Ok_0@.len() == 0,
    {
        if !self.initialized {
            return Err(EngineError::NotInitialized);
        }
        Ok(Vec::new())
    }

    pub fn get_instances(&self, _class: ClassHandle) -> (r: Result<Vec<InstanceHandle>, EngineError>)
        ensures
            !self.spec_initialized() ==> r is Err && r->Err_0.spec_kind() == ErrorKind::NotInitialized,
            self.spec_initialized() ==> r is Ok && r->Ok_0@.len() == 0,
    {
        if !self.initialized {
            return Err(EngineError::NotInitialized);
        }
        Ok(Vec::new())
    }

    /// Fails with not-initialized before initialization, else unsupported;
    /// invocation, field reads and field writes answer the same way.
    pub fn unsupported(&self) -> (r: EngineError)
        ensures
            !self.spec_initialized() ==> r.spec_kind() == ErrorKind::NotInitialized,
            self.spec_initialized() ==> r.spec_kind() == ErrorKind::UnsupportedOperation,
    {
        if !self.initialized {
            return EngineError::NotInitialized;
        }
        error_with(ErrorKind::UnsupportedOperation, "Not implemented")
    }
}

} // verus!
