use vstd::prelude::*;
use super::error::{EngineError, ErrorKind};
use super::native::NativeEngine;
use super::types::{ClassHandle, ClassInfo, FieldHandle, FieldInfo, InstanceHandle, MethodHandle, MethodInfo, Value};
use super::unity_il2cpp::UnityIL2CppEngine;
use super::unity_mono::UnityMonoEngine;
use super::unreal::UnrealEngine;
use super::unreal::methods::{
    InvokeRequest, enumerate_fields_post, enumerate_methods_post, find_field_post, find_method_post,
    get_field_info_post, get_method_info_post, invoke_post, write_field_post,
};
use super::native::{native_find_method_post, native_method_info_post, native_methods_post};
use super::unreal::implementation::initialize_post;
use super::unreal::read_field_post;
use super::unreal::objects::{enumerate_classes_post, find_class_post, get_class_info_post};

verus! {

/// A game-engine backend: one of a closed set of variants, each of which may
/// answer any capability with an unsupported-operation error.
pub enum Engine {
    Unreal(UnrealEngine),
    UnityMono(UnityMonoEngine),
    UnityIl2Cpp(UnityIL2CppEngine),
    Native(NativeEngine),
}

impl Engine {
    /// Whether the backend has been initialized.
    pub open spec fn spec_initialized(&self) -> bool {
        match self {
            Engine::Unreal(e) => e.initialized,
            Engine::UnityMono(e) => e.spec_initialized(),
            Engine::UnityIl2Cpp(e) => e.spec_initialized(),
            Engine::Native(e) => e.spec_initialized(),
        }
    }

    /// The target's memory is well formed, for backends that read it.
    pub open spec fn wf(&self) -> bool {
        match self {
            Engine::Unreal(e) => e.process.memory.wf(),
            _ => true,
        }
    }

    pub fn name(&self) -> (r: &'static str)
        ensures
            r@ == match self {
                Engine::Unreal(_) => "Unreal Engine"@,
                Engine::UnityMono(_) => "Unity (Mono)"@,
                Engine::UnityIl2Cpp(_) => "Unity (IL2CPP)"@,
                Engine::Native(_) => "Native"@,
            },
    {
        match self {
            Engine::Unreal(e) => e.name(),
            Engine::UnityMono(e) => e.name(),
            Engine::UnityIl2Cpp(e) => e.name(),
            Engine::Native(e) => e.name(),
        }
    }

    pub fn is_initialized(&self) -> (r: bool)
        ensures
            r == self.spec_initialized(),
    {
        match self {
            Engine::Unreal(e) => e.is_initialized(),
            Engine::UnityMono(e) => e.is_initialized(),
            Engine::UnityIl2Cpp(e) => e.is_initialized(),
            Engine::Native(e) => e.is_initialized(),
        }
    }

    pub fn initialize(&mut self) -> (r: Result<(), EngineError>)
        requires
            old(self).wf(),
        ensures
            r is Err ==> r->Err_0.spec_kind() == ErrorKind::InitializationFailed,
            r is Ok <==> final(self).spec_initialized(),
            (match (*old(self), *final(self)) {
                (Engine::Unreal(o), Engine::Unreal(n)) => initialize_post(o, n, r),
                (Engine::Native(_), Engine::Native(_)) => r is Ok,
                (Engine::UnityMono(o), Engine::UnityMono(_)) => !o.spec_initialized() ==> r is Err,
                (Engine::UnityIl2Cpp(o), Engine::UnityIl2Cpp(_)) => !o.spec_initialized() ==> r is Err,
                _ => false,
            }),
    {
        match self {
            Engine::Unreal(e) => e.initialize(),
            Engine::UnityMono(e) => e.initialize(),
            Engine::UnityIl2Cpp(e) => e.initialize(),
            Engine::Native(e) => e.initialize(),
        }
    }

    pub fn find_class(&self, name: &str) -> (r: Result<ClassHandle, EngineError>)
        ensures
            (match self {
                Engine::Unreal(e) => find_class_post(*e, name@, r),
                Engine::UnityMono(e) => fails_with(e.spec_initialized(), r, ErrorKind::ClassNotFound),
                Engine::UnityIl2Cpp(e) => fails_with(e.spec_initialized(), r, ErrorKind::ClassNotFound),
                Engine::Native(e) => fails_with(e.spec_initialized(), r, ErrorKind::ClassNotFound),
            }),
    {
        match self {
            Engine::Unreal(e) => e.find_class(name),
            Engine::UnityMono(e) => e.find_class(name),
            Engine::UnityIl2Cpp(e) => e.find_class(name),
            Engine::Native(e) => e.find_class(name),
        }
    }

    pub fn get_class_info(&self, class: ClassHandle) -> (r: Result<ClassInfo, EngineError>)
        requires
            self.wf(),
        ensures
            (match self {
                Engine::Unreal(e) => get_class_info_post(*e, class.0, r),
                Engine::UnityMono(e) => fails_with(e.spec_initialized(), r, ErrorKind::UnsupportedOperation),
                Engine::UnityIl2Cpp(e) => fails_with(e.spec_initialized(), r, ErrorKind::UnsupportedOperation),
                Engine::Native(e) => fails_with(e.spec_initialized(), r, ErrorKind::UnsupportedOperation),
            }),
    {
        match self {
            Engine::Unreal(e) => e.get_class_info(class.0),
            Engine::UnityMono(e) => e.get_class_info(class),
            Engine::UnityIl2Cpp(e) => e.get_class_info(class),
            Engine::Native(e) => Err(e.unsupported()),
        }
    }

    pub fn enumerate_classes(&self) -> (r: Result<Vec<ClassInfo>, EngineError>)
        requires
            self.wf(),
        ensures
            (match self {
                Engine::Unreal(e) => enumerate_classes_post(*e, r),
                Engine::UnityMono(e) => lists_nothing(e.spec_initialized(), r),
                Engine::UnityIl2Cpp(e) => lists_nothing(e.spec_initialized(), r),
                Engine::Native(e) => lists_nothing(e.spec_initialized(), r),
            }),
    {
        match self {
            Engine::Unreal(e) => e.enumerate_classes(),
            Engine::UnityMono(e) => e.enumerate_classes(),
            Engine::UnityIl2Cpp(e) => e.enumerate_classes(),
            Engine::Native(e) => e.enumerate_classes(),
        }
    }

    pub fn find_method(&self, class: ClassHandle, name: &str) -> (r: Result<MethodHandle, EngineError>)
        requires
            self.wf(),
        ensures
            (match self {
                Engine::Unreal(e) => find_method_post(*e, class.0, name@, r),
                Engine::UnityMono(e) => fails_with(e.spec_initialized(), r, ErrorKind::MethodNotFound),
                Engine::UnityIl2Cpp(e) => fails_with(e.spec_initialized(), r, ErrorKind::MethodNotFound),
                Engine::Native(e) => native_find_method_post(*e, name@, r),
            }),
    {
        match self {
            Engine::Unreal(e) => e.find_method(class.0, name),
            Engine::UnityMono(e) => e.find_method(class, name),
            Engine::UnityIl2Cpp(e) => e.find_method(class, name),
            Engine::Native(e) => e.find_method(class, name),
        }
    }

    pub fn get_method_info(&self, method: MethodHandle) -> (r: Result<MethodInfo, EngineError>)
        ensures
            (match self {
                Engine::Unreal(e) => get_method_info_post(*e, method.0, r),
                Engine::UnityMono(e) => fails_with(e.spec_initialized(), r, ErrorKind::UnsupportedOperation),
                Engine::UnityIl2Cpp(e) => fails_with(e.spec_initialized(), r, ErrorKind::UnsupportedOperation),
                Engine::Native(e) => native_method_info_post(*e, method, r),
            }),
    {
        match self {
            Engine::Unreal(e) => e.get_method_info(method.0),
            Engine::UnityMono(e) => e.get_method_info(method),
            Engine::UnityIl2Cpp(e) => e.get_method_info(method),
            Engine::Native(e) => e.get_method_info(method),
        }
    }

    pub fn enumerate_methods(&self, class: ClassHandle) -> (r: Result<Vec<MethodInfo>, EngineError>)
        requires
            self.wf(),
        ensures
            (match self {
                Engine::Unreal(e) => enumerate_methods_post(*e, class.0, r),
                Engine::UnityMono(e) => lists_nothing(e.spec_initialized(), r),
                Engine::UnityIl2Cpp(e) => lists_nothing(e.spec_initialized(), r),
                Engine::Native(e) => native_methods_post(*e, r),
            }),
    {
        match self {
            Engine::Unreal(e) => e.enumerate_methods(class.0),
            Engine::UnityMono(e) => e.enumerate_methods(class),
            Engine::UnityIl2Cpp(e) => e.enumerate_methods(class),
            Engine::Native(e) => e.enumerate_methods(class),
        }
    }

    pub fn find_field(&self, class: ClassHandle, name: &str) -> (r: Result<FieldHandle, EngineError>)
        requires
            self.wf(),
        ensures
            (match self {
                Engine::Unreal(e) => find_field_post(*e, class.0, name@, r),
                Engine::UnityMono(e) => fails_with(e.spec_initialized(), r, ErrorKind::FieldNotFound),
                Engine::UnityIl2Cpp(e) => fails_with(e.spec_initialized(), r, ErrorKind::FieldNotFound),
                Engine::Native(e) => fails_with(e.spec_initialized(), r, ErrorKind::FieldNotFound),
            }),
    {
        match self {
            Engine::Unreal(e) => e.find_field(class.0, name),
            Engine::UnityMono(e) => e.find_field(class, name),
            Engine::UnityIl2Cpp(e) => e.find_field(class, name),
            Engine::Native(e) => e.find_field(class, name),
        }
    }

    pub fn get_field_info(&self, field: FieldHandle) -> (r: Result<FieldInfo, EngineError>)
        requires
            self.wf(),
        ensures
            (match self {
                Engine::Unreal(e) => get_field_info_post(*e, field.0, r),
                Engine::UnityMono(e) => fails_with(e.spec_initialized(), r, ErrorKind::UnsupportedOperation),
                Engine::UnityIl2Cpp(e) => fails_with(e.spec_initialized(), r, ErrorKind::UnsupportedOperation),
                Engine::Native(e) => fails_with(e.spec_initialized(), r, ErrorKind::UnsupportedOperation),
            }),
    {
        match self {
            Engine::Unreal(e) => e.get_field_info(field.0),
            Engine::UnityMono(e) => e.get_field_info(field),
            Engine::UnityIl2Cpp(e) => e.get_field_info(field),
            Engine::Native(e) => Err(e.unsupported()),
        }
    }

    pub fn enumerate_fields(&self, class: ClassHandle) -> (r: Result<Vec<FieldInfo>, EngineError>)
        requires
            self.wf(),
        ensures
            (match self {
                Engine::Unreal(e) => enumerate_fields_post(*e, class.0, r),
                Engine::UnityMono(e) => lists_nothing(e.spec_initialized(), r),
                Engine::UnityIl2Cpp(e) => lists_nothing(e.spec_initialized(), r),
                Engine::Native(e) => lists_nothing(e.spec_initialized(), r),
            }),
    {
        match self {
            Engine::Unreal(e) => e.enumerate_fields(class.0),
            Engine::UnityMono(e) => e.enumerate_fields(class),
            Engine::UnityIl2Cpp(e) => e.enumerate_fields(class),
            Engine::Native(e) => e.enumerate_fields(class),
        }
    }

    pub fn get_instances(&self, class: ClassHandle) -> (r: Result<Vec<InstanceHandle>, EngineError>)
        ensures
            lists_nothing(self.spec_initialized(), r),
    {
        match self {
            Engine::Unreal(e) => e.get_instances(class),
            Engine::UnityMono(e) => e.get_instances(class),
            Engine::UnityIl2Cpp(e) => e.get_instances(class),
            Engine::Native(e) => e.get_instances(class),
        }
    }

    pub fn get_instance_class(&self, instance: InstanceHandle) -> (r: Result<ClassHandle, EngineError>)
        ensures
            fails_with(self.spec_initialized(), r, ErrorKind::UnsupportedOperation),
    {
        match self {
            Engine::Unreal(e) => e.get_instance_class(instance),
            Engine::UnityMono(e) => Err(e.unsupported()),
            Engine::UnityIl2Cpp(e) => Err(e.unsupported()),
            Engine::Native(e) => Err(e.unsupported()),
        }
    }

    /// Prepares a remote call; only the Unreal backend supports it.
    pub fn invoke(&self, instance: Option<InstanceHandle>, method: MethodHandle, args: &Vec<Value>) -> (r: Result<InvokeRequest, EngineError>)
        ensures
            (match self {
                Engine::Unreal(e) => invoke_post(*e, instance, method, args@, r),
                Engine::UnityMono(e) => fails_with(e.spec_initialized(), r, ErrorKind::UnsupportedOperation),
                Engine::UnityIl2Cpp(e) => fails_with(e.spec_initialized(), r, ErrorKind::UnsupportedOperation),
                Engine::Native(e) => fails_with(e.spec_initialized(), r, ErrorKind::UnsupportedOperation),
            }),
    {
        match self {
            Engine::Unreal(e) => e.invoke(instance, method, args),
            Engine::UnityMono(e) => Err(e.unsupported()),
            Engine::UnityIl2Cpp(e) => Err(e.unsupported()),
            Engine::Native(e) => Err(e.unsupported()),
        }
    }

    /// Reads the field whose handle is its offset; only the Unreal backend supports it.
    pub fn read_field(&self, instance: InstanceHandle, field: FieldHandle) -> (r: Result<Value, EngineError>)
        ensures
            (match self {
                Engine::Unreal(e) => read_field_post(*e, instance, field, r),
                Engine::UnityMono(e) => fails_with(e.spec_initialized(), r, ErrorKind::UnsupportedOperation),
                Engine::UnityIl2Cpp(e) => fails_with(e.spec_initialized(), r, ErrorKind::UnsupportedOperation),
                Engine::Native(e) => fails_with(e.spec_initialized(), r, ErrorKind::UnsupportedOperation),
            }),
    {
        match self {
            Engine::Unreal(e) => e.read_field(instance, field),
            Engine::UnityMono(e) => Err(e.unsupported()),
            Engine::UnityIl2Cpp(e) => Err(e.unsupported()),
            Engine::Native(e) => Err(e.unsupported()),
        }
    }

    /// Writes the field whose handle is its offset; only the Unreal backend supports it.
    pub fn write_field(&mut self, instance: InstanceHandle, field: FieldHandle, value: &Value) -> (r: Result<(), EngineError>)
        requires
            old(self).wf(),
        ensures
            (match (*old(self), *final(self)) {
                (Engine::Unreal(o), Engine::Unreal(n)) => write_field_post(o, n, instance.0, field.0, *value, r),
                (Engine::UnityMono(o), Engine::UnityMono(_)) => fails_with(o.spec_initialized(), r, ErrorKind::UnsupportedOperation),
                (Engine::UnityIl2Cpp(o), Engine::UnityIl2Cpp(_)) => fails_with(o.spec_initialized(), r, ErrorKind::UnsupportedOperation),
                (Engine::Native(o), Engine::Native(_)) => fails_with(o.spec_initialized(), r, ErrorKind::UnsupportedOperation),
                _ => false,
            }),
    {
        match self {
            Engine::Unreal(e) => e.write_field(instance, field, value),
            Engine::UnityMono(e) => Err(e.unsupported()),
            Engine::UnityIl2Cpp(e) => Err(e.unsupported()),
            Engine::Native(e) => Err(e.unsupported()),
        }
    }
}

/// Before initialization a not-initialized error; after it, an error of `kind`.
pub open spec fn fails_with<T>(initialized: bool, r: Result<T, EngineError>, kind: ErrorKind) -> bool {
    &&& r is Err
    &&& initialized ==> r->Err_0.spec_kind() == kind
    &&& !initialized ==> r->Err_0.spec_kind() == ErrorKind::NotInitialized
}

/// Before initialization a not-initialized error; after it, an empty list.
pub open spec fn lists_nothing<T>(initialized: bool, r: Result<Vec<T>, EngineError>) -> bool {
    &&& initialized ==> r is Ok && r->Ok_0@.len() == 0
    &&& !initialized ==> r is Err && r->Err_0.spec_kind() == ErrorKind::NotInitialized
}

} // verus!
