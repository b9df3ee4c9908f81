use vstd::prelude::*;

verus! {

/// Handle to a class or type.
#[derive(Clone, Copy, Debug, PartialEq, Eq, Hash, Structural)]
pub struct ClassHandle(pub usize);

/// Handle to a method or function.
#[derive(Clone, Copy, Debug, PartialEq, Eq, Hash, Structural)]
pub struct MethodHandle(pub usize);

/// Handle to a field or property.
#[derive(Clone, Copy, Debug, PartialEq, Eq, Hash, Structural)]
pub struct FieldHandle(pub usize);

/// Handle to an object instance.
#[derive(Clone, Copy, Debug, PartialEq, Eq, Hash, Structural)]
pub struct InstanceHandle(pub usize);

/// An engine-independent value. Floating-point values are held as their
/// IEEE-754 bit patterns.
#[derive(Debug, PartialEq, Eq)]
pub enum Value {
    Null,
    Bool(bool),
    I8(i8),
    I16(i16),
    I32(i32),
    I64(i64),
    U8(u8),
    U16(u16),
    U32(u32),
    U64(u64),
    F32(u32),
    F64(u64),
    String(String),
    Object(InstanceHandle),
    Array(Vec<Value>),
    /// Raw bytes of an engine-specific structure.
    Struct(Vec<u8>),
}

/// Information about a class.
#[derive(Clone, Debug, PartialEq, Eq)]
pub struct ClassInfo {
    pub name: String,
    pub handle: ClassHandle,
    pub parent: Option<ClassHandle>,
    pub size: usize,
}

/// Information about a method.
#[derive(Debug, PartialEq, Eq)]
pub struct MethodInfo {
    pub name: String,
    pub handle: MethodHandle,
    pub params: Vec<ParamInfo>,
    pub return_type: Option<TypeInfo>,
    pub is_static: bool,
}

/// Information about a field.
#[derive(Debug, PartialEq, Eq)]
pub struct FieldInfo {
    pub name: String,
    pub handle: FieldHandle,
    pub offset: usize,
    pub type_info: TypeInfo,
}

/// Information about a parameter.
#[derive(Debug, PartialEq, Eq)]
pub struct ParamInfo {
    pub name: String,
    pub type_info: TypeInfo,
}

/// Information about a type.
#[derive(Debug, PartialEq, Eq)]
pub struct TypeInfo {
    pub name: String,
    pub size: usize,
    pub kind: TypeKind,
}

/// The kind of a type.
#[derive(Debug, PartialEq, Eq)]
pub enum TypeKind {
    Primitive(PrimitiveType),
    Class(ClassHandle),
    Struct(ClassHandle),
    Array(Box<TypeInfo>),
    Pointer(Box<TypeInfo>),
    Unknown,
}

/// Primitive types.
#[derive(Clone, Copy, Debug, PartialEq, Eq, Structural)]
pub enum PrimitiveType {
    Bool,
    I8,
    I16,
    I32,
    I64,
    U8,
    U16,
    U32,
    U64,
    F32,
    F64,
}

impl PrimitiveType {
    pub open spec fn spec_size(self) -> nat {
        match self {
            PrimitiveType::Bool | PrimitiveType::I8 | PrimitiveType::U8 => 1,
            PrimitiveType::I16 | PrimitiveType::U16 => 2,
            PrimitiveType::I32 | PrimitiveType::U32 | PrimitiveType::F32 => 4,
            PrimitiveType::I64 | PrimitiveType::U64 | PrimitiveType::F64 => 8,
        }
    }

    /// Size in bytes of this primitive type.
    pub fn size(&self) -> (r: usize)
        ensures
            r == self.spec_size(),
    {
        match self {
            PrimitiveType::Bool | PrimitiveType::I8 | PrimitiveType::U8 => 1,
            PrimitiveType::I16 | PrimitiveType::U16 => 2,
            PrimitiveType::I32 | PrimitiveType::U32 | PrimitiveType::F32 => 4,
            PrimitiveType::I64 | PrimitiveType::U64 | PrimitiveType::F64 => 8,
        }
    }
}

} // verus!
