use lightscan::engine::error::{EngineError, ErrorKind};
use lightscan::engine::facade::Engine;
use lightscan::engine::native::NativeEngine;
use lightscan::engine::types::{ClassHandle, FieldHandle, InstanceHandle, MethodHandle, PrimitiveType, TypeInfo, TypeKind, Value};
use lightscan::engine::unity_mono::UnityMonoEngine;
use lightscan::engine::unreal::methods::PARAMS_BUFFER_SIZE;
use lightscan::engine::unreal::scanner::{resolve_rip_relative, scan_pattern, Pattern};
use lightscan::engine::unreal::signatures::VersionSignatures;
use lightscan::engine::unreal::structures::{
    FChunkedFixedUObjectArray, FNameEntry, FNameEntryAllocator, FUObjectArray, FUObjectItem, StructError, UStruct,
};
use lightscan::engine::unreal::UnrealEngine;
use lightscan::memory::{MemoryImage, MemoryRegion, MEM_COMMIT, PAGE_EXECUTE_READ, PAGE_READWRITE};
use lightscan::process::{ModuleInfo, Process};

fn add(image: &mut MemoryImage, base: usize, bytes: Vec<u8>, protection: u32) {
    let region = MemoryRegion::from_protection(base, bytes.len(), protection, MEM_COMMIT);
    assert!(image.add_region_with_bytes(region, bytes));
}

fn put_u64(bytes: &mut [u8], off: usize, v: u64) {
    bytes[off..off + 8].copy_from_slice(&v.to_le_bytes());
}

fn put_u32(bytes: &mut [u8], off: usize, v: u32) {
    bytes[off..off + 4].copy_from_slice(&v.to_le_bytes());
}

fn put_name(bytes: &mut [u8], off: usize, text: &str) {
    let header = (text.len() as u16) << 6;
    bytes[off..off + 2].copy_from_slice(&header.to_le_bytes());
    bytes[off + 2..off + 2 + text.len()].copy_from_slice(text.as_bytes());
}

fn engine_over(image: MemoryImage) -> UnrealEngine {
    UnrealEngine::new(Process::new(7, "game".to_string(), image, Vec::new()))
}

const BLOCKS: usize = 0x2_0000;
const POOL: usize = 0x3_0000;

fn name_pool() -> MemoryImage {
    let mut image = MemoryImage::new();
    let mut table = vec![0u8; 16];
    put_u64(&mut table, 0, POOL as u64);
    add(&mut image, BLOCKS, table, PAGE_READWRITE);
    let mut block = vec![0u8; 64];
    put_name(&mut block, 0, "Player");
    put_name(&mut block, 10, "Health");
    put_name(&mut block, 20, "Attack");
    add(&mut image, POOL, block, PAGE_READWRITE);
    image
}

#[test]
fn name_decode_reads_entries() {
    let mut engine = engine_over(name_pool());
    engine.gnames = BLOCKS;
    engine.initialized = true;
    assert_eq!(engine.get_fname(0).unwrap(), "Player");
    assert_eq!(engine.get_fname(5).unwrap(), "Health");
    assert_eq!(engine.get_fname(10).unwrap(), "Attack");
    assert!(engine.get_fname(3).is_err());
    assert!(engine.get_fname((1 << 16) | 3).is_err());
}

#[test]
fn name_decode_before_initialize_fails() {
    let engine = engine_over(name_pool());
    assert_eq!(engine.get_fname(0).unwrap_err().kind(), ErrorKind::NotInitialized);
}

#[test]
fn entry_id_splits_into_block_and_offset() {
    assert_eq!(FNameEntryAllocator::decode_id((3 << 16) | 0x1234), (3, 0x1234));
    let image = name_pool();
    assert_eq!(FNameEntryAllocator::get_entry_address(BLOCKS, &image, 5), Ok(POOL + 10));
    assert_eq!(
        FNameEntryAllocator::get_entry_address(BLOCKS, &image, 1 << 16),
        Err(StructError::NullPointer)
    );
}

#[test]
fn wide_and_invalid_names_decode_lossily() {
    let mut image = MemoryImage::new();
    let mut table = vec![0u8; 8];
    put_u64(&mut table, 0, POOL as u64);
    add(&mut image, BLOCKS, table, PAGE_READWRITE);
    let mut block = vec![0u8; 64];
    let wide: Vec<u16> = "Hé".encode_utf16().collect();
    let header: u16 = ((wide.len() as u16) << 6) | 1;
    block[0..2].copy_from_slice(&header.to_le_bytes());
    for (k, u) in wide.iter().enumerate() {
        block[2 + 2 * k..4 + 2 * k].copy_from_slice(&u.to_le_bytes());
    }
    let narrow_header: u16 = 2 << 6;
    block[20..22].copy_from_slice(&narrow_header.to_le_bytes());
    block[22] = b'A';
    block[23] = 0xFF;
    add(&mut image, POOL, block, PAGE_READWRITE);
    let mut engine = engine_over(image);
    engine.gnames = BLOCKS;
    engine.initialized = true;
    assert_eq!(engine.get_fname(0).unwrap(), "Hé");
    assert_eq!(engine.get_fname(10).unwrap(), "A\u{FFFD}");
}

#[test]
fn name_entry_accessors() {
    let mut name = vec![0u8; 1024];
    name[..5].copy_from_slice(b"Actor");
    let entry = FNameEntry { header: 5 << 6, name };
    assert!(!entry.is_wide());
    assert_eq!(entry.len(), 5);
    assert_eq!(entry.get_string(), "Actor");
}

const GOBJECTS: usize = 0x5_0000;
const CHUNKS: usize = 0x6_0000;
const CHUNK0: usize = 0x7_0000;

fn object_array(image: &mut MemoryImage) {
    object_array_with(image, 0xA);
}

fn object_array_with(image: &mut MemoryImage, first: u64) {
    let mut array = vec![0u8; 48];
    put_u64(&mut array, 16, CHUNKS as u64);
    put_u32(&mut array, 16 + 16, 3);
    put_u32(&mut array, 16 + 20, 3);
    put_u32(&mut array, 16 + 24, 1);
    put_u32(&mut array, 16 + 28, 1);
    add(image, GOBJECTS, array, PAGE_READWRITE);
    let mut table = vec![0u8; 8];
    put_u64(&mut table, 0, CHUNK0 as u64);
    add(image, CHUNKS, table, PAGE_READWRITE);
    let mut chunk = vec![0u8; 48];
    put_u64(&mut chunk, 0, first);
    put_u64(&mut chunk, 16, 0);
    put_u64(&mut chunk, 32, 0xC);
    put_u32(&mut chunk, 40, 1);
    add(image, CHUNK0, chunk, PAGE_READWRITE);
}

#[test]
fn object_enumeration_skips_null_and_flagged() {
    let mut image = MemoryImage::new();
    object_array(&mut image);
    let array = FUObjectArray::read(&image, GOBJECTS).unwrap();
    assert_eq!(array.obj_objects.num_elements, 3);
    assert_eq!(array.get_all_objects(&image), vec![0xA]);
    assert_eq!(array.get_object_address(&image, 1), Err(StructError::InvalidObject));
    assert_eq!(array.get_object_address(&image, 3), Err(StructError::OutOfBounds));
    let mut engine = engine_over(image);
    engine.gobjects = GOBJECTS;
    engine.initialized = true;
    assert_eq!(engine.get_all_objects().unwrap(), vec![0xA]);
}

#[test]
fn chunked_array_addresses() {
    let mut image = MemoryImage::new();
    object_array(&mut image);
    let arr = FChunkedFixedUObjectArray::read(&image, GOBJECTS + 16).unwrap();
    assert_eq!(arr.get_object_item_address(&image, 2), Ok(CHUNK0 + 32));
    assert_eq!(arr.get_object_item_address(&image, -1), Err(StructError::OutOfBounds));
    let item = FUObjectItem::read(&image, CHUNK0 + 32).unwrap();
    assert_eq!(item.object, 0xC);
    assert!(!item.is_valid());
}

const OBJ: usize = 0x8_0000;
const CLASS: usize = 0x8_1000;
const META: usize = 0x8_2000;

fn object_header(class: usize, name_id: u32) -> Vec<u8> {
    let mut b = vec![0u8; 0x100];
    put_u64(&mut b, 16, class as u64);
    put_u32(&mut b, 24, name_id);
    b
}

#[test]
fn class_walk_follows_class_pointers() {
    let mut image = name_pool();
    add(&mut image, OBJ, object_header(CLASS, 0), PAGE_READWRITE);
    add(&mut image, CLASS, object_header(META, 5), PAGE_READWRITE);
    add(&mut image, META, object_header(META, 10), PAGE_READWRITE);
    let engine = engine_over(image);
    assert!(engine.is_class_object(OBJ));
    assert!(engine.is_class_object(CLASS));
    assert!(!engine.is_class_object(0x9_0000));
}

#[test]
fn class_walk_rejects_cycles() {
    let mut image = MemoryImage::new();
    add(&mut image, OBJ, object_header(CLASS, 0), PAGE_READWRITE);
    add(&mut image, CLASS, object_header(META, 0), PAGE_READWRITE);
    add(&mut image, META, object_header(CLASS, 0), PAGE_READWRITE);
    let engine = engine_over(image);
    assert!(!engine.is_class_object(OBJ));
}

#[test]
fn ustruct_probe_takes_first_plausible_offset() {
    let mut image = MemoryImage::new();
    let mut b = vec![0u8; 0x100];
    put_u32(&mut b, 64 + 24, 0x20_0000);
    put_u64(&mut b, 48, 0);
    put_u64(&mut b, 48 + 8, 0xAAAA);
    put_u32(&mut b, 48 + 24, 0x40);
    put_u32(&mut b, 48 + 28, 8);
    add(&mut image, CLASS, b, PAGE_READWRITE);
    let u = UStruct::read(&image, CLASS).unwrap();
    assert_eq!(u.children, 0xAAAA);
    assert_eq!(u.properties_size, 0x40);
}

#[test]
fn class_lookup_by_name() {
    let mut image = name_pool();
    object_array_with(&mut image, CLASS as u64);
    add(&mut image, CLASS, object_header(META, 5), PAGE_READWRITE);
    add(&mut image, META, object_header(META, 10), PAGE_READWRITE);
    let mut engine = engine_over(image);
    engine.gnames = BLOCKS;
    engine.gobjects = GOBJECTS;
    engine.initialized = true;
    assert_eq!(engine.find_class("Health").unwrap(), ClassHandle(CLASS));
    assert_eq!(engine.find_class("Attack").unwrap_err().kind(), ErrorKind::ClassNotFound);
    let classes = engine.enumerate_classes().unwrap();
    assert_eq!(classes.len(), 1);
    assert_eq!(classes[0].name, "Health");
}

fn pattern_bytes(text: &str) -> Vec<u8> {
    text.split_whitespace().map(|t| if t.starts_with('?') { 0 } else { u8::from_str_radix(t, 16).unwrap() }).collect()
}

#[test]
fn pattern_parsing_and_matching() {
    let p = Pattern::from_string("48 8B 05 ?? ?? ?? ?? 48 85 C0 zz ? +1F");
    assert_eq!(p.len(), 12);
    assert!(p.matches_at(&[0x48, 0x8B, 0x05, 1, 2, 3, 4, 0x48, 0x85, 0xC0, 9, 0x1F], 0));
    assert!(!p.matches_at(&[0x48, 0x8B, 0x06, 1, 2, 3, 4, 0x48, 0x85, 0xC0, 9, 0x1F], 0));
    assert!(!p.matches_at(&[0x48, 0x8B], 0));
    assert_eq!(Pattern::from_string("100 G1 ??").len(), 1);
}

#[test]
fn pattern_scan_reports_every_match() {
    let base = 0x40_0000;
    let mut code = vec![0u8; 0x100];
    code[0x10..0x13].copy_from_slice(&[0xAB, 0xCD, 0xEF]);
    code[0x40..0x43].copy_from_slice(&[0xAB, 0x00, 0xEF]);
    code[0xFD..0x100].copy_from_slice(&[0xAB, 0x11, 0xEF]);
    let mut image = MemoryImage::new();
    add(&mut image, base, code, PAGE_EXECUTE_READ);
    add(&mut image, 0x90_0000, vec![0xAB, 0x00, 0xEF], PAGE_EXECUTE_READ);
    let p = Pattern::from_string("AB ?? EF");
    let hits = scan_pattern(&image, &p, base, 0x1000);
    let addrs: Vec<usize> = hits.iter().map(|h| h.address).collect();
    assert_eq!(addrs, vec![base + 0x10, base + 0x40, base + 0xFD]);
    assert_eq!(hits[1].offset, 0x40);
}

#[test]
fn rip_relative_resolution() {
    let inst = [0x48, 0x8B, 0x05, 0x10, 0x00, 0x00, 0x00];
    assert_eq!(resolve_rip_relative(0x1000, &inst, 3), 0x1000 + 7 + 0x10);
    let back = [0x48, 0x8B, 0x05, 0xF0, 0xFF, 0xFF, 0xFF];
    assert_eq!(resolve_rip_relative(0x1000, &back, 3), 0x1000 + 7 - 0x10);
    assert_eq!(resolve_rip_relative(0x1000, &inst[..5], 3), 0);
}

const MODULE: usize = 0x1000_0000;

fn game_module() -> Process {
    let mut code = vec![0u8; 0x1000];
    let sigs = VersionSignatures::all();
    let gobjects = pattern_bytes(sigs.gobjects_patterns[0]);
    code[0x100..0x100 + gobjects.len()].copy_from_slice(&gobjects);
    code[0x103..0x107].copy_from_slice(&(0x800i32 - 0x107).to_le_bytes());
    put_u64(&mut code, 0x800, 0x2000_0000);
    let gnames = pattern_bytes(sigs.gnames_patterns[0]);
    code[0x200..0x200 + gnames.len()].copy_from_slice(&gnames);
    code[0x203..0x207].copy_from_slice(&(0x900i32 - 0x207).to_le_bytes());
    put_u64(&mut code, 0x900, 0x3000_0000);
    let pe = pattern_bytes(sigs.process_event_patterns[0]);
    code[0x300..0x300 + pe.len()].copy_from_slice(&pe);
    let mut image = MemoryImage::new();
    add(&mut image, MODULE, code, PAGE_EXECUTE_READ);
    let modules = vec![ModuleInfo { name: "Game.exe".to_string(), base_address: MODULE, size: 0x1000 }];
    Process::new(9, "Game.exe".to_string(), image, modules)
}

#[test]
fn initialize_resolves_globals() {
    let mut engine = UnrealEngine::new(game_module());
    assert!(engine.initialize().is_ok());
    assert!(engine.is_initialized());
    assert_eq!(engine.gobjects_ptr, MODULE + 0x800);
    assert_eq!(engine.gobjects, MODULE + 0x800);
    assert_eq!(engine.gnames_ptr, MODULE + 0x900);
    assert_eq!(engine.gnames, 0x3000_0000);
    assert_eq!(engine.process_event, MODULE + 0x300);
}

#[test]
fn initialize_fails_without_anchors() {
    let mut image = MemoryImage::new();
    add(&mut image, MODULE, vec![0u8; 0x100], PAGE_EXECUTE_READ);
    let modules = vec![ModuleInfo { name: "Game.exe".to_string(), base_address: MODULE, size: 0x100 }];
    let mut engine = UnrealEngine::new(Process::new(9, "g".to_string(), image, modules));
    assert_eq!(engine.initialize().unwrap_err().kind(), ErrorKind::InitializationFailed);
    assert!(!engine.is_initialized());
    let mut bare = UnrealEngine::new(Process::new(9, "g".to_string(), MemoryImage::new(), Vec::new()));
    assert_eq!(bare.initialize().unwrap_err().kind(), ErrorKind::InitializationFailed);
}

#[test]
fn operations_need_initialization() {
    let engine = UnrealEngine::new(game_module());
    assert_eq!(engine.find_class("X").unwrap_err().kind(), ErrorKind::NotInitialized);
    assert_eq!(engine.enumerate_classes().unwrap_err().kind(), ErrorKind::NotInitialized);
    assert_eq!(
        engine.invoke(Some(InstanceHandle(1)), MethodHandle(2), &Vec::new()).unwrap_err().kind(),
        ErrorKind::NotInitialized
    );
    let facade = Engine::UnityMono(UnityMonoEngine::new(0));
    assert_eq!(facade.find_class("X").unwrap_err().kind(), ErrorKind::NotInitialized);
}

#[test]
fn invoke_prepares_call_and_shellcode() {
    let mut engine = UnrealEngine::new(game_module());
    engine.initialize().unwrap();
    assert_eq!(engine.invoke(None, MethodHandle(2), &Vec::new()).unwrap_err().kind(), ErrorKind::InvocationFailed);
    assert_eq!(
        engine.invoke(Some(InstanceHandle(1)), MethodHandle(2), &vec![Value::I32(1)]).unwrap_err().kind(),
        ErrorKind::UnsupportedOperation
    );
    let req = engine.invoke(Some(InstanceHandle(0x1111)), MethodHandle(0x2222), &Vec::new()).unwrap();
    assert_eq!(req.instance, 0x1111);
    assert_eq!(req.method, 0x2222);
    assert_eq!(req.params_size, PARAMS_BUFFER_SIZE);
    assert_eq!(req.process_event, MODULE + 0x300);
    let code = engine.generate_process_event_shellcode(0x1111, 0x2222, 0x3333);
    let mut expected = vec![0x48, 0x83, 0xEC, 0x28, 0x48, 0xB9];
    expected.extend_from_slice(&0x1111u64.to_le_bytes());
    expected.extend_from_slice(&[0x48, 0xBA]);
    expected.extend_from_slice(&0x2222u64.to_le_bytes());
    expected.extend_from_slice(&[0x49, 0xB8]);
    expected.extend_from_slice(&0x3333u64.to_le_bytes());
    expected.extend_from_slice(&[0x48, 0xB8]);
    expected.extend_from_slice(&((MODULE + 0x300) as u64).to_le_bytes());
    expected.extend_from_slice(&[0xFF, 0xD0, 0x48, 0x83, 0xC4, 0x28, 0xC3]);
    assert_eq!(code, expected);
}

#[test]
fn field_read_and_write() {
    let mut image = MemoryImage::new();
    add(&mut image, OBJ, vec![0u8; 0x40], PAGE_READWRITE);
    let mut engine = engine_over(image);
    engine.initialized = true;
    engine.write_field(InstanceHandle(OBJ), FieldHandle(8), &Value::I32(-77)).unwrap();
    assert_eq!(engine.read_field(InstanceHandle(OBJ), FieldHandle(8)).unwrap(), Value::I32(-77));
    let bool_type = TypeInfo { name: "b".to_string(), size: 1, kind: TypeKind::Primitive(PrimitiveType::Bool) };
    assert_eq!(engine.read_field_impl(OBJ, 8, &bool_type).unwrap(), Value::Bool(true));
    let raw = TypeInfo { name: "s".to_string(), size: 3, kind: TypeKind::Unknown };
    engine.write_field(InstanceHandle(OBJ), FieldHandle(0x10), &Value::Struct(vec![1, 2, 3])).unwrap();
    assert_eq!(engine.read_field_impl(OBJ, 0x10, &raw).unwrap(), Value::Struct(vec![1, 2, 3]));
    let err = engine.write_field(InstanceHandle(OBJ), FieldHandle(0), &Value::Null).unwrap_err();
    assert_eq!(err.kind(), ErrorKind::TypeMismatch);
    let err = engine.read_field(InstanceHandle(0x99_0000), FieldHandle(0)).unwrap_err();
    assert_eq!(err.kind(), ErrorKind::MemoryError);
}

#[test]
fn methods_and_fields_follow_links() {
    let mut image = name_pool();
    let mut class = vec![0u8; 0x100];
    put_u64(&mut class, 48 + 8, 0xA_0000);
    put_u64(&mut class, 48 + 16, 0xB_0000);
    put_u32(&mut class, 48 + 24, 0x30);
    put_u32(&mut class, 64 + 28, 100);
    add(&mut image, CLASS, class, PAGE_READWRITE);
    let mut m1 = object_header(0, 5);
    put_u64(&mut m1, 40, 0xA_1000);
    add(&mut image, 0xA_0000, m1, PAGE_READWRITE);
    add(&mut image, 0xA_1000, object_header(0, 10), PAGE_READWRITE);
    let mut f1 = vec![0u8; 0x80];
    put_u64(&mut f1, 16, 0);
    put_u32(&mut f1, 24, 0);
    put_u32(&mut f1, 56, 0x24);
    add(&mut image, 0xB_0000, f1, PAGE_READWRITE);
    let mut engine = engine_over(image);
    engine.gnames = BLOCKS;
    engine.initialized = true;
    assert_eq!(engine.find_method(CLASS, "Attack").unwrap(), MethodHandle(0xA_1000));
    assert_eq!(engine.find_method(CLASS, "Nope").unwrap_err().kind(), ErrorKind::MethodNotFound);
    let methods = engine.enumerate_methods(CLASS).unwrap();
    let names: Vec<String> = methods.iter().map(|m| m.name.clone()).collect();
    assert_eq!(names, vec!["Health".to_string(), "Attack".to_string()]);
    assert_eq!(engine.find_field(CLASS, "Player").unwrap(), FieldHandle(0xB_0000));
    assert_eq!(engine.find_field(CLASS, "Health").unwrap_err().kind(), ErrorKind::FieldNotFound);
    let fields = engine.enumerate_fields(CLASS).unwrap();
    assert_eq!(fields.len(), 1);
    assert_eq!(fields[0].name, "Player");
    assert_eq!(fields[0].offset, 0x24);
    let info = engine.get_class_info(CLASS).unwrap();
    assert_eq!(info.size, 0x30);
    assert_eq!(info.parent, None::<ClassHandle>);
}

#[test]
fn native_backend_names_unknown_functions() {
    let mut native = NativeEngine::new(0);
    assert_eq!(native.find_class("X").unwrap_err().kind(), ErrorKind::NotInitialized);
    native.initialize().unwrap();
    let info = native.get_method_info(MethodHandle(0x1234)).unwrap();
    assert_eq!(info.name, "func_0x1234");
    assert!(info.is_static);
    assert_eq!(native.find_method(ClassHandle(0), "f").unwrap_err().kind(), ErrorKind::MethodNotFound);
    assert!(matches!(native.unsupported(), EngineError::UnsupportedOperation(_)));
}

#[test]
fn facade_initialize_by_variant() {
    let mut native = Engine::Native(NativeEngine::new(0));
    assert!(native.initialize().is_ok());
    assert!(native.is_initialized());
    assert_eq!(native.name(), "Native");
    let mut mono = Engine::UnityMono(UnityMonoEngine::new(0));
    assert_eq!(mono.initialize().unwrap_err().kind(), ErrorKind::InitializationFailed);
    assert!(!mono.is_initialized());
    let mut unreal = Engine::Unreal(UnrealEngine::new(game_module()));
    assert!(unreal.initialize().is_ok());
    assert!(unreal.is_initialized());
    assert_eq!(
        native.read_field(InstanceHandle(1), FieldHandle(0)).unwrap_err().kind(),
        ErrorKind::UnsupportedOperation
    );
    assert_eq!(native.get_instances(ClassHandle(0)).unwrap().len(), 0);
}

#[test]
fn class_info_of_unreadable_struct_is_memory_error() {
    let mut image = name_pool();
    add(&mut image, CLASS, object_header(META, 5)[..40].to_vec(), PAGE_READWRITE);
    let mut engine = engine_over(image);
    engine.gnames = BLOCKS;
    engine.initialized = true;
    assert_eq!(engine.get_class_info(CLASS).unwrap_err().kind(), ErrorKind::MemoryError);
}

#[test]
fn unreal_version_name() {
    let engine = UnrealEngine::new(game_module());
    assert_eq!(engine.version(), Some("Unknown".to_string()));
}
