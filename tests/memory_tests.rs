use lightscan::memory::{
    MemoryError, MemoryImage, MemoryRegion, MemoryScanner, MEM_COMMIT, PAGE_EXECUTE_READ,
    PAGE_READONLY, PAGE_READWRITE,
};
use lightscan::process::{get_main_module, ModuleError, ModuleInfo, Process};
use lightscan::scan_result::ScanOptions;
use lightscan::scanner::Scanner;
use lightscan::value::{ScanType, ScanValue, ValueType};
use lightscan::views::ResultsView;

#[test]
fn protection_flags() {
    let r = MemoryRegion::from_protection(0x1000, 0x1000, PAGE_EXECUTE_READ, MEM_COMMIT);
    assert!(r.is_readable && !r.is_writable && r.is_executable);
    let w = MemoryRegion::from_protection(0x1000, 0x1000, PAGE_READWRITE, MEM_COMMIT);
    assert!(w.is_readable && w.is_writable && !w.is_executable);
    let n = MemoryRegion::from_protection(0x1000, 0x1000, 0x01, MEM_COMMIT);
    assert!(!n.is_readable && !n.is_writable && !n.is_executable);
}

#[test]
fn filters_keep_order() {
    let image = MemoryImage::new();
    let scanner = MemoryScanner::new(&image);
    let regions = vec![
        MemoryRegion::from_protection(0x1000, 0x10, PAGE_READONLY, MEM_COMMIT),
        MemoryRegion::from_protection(0x2000, 0x10, PAGE_READWRITE, MEM_COMMIT),
        MemoryRegion::from_protection(0x3000, 0x10, PAGE_EXECUTE_READ, MEM_COMMIT),
    ];
    let w: Vec<usize> = scanner.filter_regions(regions.clone(), true, true, false).iter().map(|r| r.base_address).collect();
    assert_eq!(w, vec![0x2000]);
    let r: Vec<usize> = scanner.filter_regions(regions, true, false, false).iter().map(|r| r.base_address).collect();
    assert_eq!(r, vec![0x1000, 0x2000, 0x3000]);
}

#[test]
fn reads_are_whole_or_fail() {
    let mut image = MemoryImage::new();
    assert!(image.add_block(0x1000, vec![1, 2, 3, 4]));
    assert_eq!(image.read_memory(0x1001, 2), Ok(vec![2, 3]));
    assert_eq!(image.read_memory(0x1002, 4), Err(MemoryError::Unreadable));
    assert_eq!(image.read_u16(0x1000), Ok(0x0201));
    assert!(image.write_memory(0x1003, &[9]).is_ok());
    assert_eq!(image.read_memory(0x1000, 4), Ok(vec![1, 2, 3, 9]));
    assert_eq!(image.write_memory(0x1003, &[9, 9]), Err(MemoryError::Unwritable));
    assert!(!image.add_block(usize::MAX - 1, vec![0, 0, 0]));
}

#[test]
fn region_read_pads_missing_chunks() {
    let base = 0x100_0000;
    let size = 0x10_0000 + 4;
    let mut image = MemoryImage::new();
    let region = MemoryRegion::from_protection(base, size, PAGE_READWRITE, MEM_COMMIT);
    assert!(image.add_region(region));
    assert!(image.add_block(base + 0x10_0000, vec![7, 7, 7, 7]));
    let scanner = MemoryScanner::new(&image);
    let data = scanner.read_region(&region).unwrap();
    assert_eq!(data.len(), size);
    assert!(data[..0x10_0000].iter().all(|&b| b == 0));
    assert_eq!(&data[0x10_0000..], &[7, 7, 7, 7]);
    let chunks = scanner.iter_region_chunks(&region);
    assert_eq!(chunks.len(), 1);
    assert_eq!(chunks[0].0, base + 0x10_0000);
    let small = MemoryRegion::from_protection(0x5000, 8, PAGE_READWRITE, MEM_COMMIT);
    assert_eq!(scanner.read_region(&small), Err(MemoryError::Unreadable));
}

#[test]
fn main_module_is_first() {
    let modules = vec![
        ModuleInfo { name: "game.exe".to_string(), base_address: 0x40_0000, size: 0x1000 },
        ModuleInfo { name: "x.dll".to_string(), base_address: 0x80_0000, size: 0x1000 },
    ];
    assert_eq!(get_main_module(&modules).unwrap().name, "game.exe");
    assert_eq!(get_main_module(&Vec::new()).unwrap_err(), ModuleError::NoModules);
}

#[test]
fn results_view_follows_scanner() {
    let mut image = MemoryImage::new();
    let region = MemoryRegion::from_protection(0x1000, 8, PAGE_READWRITE, MEM_COMMIT);
    assert!(image.add_region_with_bytes(region, vec![5, 0, 0, 0, 5, 0, 0, 0]));
    let mut scanner = Scanner::new(Process::new(1, "t".to_string(), image, Vec::new()));
    scanner.first_scan(&ScanValue::U32(5), ScanType::Exact, &ScanOptions::new(ValueType::U32)).unwrap();
    let mut view = ResultsView::new();
    view.update_from_scanner(&scanner);
    assert_eq!(view.result_count(), 2);
    assert_eq!(view.value_type, ValueType::U32);
    assert_eq!(view.results[1].address, 0x1004);
    view.clear();
    assert_eq!(view.result_count(), 0);
}
