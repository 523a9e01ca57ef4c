use kernel_core::batch::LoadPlan;
use kernel_core::loader::{get_base_addr, load_apps, AppLoader};

fn word(n: u64) -> Vec<u8> {
    n.to_le_bytes().to_vec()
}

fn entry(name: &str, start: u64, end: u64) -> Vec<u8> {
    let mut bytes = word(name.len() as u64);
    bytes.extend_from_slice(name.as_bytes());
    bytes.extend(word(start));
    bytes.extend(word(end));
    bytes
}

#[test]
fn program_areas_lie_one_behind_the_other() {
    assert_eq!(get_base_addr(0), 0x80400000);
    assert_eq!(get_base_addr(1), 0x80420000);
    assert_eq!(get_base_addr(2), 0x80440000);
    assert_eq!(get_base_addr(16), 0x80400000 + 16 * 0x20000);
}

#[test]
fn every_program_is_loaded_into_its_own_area() {
    let plans = load_apps(&vec![2, 0x8020_0000, 0x8020_0300, 0x8020_0a00]).unwrap();
    assert_eq!(
        plans,
        vec![
            LoadPlan {
                clear_start: 0x80400000,
                clear_len: 0x20000,
                src: 0x8020_0000,
                len: 0x300,
                dst: 0x80400000
            },
            LoadPlan {
                clear_start: 0x80420000,
                clear_len: 0x20000,
                src: 0x8020_0300,
                len: 0x700,
                dst: 0x80420000
            },
        ]
    );
    assert_eq!(load_apps(&vec![0, 7]), Some(vec![]));
}

#[test]
fn load_of_a_broken_table_fails() {
    assert_eq!(load_apps(&vec![]), None);
    assert_eq!(load_apps(&vec![0]), None);
    assert_eq!(load_apps(&vec![2, 1, 2]), None);
    assert_eq!(load_apps(&vec![2, 3, 2, 4]), None);
    assert_eq!(load_apps(&vec![17; 30]), None);
}

#[test]
fn table_with_names() {
    let mut meta = word(2);
    meta.extend(entry("hello", 0x8020_0000, 0x8020_1000));
    meta.extend(entry("fib", 0x8020_1000, 0x8020_1234));
    let loader = AppLoader::new(&meta).unwrap();
    assert_eq!(loader.apps.len(), 2);
    assert_eq!(loader.apps[0].name, b"hello".to_vec());
    assert_eq!(loader.apps[0].start, 0x8020_0000);
    assert_eq!(loader.apps[0].end, 0x8020_1000);
    assert_eq!(loader.apps[1].name, b"fib".to_vec());
    assert_eq!(loader.apps[1].start, 0x8020_1000);
    assert_eq!(loader.apps[1].end, 0x8020_1234);
}

#[test]
fn table_with_names_edge_cases() {
    assert_eq!(AppLoader::new(&word(0)).unwrap().apps.len(), 0);
    let mut meta = word(1);
    meta.extend(entry("", 5, 5));
    meta.extend(vec![0xaa; 3]);
    let loader = AppLoader::new(&meta).unwrap();
    assert_eq!(loader.apps[0].name, Vec::<u8>::new());
    assert_eq!((loader.apps[0].start, loader.apps[0].end), (5, 5));
    let mut big = word(1);
    big.extend(entry("x", 0x0102_0304_0506_0708, u64::MAX));
    let loader = AppLoader::new(&big).unwrap();
    assert_eq!(loader.apps[0].start, 0x0102_0304_0506_0708);
    assert_eq!(loader.apps[0].end, u64::MAX);
}

#[test]
fn table_with_names_that_ends_early() {
    assert!(AppLoader::new(&vec![]).is_none());
    assert!(AppLoader::new(&vec![1, 0, 0, 0, 0, 0, 0]).is_none());
    assert!(AppLoader::new(&word(1)).is_none());
    let mut meta = word(2);
    meta.extend(entry("hello", 1, 2));
    assert!(AppLoader::new(&meta).is_none());
    let mut full = word(1);
    full.extend(entry("hello", 1, 2));
    for cut in 8..full.len() {
        assert!(AppLoader::new(&full[..cut].to_vec()).is_none());
    }
    assert!(AppLoader::new(&full).is_some());
    let mut long_name = word(1);
    long_name.extend(word(u64::MAX));
    long_name.extend(vec![0; 64]);
    assert!(AppLoader::new(&long_name).is_none());
}

#[test]
fn image_that_ends_before_it_begins() {
    let mut meta = word(1);
    meta.extend(entry("a", 9, 8));
    assert!(AppLoader::new(&meta).is_none());
}
