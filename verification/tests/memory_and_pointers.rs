use lib::memory::{Byte, Memory};
use lib::ops::{DropPlace, ProjectPlace, ReadMetadata, ReadPlace, WritePlace};
use lib::ptr::{Metadata, Pointee, Ptr};
use lib::subplace::{ArrayIndex, Field, FieldAt, SliceIndex, Subplace};

#[test]
fn new_memory_has_unallocated_null_byte() {
    let mem = Memory::new(4);
    assert_eq!(mem.len(), 4);
    assert_eq!(mem.byte(0), Byte::Unallocated);
    assert_eq!(mem.byte(1), Byte::Uninit);
    assert_eq!(mem.byte(3), Byte::Uninit);
}

#[test]
fn from_bytes_places_bytes_after_null() {
    let mem = Memory::from_bytes(&[7, 8, 9]);
    assert_eq!(mem.len(), 4);
    assert_eq!(mem.byte(0), Byte::Unallocated);
    assert_eq!(mem.read(1, 3), vec![7, 8, 9]);
}

#[test]
fn write_then_read_gives_value_back() {
    let mut mem = Memory::new(16);
    mem.write(4, &[1, 2, 3]);
    assert_eq!(mem.read(4, 3), vec![1, 2, 3]);
    assert_eq!(mem.byte(3), Byte::Uninit);
    assert_eq!(mem.byte(7), Byte::Uninit);
}

#[test]
fn uninit_and_dealloc_change_byte_states() {
    let mut mem = Memory::from_bytes(&[1, 2, 3, 4]);
    mem.uninit(2, 2);
    assert_eq!(mem.byte(1), Byte::Init(1));
    assert_eq!(mem.byte(2), Byte::Uninit);
    assert_eq!(mem.byte(3), Byte::Uninit);
    mem.dealloc(1, 4);
    assert_eq!(mem.byte(1), Byte::Unallocated);
    assert_eq!(mem.byte(4), Byte::Unallocated);
}

#[test]
fn words_are_little_endian() {
    let mut mem = Memory::new(32);
    mem.write_word(8, 0x0102_0304_0506_0708);
    assert_eq!(mem.read(8, 8), vec![8, 7, 6, 5, 4, 3, 2, 1]);
    assert_eq!(mem.read_word(8), 0x0102_0304_0506_0708);
}

#[test]
fn thin_pointer_store_and_load() {
    let mut mem = Memory::new(32);
    let p: Ptr<u32> = Ptr::from_raw_parts(20, Metadata::Thin);
    p.store(&mut mem, 8);
    let q: Ptr<u32> = Ptr::load(&mem, 8);
    assert_eq!(q.addr, 20);
    assert_eq!(q.meta, Metadata::Thin);
    assert_eq!(mem.read_word(8), 20);
}

#[test]
fn slice_pointer_store_and_load_keeps_length() {
    let mut mem = Memory::new(40);
    let p: Ptr<[u16]> = Ptr::from_raw_parts(30, Metadata::Len(5));
    p.store(&mut mem, 8);
    assert_eq!(mem.read_word(8), 30);
    assert_eq!(mem.read_word(16), 5);
    let q: Ptr<[u16]> = Ptr::load(&mem, 8);
    assert_eq!(q.addr, 30);
    assert_eq!(q.meta, Metadata::Len(5));
}

#[test]
fn pointer_basics() {
    let p: Ptr<u64> = Ptr::null();
    assert!(p.is_null());
    let q: Ptr<u64> = Ptr::from_raw_parts(8, Metadata::Thin);
    assert!(!q.is_null());
    assert_eq!(q.byte_add(16).address(), 24);
    let r: Ptr<u8> = q.cast();
    assert_eq!(r.addr, 8);
    assert_eq!(q.cast_mut().addr, 8);
    assert_eq!(q.metadata(), Metadata::Thin);
}

#[test]
fn raw_pointer_read_write_drop() {
    let mut mem = Memory::new(16);
    let p: Ptr<u32> = Ptr::from_raw_parts(4, Metadata::Thin);
    p.write_place(&mut mem, &7u32.to_le_bytes());
    assert_eq!(p.read_place(&mem), 7u32.to_le_bytes().to_vec());
    p.drop_place(&mut mem);
    assert_eq!(mem.byte(4), Byte::Uninit);
    assert_eq!(mem.byte(7), Byte::Uninit);
}

#[test]
fn projecting_a_field_adds_its_offset() {
    let p: Ptr<[u32; 2]> = Ptr::from_raw_parts(100, Metadata::Thin);
    let f: FieldAt<[u32; 2], u32> = FieldAt::new_unchecked("second", 4);
    let q = p.project_place(f);
    assert_eq!(q.addr, 104);
    assert_eq!(q.meta, Metadata::Thin);
}

#[test]
fn projecting_twice_adds_both_offsets() {
    let p: Ptr<[[u16; 3]; 4]> = Ptr::from_raw_parts(1000, Metadata::Thin);
    let row = p.project_place(ArrayIndex::<[u16; 3], 4>::new_unchecked(2));
    assert_eq!(row.addr, 1012);
    let elem = row.project_place(ArrayIndex::<u16, 3>::new_unchecked(1));
    assert_eq!(elem.addr, 1014);
}

#[test]
fn array_and_slice_index_offsets() {
    let (off, meta) = ArrayIndex::<u64, 10>::new_unchecked(3).offset(Metadata::Thin);
    assert_eq!(off, 24);
    assert_eq!(meta, Metadata::Thin);
    let (off, meta) = SliceIndex::<u32>::new_unchecked(5).offset(Metadata::Len(6));
    assert_eq!(off, 20);
    assert_eq!(meta, Metadata::Thin);
}

#[test]
fn slice_element_projection_takes_thin_metadata() {
    let p: Ptr<[u32]> = Ptr::from_raw_parts(40, Metadata::Len(4));
    let q = p.project_place(SliceIndex::<u32>::new_unchecked(3));
    assert_eq!(q.addr, 52);
    assert_eq!(q.meta, Metadata::Thin);
}

#[test]
fn trailing_slice_field_keeps_metadata() {
    let f: FieldAt<[u8], [u8]> = FieldAt::new_unchecked("tail", 2);
    let (off, meta) = f.offset(Metadata::Len(9));
    assert_eq!(off, 2);
    assert_eq!(meta, Metadata::Len(9));
}

#[test]
fn reading_a_subplace_reads_part_of_the_place() {
    let mut mem = Memory::new(32);
    let p: Ptr<[u32; 2]> = Ptr::from_raw_parts(8, Metadata::Thin);
    let mut bytes = 11u32.to_le_bytes().to_vec();
    bytes.extend_from_slice(&22u32.to_le_bytes());
    p.write_place(&mut mem, &bytes);
    let second = p.project_place(ArrayIndex::<u32, 2>::new_unchecked(1));
    assert_eq!(second.read_place(&mem), 22u32.to_le_bytes().to_vec());
}

#[test]
fn writing_a_field_leaves_the_other_field() {
    let mut mem = Memory::new(32);
    let p: Ptr<[u32; 2]> = Ptr::from_raw_parts(8, Metadata::Thin);
    let a = p.project_place(ArrayIndex::<u32, 2>::new_unchecked(0));
    let b = p.project_place(ArrayIndex::<u32, 2>::new_unchecked(1));
    a.write_place(&mut mem, &1u32.to_le_bytes());
    b.write_place(&mut mem, &2u32.to_le_bytes());
    a.write_place(&mut mem, &3u32.to_le_bytes());
    assert_eq!(b.read_place(&mem), 2u32.to_le_bytes().to_vec());
    assert_eq!(a.read_place(&mem), 3u32.to_le_bytes().to_vec());
}

#[test]
fn smallest_memory_is_only_the_null_byte() {
    let mem = Memory::new(1);
    assert_eq!(mem.len(), 1);
    assert_eq!(mem.byte(0), Byte::Unallocated);
    assert_eq!(mem.read(1, 0), Vec::<u8>::new());
}

#[test]
fn zero_sized_elements_all_sit_at_offset_zero() {
    let (off, _) = ArrayIndex::<(), 5>::new_unchecked(4).offset(Metadata::Thin);
    assert_eq!(off, 0);
    let (off, _) = ArrayIndex::<u32, 5>::new_unchecked(0).offset(Metadata::Thin);
    assert_eq!(off, 0);
}

#[test]
fn field_names_are_kept() {
    let f: FieldAt<[u8; 3], u8> = FieldAt::new_unchecked("middle", 1);
    assert_eq!(f.name(), "middle");
}

#[test]
fn layouts_of_sized_and_slice_pointees() {
    let l = <u32 as Pointee>::layout_for(Metadata::Thin);
    assert_eq!((l.size, l.align), (4, 4));
    let l = <[u16] as Pointee>::layout_for(Metadata::Len(5));
    assert_eq!((l.size, l.align), (10, 2));
    assert!(<[u16] as Pointee>::is_slice());
    assert!(!<u16 as Pointee>::is_slice());
    assert_eq!(<u64 as Pointee>::align(), 8);
}

#[test]
fn dropping_a_field_leaves_the_other_field() {
    let mut mem = Memory::new(32);
    let p: Ptr<[u16; 2]> = Ptr::from_raw_parts(10, Metadata::Thin);
    p.write_place(&mut mem, &[1, 0, 2, 0]);
    let first = p.project_place(ArrayIndex::<u16, 2>::new_unchecked(0));
    let second = p.project_place(ArrayIndex::<u16, 2>::new_unchecked(1));
    first.drop_place(&mut mem);
    assert_eq!(mem.byte(10), Byte::Uninit);
    assert_eq!(second.read_place(&mem), vec![2, 0]);
    first.write_place(&mut mem, &[9, 0]);
    assert_eq!(first.read_place(&mem), vec![9, 0]);
}
