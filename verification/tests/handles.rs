use lib::boxed::{BoxHandle, BoxPtr};
use lib::cell::{CellMutHandle, CellRefMut};
use lib::deref::DerefHandle;
use lib::local::LocalHandle;
use lib::memory::{Byte, Memory};
use lib::ops::{
    BorrowPlace,
    CreateHandle,
    DerefPlace,
    DropHusk,
    DropPlace,
    ProjectPlace,
    ReadPlace,
    ReadVariant,
    VariantPlace,
    WritePlace,
};
use lib::ptr::non_null::NonNull;
use lib::ptr::{Metadata, Ptr};
use lib::reference::{MutHandle, RefHandle, SharedRef, UniqueRef};
use lib::subplace::{ArrayIndex, FieldAt, Matchable};
use lib::vec::{VecHandle, VecPtr};

#[allow(dead_code)]
struct Struct {
    a: u32,
    b: i32,
}

fn u32_at(mem: &Memory, addr: usize) -> u32 {
    let v = mem.read(addr, 4);
    u32::from_le_bytes([v[0], v[1], v[2], v[3]])
}

/// `let mut x = Struct { a: 42, b: 24 }; let mut y = &mut x; let z = &mut y;`
/// then `&mut (**z).a` and `&mut (**z).b`, each incremented.
#[test]
fn nested_mut_projection() {
    let mut mem = Memory::new(64);
    let x: Ptr<Struct> = Ptr::from_raw_parts(8, Metadata::Thin);
    let mut bytes = 42u32.to_le_bytes().to_vec();
    bytes.extend_from_slice(&24i32.to_le_bytes());
    x.write_place(&mut mem, &bytes);
    // y = &mut x, stored at 16; z = &mut y, stored at 24.
    x.store(&mut mem, 16);
    let y: Ptr<UniqueRef<Struct>> = Ptr::from_raw_parts(16, Metadata::Thin);
    y.store(&mut mem, 24);
    let z: Ptr<UniqueRef<UniqueRef<Struct>>> = Ptr::from_raw_parts(24, Metadata::Thin);

    let a_ref = {
        let hdl = LocalHandle::new(z);
        let hdl: MutHandle<'_, UniqueRef<Struct>> = hdl.deref_place(&mem);
        let hdl: MutHandle<'_, Struct> = hdl.deref_place(&mem);
        let hdl: MutHandle<'_, u32> = hdl.project_place(FieldAt::<Struct, u32>::new_unchecked("a", 0));
        let r: UniqueRef<'_, u32> = hdl.borrow(&mut mem);
        r
    };
    let b_ref = {
        let hdl = LocalHandle::new(z);
        let hdl: MutHandle<'_, UniqueRef<Struct>> = hdl.deref_place(&mem);
        let hdl: MutHandle<'_, Struct> = hdl.deref_place(&mem);
        let hdl: MutHandle<'_, i32> = hdl.project_place(FieldAt::<Struct, i32>::new_unchecked("b", 4));
        let r: UniqueRef<'_, i32> = hdl.borrow(&mut mem);
        r
    };
    assert_eq!(a_ref.as_ptr().addr, 8);
    assert_eq!(b_ref.as_ptr().addr, 12);

    let a = a_ref.as_ptr();
    let old_a = u32_at(&mem, a.addr);
    a.write_place(&mut mem, &(old_a + 1).to_le_bytes());
    let b = b_ref.as_ptr();
    let old_b = u32_at(&mem, b.addr) as i32;
    b.write_place(&mut mem, &(old_b + 1).to_le_bytes());

    assert_eq!(u32_at(&mem, 8), 43);
    assert_eq!(u32_at(&mem, 12) as i32, 25);
}

#[test]
fn shared_reference_handle_reads_and_borrows() {
    let mut mem = Memory::new(48);
    let target: Ptr<u32> = Ptr::from_raw_parts(32, Metadata::Thin);
    target.write_place(&mut mem, &99u32.to_le_bytes());
    target.store(&mut mem, 8);
    let r: Ptr<SharedRef<u32>> = Ptr::from_raw_parts(8, Metadata::Thin);
    let hdl: RefHandle<'_, u32> = SharedRef::handle_from_raw(r, &mem);
    let borrowed: SharedRef<'_, u32> = hdl.borrow(&mut mem);
    assert_eq!(borrowed.as_ptr().addr, 32);
    let hdl: RefHandle<'_, u32> = SharedRef::handle_from_raw(r, &mem);
    assert_eq!(hdl.read_place(&mem), 99u32.to_le_bytes().to_vec());
}

#[test]
fn mut_handle_write_read_drop() {
    let mut mem = Memory::new(32);
    let p: Ptr<u32> = Ptr::from_raw_parts(4, Metadata::Thin);
    let h = MutHandle::from_raw(p);
    h.write_place(&mut mem, &5u32.to_le_bytes());
    assert_eq!(h.read_place(&mem), 5u32.to_le_bytes().to_vec());
    let h2 = h.clone();
    h2.drop_place(&mut mem);
    assert_eq!(mem.byte(4), Byte::Uninit);
    h.write_place(&mut mem, &6u32.to_le_bytes());
    assert_eq!(h.read_place(&mem), 6u32.to_le_bytes().to_vec());
}

#[test]
fn local_handle_deref_of_raw_pointer() {
    let mut mem = Memory::new(32);
    let target: Ptr<u64> = Ptr::from_raw_parts(16, Metadata::Thin);
    target.store(&mut mem, 8);
    let local: Ptr<Ptr<u64>> = Ptr::from_raw_parts(8, Metadata::Thin);
    let hdl = LocalHandle::new(local);
    assert_eq!(hdl.as_ptr().addr, 8);
    let inner: Ptr<u64> = hdl.deref_place(&mem);
    assert_eq!(inner.addr, 16);
}

#[test]
fn local_handle_reads_and_projects() {
    let mut mem = Memory::new(32);
    let p: Ptr<[u8; 4]> = Ptr::from_raw_parts(4, Metadata::Thin);
    p.write_place(&mut mem, &[1, 2, 3, 4]);
    let hdl = LocalHandle::new(p);
    let copy = hdl;
    assert_eq!(copy.read_place(&mem), vec![1, 2, 3, 4]);
    let third = hdl.project_place(ArrayIndex::<u8, 4>::new_unchecked(2));
    assert_eq!(third.as_ptr().addr, 6);
    assert_eq!(third.read_place(&mem), vec![3]);
}

#[test]
fn local_handle_reads_variant_and_casts() {
    let mut mem = Memory::new(8);
    mem.write(3, &[1]);
    let p: Ptr<bool> = Ptr::from_raw_parts(3, Metadata::Thin);
    let hdl = LocalHandle::new(p);
    let v = hdl.read_variant(&mem);
    assert_eq!(v, 1);
    assert_eq!(<bool as Matchable>::variant_name(v), "true");
    let cast: LocalHandle<()> = VariantPlace::<1>::cast(hdl);
    assert_eq!(cast.as_ptr().addr, 3);
}

#[test]
fn non_null_operations() {
    let mut mem = Memory::new(32);
    let p: Ptr<u16> = Ptr::from_raw_parts(10, Metadata::Thin);
    let n = NonNull::new_unchecked(p);
    n.write_place(&mut mem, &[5, 0]);
    assert_eq!(n.read_place(&mem), vec![5, 0]);
    let raw: Ptr<u16> = n.borrow(&mut mem);
    assert_eq!(raw.addr, 10);
    let shared: SharedRef<'_, u16> = n.borrow(&mut mem);
    assert_eq!(shared.as_ptr().addr, 10);
    let unique: UniqueRef<'_, u16> = n.borrow(&mut mem);
    assert_eq!(unique.as_ptr().addr, 10);
    let same: NonNull<u16> = n.borrow(&mut mem);
    assert_eq!(same.as_ptr().addr, 10);
    p.store(&mut mem, 16);
    let stored: NonNull<u16> = NonNull::handle_from_raw(Ptr::from_raw_parts(16, Metadata::Thin), &mem);
    assert_eq!(stored.as_ptr().addr, 10);
}

#[test]
fn box_handle_operations_and_drop_husk() {
    let mut mem = Memory::new(48);
    let data: Ptr<[u32; 2]> = Ptr::from_raw_parts(24, Metadata::Thin);
    data.store(&mut mem, 8);
    let boxed: Ptr<BoxPtr<[u32; 2]>> = Ptr::from_raw_parts(8, Metadata::Thin);
    let hdl: BoxHandle<[u32; 2]> = BoxPtr::handle_from_raw(boxed, &mem);
    let mut bytes = 1u32.to_le_bytes().to_vec();
    bytes.extend_from_slice(&2u32.to_le_bytes());
    hdl.write_place(&mut mem, &bytes);
    let hdl: BoxHandle<[u32; 2]> = BoxPtr::handle_from_raw(boxed, &mem);
    let second = hdl.project_place(ArrayIndex::<u32, 2>::new_unchecked(1));
    assert_eq!(second.read_place(&mem), 2u32.to_le_bytes().to_vec());
    let hdl: BoxHandle<[u32; 2]> = BoxPtr::handle_from_raw(boxed, &mem);
    hdl.drop_place(&mut mem);
    assert_eq!(mem.byte(24), Byte::Uninit);
    BoxPtr::<[u32; 2]>::drop_husk(boxed, &mut mem);
    assert_eq!(mem.byte(24), Byte::Unallocated);
    assert_eq!(mem.byte(31), Byte::Unallocated);
    assert_eq!(mem.byte(32), Byte::Uninit);
}

#[test]
fn boxed_slice_drop_husk_frees_all_elements() {
    let mut mem = Memory::new(64);
    let data: Ptr<[u16]> = Ptr::from_raw_parts(40, Metadata::Len(3));
    data.store(&mut mem, 8);
    let boxed: Ptr<BoxPtr<[u16]>> = Ptr::from_raw_parts(8, Metadata::Thin);
    BoxPtr::<[u16]>::drop_husk(boxed, &mut mem);
    assert_eq!(mem.byte(39), Byte::Uninit);
    assert_eq!(mem.byte(40), Byte::Unallocated);
    assert_eq!(mem.byte(45), Byte::Unallocated);
    assert_eq!(mem.byte(46), Byte::Uninit);
}

#[test]
fn deref_handle_reads_writes_and_projects_through_box() {
    let mut mem = Memory::new(48);
    let data: Ptr<[u32; 2]> = Ptr::from_raw_parts(24, Metadata::Thin);
    data.store(&mut mem, 8);
    let boxed: Ptr<BoxPtr<[u32; 2]>> = Ptr::from_raw_parts(8, Metadata::Thin);
    let hdl: DerefHandle<BoxPtr<[u32; 2]>, [u32; 2]> = DerefHandle::new(boxed);
    let mut bytes = 10u32.to_le_bytes().to_vec();
    bytes.extend_from_slice(&20u32.to_le_bytes());
    hdl.write_place(&mut mem, &bytes);
    assert_eq!(hdl.read_place(&mem), bytes);
    let second = hdl.project_place(ArrayIndex::<u32, 2>::new_unchecked(1));
    assert_eq!(second.read_place(&mem), 20u32.to_le_bytes().to_vec());
    second.write_place(&mut mem, &30u32.to_le_bytes());
    assert_eq!(u32_at(&mem, 28), 30);
    assert_eq!(u32_at(&mem, 24), 10);
}

#[test]
fn vec_handle_borrows_its_elements() {
    let mut mem = Memory::new(64);
    let elems: Ptr<[u32]> = Ptr::from_raw_parts(40, Metadata::Len(3));
    elems.store(&mut mem, 8);
    mem.write_word(24, 4);
    let v: Ptr<VecPtr<u32>> = Ptr::from_raw_parts(8, Metadata::Thin);
    let hdl: VecHandle<u32> = VecPtr::handle_from_raw(v, &mem);
    let slice: SharedRef<'_, [u32]> = hdl.borrow(&mut mem);
    assert_eq!(slice.as_ptr().addr, 40);
    assert_eq!(slice.as_ptr().meta, Metadata::Len(3));
}

#[test]
fn cell_ref_mut_handle_needs_no_memory() {
    let mem = Memory::new(8);
    let r: Ptr<CellRefMut<u8>> = Ptr::from_raw_parts(1, Metadata::Thin);
    let _hdl: CellMutHandle<'_, u8> = CellRefMut::handle_from_raw(r, &mem);
}

#[test]
fn empty_boxed_slice_frees_nothing() {
    let mut mem = Memory::new(32);
    let data: Ptr<[u32]> = Ptr::from_raw_parts(28, Metadata::Len(0));
    data.store(&mut mem, 8);
    let boxed: Ptr<BoxPtr<[u32]>> = Ptr::from_raw_parts(8, Metadata::Thin);
    BoxPtr::<[u32]>::drop_husk(boxed, &mut mem);
    assert_eq!(mem.byte(28), Byte::Uninit);
}

#[test]
fn false_is_variant_zero() {
    let mut mem = Memory::new(4);
    mem.write(2, &[0]);
    let hdl = LocalHandle::new(Ptr::<bool>::from_raw_parts(2, Metadata::Thin));
    assert_eq!(hdl.read_variant(&mem), 0);
    assert_eq!(<bool as Matchable>::variant_name(0), "false");
    assert_eq!(<bool as Matchable>::VARIANT_COUNT, 2);
}

#[test]
fn raw_pointer_husk_is_left_alone() {
    let mut mem = Memory::from_bytes(&[1, 2, 3]);
    let p: Ptr<Ptr<u8>> = Ptr::from_raw_parts(1, Metadata::Thin);
    Ptr::<u8>::drop_husk(p, &mut mem);
    assert_eq!(mem.read(1, 3), vec![1, 2, 3]);
}

#[test]
fn deref_handle_writes_through_exclusive_reference() {
    let mut mem = Memory::new(48);
    let data: Ptr<[u16; 2]> = Ptr::from_raw_parts(32, Metadata::Thin);
    data.store(&mut mem, 8);
    let r: Ptr<UniqueRef<[u16; 2]>> = Ptr::from_raw_parts(8, Metadata::Thin);
    let hdl: DerefHandle<UniqueRef<[u16; 2]>, [u16; 2]> = DerefHandle::new(r);
    let second = hdl.project_place(ArrayIndex::<u16, 2>::new_unchecked(1));
    second.write_place(&mut mem, &[7, 1]);
    assert_eq!(mem.read(34, 2), vec![7, 1]);
    assert_eq!(mem.byte(32), Byte::Uninit);
}
