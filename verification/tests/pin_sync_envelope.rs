use lib::borrowck::AccessKind;
use lib::boxed::{BoxHandle, BoxPtr};
use lib::envelope::{EncryptedEnvelope, Key};
use lib::memory::{Byte, Memory};
use lib::ops::{BorrowPlace, CreateHandle, DerefPlace, ProjectPlace, ReadPlace, WrapPlace, WritePlace};
use lib::pin::{PinPtr, PinnedHandle, Pinning};
use lib::ptr::non_null::NonNull;
use lib::ptr::{Metadata, Ptr};
use lib::reference::{MutHandle, SharedRef, UniqueRef};
use lib::subplace::{ArrayIndex, Field, FieldAt, Subplace, TransmutedField, TransmutedSubplace};
use lib::sync::{ArcHandle, ArcPtr, ArcRef, ArcRefHandle};

fn u32_at(mem: &Memory, addr: usize) -> u32 {
    let v = mem.read(addr, 4);
    u32::from_le_bytes([v[0], v[1], v[2], v[3]])
}

#[test]
fn pinned_box_handle_reads_and_writes() {
    let mut mem = Memory::new(48);
    let data: Ptr<u32> = Ptr::from_raw_parts(24, Metadata::Thin);
    data.store(&mut mem, 8);
    let pinned: Ptr<PinPtr<BoxPtr<u32>>> = Ptr::from_raw_parts(8, Metadata::Thin);
    let hdl: PinnedHandle<BoxHandle<u32>> = PinPtr::handle_from_raw(pinned, &mem);
    hdl.write_place(&mut mem, &77u32.to_le_bytes());
    let hdl: PinnedHandle<BoxHandle<u32>> = PinPtr::handle_from_raw(pinned, &mem);
    assert_eq!(hdl.read_place(&mem), 77u32.to_le_bytes().to_vec());
}

#[test]
fn pinned_array_elements_stay_pinned() {
    let mut mem = Memory::new(48);
    let p: Ptr<[u32; 4]> = Ptr::from_raw_parts(16, Metadata::Thin);
    let hdl = PinnedHandle::new_unchecked(MutHandle::from_raw(p));
    let elem = hdl.project_place(ArrayIndex::<u32, 4>::new_unchecked(2));
    match elem {
        Pinning::Pinned(pinned) => {
            let r: PinPtr<UniqueRef<'_, u32>> = pinned.borrow(&mut mem);
            assert_eq!(r.into_inner_unchecked().as_ptr().addr, 24);
        },
        Pinning::Unpinned(_) => panic!("array elements are structurally pinned"),
    }
}

#[test]
fn pinned_permissions_are_those_of_the_wrapped_handle() {
    assert_eq!(
        <PinnedHandle<MutHandle<'static, u32>> as ReadPlace>::ACCESS,
        AccessKind::Exclusive
    );
    assert!(<PinnedHandle<MutHandle<'static, u32>> as ReadPlace>::SAFE);
    assert!(!<PinnedHandle<NonNull<u32>> as ReadPlace>::SAFE);
    assert_eq!(<PinnedHandle<NonNull<u32>> as WritePlace>::ACCESS, AccessKind::Exclusive);
}

#[test]
fn pinned_deref_goes_through_the_wrapped_handle() {
    let mut mem = Memory::new(48);
    let target: Ptr<u8> = Ptr::from_raw_parts(40, Metadata::Thin);
    target.store(&mut mem, 16);
    let p: Ptr<UniqueRef<u8>> = Ptr::from_raw_parts(16, Metadata::Thin);
    let hdl = PinnedHandle::new_unchecked(MutHandle::from_raw(p));
    let inner: MutHandle<'_, u8> = hdl.deref_place(&mem);
    let r: UniqueRef<'_, u8> = inner.borrow(&mut mem);
    assert_eq!(r.as_ptr().addr, 40);
}

/// An `Arc<u32>` allocation at 16: strong count 1, weak count 1, data at 32.
fn arc_memory() -> (Memory, Ptr<ArcPtr<u32>>) {
    let mut mem = Memory::new(64);
    mem.write_word(16, 1);
    mem.write_word(24, 1);
    mem.write(32, &5u32.to_le_bytes());
    let inner: Ptr<u32> = Ptr::from_raw_parts(16, Metadata::Thin);
    inner.store(&mut mem, 8);
    (mem, Ptr::from_raw_parts(8, Metadata::Thin))
}

#[test]
fn arc_handle_borrows_its_data() {
    let (mut mem, arc) = arc_memory();
    let hdl: ArcHandle<u32> = ArcPtr::handle_from_raw(arc, &mem);
    let r: SharedRef<'_, u32> = hdl.borrow(&mut mem);
    assert_eq!(r.as_ptr().addr, 32);
    let hdl: ArcHandle<u32> = ArcPtr::handle_from_raw(arc, &mem);
    let p: Ptr<u32> = hdl.borrow(&mut mem);
    assert_eq!(p.addr, 32);
    let hdl: ArcHandle<u32> = ArcPtr::handle_from_raw(arc, &mem);
    let n: NonNull<u32> = hdl.borrow(&mut mem);
    assert_eq!(n.as_ptr().addr, 32);
    assert_eq!(mem.read_word(16), 1);
}

#[test]
fn arc_ref_counts_and_frees() {
    let (mut mem, arc) = arc_memory();
    let hdl: ArcHandle<u32> = ArcPtr::handle_from_raw(arc, &mem);
    let r: ArcRef<u32> = hdl.borrow(&mut mem);
    assert_eq!(mem.read_word(16), 2);
    let hdl: ArcRefHandle<u32> = r.handle();
    assert_eq!(hdl.read_place(&mem), 5u32.to_le_bytes().to_vec());
    let r2: ArcRef<u32> = r.handle().borrow(&mut mem);
    assert_eq!(mem.read_word(16), 3);
    assert!(!r2.drop(&mut mem));
    assert_eq!(mem.read_word(16), 2);
    assert!(!r.drop(&mut mem));
    assert_eq!(mem.read_word(16), 1);
    assert_eq!(u32_at(&mem, 32), 5);
}

#[test]
fn last_arc_ref_frees_with_its_layout() {
    let (mut mem, arc) = arc_memory();
    mem.write_word(16, 0);
    mem.write_word(16, 1);
    let hdl: ArcHandle<u32> = ArcPtr::handle_from_raw(arc, &mem);
    let r: ArcRef<u32> = hdl.borrow(&mut mem);
    // The reference held by the `Arc` itself goes away.
    mem.write_word(16, 1);
    assert!(r.drop(&mut mem));
    assert_eq!(mem.byte(16), Byte::Unallocated);
    assert_eq!(mem.byte(19), Byte::Unallocated);
    assert_eq!(mem.byte(20), Byte::Init(0));
}

#[test]
fn arc_ref_handle_projects_and_derefs() {
    let (mut mem, arc) = arc_memory();
    let hdl: ArcHandle<u32> = ArcPtr::handle_from_raw(arc, &mem);
    let r: ArcRef<u32> = hdl.borrow(&mut mem);
    let f: FieldAt<u32, [u8; 2]> = FieldAt::new_unchecked("high", 2);
    let projected = r.handle().project_place(f);
    let p: Ptr<[u8; 2]> = projected.borrow(&mut mem);
    assert_eq!(p.addr, 34);
    let s: SharedRef<'_, u32> = r.handle().borrow(&mut mem);
    assert_eq!(s.as_ptr().addr, 32);
    let n: NonNull<u32> = r.handle().borrow(&mut mem);
    assert_eq!(n.as_ptr().addr, 32);
}

#[test]
fn arc_ref_to_a_stored_pointer_derefs() {
    let mut mem = Memory::new(64);
    mem.write_word(16, 1);
    mem.write_word(24, 1);
    let target: Ptr<u8> = Ptr::from_raw_parts(50, Metadata::Thin);
    target.store(&mut mem, 32);
    let inner: Ptr<Ptr<u8>> = Ptr::from_raw_parts(16, Metadata::Thin);
    inner.store(&mut mem, 8);
    let arc: Ptr<ArcPtr<Ptr<u8>>> = Ptr::from_raw_parts(8, Metadata::Thin);
    let hdl: ArcHandle<Ptr<u8>> = ArcPtr::handle_from_raw(arc, &mem);
    let r: ArcRef<Ptr<u8>> = hdl.borrow(&mut mem);
    let deref: Ptr<u8> = r.handle().deref_place(&mem);
    assert_eq!(deref.addr, 50);
    assert!(!r.drop(&mut mem));
}

#[test]
fn wrapping_keeps_the_offset() {
    let f: FieldAt<BoxPtr<u8>, usize> = FieldAt::new_unchecked("address", 0);
    let w = <Option<BoxPtr<u8>> as WrapPlace<FieldAt<BoxPtr<u8>, usize>>>::wrap(f);
    assert_eq!(w.offset(Metadata::Thin), (0, Metadata::Thin));
    let f: FieldAt<NonNull<u64>, usize> = FieldAt::new_unchecked("address", 0);
    let w = <Option<NonNull<u64>> as WrapPlace<FieldAt<NonNull<u64>, usize>>>::wrap(f);
    assert_eq!(w.offset(Metadata::Thin), (0, Metadata::Thin));
    let i = ArrayIndex::<u8, 8>::new_unchecked(5);
    let c = <core::cell::Cell<[u8; 8]> as WrapPlace<ArrayIndex<u8, 8>>>::wrap(i);
    assert_eq!(c.offset(Metadata::Thin), (5, Metadata::Thin));
    let f: FieldAt<[u32; 2], u32> = FieldAt::new_unchecked("second", 4);
    let m = <core::mem::MaybeUninit<[u32; 2]> as WrapPlace<FieldAt<[u32; 2], u32>>>::wrap(f);
    assert_eq!(m.offset(Metadata::Thin), (4, Metadata::Thin));
    let i = ArrayIndex::<u8, 8>::new_unchecked(7);
    let u = <core::cell::UnsafeCell<[u8; 8]> as WrapPlace<ArrayIndex<u8, 8>>>::wrap(i);
    assert_eq!(u.offset(Metadata::Thin), (7, Metadata::Thin));
}

#[test]
fn transmuted_subplaces_keep_offset_and_name() {
    let f: FieldAt<[u32; 2], u32> = FieldAt::new_unchecked("y", 4);
    let t: TransmutedField<FieldAt<[u32; 2], u32>, [i32; 2], i32> = TransmutedField::new_unchecked(f);
    assert_eq!(t.name(), "y");
    assert_eq!(t.offset(Metadata::Thin), (4, Metadata::Thin));
    let s: TransmutedSubplace<ArrayIndex<u64, 3>, [i64; 3], i64> =
        TransmutedSubplace::new_unchecked(ArrayIndex::new_unchecked(2));
    assert_eq!(s.offset(Metadata::Thin), (16, Metadata::Thin));
}

#[test]
fn envelope_round_trip() {
    let key = Key(42);
    let value = 123456789u32.to_le_bytes();
    let env: EncryptedEnvelope<u32> = EncryptedEnvelope::encrypt(&value, key);
    assert_eq!(env.decrypt(key), value.to_vec());
}

#[test]
fn envelope_field_borrow_decrypts_the_field() {
    let key = Key(7);
    let mut value = 123456789u32.to_le_bytes().to_vec();
    value.extend_from_slice(&987654321u32.to_le_bytes());
    let env: EncryptedEnvelope<[u32; 2]> = EncryptedEnvelope::encrypt(&value, key);
    let whole = env.borrow();
    assert_eq!(whole.decrypt(key), value);
    let second = whole.project(ArrayIndex::<u32, 2>::new_unchecked(1));
    assert_eq!(second.decrypt(key), 987654321u32.to_le_bytes().to_vec());
    let low: FieldAt<u32, u16> = FieldAt::new_unchecked("low", 0);
    let low_of_second = second.project(low);
    assert_eq!(low_of_second.decrypt(key), (987654321u32 as u16).to_le_bytes().to_vec());
}
