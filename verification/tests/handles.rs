use arc_handles::handle::{ArcMake, ReleaseEffect};

#[test]
fn scenario_two_weaks_upgrade_and_teardown() {
    let (x, mut b) = ArcMake::new(("hi", 0u8));
    let y = x.downgrade(&mut b);
    let z = x.downgrade(&mut b);

    // A second owner appears through one weak handle and reads the payload.
    let y2 = y.upgrade(&mut b).unwrap();
    assert_eq!(x.read(&b).0, "hi");
    assert_eq!(y2.read(&b).0, "hi");
    assert_eq!(y2.release(&mut b), ReleaseEffect::Shared);
    assert_eq!(y.release(&mut b), ReleaseEffect::Shared);

    // The payload has not been torn down; the other weak handle still upgrades.
    assert!(b.payload_present());
    let z2 = z.upgrade(&mut b);
    assert!(z2.is_some());
    assert_eq!(z2.unwrap().release(&mut b), ReleaseEffect::Shared);

    // The original strong handle leaves: the payload is torn down exactly now.
    assert_eq!(x.release(&mut b), ReleaseEffect::PayloadDropped);
    assert!(!b.payload_present());
    assert!(z.upgrade(&mut b).is_none());
    assert_eq!(z.release(&mut b), ReleaseEffect::Deallocated);
    assert_eq!(b.alloc_count(), 0);
}

#[test]
fn clone_storm_leaves_one_owner() {
    let (x, mut b) = ArcMake::new(String::from("payload"));
    for _ in 0..100 {
        let c = x.clone(&mut b);
        assert_eq!(b.strong_count(), 2);
        assert_eq!(c.release(&mut b), ReleaseEffect::Shared);
    }
    assert_eq!(b.strong_count(), 1);
    assert!(b.payload_present());
    assert_eq!(x.read(&b).as_str(), "payload");
    assert_eq!(x.release(&mut b), ReleaseEffect::Deallocated);
}

#[test]
fn payload_destroyed_exactly_at_last_release() {
    let (x, mut b) = ArcMake::new('p');
    let c1 = x.clone(&mut b);
    let c2 = x.clone(&mut b);
    let c3 = x.clone(&mut b);
    assert_eq!(b.strong_count(), 4);
    assert_eq!(c2.release(&mut b), ReleaseEffect::Shared);
    assert!(b.payload_present());
    assert_eq!(x.release(&mut b), ReleaseEffect::Shared);
    assert!(b.payload_present());
    assert_eq!(c1.release(&mut b), ReleaseEffect::Shared);
    assert!(b.payload_present());
    assert_eq!(c3.release(&mut b), ReleaseEffect::Deallocated);
    assert!(!b.payload_present());
}

#[test]
fn allocation_outlives_payload() {
    let (x, mut b) = ArcMake::new(0i64);
    let w = x.downgrade(&mut b);
    // The payload goes first; the weak handle keeps the allocation alive.
    assert_eq!(x.release(&mut b), ReleaseEffect::PayloadDropped);
    assert!(!b.payload_present());
    assert_eq!(b.alloc_count(), 1);
    // The allocation is freed once, strictly after the payload teardown.
    assert_eq!(w.release(&mut b), ReleaseEffect::Deallocated);
    assert_eq!(b.alloc_count(), 0);
}

#[test]
fn sole_owner_release_deallocates() {
    let (x, mut b) = ArcMake::new(1u32);
    assert_eq!(b.alloc_count(), 1);
    // With no weak handle around, the one release tears down payload and
    // allocation in the same operation.
    assert_eq!(x.release(&mut b), ReleaseEffect::Deallocated);
    assert!(!b.payload_present());
    assert_eq!(b.alloc_count(), 0);
    assert_eq!(b.strong_count(), 0);
}

#[test]
fn upgrade_tracks_strong_count() {
    let (x, mut b) = ArcMake::new(5i32);
    let w = x.downgrade(&mut b);
    let up = w.upgrade(&mut b);
    assert!(up.is_some());
    assert_eq!(up.unwrap().release(&mut b), ReleaseEffect::Shared);
    assert_eq!(x.release(&mut b), ReleaseEffect::PayloadDropped);
    // Once the strong count reached zero, upgrading fails for good.
    assert!(w.upgrade(&mut b).is_none());
    assert!(w.upgrade(&mut b).is_none());
    assert_eq!(w.release(&mut b), ReleaseEffect::Deallocated);
}

#[test]
fn exclusive_mut_only_without_other_handles() {
    let (x, mut b) = ArcMake::new(10u64);
    {
        let m = x.get_mut(&mut b);
        assert!(m.is_some());
        *m.unwrap() = 11;
    }
    assert_eq!(*x.read(&b), 11);
    let w = x.downgrade(&mut b);
    assert!(x.get_mut(&mut b).is_none());
    let x2 = x.clone(&mut b);
    assert!(x.get_mut(&mut b).is_none());
    assert_eq!(x2.release(&mut b), ReleaseEffect::Shared);
    assert_eq!(w.release(&mut b), ReleaseEffect::Shared);
    assert!(x.get_mut(&mut b).is_some());
    assert_eq!(x.release(&mut b), ReleaseEffect::Deallocated);
}

#[test]
fn weak_clone_counts_allocation_only() {
    let (x, mut b) = ArcMake::new(0u8);
    let w = x.downgrade(&mut b);
    let w2 = w.clone(&mut b);
    assert_eq!(b.alloc_count(), 3);
    assert_eq!(b.strong_count(), 1);
    assert_eq!(w2.release(&mut b), ReleaseEffect::Shared);
    assert_eq!(x.release(&mut b), ReleaseEffect::PayloadDropped);
    assert_eq!(w.release(&mut b), ReleaseEffect::Deallocated);
}
