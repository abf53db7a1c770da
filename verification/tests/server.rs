use voxel::server::components::NetworkId;
use voxel::server::net::{EntityChange, EntityTracker, IdAllocator, MappingError, NidEntityMapping};

#[test]
fn ids_start_at_one_and_freed_ids_come_back_smallest_first() {
    let mut a = IdAllocator::with_capacity(4);
    assert_eq!(a.allocate(), 1);
    assert_eq!(a.allocate(), 2);
    assert_eq!(a.allocate(), 3);
    assert_eq!(a.allocate(), 4);
    a.free(3);
    a.free(2);
    assert_eq!(a.allocate(), 2);
    assert_eq!(a.allocate(), 3);
    assert_eq!(a.allocate(), 5);
}

#[test]
fn mapping_add_get_remove() {
    let mut world = hecs::World::new();
    let e1 = world.spawn((1u8,));
    let e2 = world.spawn((2u8,));
    let mut m = NidEntityMapping::with_capacity(8);
    let id = NetworkId::from_raw(3);
    assert!(m.add_mapping(id, e1).is_ok());
    assert!(m.get(NetworkId::from_raw(1)).is_none());
    assert_eq!(m.get(id), Some(e1));
    assert_eq!(m.add_mapping(id, e2), Err(MappingError::AlreadyMapped));
    assert_eq!(m.remove_mapping(id), Ok(e1));
    assert!(m.get(id).is_none());
    assert_eq!(m.remove_mapping(id), Err(MappingError::NotMapped));
    assert!(NetworkId::invalid().raw() == 0);
}

#[test]
fn tracker_reports_added_moved_removed() {
    let mut world = hecs::World::new();
    let player = world.spawn(());
    let mut t = EntityTracker::new(player);
    assert_eq!(t.player_entity(), player);
    // Out of view and unknown: nothing is said.
    assert_eq!(t.track(7, false, true), None);
    // Comes into view.
    assert_eq!(t.track(7, true, false), Some(EntityChange::Added));
    // Stays in view, near or in between.
    assert_eq!(t.track(7, true, false), Some(EntityChange::Moved));
    assert_eq!(t.track(7, false, false), Some(EntityChange::Moved));
    // Goes out of view once.
    assert_eq!(t.track(7, false, true), Some(EntityChange::Removed));
    assert_eq!(t.track(7, false, true), None);
    // Another entity is tracked on its own.
    assert_eq!(t.track(9, true, false), Some(EntityChange::Added));
    assert_eq!(t.track(7, false, false), None);
}

#[test]
fn tracker_counts_lost_packets_until_reported() {
    let mut world = hecs::World::new();
    let mut t = EntityTracker::new(world.spawn(()));
    assert_eq!(t.take_report(), (None, 0));
    t.record_input(10, 3);
    t.record_input(11, 0);
    assert_eq!(t.take_report(), (Some(11), 3));
    assert_eq!(t.take_report(), (None, 0));
    // The count wraps around at 256, and only the low byte of a loss counts.
    t.record_input(12, 250);
    t.record_input(13, 10);
    assert_eq!(t.take_report(), (Some(13), 4));
    t.record_input(14, 0x1_02);
    assert_eq!(t.take_report(), (Some(14), 2));
}
