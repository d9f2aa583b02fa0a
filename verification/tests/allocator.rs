use ecdb_core::table::EntityAllocator;

#[test]
fn fresh_ids_count_up_from_zero() {
    let mut a = EntityAllocator::new();
    assert_eq!(a.allocate().as_usize(), 0);
    assert_eq!(a.allocate().as_usize(), 1);
    assert_eq!(a.allocate().as_usize(), 2);
}

#[test]
fn freed_ids_are_reused_last_in_first_out() {
    let mut a = EntityAllocator::new();
    let e0 = a.allocate();
    let _e1 = a.allocate();
    let e2 = a.allocate();
    a.dealloc(e0);
    a.dealloc(e2);
    assert_eq!(a.allocate().as_usize(), 2);
    assert_eq!(a.allocate().as_usize(), 0);
    assert_eq!(a.allocate().as_usize(), 3);
}

#[test]
fn live_ids_are_pairwise_distinct() {
    let mut a = EntityAllocator::new();
    let mut live: Vec<usize> = Vec::new();
    for _ in 0..4 {
        live.push(a.allocate().as_usize());
    }
    // Recycle one id and allocate again: the replacement may equal the id
    // that was freed, but never an id that is still live.
    let freed = live.remove(1);
    a.dealloc(ecdb_core::entity::EntityID::new(freed));
    live.push(a.allocate().as_usize());
    for i in 0..live.len() {
        for j in (i + 1)..live.len() {
            assert_ne!(live[i], live[j]);
        }
    }
}
