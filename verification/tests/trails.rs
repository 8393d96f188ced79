use orbit_sim::compact::swap_remove_marked;
use orbit_sim::trails::{TrailManager, TrailPositions, MAX_TRAIL_LENGTH, RECORD_INTERVAL};

#[test]
fn a_new_trail_holds_its_start() {
    let t = TrailPositions::new(7, (1i32, 2i32));
    assert_eq!(t.planet(), 7);
    assert_eq!(t.points_in_order(), vec![(1, 2)]);
}

#[test]
fn enqueued_positions_come_out_oldest_first() {
    let mut t = TrailPositions::new(0, 0u32);
    for i in 1..10u32 {
        t.enqueue_position(i);
    }
    assert_eq!(t.points_in_order(), (0..10).collect::<Vec<u32>>());
}

#[test]
fn a_full_trail_forgets_its_oldest_positions() {
    let mut t = TrailPositions::new(0, 0usize);
    for i in 1..(MAX_TRAIL_LENGTH + 25) {
        t.enqueue_position(i);
    }
    let pts = t.points_in_order();
    assert_eq!(pts.len(), MAX_TRAIL_LENGTH);
    assert_eq!(pts[0], 25);
    assert_eq!(*pts.last().unwrap(), MAX_TRAIL_LENGTH + 24);
}

#[test]
fn dequeue_stops_at_the_last_position() {
    let mut t = TrailPositions::new(0, 10u8);
    t.enqueue_position(11);
    t.enqueue_position(12);
    assert!(!t.dequeue_until_empty());
    assert_eq!(t.points_in_order(), vec![11, 12]);
    assert!(!t.dequeue_until_empty());
    assert!(t.dequeue_until_empty());
    assert!(t.dequeue_until_empty());
    assert_eq!(t.points_in_order(), vec![12]);
}

#[test]
fn positions_are_recorded_every_third_frame() {
    let mut m: TrailManager<i64> = TrailManager::new();
    let planets = vec![(1usize, 5i64), (2usize, 9i64)];
    for _ in 0..(RECORD_INTERVAL - 1) {
        m.planets_moved(&planets);
        assert!(m.trails().is_empty());
    }
    m.planets_moved(&planets);
    assert_eq!(m.trails().len(), 2);
    assert_eq!(m.trails()[0].planet(), 1);
    assert_eq!(m.trails()[1].points_in_order(), vec![9]);
    let moved = vec![(1usize, 6i64), (2usize, 10i64)];
    for _ in 0..RECORD_INTERVAL {
        m.planets_moved(&moved);
    }
    assert_eq!(m.trails()[0].points_in_order(), vec![5, 6]);
    assert_eq!(m.trails()[1].points_in_order(), vec![9, 10]);
}

#[test]
fn a_trail_outlives_its_planet_until_it_has_shrunk() {
    let mut m: TrailManager<i64> = TrailManager::new();
    let mut planets = vec![(1usize, 0i64), (2usize, 100i64)];
    for step in 0..3 {
        planets[0].1 = step;
        for _ in 0..RECORD_INTERVAL {
            m.planets_moved(&planets);
        }
    }
    assert_eq!(m.trails()[0].points_in_order(), vec![0, 1, 2]);
    let only_second = vec![(2usize, 100i64)];
    for _ in 0..RECORD_INTERVAL {
        m.planets_moved(&only_second);
    }
    assert_eq!(m.trails().len(), 2);
    assert_eq!(m.trails()[0].points_in_order(), vec![1, 2]);
    for _ in 0..RECORD_INTERVAL {
        m.planets_moved(&only_second);
    }
    assert_eq!(m.trails()[0].points_in_order(), vec![2]);
    for _ in 0..RECORD_INTERVAL {
        m.planets_moved(&only_second);
    }
    assert_eq!(m.trails().len(), 1);
    assert_eq!(m.trails()[0].planet(), 2);
}

#[test]
fn a_new_planet_gets_a_trail_at_the_end() {
    let mut m: TrailManager<i64> = TrailManager::new();
    for _ in 0..RECORD_INTERVAL {
        m.planets_moved(&vec![(4usize, 1i64)]);
    }
    for _ in 0..RECORD_INTERVAL {
        m.planets_moved(&vec![(4usize, 2i64), (8usize, 3i64)]);
    }
    assert_eq!(m.trails().len(), 2);
    assert_eq!(m.trails()[1].planet(), 8);
    assert_eq!(m.trails()[1].points_in_order(), vec![3]);
}

#[test]
fn marked_items_are_swapped_out() {
    let mut items = vec!['a', 'b', 'c', 'd', 'e'];
    swap_remove_marked(&mut items, vec![true, false, true, false, false]);
    assert_eq!(items, vec!['e', 'b', 'd']);
}

#[test]
fn removing_nothing_keeps_the_order() {
    let mut items = vec![3, 1, 2];
    swap_remove_marked(&mut items, vec![false, false, false]);
    assert_eq!(items, vec![3, 1, 2]);
    swap_remove_marked(&mut items, vec![true, true, true]);
    assert!(items.is_empty());
}
