use atlasfetch::space::GlobalSpace;

type Space = GlobalSpace<(i32, i32, i32, i32), (i32, i32), (u32, u32)>;

fn ids(s: &Space) -> Vec<u64> {
    s.ordered_windows().iter().map(|w| w.id).collect()
}

#[test]
fn ids_count_up_from_one() {
    let mut s: Space = GlobalSpace::new();
    assert_eq!(s.add_region("main".to_string(), (0, 0, 100, 100)), 1);
    assert_eq!(s.add_region("side".to_string(), (100, 0, 50, 100)), 2);
    assert_eq!(s.add_window((1, 2), (10, 10), Some(1)), 1);
    assert_eq!(s.add_window((3, 4), (20, 20), None), 2);
    assert_eq!(s.add_window((5, 6), (30, 30), Some(2)), 3);
    assert_eq!(ids(&s), vec![1, 2, 3]);
    let r = s.region(2).unwrap();
    assert_eq!((r.id, r.name.as_str(), r.rect, r.z_index), (2, "side", (100, 0, 50, 100), 0));
    assert!(s.region(9).is_none());
    let mut names: Vec<&str> = s.regions().iter().map(|r| r.name.as_str()).collect();
    names.sort();
    assert_eq!(names, vec!["main", "side"]);
    assert!(s.first_region().is_some());
}

#[test]
fn raising_and_removing_windows() {
    let mut s: Space = GlobalSpace::new();
    for i in 0..3 {
        s.add_window((i, i), (1, 1), None);
    }
    s.raise_window(1);
    assert_eq!(ids(&s), vec![2, 3, 1]);
    s.raise_window(1);
    assert_eq!(ids(&s), vec![2, 3, 1]);
    assert!(s.remove_window(3));
    assert_eq!(ids(&s), vec![2, 1]);
    assert!(!s.remove_window(3));
    // raising an id that has no window keeps it in the order but not among the windows
    s.raise_window(7);
    assert_eq!(ids(&s), vec![2, 1]);
    assert_eq!(s.add_window((0, 0), (1, 1), None), 4);
    assert_eq!(ids(&s), vec![2, 1, 4]);
}

#[test]
fn moving_and_resizing() {
    let mut s: Space = GlobalSpace::new();
    let id = s.add_window((1, 1), (5, 5), Some(3));
    assert!(s.move_window(id, (9, 8)));
    assert!(s.resize_window(id, (7, 6)));
    assert_eq!(s.window_position(id), Some((9, 8)));
    let e = s.window_entry(id).unwrap();
    assert_eq!((e.id, e.position, e.size, e.region_id), (id, (9, 8), (7, 6), Some(3)));
    assert!(!s.move_window(42, (0, 0)));
    assert!(!s.resize_window(42, (0, 0)));
    assert_eq!(s.window_position(42), None);
}

#[test]
fn empty_space() {
    let s: Space = GlobalSpace::new();
    assert!(s.first_region().is_none());
    assert!(s.regions().is_empty());
    assert!(s.ordered_windows().is_empty());
}
