use elevator::queue::RequestQueue;
use elevator::Floor;

#[test]
fn new_queue_is_empty() {
    let q = RequestQueue::new();
    assert!(q.is_empty());
    assert_eq!(q.lowest(), None);
    assert_eq!(q.highest(), None);
    assert!(!q.contains(Floor(0)));
}

#[test]
fn insert_says_whether_the_floor_is_new() {
    let mut q = RequestQueue::new();
    assert!(q.insert(Floor(3)));
    assert!(!q.insert(Floor(3)));
    assert!(q.insert(Floor(-1)));
    assert!(q.contains(Floor(3)));
    assert!(q.contains(Floor(-1)));
    assert!(!q.contains(Floor(0)));
    assert!(!q.is_empty());
}

#[test]
fn remove_says_whether_the_floor_was_pending() {
    let mut q = RequestQueue::new();
    q.insert(Floor(2));
    assert!(!q.remove(Floor(1)));
    assert!(q.contains(Floor(2)));
    assert!(q.remove(Floor(2)));
    assert!(!q.remove(Floor(2)));
    assert!(q.is_empty());
}

#[test]
fn lowest_and_highest_are_the_extremes() {
    let mut q = RequestQueue::new();
    for f in [3i64, -2, 5, 0, 5] {
        q.insert(Floor(f));
    }
    assert_eq!(q.lowest(), Some(Floor(-2)));
    assert_eq!(q.highest(), Some(Floor(5)));
    q.remove(Floor(-2));
    q.remove(Floor(5));
    assert_eq!(q.lowest(), Some(Floor(0)));
    assert_eq!(q.highest(), Some(Floor(3)));
    q.remove(Floor(0));
    assert_eq!(q.lowest(), Some(Floor(3)));
    assert_eq!(q.highest(), Some(Floor(3)));
}

#[test]
fn any_floor_number_can_be_queued() {
    let mut q = RequestQueue::new();
    q.insert(Floor(i64::MIN));
    q.insert(Floor(i64::MAX));
    assert_eq!(q.lowest(), Some(Floor(i64::MIN)));
    assert_eq!(q.highest(), Some(Floor(i64::MAX)));
    assert!(q.contains(Floor(i64::MAX)));
    assert!(!q.contains(Floor(127)));
}
