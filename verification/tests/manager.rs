use rx::ids::ViewId;
use rx::manager::{IdBound, ViewManager, MAX_LRU};
use rx::storage::FileStatus;

fn manager_with(n: usize) -> (ViewManager, Vec<ViewId>) {
    let mut m = ViewManager::new();
    let mut ids = Vec::new();
    for i in 0..n {
        ids.push(m.add(FileStatus::NoFile, 8 + i as u32, 8, 1, 100));
    }
    (m, ids)
}

#[test]
fn new_manager_is_empty() {
    let m = ViewManager::new();
    assert!(m.is_empty());
    assert_eq!(m.active_id, ViewId(0));
    assert_eq!(m.recent(), None);
    assert!(m.active().is_none());
    assert!(m.first().is_none());
    assert!(m.last().is_none());
    assert!(m.ids().is_empty());
}

#[test]
fn add_gives_increasing_ids() {
    let (m, ids) = manager_with(3);
    assert_eq!(ids, vec![ViewId(1), ViewId(2), ViewId(3)]);
    assert_eq!(m.ids(), ids);
    assert_eq!(m.get(ViewId(2)).unwrap().id, ViewId(2));
    assert_eq!(m.get(ViewId(2)).unwrap().fw, 9);
    assert!(m.get(ViewId(4)).is_none());
    assert_eq!(m.first().unwrap().id, ViewId(1));
    assert_eq!(m.last().unwrap().id, ViewId(3));
    assert_eq!(m.iter().iter().map(|v| v.id).collect::<Vec<_>>(), ids);
    assert!(!m.is_empty());
    // Adding does not activate.
    assert_eq!(m.active_id, ViewId(0));
}

#[test]
fn activate_and_recent() {
    let (mut m, _) = manager_with(3);
    m.activate(ViewId(2));
    assert_eq!(m.active_id, ViewId(2));
    assert_eq!(m.active_id(), ViewId(2));
    assert_eq!(m.active().unwrap().id, ViewId(2));
    assert_eq!(m.recent(), Some(ViewId(2)));
    m.activate(ViewId(3));
    assert_eq!(m.recent(), Some(ViewId(3)));
    m.activate(ViewId(3));
    assert_eq!(m.recent(), Some(ViewId(3)));
}

#[test]
fn remove_activates_the_most_recent_view() {
    let (mut m, _) = manager_with(3);
    m.activate(ViewId(1));
    m.activate(ViewId(3));
    m.remove(ViewId(3));
    assert_eq!(m.active_id, ViewId(1));
    assert!(m.get(ViewId(3)).is_none());
    assert_eq!(m.ids(), vec![ViewId(1), ViewId(2)]);
}

#[test]
fn remove_without_recent_views_activates_the_last() {
    let (mut m, _) = manager_with(3);
    m.activate(ViewId(1));
    m.remove(ViewId(1));
    assert_eq!(m.active_id, ViewId(3));
    m.remove(ViewId(3));
    assert_eq!(m.active_id, ViewId(2));
    m.remove(ViewId(2));
    assert_eq!(m.active_id, ViewId(0));
    assert!(m.is_empty());
}

#[test]
fn remove_unknown_view() {
    let (mut m, _) = manager_with(2);
    m.remove(ViewId(9));
    assert_eq!(m.ids(), vec![ViewId(1), ViewId(2)]);
    assert_eq!(m.active_id, ViewId(2));
}

#[test]
fn recently_used_list_is_bounded() {
    let (mut m, _) = manager_with(2);
    for _ in 0..(2 * MAX_LRU) {
        m.activate(ViewId(1));
        m.activate(ViewId(2));
    }
    m.remove(ViewId(2));
    assert_eq!(m.recent(), Some(ViewId(1)));
    assert_eq!(m.active_id, ViewId(1));
}

#[test]
fn ids_after_and_before() {
    let (mut m, _) = manager_with(4);
    m.remove(ViewId(3));
    assert_eq!(m.after(ViewId(1)), Some(ViewId(2)));
    assert_eq!(m.after(ViewId(2)), Some(ViewId(4)));
    assert_eq!(m.after(ViewId(4)), None);
    // For an identifier that is not a view's, the smallest one above it.
    assert_eq!(m.after(ViewId(0)), Some(ViewId(1)));
    assert_eq!(m.after(ViewId(3)), Some(ViewId(4)));
    assert_eq!(m.after(ViewId(9)), None);
    assert_eq!(m.before(ViewId(4)), Some(ViewId(2)));
    assert_eq!(m.before(ViewId(1)), None);
    assert_eq!(m.before(ViewId(3)), Some(ViewId(2)));
    assert_eq!(m.before(ViewId(100)), Some(ViewId(4)));
}

#[test]
fn ranges_of_ids() {
    let (m, _) = manager_with(5);
    assert_eq!(m.range(IdBound::Unbounded, IdBound::Unbounded), m.ids());
    assert_eq!(m.range(IdBound::Included(ViewId(2)), IdBound::Excluded(ViewId(4))), vec![ViewId(2), ViewId(3)]);
    assert_eq!(m.range(IdBound::Excluded(ViewId(2)), IdBound::Included(ViewId(4))), vec![ViewId(3), ViewId(4)]);
    assert_eq!(m.range(IdBound::Included(ViewId(4)), IdBound::Unbounded), vec![ViewId(4), ViewId(5)]);
    assert_eq!(m.range(IdBound::Included(ViewId(3)), IdBound::Included(ViewId(3))), vec![ViewId(3)]);
    assert!(m.range(IdBound::Included(ViewId(3)), IdBound::Excluded(ViewId(3))).is_empty());
}

#[test]
fn find_a_view() {
    let (m, _) = manager_with(3);
    assert_eq!(m.find(|v| v.fw > 8).unwrap().id, ViewId(2));
    assert!(m.find(|v| v.fw > 100).is_none());
}

#[test]
fn views_mutably() {
    let (mut m, _) = manager_with(3);
    m.get_mut(ViewId(2)).unwrap().flip_x = true;
    assert!(m.get(ViewId(2)).unwrap().flip_x);
    m.first_mut().unwrap().flip_y = true;
    assert!(m.first().unwrap().flip_y);
    for v in m.iter_mut().iter_mut() {
        v.okay();
        v.touch();
    }
    assert!(m.iter().iter().all(|v| v.is_dirty()));
    assert!(m.active_mut().is_none());
    m.activate(ViewId(3));
    m.active_mut().unwrap().extend();
    assert_eq!(m.get(ViewId(3)).unwrap().animation.len(), 2);
    assert!(m.get_mut(ViewId(7)).is_none());
}
