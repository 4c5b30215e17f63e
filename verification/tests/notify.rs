use niri_waybar_windowlist::notify::{
    match_notification, ActionList, PidChain, BubbleState, CacheStorage, NotificationUrgency,
};
use niri_waybar_windowlist::windows::{Window, WindowInfo, WindowLayout};

fn info(id: u64, pid: Option<i32>, focused: bool) -> WindowInfo {
    WindowInfo {
        inner: Window {
            id,
            title: None,
            app_id: None,
            pid,
            workspace_id: Some(1),
            is_focused: focused,
            is_urgent: false,
            layout: WindowLayout { pos_in_scrolling_layout: None },
        },
        output_name: None,
    }
}

#[test]
fn urgency_follows_the_hint() {
    assert!(NotificationUrgency::from_hint(Some(0)) == NotificationUrgency::Low);
    assert!(NotificationUrgency::from_hint(Some(1)) == NotificationUrgency::Normal);
    assert!(NotificationUrgency::from_hint(Some(2)) == NotificationUrgency::Critical);
    assert!(NotificationUrgency::from_hint(Some(7)) == NotificationUrgency::Normal);
    assert!(NotificationUrgency::from_hint(None) == NotificationUrgency::Normal);
}

#[test]
fn actions_pair_up_and_drop_a_lone_key() {
    let list = ActionList::from_flat(vec!["default".into(), "Open".into(), "dismiss".into()]);
    assert_eq!(list.0.len(), 1);
    assert_eq!(list.0[0].id, "default");
    assert_eq!(list.0[0].localised, "Open");
}

#[test]
fn notifications_match_unfocused_windows_of_the_chain() {
    let windows = vec![info(1, Some(10), false), info(2, Some(20), true), info(3, Some(30), false), info(4, None, false)];
    let matched = match_notification(Some(2), &vec![30, 20, 1], &windows);
    assert_eq!(matched.len(), 1);
    assert_eq!(matched[0].0, 3);
    assert!(matched[0].1 == NotificationUrgency::Critical);
    assert!(match_notification(None, &vec![], &windows).is_empty());
}

#[test]
fn chain_reaches_the_root() {
    let mut c = PidChain::new(Some(4242));
    assert_eq!(c.current(), Some(4242));
    c.on_parent(Some(1000));
    assert_eq!(c.current(), Some(1000));
    c.on_parent(Some(1));
    assert_eq!(c.current(), Some(1));
    c.on_parent(Some(0));
    assert_eq!(c.current(), None);
    assert_eq!(c.pids, vec![4242, 1000, 1]);
}

#[test]
fn chain_ends_where_a_parent_cannot_be_read() {
    let mut c = PidChain::new(Some(7));
    c.on_parent(None);
    assert_eq!(c.current(), None);
    assert_eq!(c.pids, vec![7]);
    let empty = PidChain::new(None);
    assert_eq!(empty.current(), None);
    assert!(empty.pids.is_empty());
}

#[test]
fn bubble_marks_and_clears() {
    let mut b = BubbleState::new();
    assert!(!b.clear_notification_urgent());
    b.mark_notification_urgent(NotificationUrgency::Low);
    assert!(b.active && b.urgency == NotificationUrgency::Low);
    assert!(b.clear_notification_urgent());
    assert!(!b.active);
}

#[test]
fn cache_keeps_entries_for_their_lifetime() {
    let mut c = CacheStorage::new(1000);
    assert_eq!(c.retrieve(":1.5", 0), None);
    c.store(":1.5", Some(77), 0);
    assert_eq!(c.retrieve(":1.5", 500), Some(Some(77)));
    c.remove_expired(1400);
    assert_eq!(c.retrieve(":1.5", 1400), Some(Some(77)));
    c.remove_expired(2400);
    assert_eq!(c.retrieve(":1.5", 2400), None);
    c.store(":1.6", None, 0);
    assert_eq!(c.retrieve(":1.6", 1), Some(None));
    c.evict(":1.6");
    assert_eq!(c.retrieve(":1.6", 1), None);
}

#[test]
fn cached_entry_survives_other_calls() {
    let mut c = CacheStorage::new(1000);
    c.store(":1.7", Some(42), 0);
    c.store(":1.8", Some(9), 10);
    c.evict(":1.8");
    c.remove_expired(900);
    assert_eq!(c.retrieve(":1.7", 950), Some(Some(42)));
    c.remove_expired(1900);
    assert_eq!(c.retrieve(":1.9", 1900), None);
    assert_eq!(c.retrieve(":1.7", 1900), Some(Some(42)));
}
