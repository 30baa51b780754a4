use thatsit_widgets::{handle_scroll, Event, FocusList, ScrollState};

#[test]
fn scroll_follows_index_below_window() {
    assert_eq!(handle_scroll(10, 7, 3, 0), 5);
    assert_eq!(handle_scroll(10, 9, 3, 0), 7);
    assert_eq!(handle_scroll(10, 3, 3, 0), 1);
}

#[test]
fn scroll_follows_index_above_window() {
    assert_eq!(handle_scroll(10, 2, 3, 5), 2);
    assert_eq!(handle_scroll(10, 0, 4, 6), 0);
}

#[test]
fn scroll_keeps_visible_index() {
    assert_eq!(handle_scroll(10, 5, 3, 4), 4);
    assert_eq!(handle_scroll(10, 4, 3, 4), 4);
    assert_eq!(handle_scroll(10, 6, 3, 4), 4);
}

#[test]
fn scroll_edge_sizes() {
    assert_eq!(handle_scroll(10, 4, 0, 4), 5);
    assert_eq!(handle_scroll(2, 1, 5, 0), 0);
    assert_eq!(handle_scroll(2, 7, 5, 0), 0);
    assert_eq!(handle_scroll(1, 0, 1, 0), 0);
    assert_eq!(handle_scroll(usize::MAX, usize::MAX - 1, 1, 0), usize::MAX - 1);
}

#[test]
fn scroll_window_contains_index() {
    for n in 1..8usize {
        for h in 1..=n {
            for i in 0..n {
                for offset in 0..=(n - h) {
                    let r = handle_scroll(n, i, h, offset);
                    assert!(r <= i && i < r + h);
                    assert!(r <= n - h);
                }
            }
        }
    }
}

#[test]
fn scroll_is_idempotent() {
    for n in 0..8usize {
        for h in 1..9usize {
            for i in 0..10usize {
                for offset in 0..10usize {
                    let once = handle_scroll(n, i, h, offset);
                    assert_eq!(handle_scroll(n, i, h, once), once);
                }
            }
        }
    }
}

#[test]
fn scroll_state_to_and_resize() {
    let mut s = ScrollState::default();
    s.resize(3);
    s.to(10, 7);
    assert_eq!((s.offset, s.size), (5, 3));
    s.to(10, 1);
    assert_eq!((s.offset, s.size), (1, 3));
}

#[test]
fn focus_next_clamps_at_last() {
    let mut list = FocusList::new(vec!['a', 'b', 'c']);
    assert_eq!(list.selected(), None);
    assert!(list.select_next());
    assert_eq!(list.selected(), Some(0));
    assert!(list.select_next());
    assert_eq!(list.selected(), Some(1));
    assert!(list.select_next());
    assert_eq!(list.selected(), Some(2));
    assert!(!list.select_next());
    assert_eq!(list.selected(), Some(2));
    assert_eq!(list.get(), Some(&'c'));
}

#[test]
fn focus_prev_clamps_at_first() {
    let mut list = FocusList::new(vec![1, 2, 3]);
    assert!(list.select_prev());
    assert_eq!(list.selected(), Some(2));
    assert!(list.select_prev());
    assert!(list.select_prev());
    assert_eq!(list.selected(), Some(0));
    assert!(!list.select_prev());
    assert_eq!(list.selected(), Some(0));
}

#[test]
fn focus_on_empty_list() {
    let mut list: FocusList<u8> = FocusList::new(vec![]);
    assert!(!list.select_next());
    assert!(!list.select_prev());
    assert_eq!(list.selected(), None);
    assert_eq!(list.get(), None);
    assert_eq!(list.len(), 0);
}

#[test]
fn focus_replace_resets_selection() {
    let mut list = FocusList::new(vec![1, 2, 3]);
    list.select(2);
    list.replace(vec![7, 8]);
    assert_eq!(list.selected(), Some(0));
    assert_eq!(list.items(), &vec![7, 8]);
    list.select_next();
    list.replace(vec![]);
    assert_eq!(list.selected(), None);
    let mut fresh = FocusList::new(vec![1]);
    fresh.replace(vec![4, 5, 6]);
    assert_eq!(fresh.selected(), Some(0));
}

#[test]
fn focus_push_keeps_selection() {
    let mut list = FocusList::new(vec![1]);
    list.select_next();
    list.push(2);
    assert_eq!(list.selected(), Some(0));
    assert_eq!(list.len(), 2);
}

#[test]
fn event_equality() {
    assert_eq!(Event::Up, Event::Up);
    assert_ne!(Event::Up, Event::Down);
}
