use context_menu::{ContextMenu, ContextMenuItem, MenuAction};

type Menu = ContextMenu<u32, String>;

fn sample() -> Menu {
    Menu::build(|m| {
        m.header("Edit".to_string())
            .entry("Cut".to_string(), 1)
            .separator()
            .action("Paste".to_string(), 2, Some("ctrl-v".to_string()))
            .header("More".to_string())
    })
}

#[test]
fn build_starts_empty() {
    let m = Menu::build(|m| m);
    assert!(m.items().is_empty());
    assert_eq!(m.selected_index(), None);
}

#[test]
fn builders_append_in_order() {
    let m = sample();
    let items = m.items();
    assert_eq!(items.len(), 5);
    assert!(matches!(&items[0], ContextMenuItem::Header(t) if t == "Edit"));
    assert!(matches!(
        &items[1],
        ContextMenuItem::Entry { label, handler: 1, key_binding: None } if label == "Cut"
    ));
    assert!(matches!(&items[2], ContextMenuItem::Separator));
    assert!(matches!(
        &items[3],
        ContextMenuItem::Entry { label, handler: 2, key_binding: Some(k) } if label == "Paste" && k == "ctrl-v"
    ));
    assert!(matches!(&items[4], ContextMenuItem::Header(t) if t == "More"));
    assert_eq!(m.selected_index(), None);
}

#[test]
fn only_entries_are_selectable() {
    let m = sample();
    let flags: Vec<bool> = m.items().iter().map(|i| i.is_selectable()).collect();
    assert_eq!(flags, vec![false, true, false, true, false]);
}

#[test]
fn select_first_and_last_skip_non_entries() {
    let mut m = sample();
    assert!(m.select_last());
    assert_eq!(m.selected_index(), Some(3));
    assert!(m.select_first());
    assert_eq!(m.selected_index(), Some(1));
}

#[test]
fn select_next_walks_entries_without_wrapping() {
    let mut m = sample();
    assert!(m.select_next());
    assert_eq!(m.selected_index(), Some(1));
    assert!(m.select_next());
    assert_eq!(m.selected_index(), Some(3));
    assert!(!m.select_next());
    assert_eq!(m.selected_index(), Some(3));
}

#[test]
fn select_prev_walks_entries_without_wrapping() {
    let mut m = sample();
    assert!(m.select_prev());
    assert_eq!(m.selected_index(), Some(3));
    assert!(m.select_prev());
    assert_eq!(m.selected_index(), Some(1));
    assert!(!m.select_prev());
    assert_eq!(m.selected_index(), Some(1));
}

#[test]
fn menu_without_entries_has_no_selection() {
    let mut m = Menu::build(|m| m.header("Title".to_string()).separator());
    assert!(m.select_first());
    assert_eq!(m.selected_index(), None);
    assert!(!m.select_last());
    assert!(!m.select_prev());
    assert!(m.select_next());
    assert_eq!(m.selected_index(), None);
    assert_eq!(m.confirm(), MenuAction::Dismiss);
}

#[test]
fn empty_menu_selects_nothing() {
    let mut m = Menu::build(|m| m);
    assert!(m.select_first());
    assert!(!m.select_last());
    assert!(m.select_next());
    assert!(!m.select_prev());
    assert_eq!(m.selected_index(), None);
}

#[test]
fn confirm_runs_the_selected_entry() {
    let mut m = sample();
    assert_eq!(m.confirm(), MenuAction::Dismiss);
    m.select_last();
    assert_eq!(m.confirm(), MenuAction::InvokeAndDismiss(3));
    m.select_prev();
    assert_eq!(m.confirm(), MenuAction::InvokeAndDismiss(1));
}

#[test]
fn cancel_only_dismisses() {
    let mut m = sample();
    m.select_first();
    assert_eq!(m.cancel(), MenuAction::Dismiss);
    assert_eq!(m.selected_index(), Some(1));
}

#[test]
fn adding_items_keeps_the_selection() {
    let mut m = sample();
    m.select_next();
    let mut m = m.entry("Delete".to_string(), 3).separator();
    assert_eq!(m.selected_index(), Some(1));
    assert!(m.select_next());
    assert!(m.select_next());
    assert_eq!(m.selected_index(), Some(5));
    assert!(!m.select_next());
}
