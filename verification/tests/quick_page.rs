use nav::page::{EventFeedback, InputEvent, KeyCode, Page};
use nav::quick_page::{centered_region, QuickItem, QuickPage};

fn item(short: &str, full: &str, note: &str) -> QuickItem {
    QuickItem::new(short.to_string(), full.to_string(), note.to_string())
}

fn three_item_page(cursor: usize) -> QuickPage {
    let items = vec![
        item("ls", "ls -la", "list"),
        item("gs", "git status", "status"),
        item("gd", "git diff", "diff"),
    ];
    QuickPage::new("Quick".to_string(), items, cursor, false)
}

#[test]
fn quick_item_keeps_fields() {
    let q = item("gs", "git status", "porcelain");
    assert_eq!(q.short().as_str(), "gs");
    assert_eq!(q.full().as_str(), "git status");
    assert_eq!(q.note().as_str(), "porcelain");
}

#[test]
fn down_then_delete_scenario() {
    let mut page = three_item_page(1);
    let mut code = 7;
    let fb = page.event(InputEvent::Key(KeyCode::Down), &mut code);
    assert_eq!(fb, EventFeedback::Continue);
    assert_eq!(page.item_idx(), 2);
    let fb = page.event(InputEvent::Key(KeyCode::Char('d')), &mut code);
    assert_eq!(fb, EventFeedback::Continue);
    assert_eq!(page.size(), 2);
    assert_eq!(page.item_idx(), 1);
    assert_eq!(code, 7);
}

#[test]
fn delete_middle_keeps_cursor() {
    let mut page = three_item_page(1);
    page.delete();
    assert_eq!(page.size(), 2);
    assert_eq!(page.item_idx(), 1);
    assert_eq!(page.items()[0].short().as_str(), "ls");
    assert_eq!(page.items()[1].short().as_str(), "gd");
}

#[test]
fn delete_only_item_leaves_cursor_at_zero() {
    let mut page = QuickPage::new("Quick".to_string(), vec![item("a", "b", "c")], 0, false);
    page.delete();
    assert_eq!(page.size(), 0);
    assert_eq!(page.item_idx(), 0);
}

#[test]
fn delete_on_empty_is_a_no_op() {
    let mut page = QuickPage::new("Quick".to_string(), Vec::new(), 0, true);
    page.delete();
    assert_eq!(page.size(), 0);
    assert_eq!(page.item_idx(), 0);
    assert!(page.is_popup());
}

#[test]
fn popup_toggles_and_toggles_back() {
    let mut page = three_item_page(2);
    let mut code = 5;
    assert!(!page.is_popup());
    let fb = page.event(InputEvent::Key(KeyCode::Char(' ')), &mut code);
    assert_eq!(fb, EventFeedback::Continue);
    assert!(page.is_popup());
    assert_eq!(page.item_idx(), 2);
    assert_eq!(page.size(), 3);
    page.event(InputEvent::Key(KeyCode::Char(' ')), &mut code);
    assert!(!page.is_popup());
    assert_eq!(page.item_idx(), 2);
    assert_eq!(page.size(), 3);
    assert_eq!(code, 5);
}

#[test]
fn q_exits_and_zeroes_the_code() {
    let mut page = three_item_page(0);
    let mut code = 42;
    let fb = page.event(InputEvent::Key(KeyCode::Char('q')), &mut code);
    assert_eq!(fb, EventFeedback::Exit);
    assert_eq!(code, 0);
    assert_eq!(page.size(), 3);
    assert_eq!(page.item_idx(), 0);
}

#[test]
fn enter_exits_and_zeroes_the_code() {
    let mut page = three_item_page(2);
    let mut code = -3;
    let fb = page.event(InputEvent::Key(KeyCode::Enter), &mut code);
    assert_eq!(fb, EventFeedback::Exit);
    assert_eq!(code, 0);
    assert_eq!(page.item_idx(), 2);
}

#[test]
fn other_events_change_nothing() {
    let mut page = three_item_page(1);
    let mut code = 9;
    let events = [
        InputEvent::Key(KeyCode::Char('x')),
        InputEvent::Key(KeyCode::Other),
        InputEvent::FocusGained,
        InputEvent::FocusLost,
        InputEvent::Mouse,
        InputEvent::Paste,
        InputEvent::Resize(80, 24),
    ];
    for evt in events {
        let fb = page.event(evt, &mut code);
        assert_eq!(fb, EventFeedback::Continue);
        assert_eq!(page.item_idx(), 1);
        assert_eq!(page.size(), 3);
        assert!(!page.is_popup());
        assert_eq!(code, 9);
    }
}

#[test]
fn cursor_stays_in_bounds_under_navigation() {
    let mut page = three_item_page(0);
    let mut code = 0;
    let moves = [
        KeyCode::Up,
        KeyCode::Down,
        KeyCode::Down,
        KeyCode::Down,
        KeyCode::Down,
        KeyCode::Up,
        KeyCode::Up,
        KeyCode::Up,
        KeyCode::Up,
    ];
    let expected = [0usize, 1, 2, 2, 2, 1, 0, 0, 0];
    for (mv, want) in moves.iter().zip(expected.iter()) {
        page.event(InputEvent::Key(*mv), &mut code);
        assert_eq!(page.item_idx(), *want);
        assert!(page.item_idx() < page.size());
    }
}

#[test]
fn current_follows_the_cursor() {
    let page = three_item_page(1);
    assert_eq!(page.current().unwrap().short().as_str(), "gs");
    let empty = QuickPage::new("Quick".to_string(), Vec::new(), 0, false);
    assert!(empty.current().is_none());
}

#[test]
fn header_is_static() {
    let page = three_item_page(0);
    assert_eq!(page.header(), "Quick");
}

#[test]
fn popup_region_is_centered() {
    let (x, y, w, h) = centered_region(60, 20, 0, 0, 100, 50);
    assert_eq!((x, y, w, h), (20, 20, 60, 10));
    let (x, y, w, h) = centered_region(50, 50, 10, 4, 8, 6);
    assert_eq!((x, y, w, h), (12, 5, 4, 3));
}
