use nav::nav::Nav;
use nav::page::{EventFeedback, InputEvent, KeyCode};
use nav::quick_page::{QuickItem, QuickPage};

fn one_page_nav() -> Nav<QuickPage> {
    let items = vec![
        QuickItem::new("ls".to_string(), "ls -la".to_string(), String::new()),
        QuickItem::new("gs".to_string(), "git status".to_string(), String::new()),
    ];
    let page = QuickPage::new("Quick".to_string(), items, 0, false);
    Nav::new(vec![page])
}

#[test]
fn a_new_navigator_starts_on_the_first_page() {
    let nav = one_page_nav();
    assert_eq!(nav.curr_idx(), 0);
    assert_eq!(nav.size(), 1);
    assert_eq!(nav.active().size(), 2);
}

#[test]
fn dispatch_routes_to_the_active_page() {
    let mut nav = one_page_nav();
    let mut code = 3;
    let fb = nav.dispatch(InputEvent::Key(KeyCode::Down), &mut code);
    assert_eq!(fb, EventFeedback::Continue);
    assert_eq!(nav.active().item_idx(), 1);
    assert_eq!(code, 3);
}

#[test]
fn dispatch_hands_the_exit_signal_back() {
    let mut nav = one_page_nav();
    let mut code = 3;
    let fb = nav.dispatch(InputEvent::Key(KeyCode::Char('q')), &mut code);
    assert_eq!(fb, EventFeedback::Exit);
    assert_eq!(code, 0);
}
