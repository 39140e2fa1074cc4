use boltshell::tabs::{Page, TabBar};

fn labels(b: &TabBar) -> Vec<String> {
    b.tabs().iter().map(|t| t.label.clone()).collect()
}

#[test]
fn starts_with_home_tab() {
    let b = TabBar::new();
    assert_eq!(labels(&b), vec!["首页".to_string()]);
    assert_eq!(b.active_tab(), 0);
    assert!(!b.tabs()[0].closable);
    assert!(matches!(b.active_page(), Page::Home));
}

#[test]
fn terminal_tab_opens_once() {
    let mut b = TabBar::new();
    b.add_terminal_tab("web".to_string());
    assert_eq!(labels(&b), vec!["首页".to_string(), "终端: web".to_string()]);
    assert_eq!(b.active_tab(), 1);
    b.select_tab(0);
    b.add_terminal_tab("web".to_string());
    assert_eq!(b.tabs().len(), 2);
    assert_eq!(b.active_tab(), 0);
    assert!(matches!(b.active_page(), Page::Home));
    b.add_terminal_tab("db".to_string());
    assert_eq!(b.active_tab(), 2);
    match b.active_page() {
        Page::Terminal(name) => assert_eq!(name, "db"),
        _ => panic!("expected a terminal page"),
    }
}

#[test]
fn settings_button_opens_settings_tab() {
    let mut b = TabBar::new();
    b.open_settings();
    assert_eq!(labels(&b), vec!["首页".to_string(), "设置".to_string()]);
    assert_eq!(b.active_tab(), 1);
    assert!(b.tabs()[1].closable);
    b.open_settings();
    assert_eq!(b.tabs().len(), 2);
}

#[test]
fn settings_button_with_settings_open_selects_second_tab() {
    let mut b = TabBar::new();
    b.add_terminal_tab("a".to_string());
    b.add_settings_tab();
    assert_eq!(b.active_tab(), 2);
    b.open_settings();
    assert_eq!(b.tabs().len(), 3);
    assert_eq!(b.active_tab(), 1);
}

#[test]
fn closing_moves_active_back() {
    let mut b = TabBar::new();
    b.add_terminal_tab("a".to_string());
    b.add_terminal_tab("b".to_string());
    b.add_terminal_tab("c".to_string());
    assert_eq!(b.active_tab(), 3);
    b.close_tab(2);
    assert_eq!(labels(&b), vec!["首页".to_string(), "终端: a".to_string(), "终端: c".to_string()]);
    assert_eq!(b.active_tab(), 2);
    b.select_tab(1);
    b.close_tab(2);
    assert_eq!(b.active_tab(), 1);
    b.close_tab(1);
    assert_eq!(b.active_tab(), 0);
    assert_eq!(labels(&b), vec!["首页".to_string()]);
}

#[test]
fn home_tab_cannot_be_closed() {
    let mut b = TabBar::new();
    b.add_terminal_tab("a".to_string());
    b.close_tab(0);
    assert_eq!(b.tabs().len(), 2);
    assert_eq!(b.active_tab(), 1);
    b.close_tab(7);
    assert_eq!(b.tabs().len(), 2);
}

#[test]
fn close_after_open_restores_tabs() {
    let mut b = TabBar::new();
    b.add_settings_tab();
    let before = labels(&b);
    b.add_terminal_tab("x".to_string());
    b.close_tab(2);
    assert_eq!(labels(&b), before);
}

#[test]
fn home_button_selects_first_tab() {
    let mut b = TabBar::new();
    b.add_terminal_tab("x".to_string());
    b.go_home();
    assert_eq!(b.active_tab(), 0);
    b.select_tab(5);
    assert_eq!(b.active_tab(), 0);
}

#[test]
fn pages_compare() {
    assert!(Page::Terminal("a".to_string()).same_as(&Page::Terminal("a".to_string())));
    assert!(!Page::Terminal("a".to_string()).same_as(&Page::Terminal("b".to_string())));
    assert!(!Page::Home.same_as(&Page::Settings));
    assert!(Page::Settings.same_as(&Page::Settings.clone()));
}
