use boltshell::session::{CertStyle, Session};
use boltshell::state::AppState;
use boltshell::tabs::Page;

fn session(id: i32, name: &str) -> Session {
    Session {
        id,
        name: name.to_string(),
        group_name: "g".to_string(),
        ip: "h".to_string(),
        port: "22".to_string(),
        user_name: "u".to_string(),
        password: "p".to_string(),
    }
}

#[test]
fn starts_on_home() {
    let a = AppState::new(vec![session(1, "a")]);
    assert_eq!(a.sessions.len(), 1);
    assert!(matches!(a.page, Page::Home));
    assert_eq!(a.tabs.tabs().len(), 1);
    assert!(!a.should_save && !a.should_update && !a.show_editor);
    assert_eq!(a.form.cert_style, CertStyle::First);
}

#[test]
fn save_button_checks_then_flags() {
    let mut a = AppState::new(Vec::new());
    assert!(!a.save_clicked(false));
    assert_eq!(a.error_message, Some("名称不能为空".to_string()));
    a.form.name = "n".to_string();
    a.form.group_name = "g".to_string();
    a.form.ip = "1.2.3.4".to_string();
    a.form.port = "22".to_string();
    a.form.user_name = "u".to_string();
    a.form.password = "p".to_string();
    assert!(a.save_clicked(false));
    assert_eq!(a.error_message, None);
    assert!(a.should_save && !a.should_update);
    assert!(a.save_clicked(true));
    assert!(a.should_update);
}

#[test]
fn save_session_takes_the_form() {
    let mut a = AppState::new(Vec::new());
    assert!(a.save_session().is_none());
    assert_eq!(a.error_message, Some("名称和分组不能为空".to_string()));
    a.form.name = "n".to_string();
    a.form.group_name = "g".to_string();
    let s = a.save_session().unwrap();
    assert_eq!(s.name, "n");
    assert!(a.is_loading);
    assert_eq!(a.error_message, None);
    assert!(a.form.name.is_empty());
    a.finish_save(vec![s]);
    assert!(!a.should_save);
    assert_eq!(a.sessions.len(), 1);
}

#[test]
fn edit_flow() {
    let mut a = AppState::new(vec![session(3, "a"), session(4, "b")]);
    a.begin_edit(1);
    assert!(a.show_editor);
    assert_eq!(a.form.id, 4);
    assert_eq!(a.form.name, "b");
    let s = a.edit_session().unwrap();
    assert_eq!(s.id, 4);
    a.should_update = true;
    a.finish_update(vec![session(3, "a")]);
    assert!(!a.should_update && !a.show_editor);
    a.begin_edit(9);
    assert!(!a.show_editor);
}

#[test]
fn delete_and_connect() {
    let mut a = AppState::new(vec![session(3, "a"), session(4, "b")]);
    a.delete_session(3);
    assert_eq!(a.sessions.len(), 1);
    assert_eq!(a.sessions[0].id, 4);
    a.connect("b".to_string());
    assert_eq!(a.tabs.active_tab(), 1);
    a.connect("b".to_string());
    assert_eq!(a.tabs.tabs().len(), 2);
    a.connect(String::new());
    assert_eq!(a.tabs.tabs().len(), 2);
}

#[test]
fn side_bar_buttons() {
    let mut a = AppState::new(Vec::new());
    a.settings_clicked();
    assert!(matches!(a.page, Page::Settings));
    assert_eq!(a.tabs.active_tab(), 1);
    a.home_clicked();
    assert!(matches!(a.page, Page::Home));
    assert_eq!(a.tabs.active_tab(), 0);
}

#[test]
fn test_flow_messages() {
    let mut a = AppState::new(Vec::new());
    assert!(a.request_test().is_none());
    assert_eq!(a.test_message, Some("请填写主机、端口和用户名".to_string()));
    a.form.ip = "h".to_string();
    a.form.port = "22".to_string();
    a.form.user_name = "u".to_string();
    a.form.password = "p".to_string();
    let t = a.request_test().unwrap();
    assert_eq!(t.host, "h");
    assert_eq!(a.test_message, Some("正在测试连接…".to_string()));
    a.receive_test_result(&Err("timeout".to_string()));
    assert_eq!(a.test_message, Some("测试失败: timeout".to_string()));
    a.receive_test_result(&Ok("连接成功！远程回显: OK".to_string()));
    assert_eq!(a.test_message, Some("连接成功！远程回显: OK".to_string()));
}
