use boltshell::session::{
    find_session_by_name, message_tone, remove_session, session_id_from_rowid, test_outcome_text,
    test_success_text, testing_text, CertStyle, ConnetStyle, FormError, MessageTone, Session,
    SessionForm, TestFailure,
};

fn session(id: i32, name: &str) -> Session {
    Session {
        id,
        name: name.to_string(),
        group_name: "g".to_string(),
        ip: "10.0.0.1".to_string(),
        port: "22".to_string(),
        user_name: format!("u{}", id),
        password: "pw".to_string(),
    }
}

fn filled_form() -> SessionForm {
    let mut f = SessionForm::new();
    f.name = "web".to_string();
    f.group_name = "prod".to_string();
    f.ip = "192.168.1.2".to_string();
    f.port = "22".to_string();
    f.user_name = "root".to_string();
    f.password = "secret".to_string();
    f
}

#[test]
fn rowid_narrows_like_as() {
    assert_eq!(session_id_from_rowid(7), 7);
    assert_eq!(session_id_from_rowid((1i64 << 32) + 5), 5);
    assert_eq!(session_id_from_rowid(2147483648), -2147483648);
}

#[test]
fn remove_keeps_other_sessions_in_order() {
    let mut v = vec![session(1, "a"), session(2, "b"), session(3, "c"), session(2, "d")];
    remove_session(&mut v, 2);
    let ids: Vec<i32> = v.iter().map(|s| s.id).collect();
    assert_eq!(ids, vec![1, 3]);
    remove_session(&mut v, 9);
    assert_eq!(v.len(), 2);
}

#[test]
fn find_gives_first_match() {
    let v = vec![session(1, "a"), session(2, "b"), session(3, "b")];
    assert_eq!(find_session_by_name(&v, "b").map(|s| s.id), Some(2));
    assert!(find_session_by_name(&v, "z").is_none());
}

#[test]
fn session_clone_keeps_fields() {
    let s = session(4, "x");
    let c = s.clone();
    assert_eq!(c.id, 4);
    assert_eq!(c.name, "x");
    assert_eq!(c.user_name, "u4");
}

#[test]
fn defaults_and_labels() {
    assert_eq!(CertStyle::default(), CertStyle::First);
    assert_eq!(ConnetStyle::default(), ConnetStyle::Direct);
    assert_eq!(ConnetStyle::Direct.label(), "直连");
    assert_eq!(ConnetStyle::Socket.label(), "Socket");
    assert_eq!(ConnetStyle::Http.label(), "Http");
    assert_eq!(ConnetStyle::Jumphost.label(), "Jumphost");
}

#[test]
fn save_checks_in_order() {
    let mut f = filled_form();
    assert_eq!(f.check_before_save(), Ok(()));
    f.password.clear();
    assert_eq!(f.check_before_save(), Err(FormError::MissingPassword));
    f.cert_style = CertStyle::Second;
    assert_eq!(f.check_before_save(), Ok(()));
    f.user_name.clear();
    assert_eq!(f.check_before_save(), Err(FormError::MissingUserName));
    f.port.clear();
    assert_eq!(f.check_before_save(), Err(FormError::MissingPort));
    f.ip.clear();
    assert_eq!(f.check_before_save(), Err(FormError::MissingIp));
    f.group_name.clear();
    assert_eq!(f.check_before_save(), Err(FormError::MissingGroup));
    f.name.clear();
    assert_eq!(f.check_before_save(), Err(FormError::MissingName));
}

#[test]
fn error_messages() {
    assert_eq!(FormError::MissingName.message(), "名称不能为空");
    assert_eq!(FormError::MissingGroup.message(), "分组不能为空");
    assert_eq!(FormError::MissingIp.message(), "IP地址不能为空");
    assert_eq!(FormError::MissingPort.message(), "端口不能为空");
    assert_eq!(FormError::MissingUserName.message(), "用户名不能为空");
    assert_eq!(FormError::MissingPassword.message(), "密码不能为空");
    assert_eq!(FormError::MissingNameOrGroup.message(), "名称和分组不能为空");
    assert_eq!(FormError::MissingHostPortOrUser.message(), "请填写主机、端口和用户名");
    assert_eq!(FormError::MissingKeyFile.message(), "请选择密钥文件");
}

#[test]
fn take_session_clears_text_fields() {
    let mut f = filled_form();
    f.id = 12;
    f.picked_path = Some("/k".to_string());
    let s = f.take_session().unwrap();
    assert_eq!(s.id, 12);
    assert_eq!(s.name, "web");
    assert_eq!(s.group_name, "prod");
    assert_eq!(s.ip, "192.168.1.2");
    assert_eq!(s.port, "22");
    assert_eq!(s.user_name, "root");
    assert_eq!(s.password, "secret");
    assert!(f.name.is_empty() && f.group_name.is_empty() && f.ip.is_empty());
    assert!(f.port.is_empty() && f.user_name.is_empty() && f.password.is_empty());
    assert_eq!(f.id, 12);
    assert_eq!(f.picked_path, Some("/k".to_string()));
}

#[test]
fn take_session_needs_name_and_group() {
    let mut f = filled_form();
    f.group_name.clear();
    assert!(matches!(f.take_session(), Err(FormError::MissingNameOrGroup)));
    assert_eq!(f.name, "web");
    assert_eq!(f.ip, "192.168.1.2");
}

#[test]
fn load_fills_form() {
    let mut f = SessionForm::new();
    f.load(&session(5, "n"));
    assert_eq!(f.id, 5);
    assert_eq!(f.name, "n");
    assert_eq!(f.user_name, "u5");
}

#[test]
fn connection_test_checks() {
    let mut f = filled_form();
    let t = f.connection_test().ok().unwrap();
    assert_eq!(t.host, "192.168.1.2");
    assert_eq!(t.port, "22");
    assert_eq!(t.user, "root");
    assert_eq!(t.password, "secret");
    assert!(t.use_password);
    assert_eq!(t.key_path, None);
    f.cert_style = CertStyle::Second;
    assert!(matches!(f.connection_test(), Err(FormError::MissingKeyFile)));
    f.picked_path = Some("/home/u/.ssh/id".to_string());
    let t = f.connection_test().ok().unwrap();
    assert!(!t.use_password);
    assert_eq!(t.key_path, Some("/home/u/.ssh/id".to_string()));
    f.cert_style = CertStyle::First;
    f.password.clear();
    assert!(matches!(f.connection_test(), Err(FormError::MissingPassword)));
    f.port.clear();
    assert!(matches!(f.connection_test(), Err(FormError::MissingHostPortOrUser)));
}

#[test]
fn test_messages() {
    assert_eq!(testing_text(), "正在测试连接…");
    assert_eq!(test_outcome_text(&Ok("fine".to_string())), "fine");
    assert_eq!(test_outcome_text(&Err("boom".to_string())), "测试失败: boom");
    assert_eq!(test_success_text("  OK\n"), "连接成功！远程回显: OK");
    assert_eq!(TestFailure::TcpConnect.text("refused"), "TCP 连接失败: refused");
    assert_eq!(TestFailure::CreateSession.text("e"), "创建 SSH Session 失败: e");
    assert_eq!(TestFailure::Handshake.text("e"), "SSH 握手失败: e");
    assert_eq!(TestFailure::PasswordAuth.text("e"), "密码认证失败: e");
    assert_eq!(TestFailure::NoKeyFile.text("ignored"), "未选择密钥文件");
    assert_eq!(TestFailure::KeyAuth.text("e"), "密钥认证失败: e");
    assert_eq!(TestFailure::OpenChannel.text("e"), "打开通道失败: e");
    assert_eq!(TestFailure::ExecCommand.text("e"), "执行命令失败: e");
    assert_eq!(TestFailure::ReadEcho.text("e"), "读取回显失败: e");
    assert_eq!(TestFailure::CloseChannel.text("e"), "关闭通道失败: e");
}

#[test]
fn tones() {
    assert_eq!(message_tone(&test_success_text("OK")), MessageTone::Success);
    assert_eq!(message_tone(&test_outcome_text(&Err("x".to_string()))), MessageTone::Failure);
    assert_eq!(message_tone("密码不能为空"), MessageTone::Failure);
    assert_eq!(message_tone("请填写主机、端口和用户名"), MessageTone::Neutral);
    assert_eq!(message_tone("请选择密钥文件"), MessageTone::Neutral);
    assert_eq!(message_tone(&testing_text()), MessageTone::Neutral);
}
