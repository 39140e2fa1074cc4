//! Saved sessions and the form that edits them.

use vstd::prelude::*;
use crate::text::{contains_str, has_infix, trim, trim_str};

verus! {

/// A saved connection.
#[derive(Debug)]
pub struct Session {
    pub id: i32,
    pub name: String,
    pub group_name: String,
    pub ip: String,
    pub port: String,
    pub user_name: String,
    pub password: String,
}

impl Clone for Session {
    fn clone(&self) -> (r: Session)
        ensures
            r == *self,
    {
        Session {
            id: self.id,
            name: self.name.clone(),
            group_name: self.group_name.clone(),
            ip: self.ip.clone(),
            port: self.port.clone(),
            user_name: self.user_name.clone(),
            password: self.password.clone(),
        }
    }
}

/// The id of the row a database insert reports, narrowed to `i32` the way
/// `as` narrows (keeping the low 32 bits).
pub fn session_id_from_rowid(rowid: i64) -> (id: i32)
    ensures
        id == rowid as i32,
{
    rowid as i32
}

/// `sessions` without the sessions whose id is `id`.
pub open spec fn without_id(sessions: Seq<Session>, id: i32) -> Seq<Session> {
    sessions.filter(|s: Session| s.id != id)
}

/// Removes every session whose id is `id`, keeping the others in order.
pub fn remove_session(sessions: &mut Vec<Session>, id: i32)
    ensures
        final(sessions)@ == without_id(old(sessions)@, id),
{
    let ghost pred = |s: Session| s.id != id;
    let mut kept: Vec<Session> = Vec::new();
    let mut i: usize = 0;
    assert(sessions@.take(0) =~= Seq::<Session>::empty());
    proof {
        reveal_with_fuel(Seq::filter, 1);
    }
    while i < sessions.len()
        invariant
            i <= sessions.len(),
            sessions@ == old(sessions)@,
            pred == (|s: Session| s.id != id),
            kept@ == sessions@.take(i as int).filter(pred),
        decreases sessions.len() - i,
    {
        proof {
            assert(sessions@.take(i + 1) =~= sessions@.take(i as int).push(sessions@[i as int]));
            sessions@.take(i as int).lemma_filter_push(sessions@[i as int], pred);
        }
        if sessions[i].id != id {
            kept.push(sessions[i].clone());
        }
        i = i + 1;
    }
    assert(sessions@.take(sessions.len() as int) =~= sessions@);
    *sessions = kept;
}

/// After a delete no session carries the id, and every session with
/// another id is still there.
pub proof fn lemma_without_id(sessions: Seq<Session>, id: i32)
    ensures
        forall|i: int| 0 <= i < without_id(sessions, id).len() ==> (#[trigger] without_id(sessions, id)[i]).id != id,
        forall|i: int| 0 <= i < sessions.len() && (#[trigger] sessions[i]).id != id ==> without_id(sessions, id).contains(sessions[i]),
        without_id(sessions, id).len() <= sessions.len(),
{
    sessions.filter_lemma(|s: Session| s.id != id);
}

/// The first session named `name`, if any.
pub fn find_session_by_name(sessions: &Vec<Session>, name: &str) -> (r: Option<Session>)
    ensures
        match r {
            Some(s) => exists|i: int|
                0 <= i < sessions@.len() && sessions@[i] == s && s.name@ == name@ && forall|j: int|
                    0 <= j < i ==> (#[trigger] sessions@[j]).name@ != name@,
            None => forall|j: int| 0 <= j < sessions@.len() ==> (#[trigger] sessions@[j]).name@ != name@,
        },
{
    let wanted: String = name.to_owned();
    let mut i: usize = 0;
    while i < sessions.len()
        invariant
            i <= sessions.len(),
            wanted@ == name@,
            forall|j: int| 0 <= j < i ==> (#[trigger] sessions@[j]).name@ != name@,
        decreases sessions.len() - i,
    {
        if sessions[i].name == wanted {
            let s = sessions[i].clone();
            assert(sessions@[i as int] == s);
            return Some(s);
        }
        i = i + 1;
    }
    None
}

/// How the session authenticates.
#[derive(Clone, Copy, Debug, PartialEq, Eq, Structural)]
pub enum CertStyle {
    /// By password.
    First,
    /// By key file.
    Second,
}

impl Default for CertStyle {
    fn default() -> (r: CertStyle)
        ensures
            r == CertStyle::First,
    {
        CertStyle::First
    }
}

/// How the session reaches its host.
#[derive(Clone, Copy, Debug, PartialEq, Eq, Structural)]
pub enum ConnetStyle {
    /// A direct connection.
    Direct,
    Socket,
    Http,
    Jumphost,
}

impl Default for ConnetStyle {
    fn default() -> (r: ConnetStyle)
        ensures
            r == ConnetStyle::Direct,
    {
        ConnetStyle::Direct
    }
}

/// The name shown for a connection style.
pub open spec fn connect_style_label(c: ConnetStyle) -> Seq<char> {
    match c {
        ConnetStyle::Direct => "直连"@,
        ConnetStyle::Socket => "Socket"@,
        ConnetStyle::Http => "Http"@,
        ConnetStyle::Jumphost => "Jumphost"@,
    }
}

impl ConnetStyle {
    /// The name shown for this connection style.
    pub fn label(&self) -> (s: String)
        ensures
            s@ == connect_style_label(*self),
    {
        match self {
            ConnetStyle::Direct => "直连".to_owned(),
            ConnetStyle::Socket => "Socket".to_owned(),
            ConnetStyle::Http => "Http".to_owned(),
            ConnetStyle::Jumphost => "Jumphost".to_owned(),
        }
    }
}

/// Why a form cannot be used yet.
#[derive(Clone, Copy, Debug, PartialEq, Eq, Structural)]
pub enum FormError {
    MissingName,
    MissingGroup,
    MissingIp,
    MissingPort,
    MissingUserName,
    MissingPassword,
    /// The name or the group is missing (checked when a session is written).
    MissingNameOrGroup,
    /// The host, the port or the user name is missing (checked before a
    /// connection test).
    MissingHostPortOrUser,
    /// Key authentication is chosen but no key file is picked.
    MissingKeyFile,
}

/// The message shown for a form error.
pub open spec fn form_error_message(e: FormError) -> Seq<char> {
    match e {
        FormError::MissingName => "名称不能为空"@,
        FormError::MissingGroup => "分组不能为空"@,
        FormError::MissingIp => "IP地址不能为空"@,
        FormError::MissingPort => "端口不能为空"@,
        FormError::MissingUserName => "用户名不能为空"@,
        FormError::MissingPassword => "密码不能为空"@,
        FormError::MissingNameOrGroup => "名称和分组不能为空"@,
        FormError::MissingHostPortOrUser => "请填写主机、端口和用户名"@,
        FormError::MissingKeyFile => "请选择密钥文件"@,
    }
}

impl FormError {
    /// The message shown for this error.
    pub fn message(&self) -> (s: String)
        ensures
            s@ == form_error_message(*self),
    {
        match self {
            FormError::MissingName => "名称不能为空".to_owned(),
            FormError::MissingGroup => "分组不能为空".to_owned(),
            FormError::MissingIp => "IP地址不能为空".to_owned(),
            FormError::MissingPort => "端口不能为空".to_owned(),
            FormError::MissingUserName => "用户名不能为空".to_owned(),
            FormError::MissingPassword => "密码不能为空".to_owned(),
            FormError::MissingNameOrGroup => "名称和分组不能为空".to_owned(),
            FormError::MissingHostPortOrUser => "请填写主机、端口和用户名".to_owned(),
            FormError::MissingKeyFile => "请选择密钥文件".to_owned(),
        }
    }
}

/// What a connection test needs.
pub struct TestRequest {
    pub host: String,
    pub port: String,
    pub user: String,
    pub password: String,
    pub key_path: Option<String>,
    /// Authenticate by password (else by key file).
    pub use_password: bool,
}

/// The fields of the add and edit dialogs.
pub struct SessionForm {
    pub id: i32,
    pub name: String,
    pub group_name: String,
    pub ip: String,
    pub port: String,
    pub user_name: String,
    pub password: String,
    pub cert_style: CertStyle,
    pub connect_style: ConnetStyle,
    pub picked_path: Option<String>,
}

/// The first check of the save button that fails, in the order the dialog
/// checks them, or none.
pub open spec fn save_check(f: SessionForm) -> Option<FormError> {
    if f.name@.len() == 0 {
        Some(FormError::MissingName)
    } else if f.group_name@.len() == 0 {
        Some(FormError::MissingGroup)
    } else if f.ip@.len() == 0 {
        Some(FormError::MissingIp)
    } else if f.port@.len() == 0 {
        Some(FormError::MissingPort)
    } else if f.user_name@.len() == 0 {
        Some(FormError::MissingUserName)
    } else if f.cert_style == CertStyle::First && f.password@.len() == 0 {
        Some(FormError::MissingPassword)
    } else {
        None
    }
}

/// The first check before a connection test that fails, or none.
pub open spec fn test_check(f: SessionForm) -> Option<FormError> {
    if f.ip@.len() == 0 || f.port@.len() == 0 || f.user_name@.len() == 0 {
        Some(FormError::MissingHostPortOrUser)
    } else if f.cert_style == CertStyle::First && f.password@.len() == 0 {
        Some(FormError::MissingPassword)
    } else if f.cert_style == CertStyle::Second && f.picked_path is None {
        Some(FormError::MissingKeyFile)
    } else {
        None
    }
}

/// The text fields of the form are empty.
pub open spec fn fields_cleared(f: SessionForm) -> bool {
    &&& f.name@.len() == 0
    &&& f.group_name@.len() == 0
    &&& f.ip@.len() == 0
    &&& f.port@.len() == 0
    &&& f.user_name@.len() == 0
    &&& f.password@.len() == 0
}

impl SessionForm {
    /// An empty form: password authentication, direct connection, no key file.
    pub fn new() -> (f: SessionForm)
        ensures
            f.id == 0,
            fields_cleared(f),
            f.cert_style == CertStyle::First,
            f.connect_style == ConnetStyle::Direct,
            f.picked_path is None,
    {
        SessionForm {
            id: 0,
            name: String::new(),
            group_name: String::new(),
            ip: String::new(),
            port: String::new(),
            user_name: String::new(),
            password: String::new(),
            cert_style: CertStyle::First,
            connect_style: ConnetStyle::Direct,
            picked_path: None,
        }
    }

    /// The checks of the save button: the first missing field, in the order
    /// name, group, IP address, port, user name, and (with password
    /// authentication) password.
    pub fn check_before_save(&self) -> (r: Result<(), FormError>)
        ensures
            match save_check(*self) {
                Some(e) => r == Err::<(), FormError>(e),
                None => r is Ok,
            },
    {
        if self.name.as_str().is_empty() {
            Err(FormError::MissingName)
        } else if self.group_name.as_str().is_empty() {
            Err(FormError::MissingGroup)
        } else if self.ip.as_str().is_empty() {
            Err(FormError::MissingIp)
        } else if self.port.as_str().is_empty() {
            Err(FormError::MissingPort)
        } else if self.user_name.as_str().is_empty() {
            Err(FormError::MissingUserName)
        } else if self.cert_style == CertStyle::First && self.password.as_str().is_empty() {
            Err(FormError::MissingPassword)
        } else {
            Ok(())
        }
    }

    /// Fills the form from a saved session (the edit button).
    pub fn load(&mut self, s: &Session)
        ensures
            final(self).id == s.id,
            final(self).name == s.name,
            final(self).group_name == s.group_name,
            final(self).ip == s.ip,
            final(self).port == s.port,
            final(self).user_name == s.user_name,
            final(self).password == s.password,
            final(self).cert_style == old(self).cert_style,
            final(self).connect_style == old(self).connect_style,
            final(self).picked_path == old(self).picked_path,
    {
        self.id = s.id;
        self.name = s.name.clone();
        self.group_name = s.group_name.clone();
        self.ip = s.ip.clone();
        self.port = s.port.clone();
        self.user_name = s.user_name.clone();
        self.password = s.password.clone();
    }

    /// Takes the form's session to be written: refused when the name or the
    /// group is empty (the form is then unchanged); otherwise the session
    /// holds the form's id and fields, and the text fields are emptied.
    pub fn take_session(&mut self) -> (r: Result<Session, FormError>)
        ensures
            old(self).name@.len() == 0 || old(self).group_name@.len() == 0 ==> {
                &&& r == Err::<Session, FormError>(FormError::MissingNameOrGroup)
                &&& *final(self) == *old(self)
            },
            old(self).name@.len() > 0 && old(self).group_name@.len() > 0 ==> {
                &&& r matches Ok(s) && s == (Session {
                    id: old(self).id,
                    name: old(self).name,
                    group_name: old(self).group_name,
                    ip: old(self).ip,
                    port: old(self).port,
                    user_name: old(self).user_name,
                    password: old(self).password,
                })
                &&& fields_cleared(*final(self))
                &&& final(self).id == old(self).id
                &&& final(self).cert_style == old(self).cert_style
                &&& final(self).connect_style == old(self).connect_style
                &&& final(self).picked_path == old(self).picked_path
            },
    {
        if self.name.as_str().is_empty() || self.group_name.as_str().is_empty() {
            return Err(FormError::MissingNameOrGroup);
        }
        let s = Session {
            id: self.id,
            name: self.name.clone(),
            group_name: self.group_name.clone(),
            ip: self.ip.clone(),
            port: self.port.clone(),
            user_name: self.user_name.clone(),
            password: self.password.clone(),
        };
        self.name = String::new();
        self.group_name = String::new();
        self.ip = String::new();
        self.port = String::new();
        self.user_name = String::new();
        self.password = String::new();
        Ok(s)
    }

    /// What a connection test needs, once the host, port and user name are
    /// filled in, and the password (password authentication) or a key file
    /// (key authentication).
    pub fn connection_test(&self) -> (r: Result<TestRequest, FormError>)
        ensures
            self.ip@.len() == 0 || self.port@.len() == 0 || self.user_name@.len() == 0 ==> (r matches Err(
                e,
            ) && e == FormError::MissingHostPortOrUser),
            match test_check(*self) {
                Some(e) => r matches Err(e2) && e2 == e,
                None => r matches Ok(t) && {
                    &&& t.host == self.ip
                    &&& t.port == self.port
                    &&& t.user == self.user_name
                    &&& t.password == self.password
                    &&& t.key_path == self.picked_path
                    &&& t.use_password == (self.cert_style == CertStyle::First)
                },
            },
    {
        if self.ip.as_str().is_empty() || self.port.as_str().is_empty()
            || self.user_name.as_str().is_empty() {
            Err(FormError::MissingHostPortOrUser)
        } else if self.cert_style == CertStyle::First && self.password.as_str().is_empty() {
            Err(FormError::MissingPassword)
        } else if self.cert_style == CertStyle::Second && self.picked_path.is_none() {
            Err(FormError::MissingKeyFile)
        } else {
            Ok(
                TestRequest {
                    host: self.ip.clone(),
                    port: self.port.clone(),
                    user: self.user_name.clone(),
                    password: self.password.clone(),
                    key_path: match &self.picked_path {
                        Some(p) => Some(p.clone()),
                        None => None,
                    },
                    use_password: self.cert_style == CertStyle::First,
                },
            )
        }
    }
}

/// A connection test is refused for want of host, port or user name as soon
/// as any one of the three is empty, whatever the rest of the form holds; with
/// all three present the refusals are about the password or the key file
/// only.
pub proof fn lemma_test_check_needs_host_port_user(f: SessionForm)
    ensures
        f.ip@.len() == 0 ==> test_check(f) == Some(FormError::MissingHostPortOrUser),
        f.port@.len() == 0 ==> test_check(f) == Some(FormError::MissingHostPortOrUser),
        f.user_name@.len() == 0 ==> test_check(f) == Some(FormError::MissingHostPortOrUser),
        f.ip@.len() > 0 && f.port@.len() > 0 && f.user_name@.len() > 0 ==> test_check(f) != Some(
            FormError::MissingHostPortOrUser,
        ),
        test_check(f) is None <==> (f.ip@.len() > 0 && f.port@.len() > 0 && f.user_name@.len() > 0
            && (f.cert_style == CertStyle::First ==> f.password@.len() > 0) && (f.cert_style
            == CertStyle::Second ==> f.picked_path is Some)),
{
}

/// The message shown while a connection test runs.
pub open spec fn testing_message() -> Seq<char> {
    "正在测试连接…"@
}

/// The message for a finished test: the success text, or the failure
/// prefixed with `测试失败: `.
pub open spec fn test_outcome_message(res: Result<Seq<char>, Seq<char>>) -> Seq<char> {
    match res {
        Ok(msg) => msg,
        Err(e) => "测试失败: "@ + e,
    }
}

/// The success text of a test, with the remote echo trimmed.
pub open spec fn test_success_message(echo: Seq<char>) -> Seq<char> {
    "连接成功！远程回显: "@ + trim(echo)
}

/// The message shown while a connection test runs.
pub fn testing_text() -> (s: String)
    ensures
        s@ == testing_message(),
{
    "正在测试连接…".to_owned()
}

/// The message for a finished test.
pub fn test_outcome_text(res: &Result<String, String>) -> (s: String)
    ensures
        s@ == test_outcome_message(
            match res {
                Ok(m) => Ok(m@),
                Err(e) => Err(e@),
            },
        ),
{
    match res {
        Ok(msg) => msg.clone(),
        Err(e) => {
            let mut s: String = "测试失败: ".to_owned();
            s.append(e.as_str());
            s
        },
    }
}

/// The success text of a test whose remote side echoed `echo`.
pub fn test_success_text(echo: &str) -> (s: String)
    ensures
        s@ == test_success_message(echo@),
{
    let mut s: String = "连接成功！远程回显: ".to_owned();
    s.append(trim_str(echo));
    s
}

/// The step of a connection test that failed.
#[derive(Clone, Copy, Debug, PartialEq, Eq, Structural)]
pub enum TestFailure {
    TcpConnect,
    CreateSession,
    Handshake,
    PasswordAuth,
    /// Key authentication without a key file.
    NoKeyFile,
    KeyAuth,
    OpenChannel,
    ExecCommand,
    ReadEcho,
    CloseChannel,
}

/// The failure text of a test step, given the error's own text `detail`.
pub open spec fn test_failure_message(f: TestFailure, detail: Seq<char>) -> Seq<char> {
    match f {
        TestFailure::TcpConnect => "TCP 连接失败: "@ + detail,
        TestFailure::CreateSession => "创建 SSH Session 失败: "@ + detail,
        TestFailure::Handshake => "SSH 握手失败: "@ + detail,
        TestFailure::PasswordAuth => "密码认证失败: "@ + detail,
        TestFailure::NoKeyFile => "未选择密钥文件"@,
        TestFailure::KeyAuth => "密钥认证失败: "@ + detail,
        TestFailure::OpenChannel => "打开通道失败: "@ + detail,
        TestFailure::ExecCommand => "执行命令失败: "@ + detail,
        TestFailure::ReadEcho => "读取回显失败: "@ + detail,
        TestFailure::CloseChannel => "关闭通道失败: "@ + detail,
    }
}

impl TestFailure {
    /// The failure text of this step, given the error's own text `detail`.
    pub fn text(&self, detail: &str) -> (s: String)
        ensures
            s@ == test_failure_message(*self, detail@),
    {
        let mut s: String = match self {
            TestFailure::TcpConnect => "TCP 连接失败: ".to_owned(),
            TestFailure::CreateSession => "创建 SSH Session 失败: ".to_owned(),
            TestFailure::Handshake => "SSH 握手失败: ".to_owned(),
            TestFailure::PasswordAuth => "密码认证失败: ".to_owned(),
            TestFailure::NoKeyFile => {
                return "未选择密钥文件".to_owned();
            },
            TestFailure::KeyAuth => "密钥认证失败: ".to_owned(),
            TestFailure::OpenChannel => "打开通道失败: ".to_owned(),
            TestFailure::ExecCommand => "执行命令失败: ".to_owned(),
            TestFailure::ReadEcho => "读取回显失败: ".to_owned(),
            TestFailure::CloseChannel => "关闭通道失败: ".to_owned(),
        };
        s.append(detail);
        s
    }
}

/// How a status message is coloured.
#[derive(Clone, Copy, Debug, PartialEq, Eq, Structural)]
pub enum MessageTone {
    Success,
    Failure,
    Neutral,
}

/// The tone of a message: success when it says `成功`; failure when it says
/// `失败` or `不能为空`; neutral otherwise.
pub open spec fn tone_of(text: Seq<char>) -> MessageTone {
    if has_infix(text, "成功"@) {
        MessageTone::Success
    } else if has_infix(text, "失败"@) || has_infix(text, "不能为空"@) {
        MessageTone::Failure
    } else {
        MessageTone::Neutral
    }
}

/// The tone of a status message.
pub fn message_tone(text: &str) -> (t: MessageTone)
    ensures
        t == tone_of(text@),
{
    if contains_str(text, "成功") {
        MessageTone::Success
    } else if contains_str(text, "失败") || contains_str(text, "不能为空") {
        MessageTone::Failure
    } else {
        MessageTone::Neutral
    }
}


proof fn lemma_infix_at(h: Seq<char>, n: Seq<char>, i: int)
    requires
        0 <= i,
        i + n.len() <= h.len(),
        h.subrange(i, i + n.len()) =~= n,
    ensures
        has_infix(h, n),
{
}

proof fn lemma_infix_prefix(p: Seq<char>, e: Seq<char>, n: Seq<char>)
    requires
        has_infix(p, n),
    ensures
        has_infix(p + e, n),
{
    let i = choose|i: int| 0 <= i && i + n.len() <= p.len() && #[trigger] p.subrange(i, i + n.len()) == n;
    assert((p + e).subrange(i, i + n.len()) =~= p.subrange(i, i + n.len()));
}

/// The message of a successful test has the success tone.
pub proof fn lemma_success_tone(echo: Seq<char>)
    ensures
        tone_of(test_success_message(echo)) == MessageTone::Success,
{
    reveal_strlit("连接成功！远程回显: ");
    reveal_strlit("成功");
    let p = "连接成功！远程回显: "@;
    lemma_infix_at(p, "成功"@, 2);
    lemma_infix_prefix(p, trim(echo), "成功"@);
}

/// The message of a failed test has the failure tone, unless the error text
/// itself says `成功`.
pub proof fn lemma_failure_tone(e: Seq<char>)
    requires
        !has_infix(e, "成功"@),
    ensures
        tone_of(test_outcome_message(Err(e))) == MessageTone::Failure,
{
    reveal_strlit("测试失败: ");
    reveal_strlit("成功");
    reveal_strlit("失败");
    let p = "测试失败: "@;
    let n = "成功"@;
    let m = p + e;
    lemma_infix_at(p, "失败"@, 2);
    lemma_infix_prefix(p, e, "失败"@);
    assert(!has_infix(m, n)) by {
        if has_infix(m, n) {
            let i = choose|i: int| 0 <= i && i + n.len() <= m.len() && #[trigger] m.subrange(i, i + n.len()) == n;
            if i >= p.len() {
                assert(e.subrange(i - p.len(), i - p.len() + n.len()) =~= m.subrange(i, i + n.len()));
                assert(has_infix(e, n));
            } else {
                assert(m.subrange(i, i + n.len())[0] == n[0]);
                assert(m[i] == p[i]);
                assert(p.len() == 6);
                assert(p[i] != n[0]);
            }
        }
    }
}

} // verus!
