//! The state of the application window apart from the widgets and the
//! handles to the database, the connection test and the terminal session:
//! what each button and each finished background task does to it.

use vstd::prelude::*;
use crate::session::{
    form_error_message, remove_session, save_check, test_check, test_outcome_message,
    test_outcome_text, testing_message, testing_text, without_id, FormError, Session,
    SessionForm, TestRequest,
};
use crate::tabs::{initial_bar, open_page, select, settings_clicked, Page, PageView, TabBar};
use crate::terminal::TerminalState;

verus! {

pub struct AppState {
    pub show_add_dialog: bool,
    pub show_about_dialog: bool,
    /// The page last chosen in the side bar.
    pub page: Page,
    pub form: SessionForm,
    pub is_loading: bool,
    pub error_message: Option<String>,
    pub test_message: Option<String>,
    /// The add dialog's fields passed their checks and wait to be written.
    pub should_save: bool,
    pub show_editor: bool,
    /// The edit dialog's fields passed their checks and wait to be written.
    pub should_update: bool,
    pub sessions: Vec<Session>,
    pub tabs: TabBar,
    pub terminal: TerminalState,
}

/// The dialog switches of `a` and `b` agree.
pub open spec fn same_dialogs(a: AppState, b: AppState) -> bool {
    &&& a.show_add_dialog == b.show_add_dialog
    &&& a.show_about_dialog == b.show_about_dialog
    &&& a.show_editor == b.show_editor
}

/// The pending-work flags of `a` and `b` agree.
pub open spec fn same_flags(a: AppState, b: AppState) -> bool {
    &&& a.should_save == b.should_save
    &&& a.should_update == b.should_update
    &&& a.is_loading == b.is_loading
}

/// The page, tabs, terminal and sessions of `a` and `b` agree.
pub open spec fn same_views(a: AppState, b: AppState) -> bool {
    &&& a.page == b.page
    &&& a.tabs == b.tabs
    &&& a.terminal == b.terminal
    &&& a.sessions == b.sessions
}

/// `m` holds exactly the text `t`.
pub open spec fn message_is(m: Option<String>, t: Seq<char>) -> bool {
    m matches Some(s) && s@ == t
}

impl AppState {
    /// The state at start-up, with the sessions read from the database.
    pub fn new(sessions: Vec<Session>) -> (a: AppState)
        ensures
            !a.show_add_dialog,
            !a.show_about_dialog,
            a.page@ == PageView::Home,
            a.form.id == 0,
            crate::session::fields_cleared(a.form),
            a.form.picked_path is None,
            a.form.cert_style == crate::session::CertStyle::First,
            a.form.connect_style == crate::session::ConnetStyle::Direct,
            !a.is_loading,
            a.error_message is None,
            a.test_message is None,
            !a.should_save,
            !a.show_editor,
            !a.should_update,
            a.sessions == sessions,
            a.tabs@ == initial_bar(),
            a.terminal@.output.len() == 0,
            a.terminal@.input.len() == 0,
            a.terminal@.remote_prompt.len() == 0,
            a.terminal@.last_command.len() == 0,
            !a.terminal@.first_banner_arrived,
    {
        AppState {
            show_add_dialog: false,
            show_about_dialog: false,
            page: Page::Home,
            form: SessionForm::new(),
            is_loading: false,
            error_message: None,
            test_message: None,
            should_save: false,
            show_editor: false,
            should_update: false,
            sessions,
            tabs: TabBar::new(),
            terminal: TerminalState::new(),
        }
    }

    /// Takes the form's session to be written. Refused, with an error
    /// message, when the name or the group is empty; otherwise the session is
    /// given back, loading starts, the error message goes and the form's text
    /// fields are emptied.
    pub fn save_session(&mut self) -> (r: Option<Session>)
        ensures
            old(self).form.name@.len() == 0 || old(self).form.group_name@.len() == 0 ==> {
                &&& r is None
                &&& message_is(final(self).error_message, form_error_message(FormError::MissingNameOrGroup))
                &&& final(self).form == old(self).form
                &&& final(self).is_loading == old(self).is_loading
            },
            old(self).form.name@.len() > 0 && old(self).form.group_name@.len() > 0 ==> {
                &&& r matches Some(s) && s == (Session {
                    id: old(self).form.id,
                    name: old(self).form.name,
                    group_name: old(self).form.group_name,
                    ip: old(self).form.ip,
                    port: old(self).form.port,
                    user_name: old(self).form.user_name,
                    password: old(self).form.password,
                })
                &&& final(self).is_loading
                &&& final(self).error_message is None
                &&& crate::session::fields_cleared(final(self).form)
                &&& final(self).form.id == old(self).form.id
                &&& final(self).form.cert_style == old(self).form.cert_style
                &&& final(self).form.connect_style == old(self).form.connect_style
                &&& final(self).form.picked_path == old(self).form.picked_path
            },
            same_dialogs(*final(self), *old(self)),
            same_views(*final(self), *old(self)),
            final(self).should_save == old(self).should_save,
            final(self).should_update == old(self).should_update,
            final(self).test_message == old(self).test_message,
    {
        match self.form.take_session() {
            Ok(s) => {
                self.is_loading = true;
                self.error_message = None;
                Some(s)
            },
            Err(e) => {
                self.error_message = Some(e.message());
                None
            },
        }
    }

    /// The same as `save_session`, for the edit dialog: the session given
    /// back carries the id of the session being edited.
    pub fn edit_session(&mut self) -> (r: Option<Session>)
        ensures
            old(self).form.name@.len() == 0 || old(self).form.group_name@.len() == 0 ==> {
                &&& r is None
                &&& message_is(final(self).error_message, form_error_message(FormError::MissingNameOrGroup))
                &&& final(self).form == old(self).form
                &&& final(self).is_loading == old(self).is_loading
            },
            old(self).form.name@.len() > 0 && old(self).form.group_name@.len() > 0 ==> {
                &&& r matches Some(s) && s.id == old(self).form.id && s.name == old(self).form.name
                    && s.group_name == old(self).form.group_name && s.ip == old(self).form.ip
                    && s.port == old(self).form.port && s.user_name == old(self).form.user_name
                    && s.password == old(self).form.password
                &&& final(self).is_loading
                &&& final(self).error_message is None
                &&& crate::session::fields_cleared(final(self).form)
                &&& final(self).form.id == old(self).form.id
                &&& final(self).form.cert_style == old(self).form.cert_style
                &&& final(self).form.connect_style == old(self).form.connect_style
                &&& final(self).form.picked_path == old(self).form.picked_path
            },
            same_dialogs(*final(self), *old(self)),
            same_views(*final(self), *old(self)),
            final(self).should_save == old(self).should_save,
            final(self).should_update == old(self).should_update,
            final(self).test_message == old(self).test_message,
    {
        self.save_session()
    }

    /// The save button of a dialog: when a check fails its message is shown
    /// and the dialog stays; otherwise the error goes, the session waits to
    /// be written (a new one when `for_update` is false, the edited one when
    /// it is true) and the dialog closes. Gives back whether it closes.
    pub fn save_clicked(&mut self, for_update: bool) -> (closes: bool)
        ensures
            closes == (save_check(old(self).form) is None),
            match save_check(old(self).form) {
                Some(e) => {
                    &&& message_is(final(self).error_message, form_error_message(e))
                    &&& final(self).should_save == old(self).should_save
                    &&& final(self).should_update == old(self).should_update
                },
                None => {
                    &&& final(self).error_message is None
                    &&& final(self).should_save == (old(self).should_save || !for_update)
                    &&& final(self).should_update == (old(self).should_update || for_update)
                },
            },
            final(self).form == old(self).form,
            final(self).is_loading == old(self).is_loading,
            final(self).test_message == old(self).test_message,
            same_dialogs(*final(self), *old(self)),
            same_views(*final(self), *old(self)),
    {
        match self.form.check_before_save() {
            Err(e) => {
                self.error_message = Some(e.message());
                false
            },
            Ok(()) => {
                self.error_message = None;
                if for_update {
                    self.should_update = true;
                } else {
                    self.should_save = true;
                }
                true
            },
        }
    }

    /// The edit button of the session at `index`: the edit dialog opens with
    /// that session's fields. Nothing happens when there is no such session.
    pub fn begin_edit(&mut self, index: usize)
        ensures
            index < old(self).sessions.len() ==> {
                let s = old(self).sessions@[index as int];
                &&& final(self).show_editor
                &&& final(self).form.id == s.id
                &&& final(self).form.name == s.name
                &&& final(self).form.group_name == s.group_name
                &&& final(self).form.ip == s.ip
                &&& final(self).form.port == s.port
                &&& final(self).form.user_name == s.user_name
                &&& final(self).form.password == s.password
            },
            index >= old(self).sessions.len() ==> final(self).show_editor == old(self).show_editor
                && final(self).form == old(self).form,
            index < old(self).sessions.len() ==> final(self).form.cert_style == old(self).form.cert_style
                && final(self).form.connect_style == old(self).form.connect_style
                && final(self).form.picked_path == old(self).form.picked_path,
            final(self).show_add_dialog == old(self).show_add_dialog,
            final(self).show_about_dialog == old(self).show_about_dialog,
            same_flags(*final(self), *old(self)),
            same_views(*final(self), *old(self)),
            final(self).error_message == old(self).error_message,
            final(self).test_message == old(self).test_message,
    {
        if index < self.sessions.len() {
            self.show_editor = true;
            self.form.load(&self.sessions[index]);
        }
    }

    /// The delete button: the sessions with this id leave the list.
    pub fn delete_session(&mut self, id: i32)
        ensures
            final(self).sessions@ == without_id(old(self).sessions@, id),
            final(self).page == old(self).page,
            final(self).tabs == old(self).tabs,
            final(self).terminal == old(self).terminal,
            final(self).form == old(self).form,
            same_dialogs(*final(self), *old(self)),
            same_flags(*final(self), *old(self)),
            final(self).error_message == old(self).error_message,
            final(self).test_message == old(self).test_message,
    {
        remove_session(&mut self.sessions, id);
    }

    /// The connect button of the session named `name`: its terminal tab
    /// opens, or stays open. A session without a name opens nothing.
    pub fn connect(&mut self, name: String)
        ensures
            name@.len() > 0 ==> final(self).tabs@ == open_page(old(self).tabs@, PageView::Terminal(name@)),
            name@.len() == 0 ==> final(self).tabs == old(self).tabs,
            final(self).page == old(self).page,
            final(self).sessions == old(self).sessions,
            final(self).terminal == old(self).terminal,
            final(self).form == old(self).form,
            same_dialogs(*final(self), *old(self)),
            same_flags(*final(self), *old(self)),
            final(self).error_message == old(self).error_message,
            final(self).test_message == old(self).test_message,
    {
        if !name.as_str().is_empty() {
            self.tabs.add_terminal_tab(name);
        }
    }

    /// The home button of the side bar.
    pub fn home_clicked(&mut self)
        ensures
            final(self).page@ == PageView::Home,
            final(self).tabs@ == select(old(self).tabs@, 0),
            final(self).sessions == old(self).sessions,
            final(self).terminal == old(self).terminal,
            final(self).form == old(self).form,
            same_dialogs(*final(self), *old(self)),
            same_flags(*final(self), *old(self)),
            final(self).error_message == old(self).error_message,
            final(self).test_message == old(self).test_message,
    {
        self.page = Page::Home;
        self.tabs.go_home();
    }

    /// The settings button of the side bar.
    pub fn settings_clicked(&mut self)
        ensures
            final(self).page@ == PageView::Settings,
            final(self).tabs@ == settings_clicked(old(self).tabs@),
            final(self).sessions == old(self).sessions,
            final(self).terminal == old(self).terminal,
            final(self).form == old(self).form,
            same_dialogs(*final(self), *old(self)),
            same_flags(*final(self), *old(self)),
            final(self).error_message == old(self).error_message,
            final(self).test_message == old(self).test_message,
    {
        self.page = Page::Settings;
        self.tabs.open_settings();
    }

    /// The test button: when a check fails its message is shown and nothing
    /// is tested; otherwise the test to run is given back and the
    /// testing message is shown.
    pub fn request_test(&mut self) -> (r: Option<TestRequest>)
        ensures
            old(self).form.ip@.len() == 0 || old(self).form.port@.len() == 0
                || old(self).form.user_name@.len() == 0 ==> r is None && message_is(
                final(self).test_message,
                form_error_message(FormError::MissingHostPortOrUser),
            ),
            match test_check(old(self).form) {
                Some(e) => r is None && message_is(final(self).test_message, form_error_message(e)),
                None => r matches Some(t) && {
                    &&& t.host == old(self).form.ip
                    &&& t.port == old(self).form.port
                    &&& t.user == old(self).form.user_name
                    &&& t.password == old(self).form.password
                    &&& t.key_path == old(self).form.picked_path
                    &&& t.use_password == (old(self).form.cert_style
                        == crate::session::CertStyle::First)
                    &&& message_is(final(self).test_message, testing_message())
                },
            },
            final(self).form == old(self).form,
            final(self).error_message == old(self).error_message,
            same_dialogs(*final(self), *old(self)),
            same_flags(*final(self), *old(self)),
            same_views(*final(self), *old(self)),
    {
        match self.form.connection_test() {
            Err(e) => {
                self.test_message = Some(e.message());
                None
            },
            Ok(t) => {
                self.test_message = Some(testing_text());
                Some(t)
            },
        }
    }

    /// A connection test finished with `res`.
    pub fn receive_test_result(&mut self, res: &Result<String, String>)
        ensures
            message_is(
                final(self).test_message,
                test_outcome_message(
                    match res {
                        Ok(m) => Ok(m@),
                        Err(e) => Err(e@),
                    },
                ),
            ),
            final(self).form == old(self).form,
            final(self).error_message == old(self).error_message,
            same_dialogs(*final(self), *old(self)),
            same_flags(*final(self), *old(self)),
            same_views(*final(self), *old(self)),
    {
        self.test_message = Some(test_outcome_text(res));
    }

    /// A new session was written; `sessions` is the list read back.
    pub fn finish_save(&mut self, sessions: Vec<Session>)
        ensures
            final(self).sessions == sessions,
            !final(self).should_save,
            final(self).should_update == old(self).should_update,
            final(self).is_loading == old(self).is_loading,
            same_dialogs(*final(self), *old(self)),
            final(self).page == old(self).page,
            final(self).tabs == old(self).tabs,
            final(self).terminal == old(self).terminal,
            final(self).form == old(self).form,
            final(self).error_message == old(self).error_message,
            final(self).test_message == old(self).test_message,
    {
        self.sessions = sessions;
        self.should_save = false;
    }

    /// An edited session was written; `sessions` is the list read back.
    pub fn finish_update(&mut self, sessions: Vec<Session>)
        ensures
            final(self).sessions == sessions,
            !final(self).should_update,
            !final(self).show_editor,
            final(self).should_save == old(self).should_save,
            final(self).is_loading == old(self).is_loading,
            final(self).show_add_dialog == old(self).show_add_dialog,
            final(self).show_about_dialog == old(self).show_about_dialog,
            final(self).page == old(self).page,
            final(self).tabs == old(self).tabs,
            final(self).terminal == old(self).terminal,
            final(self).form == old(self).form,
            final(self).error_message == old(self).error_message,
            final(self).test_message == old(self).test_message,
    {
        self.sessions = sessions;
        self.should_update = false;
        self.show_editor = false;
    }
}

} // verus!
