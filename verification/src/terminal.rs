//! The text side of an interactive terminal: what the remote side sends is
//! cleaned, split into lines and kept in a bounded buffer; what the user
//! types becomes a command, a local clear, or a notice.

use vstd::prelude::*;
use crate::escape::{strip_control_chars, stripped};
use vstd::utf8::{decode_utf8, encode_utf8, valid_utf8};
use crate::text::{
    chars_of, lines, push_char, split_lines, string_of_range, string_views, trim, trim_bounds,
    trim_str, vec_views,
};

verus! {

/// A trimmed line that announces the remote prompt: it ends in `$` and holds
/// no space.
pub open spec fn is_prompt(t: Seq<char>) -> bool {
    t.len() > 0 && t.last() == '$' && !t.contains(' ')
}

/// Goes through `ls` in order: a line whose trimmed form is a prompt becomes
/// the new prompt (the trimmed form and one space) and is not kept; every
/// other line is kept as it is. Gives the kept lines and the last prompt.
pub open spec fn scan_lines(ls: Seq<Seq<char>>, prompt: Seq<char>) -> (Seq<Seq<char>>, Seq<char>)
    decreases ls.len(),
{
    if ls.len() == 0 {
        (Seq::empty(), prompt)
    } else {
        let (kept, p) = scan_lines(ls.drop_last(), prompt);
        let t = trim(ls.last());
        if is_prompt(t) {
            (kept, t.push(' '))
        } else {
            (kept.push(ls.last()), p)
        }
    }
}

/// The lines `scan_lines` keeps are lines of `ls` and are not prompts.
pub proof fn lemma_scan_keeps_no_prompt(ls: Seq<Seq<char>>, prompt: Seq<char>)
    ensures
        forall|i: int| 0 <= i < scan_lines(ls, prompt).0.len() ==> !is_prompt(trim(#[trigger] scan_lines(ls, prompt).0[i])),
        forall|i: int| 0 <= i < scan_lines(ls, prompt).0.len() ==> ls.contains(#[trigger] scan_lines(ls, prompt).0[i]),
    decreases ls.len(),
{
    if ls.len() > 0 {
        lemma_scan_keeps_no_prompt(ls.drop_last(), prompt);
        let k = scan_lines(ls.drop_last(), prompt).0;
        assert forall|i: int| 0 <= i < scan_lines(ls, prompt).0.len() implies ls.contains(#[trigger] scan_lines(ls, prompt).0[i]) by {
            if i < k.len() {
                let j = choose|j: int| 0 <= j < ls.drop_last().len() && ls.drop_last()[j] == k[i];
                assert(ls[j] == k[i]);
            } else {
                assert(ls[ls.len() - 1] == ls.last());
            }
        }
    }
}

/// Every line `nonblank` keeps is a line of `ls` that is not blank once
/// trimmed.
pub proof fn lemma_nonblank(ls: Seq<Seq<char>>)
    ensures
        forall|i: int| 0 <= i < nonblank(ls).len() ==> trim(#[trigger] nonblank(ls)[i]).len() > 0,
        forall|i: int| 0 <= i < nonblank(ls).len() ==> ls.contains(#[trigger] nonblank(ls)[i]),
    decreases ls.len(),
{
    if ls.len() > 0 {
        lemma_nonblank(ls.drop_last());
        let r = nonblank(ls.drop_last());
        assert forall|i: int| 0 <= i < nonblank(ls).len() implies ls.contains(#[trigger] nonblank(ls)[i]) by {
            if i < r.len() {
                let j = choose|j: int| 0 <= j < ls.drop_last().len() && ls.drop_last()[j] == r[i];
                assert(ls[j] == r[i]);
            } else {
                assert(ls[ls.len() - 1] == ls.last());
            }
        }
    }
}

/// The lines of `ls` that are not blank once trimmed.
pub open spec fn nonblank(ls: Seq<Seq<char>>) -> Seq<Seq<char>>
    decreases ls.len(),
{
    if ls.len() == 0 {
        Seq::empty()
    } else if trim(ls.last()).len() > 0 {
        nonblank(ls.drop_last()).push(ls.last())
    } else {
        nonblank(ls.drop_last())
    }
}

/// The most lines the buffer holds before it drops its oldest ones.
pub open spec fn buffer_limit() -> int {
    500
}

/// How many of the oldest lines go at once when the buffer is over its limit.
pub open spec fn buffer_drop() -> int {
    100
}

/// The buffer and prompt after one piece of remote output `text` arrives.
pub open spec fn absorb(out: Seq<Seq<char>>, prompt: Seq<char>, text: Seq<char>) -> (
    Seq<Seq<char>>,
    Seq<char>,
) {
    let (kept, p) = scan_lines(lines(stripped(text)), prompt);
    let grown = out + nonblank(kept);
    (if grown.len() > buffer_limit() {
        grown.skip(buffer_drop())
    } else {
        grown
    }, p)
}

/// The buffer and prompt after the pieces `texts` arrive, in order.
pub open spec fn absorb_all(out: Seq<Seq<char>>, prompt: Seq<char>, texts: Seq<Seq<char>>) -> (
    Seq<Seq<char>>,
    Seq<char>,
)
    decreases texts.len(),
{
    if texts.len() == 0 {
        (out, prompt)
    } else {
        let (o, p) = absorb_all(out, prompt, texts.drop_last());
        absorb(o, p, texts.last())
    }
}

/// The lines of `ls` other than `echo`.
pub open spec fn without_echo(ls: Seq<Seq<char>>, echo: Seq<char>) -> Seq<Seq<char>>
    decreases ls.len(),
{
    if ls.len() == 0 {
        Seq::empty()
    } else if ls.last() == echo {
        without_echo(ls.drop_last(), echo)
    } else {
        without_echo(ls.drop_last(), echo).push(ls.last())
    }
}

/// The notice shown when a command is typed while no session is connected.
pub open spec fn not_connected_notice() -> Seq<char> {
    "❌ 未连接到终端"@
}

/// The notice shown when a command cannot be handed to the session.
pub open spec fn send_failed_notice() -> Seq<char> {
    "❌ 发送命令失败，连接可能已断开"@
}

/// The notice sent when the remote side closes the channel.
pub open spec fn closed_notice() -> Seq<char> {
    "\r\n连接已关闭"@
}

/// The state of one terminal view.
pub struct TerminalState {
    /// The lines shown, oldest first.
    pub output: Vec<String>,
    /// What the user is typing.
    pub input: String,
    /// The last command handed on, trimmed.
    pub last_command: String,
    /// The remote prompt, such as `user@host:~$ `.
    pub remote_prompt: String,
    /// Whether the first banner of the session has arrived.
    pub first_banner_arrived: bool,
}

/// The mathematical form of a `TerminalState`.
pub struct TerminalView {
    pub output: Seq<Seq<char>>,
    pub input: Seq<char>,
    pub last_command: Seq<char>,
    pub remote_prompt: Seq<char>,
    pub first_banner_arrived: bool,
}

impl View for TerminalState {
    type V = TerminalView;

    open spec fn view(&self) -> TerminalView {
        TerminalView {
            output: string_views(self.output@),
            input: self.input@,
            last_command: self.last_command@,
            remote_prompt: self.remote_prompt@,
            first_banner_arrived: self.first_banner_arrived,
        }
    }
}

/// Whether the chars of `v` from `a` up to `b` form a prompt.
fn prompt_in(v: &Vec<char>, a: usize, b: usize) -> (r: bool)
    requires
        a <= b <= v.len(),
    ensures
        r == is_prompt(v@.subrange(a as int, b as int)),
{
    let ghost t = v@.subrange(a as int, b as int);
    if a == b || v[b - 1] != '$' {
        return false;
    }
    let mut k: usize = a;
    while k < b
        invariant
            a <= k <= b <= v.len(),
            t == v@.subrange(a as int, b as int),
            forall|m: int| a <= m < k ==> v@[m] != ' ',
        decreases b - k,
    {
        if v[k] == ' ' {
            assert(t[k - a] == ' ');
            return false;
        }
        k = k + 1;
    }
    assert forall|m: int| 0 <= m < t.len() implies t[m] != ' ' by {
        assert(t[m] == v@[a + m]);
    }
    true
}

impl TerminalState {
    /// A terminal with nothing shown, typed or known yet.
    pub fn new() -> (t: TerminalState)
        ensures
            t@.output.len() == 0,
            t@.input.len() == 0,
            t@.last_command.len() == 0,
            t@.remote_prompt.len() == 0,
            !t@.first_banner_arrived,
    {
        TerminalState {
            output: Vec::new(),
            input: String::new(),
            last_command: String::new(),
            remote_prompt: String::new(),
            first_banner_arrived: false,
        }
    }

    /// Splits `data` into lines; a line that is a prompt once trimmed
    /// becomes the remote prompt, the others are given back in order.
    pub fn process_terminal_data(&mut self, data: &str) -> (r: Vec<String>)
        ensures
            (string_views(r@), final(self)@.remote_prompt) == scan_lines(
                lines(data@),
                old(self)@.remote_prompt,
            ),
            final(self)@.output == old(self)@.output,
            final(self)@.input == old(self)@.input,
            final(self)@.last_command == old(self)@.last_command,
            final(self)@.first_banner_arrived == old(self)@.first_banner_arrived,
    {
        let v = chars_of(data);
        let ls = split_lines(&v);
        let ghost lsv = vec_views(ls@);
        let ghost p0 = self.remote_prompt@;
        let mut out: Vec<String> = Vec::new();
        let mut k: usize = 0;
        assert(lsv.take(0) =~= Seq::<Seq<char>>::empty());
        assert(string_views(out@) =~= Seq::<Seq<char>>::empty());
        while k < ls.len()
            invariant
                k <= ls.len(),
                lsv == vec_views(ls@),
                lsv == lines(data@),
                (string_views(out@), self.remote_prompt@) == scan_lines(lsv.take(k as int), p0),
                self.output == old(self).output,
                self.input == old(self).input,
                self.last_command == old(self).last_command,
                self.first_banner_arrived == old(self).first_banner_arrived,
            decreases ls.len() - k,
        {
            let line = &ls[k];
            let (a, b) = trim_bounds(line);
            proof {
                assert(lsv.take(k + 1).drop_last() =~= lsv.take(k as int));
                assert(lsv.take(k + 1).last() == line@);
            }
            if prompt_in(line, a, b) {
                let mut p = string_of_range(line, a, b);
                push_char(&mut p, ' ');
                self.remote_prompt = p;
            } else {
                let l = string_of_range(line, 0, line.len());
                assert(line@.subrange(0, line@.len() as int) =~= line@);
                out.push(l);
            }
            k = k + 1;
        }
        assert(lsv.take(ls.len() as int) =~= lsv);
        out
    }
}


impl TerminalState {
    /// Takes in the pieces of remote output that arrived, in order: each is
    /// cleaned of escape sequences and control chars and split into lines;
    /// prompt lines update the remote prompt, blank lines are dropped, the
    /// rest are appended; whenever the buffer then holds more than
    /// `buffer_limit()` lines its oldest `buffer_drop()` lines go.
    pub fn process_terminal_output(&mut self, outputs: &Vec<String>)
        ensures
            (final(self)@.output, final(self)@.remote_prompt) == absorb_all(
                old(self)@.output,
                old(self)@.remote_prompt,
                string_views(outputs@),
            ),
            final(self)@.input == old(self)@.input,
            final(self)@.last_command == old(self)@.last_command,
            final(self)@.first_banner_arrived == old(self)@.first_banner_arrived,
    {
        let ghost texts = string_views(outputs@);
        let mut i: usize = 0;
        assert(texts.take(0) =~= Seq::<Seq<char>>::empty());
        while i < outputs.len()
            invariant
                i <= outputs.len(),
                texts == string_views(outputs@),
                (self@.output, self@.remote_prompt) == absorb_all(
                    old(self)@.output,
                    old(self)@.remote_prompt,
                    texts.take(i as int),
                ),
                self@.input == old(self)@.input,
                self@.last_command == old(self)@.last_command,
                self.first_banner_arrived == old(self).first_banner_arrived,
            decreases outputs.len() - i,
        {
            let ghost before = self@.output;
            let ghost prompt_before = self@.remote_prompt;
            let cleaned = strip_control_chars(outputs[i].as_str());
            let ls = self.process_terminal_data(cleaned.as_str());
            let ghost kept = string_views(ls@);
            let mut k: usize = 0;
            assert(kept.take(0) =~= Seq::<Seq<char>>::empty());
            assert(before + nonblank(kept.take(0)) =~= before);
            while k < ls.len()
                invariant
                    k <= ls.len(),
                    i < outputs.len(),
                    kept == string_views(ls@),
                    self@.output == before + nonblank(kept.take(k as int)),
                    self@.input == old(self)@.input,
                    self@.last_command == old(self)@.last_command,
                    self.first_banner_arrived == old(self).first_banner_arrived,
                    self.remote_prompt@ == scan_lines(lines(stripped(texts[i as int])), prompt_before).1,
                decreases ls.len() - k,
            {
                let line = ls[k].clone();
                proof {
                    assert(kept.take(k + 1).drop_last() =~= kept.take(k as int));
                    assert(kept.take(k + 1).last() == line@);
                }
                if !trim_str(line.as_str()).is_empty() {
                    let ghost o = self@.output;
                    self.output.push(line);
                    assert(self@.output =~= o.push(line@));
                    assert(before + nonblank(kept.take(k + 1)) =~= (before + nonblank(
                        kept.take(k as int),
                    )).push(line@));
                }
                k = k + 1;
            }
            assert(kept.take(ls.len() as int) =~= kept);
            if self.output.len() > 500 {
                let ghost o = self@.output;
                let tail = self.output.split_off(100);
                self.output = tail;
                assert(self@.output =~= o.skip(100));
            }
            proof {
                assert(texts.take(i + 1).drop_last() =~= texts.take(i as int));
                assert(texts.take(i + 1).last() == texts[i as int]);
            }
            i = i + 1;
        }
        assert(texts.take(outputs.len() as int) =~= texts);
    }
}


/// The line a typed command leaves in the buffer: the prompt, a space, and
/// the command.
pub open spec fn command_line(prompt: Seq<char>, cmd: Seq<char>) -> Seq<char> {
    prompt + seq![' '] + cmd
}

/// A command that clears the screen locally instead of being sent.
pub open spec fn is_clear_command(cmd: Seq<char>) -> bool {
    cmd == "clear"@ || cmd == "cls"@
}

impl TerminalState {
    /// Handles the Enter key. The typed text, trimmed, is the command; when
    /// it is empty nothing happens. Otherwise the prompt and the command are
    /// added to the buffer; `clear` and `cls` then empty the buffer and the
    /// input; any other command is given back to be sent when `connected`,
    /// and otherwise a not-connected notice is added; the command is kept as
    /// the last command and the input is emptied.
    pub fn send_terminal_command(&mut self, connected: bool) -> (sent: Option<String>)
        ensures
            ({
                let cmd = trim(old(self)@.input);
                let o = old(self)@;
                let f = final(self)@;
                &&& sent is Some <==> (cmd.len() > 0 && !is_clear_command(cmd) && connected)
                &&& sent matches Some(c) ==> c@ == cmd
                &&& f.remote_prompt == o.remote_prompt
                &&& f.first_banner_arrived == o.first_banner_arrived
                &&& cmd.len() == 0 ==> f == o
                &&& (cmd == "clear"@ || cmd == "cls"@) ==> {
                    &&& sent is None
                    &&& f.output.len() == 0
                    &&& f.input.len() == 0
                }
                &&& cmd.len() > 0 && is_clear_command(cmd) ==> {
                    &&& f.output == Seq::<Seq<char>>::empty()
                    &&& f.input == Seq::<char>::empty()
                    &&& f.last_command == o.last_command
                }
                &&& cmd.len() > 0 && !is_clear_command(cmd) ==> {
                    &&& f.output == (if connected {
                        o.output.push(command_line(o.remote_prompt, cmd))
                    } else {
                        o.output.push(command_line(o.remote_prompt, cmd)).push(
                            not_connected_notice(),
                        )
                    })
                    &&& f.input == Seq::<char>::empty()
                    &&& f.last_command == cmd
                }
            }),
    {
        proof {
            reveal_strlit("clear");
            reveal_strlit("cls");
        }
        let t = trim_str(self.input.as_str());
        if t.is_empty() {
            return None;
        }
        let command: String = t.to_owned();
        let mut line = self.remote_prompt.clone();
        push_char(&mut line, ' ');
        line.append(t);
        assert(line@ =~= command_line(old(self)@.remote_prompt, command@));
        let ghost o0 = self@.output;
        self.output.push(line);
        assert(self@.output =~= o0.push(command_line(old(self)@.remote_prompt, command@)));
        let clear_word: String = "clear".to_owned();
        let cls_word: String = "cls".to_owned();
        if command == clear_word || command == cls_word {
            self.output.clear();
            self.input = String::new();
            assert(self@.output =~= Seq::<Seq<char>>::empty());
            return None;
        }
        let sent = if connected {
            Some(command.clone())
        } else {
            let notice: String = "❌ 未连接到终端".to_owned();
            let ghost o1 = self@.output;
            self.output.push(notice);
            assert(self@.output =~= o1.push(not_connected_notice()));
            None
        };
        self.last_command = command;
        self.input = String::new();
        sent
    }

    /// Adds the notice that a command could not be handed to the session.
    pub fn record_send_failure(&mut self)
        ensures
            final(self)@.output == old(self)@.output.push(send_failed_notice()),
            final(self)@.input == old(self)@.input,
            final(self)@.last_command == old(self)@.last_command,
            final(self)@.remote_prompt == old(self)@.remote_prompt,
            final(self)@.first_banner_arrived == old(self)@.first_banner_arrived,
    {
        let notice: String = "❌ 发送命令失败，连接可能已断开".to_owned();
        self.output.push(notice);
        assert(self@.output =~= old(self)@.output.push(send_failed_notice()));
    }

    /// Empties the buffer (the clear-screen button).
    pub fn clear_screen(&mut self)
        ensures
            final(self)@.output == Seq::<Seq<char>>::empty(),
            final(self)@.input == old(self)@.input,
            final(self)@.last_command == old(self)@.last_command,
            final(self)@.remote_prompt == old(self)@.remote_prompt,
            final(self)@.first_banner_arrived == old(self)@.first_banner_arrived,
    {
        self.output.clear();
        assert(self@.output =~= Seq::<Seq<char>>::empty());
    }

    /// Prepares the view for a new session: the buffer is emptied and no
    /// banner has arrived yet.
    pub fn reset_for_connection(&mut self)
        ensures
            final(self)@.output == Seq::<Seq<char>>::empty(),
            !final(self)@.first_banner_arrived,
            final(self)@.input == old(self)@.input,
            final(self)@.last_command == old(self)@.last_command,
            final(self)@.remote_prompt == old(self)@.remote_prompt,
    {
        self.output.clear();
        self.first_banner_arrived = false;
        assert(self@.output =~= Seq::<Seq<char>>::empty());
    }

    /// The lines to show: the buffer without the lines that repeat the last
    /// command (trimmed).
    pub fn visible_lines(&self) -> (r: Vec<String>)
        ensures
            string_views(r@) == without_echo(self@.output, trim(self@.last_command)),
    {
        let echo: String = trim_str(self.last_command.as_str()).to_owned();
        let ghost ov = self@.output;
        let mut r: Vec<String> = Vec::new();
        let mut i: usize = 0;
        assert(ov.take(0) =~= Seq::<Seq<char>>::empty());
        while i < self.output.len()
            invariant
                i <= self.output.len(),
                ov == self@.output,
                echo@ == trim(self@.last_command),
                string_views(r@) == without_echo(ov.take(i as int), echo@),
            decreases self.output.len() - i,
        {
            proof {
                assert(ov.take(i + 1).drop_last() =~= ov.take(i as int));
                assert(ov.take(i + 1).last() == self.output@[i as int]@);
            }
            if self.output[i] != echo {
                r.push(self.output[i].clone());
            }
            i = i + 1;
        }
        assert(ov.take(self.output.len() as int) =~= ov);
        r
    }
}


/// What `String::from_utf8_lossy` makes of `bytes`.
pub uninterp spec fn utf8_lossy(bytes: Seq<u8>) -> Seq<char>;

/// `String::from_utf8_lossy`: decodes `bytes`, putting U+FFFD in place of
/// each invalid sequence. Stated here: the result is a function of the bytes,
/// and bytes that are valid UTF-8 decode to the chars they encode. What is
/// made of invalid sequences is left unsaid.
#[verifier::external_body]
fn decode_lossy(bytes: &[u8]) -> (s: String)
    ensures
        s@ == utf8_lossy(bytes@),
        valid_utf8(bytes@) ==> s@ == decode_utf8(bytes@),
{
    String::from_utf8_lossy(bytes).into_owned()
}

/// What came of one read from the remote channel.
pub enum ReadOutcome {
    /// The bytes read; none means the remote side closed the channel.
    Bytes(Vec<u8>),
    /// Nothing to read yet.
    WouldBlock,
    /// The read failed.
    Failed,
}

/// What the session loop does after a read: the text to hand to the view,
/// if any, and whether to leave the loop.
pub struct ReadStep {
    pub forward: Option<String>,
    pub stop: bool,
}

/// Decides what to do with the result of a read: closed channel (no bytes)
/// gives the closed notice and stops; bytes are decoded and handed on; an
/// empty non-blocking read does nothing; a failed read stops.
pub fn on_channel_read(outcome: ReadOutcome) -> (step: ReadStep)
    ensures
        match outcome {
            ReadOutcome::Bytes(b) => if b@.len() == 0 {
                &&& step.stop
                &&& step.forward matches Some(t) && t@ == closed_notice()
            } else {
                &&& !step.stop
                &&& step.forward matches Some(t) && t@ == utf8_lossy(b@)
            },
            ReadOutcome::WouldBlock => !step.stop && step.forward is None,
            ReadOutcome::Failed => step.stop && step.forward is None,
        },
{
    match outcome {
        ReadOutcome::Bytes(b) => {
            if b.len() == 0 {
                ReadStep { forward: Some("\r\n连接已关闭".to_owned()), stop: true }
            } else {
                ReadStep { forward: Some(decode_lossy(b.as_slice())), stop: false }
            }
        },
        ReadOutcome::WouldBlock => ReadStep { forward: None, stop: false },
        ReadOutcome::Failed => ReadStep { forward: None, stop: true },
    }
}

/// The bytes to write for a command taken from the view: `None` for `exit`,
/// which ends the session; otherwise the command's UTF-8 bytes and then the
/// line ending CR LF.
pub fn command_bytes(cmd: &String) -> (r: Option<(Vec<u8>, Vec<u8>)>)
    ensures
        r is None <==> cmd@ == "exit"@,
        r matches Some((body, ending)) ==> body@ == encode_utf8(cmd@) && ending@ == seq![
            13u8,
            10u8,
        ],
{
    let exit_word: String = "exit".to_owned();
    if *cmd == exit_word {
        return None;
    }
    let body = cmd.as_str().as_bytes_vec();
    let mut ending: Vec<u8> = Vec::new();
    ending.push(13u8);
    ending.push(10u8);
    Some((body, ending))
}

/// When the buffer is within its limit and a piece of output brings at most
/// `buffer_drop()` new lines, the buffer is within its limit afterwards.
pub proof fn lemma_absorb_within_limit(out: Seq<Seq<char>>, prompt: Seq<char>, text: Seq<char>)
    requires
        out.len() <= buffer_limit(),
        nonblank(scan_lines(lines(stripped(text)), prompt).0).len() <= buffer_drop(),
    ensures
        absorb(out, prompt, text).0.len() <= buffer_limit(),
{
}


/// Remote output never brings a blank line into the buffer: when no line of
/// the buffer is blank, none is after a piece of output arrives.
pub proof fn lemma_absorb_keeps_lines_nonblank(out: Seq<Seq<char>>, prompt: Seq<char>, text: Seq<char>)
    requires
        forall|i: int| 0 <= i < out.len() ==> trim(#[trigger] out[i]).len() > 0,
    ensures
        forall|i: int| 0 <= i < absorb(out, prompt, text).0.len() ==> trim(#[trigger] absorb(out, prompt, text).0[i]).len() > 0,
{
    let kept = scan_lines(lines(stripped(text)), prompt).0;
    lemma_nonblank(kept);
    let grown = out + nonblank(kept);
    assert forall|i: int| 0 <= i < grown.len() implies trim(#[trigger] grown[i]).len() > 0 by {
        if i >= out.len() {
            assert(grown[i] == nonblank(kept)[i - out.len()]);
        }
    }
    if grown.len() > buffer_limit() {
        assert forall|i: int| 0 <= i < grown.skip(buffer_drop()).len() implies trim(#[trigger] grown.skip(buffer_drop())[i]).len() > 0 by {
            assert(grown.skip(buffer_drop())[i] == grown[i + buffer_drop()]);
        }
    }
}


/// The words `clear` and `cls` clear the screen locally, and no other word
/// does.
pub proof fn lemma_clear_words(cmd: Seq<char>)
    ensures
        (cmd == "clear"@ || cmd == "cls"@) <==> is_clear_command(cmd),
{
}

/// A line whose trimmed form ends in `$` and holds no space, whatever its
/// length, becomes the prompt (its trimmed form and a space) and is not kept.
pub proof fn lemma_prompt_line(ls: Seq<Seq<char>>, prompt: Seq<char>, l: Seq<char>)
    requires
        trim(l).len() >= 1,
        trim(l).last() == '$',
        forall|k: int| 0 <= k < trim(l).len() ==> #[trigger] trim(l)[k] != ' ',
    ensures
        scan_lines(ls.push(l), prompt) == (scan_lines(ls, prompt).0, trim(l).push(' ')),
{
    assert(ls.push(l).drop_last() =~= ls);
    assert(!trim(l).contains(' '));
}

/// A line whose trimmed form is empty, does not end in `$`, or holds a space
/// is kept as it is, after the lines kept before it, and the prompt stays.
pub proof fn lemma_plain_line(ls: Seq<Seq<char>>, prompt: Seq<char>, l: Seq<char>)
    requires
        trim(l).len() == 0 || trim(l).last() != '$' || trim(l).contains(' '),
    ensures
        scan_lines(ls.push(l), prompt) == (scan_lines(ls, prompt).0.push(l), scan_lines(ls, prompt).1),
{
    assert(ls.push(l).drop_last() =~= ls);
}

/// `nonblank` keeps, in their order, exactly the lines that are not blank
/// once trimmed.
pub proof fn lemma_nonblank_is_filter(ls: Seq<Seq<char>>)
    ensures
        nonblank(ls) == ls.filter(|l: Seq<char>| trim(l).len() > 0),
    decreases ls.len(),
{
    reveal_with_fuel(Seq::filter, 1);
    if ls.len() > 0 {
        lemma_nonblank_is_filter(ls.drop_last());
    }
}

/// Lines that are all non-blank are kept whole and in order.
pub proof fn lemma_nonblank_keeps_all(ls: Seq<Seq<char>>)
    requires
        forall|i: int| 0 <= i < ls.len() ==> trim(#[trigger] ls[i]).len() > 0,
    ensures
        nonblank(ls) == ls,
    decreases ls.len(),
{
    if ls.len() > 0 {
        lemma_nonblank_keeps_all(ls.drop_last());
        assert(ls.drop_last().push(ls.last()) =~= ls);
    }
}

/// The non-blank lines of two pieces, one after the other, are those of the
/// first piece followed by those of the second.
pub proof fn lemma_nonblank_append(a: Seq<Seq<char>>, b: Seq<Seq<char>>)
    ensures
        nonblank(a + b) == nonblank(a) + nonblank(b),
    decreases b.len(),
{
    if b.len() == 0 {
        assert(a + b =~= a);
        assert(nonblank(a) + nonblank(b) =~= nonblank(a));
    } else {
        lemma_nonblank_append(a, b.drop_last());
        assert((a + b).drop_last() =~= a + b.drop_last());
        assert((a + b).last() == b.last());
        if trim(b.last()).len() > 0 {
            assert(nonblank(a) + nonblank(b.drop_last()).push(b.last()) =~= (nonblank(a)
                + nonblank(b.drop_last())).push(b.last()));
        }
    }
}

/// While the buffer stays within its limit, a piece of output appends its
/// kept, non-blank lines after the lines already there, in the order they
/// arrived.
pub proof fn lemma_absorb_appends_in_order(out: Seq<Seq<char>>, prompt: Seq<char>, text: Seq<char>)
    requires
        out.len() + nonblank(scan_lines(lines(stripped(text)), prompt).0).len() <= buffer_limit(),
    ensures
        absorb(out, prompt, text).0 == out + scan_lines(lines(stripped(text)), prompt).0.filter(
            |l: Seq<char>| trim(l).len() > 0,
        ),
{
    lemma_nonblank_is_filter(scan_lines(lines(stripped(text)), prompt).0);
}

} // verus!
