//! The interactive chat loop: what each line typed by the user does to the
//! conversation state, and which messages go to the model.
use vstd::prelude::*;
use crate::chat::{ChatMessage, ContextSelection};
use crate::chat;
use crate::text;
use crate::text::{append_str, str_chars, str_eq, string_from_chars, trim_chars};

verus! {

// ---------------------------------------------------------------- reading a line

/// The words of a text as `split_whitespace` gives them, built left to
/// right: the finished words and the word still open.
pub open spec fn words_acc(s: Seq<char>) -> (Seq<Seq<char>>, Seq<char>)
    decreases s.len(),
{
    if s.len() == 0 {
        (Seq::empty(), Seq::empty())
    } else {
        let (done, cur) = words_acc(s.drop_last());
        if text::is_ws(s.last()) {
            if cur.len() > 0 {
                (done.push(cur), Seq::empty())
            } else {
                (done, cur)
            }
        } else {
            (done, cur.push(s.last()))
        }
    }
}

/// The maximal runs of non-whitespace characters of a text, in order.
pub open spec fn words(s: Seq<char>) -> Seq<Seq<char>> {
    let (done, cur) = words_acc(s);
    if cur.len() > 0 {
        done.push(cur)
    } else {
        done
    }
}

/// The words of a text (`str::split_whitespace`).
pub fn split_words(s: &[char]) -> (r: Vec<String>)
    ensures
        text::string_views(r@) == words(s@),
{
    let mut out: Vec<String> = Vec::new();
    let mut cur: Vec<char> = Vec::new();
    let ghost mut done: Seq<Seq<char>> = Seq::empty();
    let mut i: usize = 0;
    while i < s.len()
        invariant
            i <= s@.len(),
            words_acc(s@.take(i as int)) == (done, cur@),
            text::string_views(out@) == done,
        decreases s@.len() - i,
    {
        assert(s@.take(i + 1).drop_last() =~= s@.take(i as int));
        if text::is_whitespace(s[i]) {
            if cur.len() > 0 {
                let ghost o0 = out@;
                out.push(string_from_chars(&cur));
                proof {
                    assert(text::string_views(out@) =~= text::string_views(o0).push(cur@));
                    done = done.push(cur@);
                }
                cur = Vec::new();
            }
        } else {
            cur.push(s[i]);
        }
        i += 1;
    }
    assert(s@.take(s@.len() as int) =~= s@);
    if cur.len() > 0 {
        let ghost o0 = out@;
        out.push(string_from_chars(&cur));
        assert(text::string_views(out@) =~= text::string_views(o0).push(cur@));
    }
    out
}

/// What a line typed in the chat asks for.
pub enum ReplCommand {
    /// A blank line.
    Empty,
    Quit,
    /// `/model`, with the model named, if any.
    Model(Option<String>),
    Thinking,
    /// `/context`, with the field named, if any.
    Context(Option<String>),
    Save,
    Load,
    History,
    Clear,
    Help,
    /// Anything else is a message for the model.
    Message(String),
}

/// The words after the slash of a command line.
pub open spec fn command_words(line: Seq<char>) -> Seq<Seq<char>> {
    words(line.drop_first())
}

/// The first word after the slash, or the empty text.
pub open spec fn command_name(line: Seq<char>) -> Seq<char> {
    let w = command_words(line);
    if w.len() > 0 { w[0] } else { Seq::empty() }
}

/// The second word after the slash, if any.
pub open spec fn command_arg(line: Seq<char>) -> Option<Seq<char>> {
    let w = command_words(line);
    if w.len() > 1 { Some(w[1]) } else { None }
}

/// The command words the chat understands.
pub open spec fn known_command(name: Seq<char>) -> bool {
    name == "quit"@ || name == "exit"@ || name == "q"@ || name == "model"@ || name == "thinking"@
        || name == "context"@ || name == "save"@ || name == "load"@ || name == "history"@
        || name == "clear"@ || name == "help"@
}

/// A view of an optional string.
pub open spec fn opt_view(o: Option<String>) -> Option<Seq<char>> {
    match o {
        Some(s) => Some(s@),
        None => None,
    }
}

/// How a typed line is read: trimmed; blank is nothing; a line starting
/// with `/` and naming a known command is that command; anything else,
/// unknown commands included, is a message.
pub open spec fn parse_matches(input: Seq<char>, r: ReplCommand) -> bool {
    let line = text::trim(input);
    let name = command_name(line);
    if line.len() == 0 {
        r is Empty
    } else if line[0] == '/' && known_command(name) {
        if name == "quit"@ || name == "exit"@ || name == "q"@ {
            r is Quit
        } else if name == "model"@ {
            r matches ReplCommand::Model(a) && opt_view(a) == command_arg(line)
        } else if name == "thinking"@ {
            r is Thinking
        } else if name == "context"@ {
            r matches ReplCommand::Context(a) && opt_view(a) == command_arg(line)
        } else if name == "save"@ {
            r is Save
        } else if name == "load"@ {
            r is Load
        } else if name == "history"@ {
            r is History
        } else if name == "clear"@ {
            r is Clear
        } else {
            r is Help
        }
    } else {
        r matches ReplCommand::Message(m) && m@ == line
    }
}

fn second_word(w: &Vec<String>) -> (r: Option<String>)
    ensures
        opt_view(r) == (if w@.len() > 1 { Some(w@[1]@) } else { None::<Seq<char>> }),
{
    if w.len() > 1 {
        Some(w[1].clone())
    } else {
        None
    }
}

/// Reads one typed line.
pub fn parse_repl_line(input: &str) -> (r: ReplCommand)
    ensures
        parse_matches(input@, r),
{
    let c = str_chars(input);
    let line = trim_chars(&c);
    if line.len() == 0 {
        return ReplCommand::Empty;
    }
    let line_text = string_from_chars(&line);
    if line[0] != '/' {
        return ReplCommand::Message(line_text);
    }
    let mut rest: Vec<char> = Vec::new();
    let mut i: usize = 1;
    while i < line.len()
        invariant
            1 <= i <= line@.len(),
            rest@ == line@.subrange(1, i as int),
        decreases line@.len() - i,
    {
        rest.push(line[i]);
        assert(line@.subrange(1, i + 1) =~= line@.subrange(1, i as int).push(line@[i as int]));
        i += 1;
    }
    assert(rest@ =~= line@.drop_first());
    let w = split_words(&rest);
    let ghost wv = text::string_views(w@);
    let name = if w.len() > 0 { w[0].clone() } else { String::new() };
    assert(name@ == command_name(line@));
    let n = name.as_str();
    if str_eq(n, "quit") || str_eq(n, "exit") || str_eq(n, "q") {
        ReplCommand::Quit
    } else if str_eq(n, "model") {
        ReplCommand::Model(second_word(&w))
    } else if str_eq(n, "thinking") {
        ReplCommand::Thinking
    } else if str_eq(n, "context") {
        ReplCommand::Context(second_word(&w))
    } else if str_eq(n, "save") {
        ReplCommand::Save
    } else if str_eq(n, "load") {
        ReplCommand::Load
    } else if str_eq(n, "history") {
        ReplCommand::History
    } else if str_eq(n, "clear") {
        ReplCommand::Clear
    } else if str_eq(n, "help") {
        ReplCommand::Help
    } else {
        ReplCommand::Message(line_text)
    }
}

// ---------------------------------------------------------------- the conversation state

/// The state of a chat: what is selected for the context, what was in the
/// last request, the model, whether it reasons at length, and the messages.
pub struct ReplState {
    pub selection: ContextSelection,
    /// The selection at the time of the last message sent.
    pub last_sent: ContextSelection,
    pub model: String,
    pub deep_thinking: bool,
    pub history: Vec<ChatMessage>,
    /// Fields already sent cannot be dropped from the context (the chat
    /// about one paper); the chat over the workspace does not lock them.
    pub lock_after_send: bool,
}

/// A message as (speaker, content).
pub open spec fn message_view(m: ChatMessage) -> (Seq<char>, Seq<char>) {
    (m.speaker@, m.content@)
}

/// The state of a chat, in mathematical terms.
pub struct ReplView {
    pub selection: ContextSelection,
    pub last_sent: ContextSelection,
    pub model: Seq<char>,
    pub deep_thinking: bool,
    pub history: Seq<(Seq<char>, Seq<char>)>,
    pub lock_after_send: bool,
}

impl View for ReplState {
    type V = ReplView;

    open spec fn view(&self) -> ReplView {
        ReplView {
            selection: self.selection,
            last_sent: self.last_sent,
            model: self.model@,
            deep_thinking: self.deep_thinking,
            history: self.history@.map_values(|m: ChatMessage| message_view(m)),
            lock_after_send: self.lock_after_send,
        }
    }
}

/// The canonical name of a model as typed after `/model`.
pub open spec fn normalize_model(m: Seq<char>) -> Option<Seq<char>> {
    if m == "flash"@ || m == "Flash"@ {
        Some("Flash"@)
    } else if m == "pro"@ || m == "Pro"@ {
        Some("Pro"@)
    } else {
        None
    }
}

/// The field names `/context` accepts.
pub open spec fn is_field(f: Seq<char>) -> bool {
    f == "body"@ || f == "appendix"@ || f == "description"@ || f == "note"@
}

/// Whether the named field is set in a selection.
pub open spec fn field_value(sel: ContextSelection, f: Seq<char>) -> bool {
    if f == "body"@ {
        sel.body
    } else if f == "appendix"@ {
        sel.appendix
    } else if f == "description"@ {
        sel.description
    } else if f == "note"@ {
        sel.note
    } else {
        false
    }
}

/// The selection with the named field flipped.
pub open spec fn toggle_spec(sel: ContextSelection, f: Seq<char>) -> ContextSelection {
    if f == "body"@ {
        ContextSelection { body: !sel.body, ..sel }
    } else if f == "appendix"@ {
        ContextSelection { appendix: !sel.appendix, ..sel }
    } else if f == "description"@ {
        ContextSelection { description: !sel.description, ..sel }
    } else if f == "note"@ {
        ContextSelection { note: !sel.note, ..sel }
    } else {
        sel
    }
}

/// A field is locked when locking is on and it was both in the last
/// request and is still selected.
pub open spec fn is_locked(v: ReplView, f: Seq<char>) -> bool {
    v.lock_after_send && field_value(v.last_sent, f) && field_value(v.selection, f)
}

/// Most earlier messages sent along with a new one.
pub const HISTORY_WINDOW: usize = 12;

/// The most recent messages, at most [`HISTORY_WINDOW`] of them, oldest first.
pub open spec fn window_spec<T>(h: Seq<T>) -> Seq<T> {
    if h.len() > HISTORY_WINDOW {
        h.skip(h.len() - HISTORY_WINDOW)
    } else {
        h
    }
}

/// The state after a command.
pub open spec fn step_view(v: ReplView, c: ReplCommand) -> ReplView {
    match c {
        ReplCommand::Model(Some(m)) => match normalize_model(m@) {
            Some(n) => ReplView { model: n, ..v },
            None => v,
        },
        ReplCommand::Thinking => ReplView { deep_thinking: !v.deep_thinking, ..v },
        ReplCommand::Context(Some(f)) => if is_field(f@) && !is_locked(v, f@) {
            ReplView { selection: toggle_spec(v.selection, f@), ..v }
        } else {
            v
        },
        ReplCommand::Clear => ReplView {
            history: Seq::empty(),
            last_sent: chat::nothing_selected(),
            ..v
        },
        ReplCommand::Message(m) => ReplView {
            history: v.history.push(("user"@, m@)),
            last_sent: v.selection,
            ..v
        },
        _ => v,
    }
}

/// What the caller is asked to do after a command.
pub enum ReplAction {
    Nothing,
    Quit,
    /// The model was switched (and the preference is to be saved).
    ModelSwitched(String),
    UnknownModel(String),
    /// Deep thinking is now on or off.
    ThinkingToggled(bool),
    UnknownField(String),
    /// The field was already sent and cannot be dropped.
    FieldLocked(String),
    /// Show the selection.
    ContextShown(ContextSelection),
    Save,
    Load,
    History,
    Cleared,
    Help,
    /// Send a message: the earlier messages to go with it, the message, and
    /// the selection its context is built from.
    Send(Vec<ChatMessage>, String, ContextSelection),
}

/// The action that answers a command in a given state.
pub open spec fn action_matches(v: ReplView, c: ReplCommand, a: ReplAction) -> bool {
    match c {
        ReplCommand::Empty => a is Nothing,
        ReplCommand::Quit => a is Quit,
        ReplCommand::Model(None) => a is Nothing,
        ReplCommand::Model(Some(m)) => match normalize_model(m@) {
            Some(n) => a matches ReplAction::ModelSwitched(x) && x@ == n,
            None => a matches ReplAction::UnknownModel(x) && x@ == m@,
        },
        ReplCommand::Thinking => a == ReplAction::ThinkingToggled(!v.deep_thinking),
        ReplCommand::Context(None) => a == ReplAction::ContextShown(v.selection),
        ReplCommand::Context(Some(f)) => if !is_field(f@) {
            a matches ReplAction::UnknownField(x) && x@ == f@
        } else if is_locked(v, f@) {
            a matches ReplAction::FieldLocked(x) && x@ == f@
        } else {
            a == ReplAction::ContextShown(toggle_spec(v.selection, f@))
        },
        ReplCommand::Save => a is Save,
        ReplCommand::Load => a is Load,
        ReplCommand::History => a is History,
        ReplCommand::Clear => a is Cleared,
        ReplCommand::Help => a is Help,
        ReplCommand::Message(m) => a matches ReplAction::Send(w, l, sel) && w@.map_values(
            |x: ChatMessage| message_view(x),
        ) == window_spec(v.history) && l@ == m@ && sel == v.selection,
    }
}

fn toggle(sel: &mut ContextSelection, f: &str)
    ensures
        *final(sel) == toggle_spec(*old(sel), f@),
{
    if str_eq(f, "body") {
        sel.body = !sel.body;
    } else if str_eq(f, "appendix") {
        sel.appendix = !sel.appendix;
    } else if str_eq(f, "description") {
        sel.description = !sel.description;
    } else if str_eq(f, "note") {
        sel.note = !sel.note;
    }
}

fn field_of(sel: &ContextSelection, f: &str) -> (r: bool)
    ensures
        r == field_value(*sel, f@),
{
    if str_eq(f, "body") {
        sel.body
    } else if str_eq(f, "appendix") {
        sel.appendix
    } else if str_eq(f, "description") {
        sel.description
    } else if str_eq(f, "note") {
        sel.note
    } else {
        false
    }
}

fn is_field_exec(f: &str) -> (r: bool)
    ensures
        r == is_field(f@),
{
    str_eq(f, "body") || str_eq(f, "appendix") || str_eq(f, "description") || str_eq(f, "note")
}

/// Copies of the most recent messages, at most [`HISTORY_WINDOW`].
fn recent_window(h: &Vec<ChatMessage>) -> (r: Vec<ChatMessage>)
    ensures
        r@ == window_spec(h@),
{
    let start: usize = if h.len() > HISTORY_WINDOW { h.len() - HISTORY_WINDOW } else { 0 };
    let mut r: Vec<ChatMessage> = Vec::new();
    let mut i = start;
    while i < h.len()
        invariant
            start <= i <= h@.len(),
            start == (if h@.len() > HISTORY_WINDOW { h@.len() - HISTORY_WINDOW } else { 0 }),
            r@ == h@.subrange(start as int, i as int),
        decreases h@.len() - i,
    {
        r.push(h[i].duplicate());
        assert(h@.subrange(start as int, i + 1) =~= h@.subrange(start as int, i as int).push(
            h@[i as int],
        ));
        i += 1;
    }
    assert(h@.subrange(start as int, h@.len() as int) =~= window_spec(h@));
    r
}

impl ReplState {
    /// A fresh conversation.
    pub fn new(initial: ContextSelection, model: String, lock_after_send: bool) -> (r: ReplState)
        ensures
            r.selection == initial,
            r.last_sent == chat::nothing_selected(),
            r.model == model,
            r.deep_thinking,
            r.history@.len() == 0,
            r.lock_after_send == lock_after_send,
    {
        ReplState {
            selection: initial,
            last_sent: ContextSelection::default(),
            model,
            deep_thinking: true,
            history: Vec::new(),
            lock_after_send,
        }
    }

    fn step_model(&mut self, m: String) -> (r: ReplAction)
        ensures
            final(self)@ == step_view(old(self)@, ReplCommand::Model(Some(m))),
            action_matches(old(self)@, ReplCommand::Model(Some(m)), r),
    {
        let ms = m.as_str();
        if str_eq(ms, "flash") || str_eq(ms, "Flash") {
            self.model = String::from_str("Flash");
            ReplAction::ModelSwitched(String::from_str("Flash"))
        } else if str_eq(ms, "pro") || str_eq(ms, "Pro") {
            self.model = String::from_str("Pro");
            ReplAction::ModelSwitched(String::from_str("Pro"))
        } else {
            ReplAction::UnknownModel(m)
        }
    }

    fn step_context(&mut self, f: String) -> (r: ReplAction)
        ensures
            final(self)@ == step_view(old(self)@, ReplCommand::Context(Some(f))),
            action_matches(old(self)@, ReplCommand::Context(Some(f)), r),
    {
        let fs = f.as_str();
        if !is_field_exec(fs) {
            ReplAction::UnknownField(f)
        } else if self.lock_after_send && field_of(&self.last_sent, fs) && field_of(
            &self.selection,
            fs,
        ) {
            ReplAction::FieldLocked(f)
        } else {
            toggle(&mut self.selection, fs);
            ReplAction::ContextShown(self.selection)
        }
    }

    fn step_clear(&mut self)
        ensures
            final(self)@ == step_view(old(self)@, ReplCommand::Clear),
    {
        self.history = Vec::new();
        self.last_sent = ContextSelection::default();
        assert(self@.history =~= Seq::<(Seq<char>, Seq<char>)>::empty());
    }

    fn step_message(&mut self, m: String) -> (r: ReplAction)
        ensures
            final(self)@ == step_view(old(self)@, ReplCommand::Message(m)),
            action_matches(old(self)@, ReplCommand::Message(m), r),
    {
        let ghost v0 = self@;
        let window = recent_window(&self.history);
        proof {
            assert(window@.map_values(|x: ChatMessage| message_view(x)) =~= window_spec(v0.history));
        }
        let msg = ChatMessage::new("user", m.as_str());
        self.history.push(msg);
        self.last_sent = self.selection;
        assert(self@.history =~= v0.history.push(("user"@, m@)));
        ReplAction::Send(window, m, self.selection)
    }

    /// Carries out one command on the conversation state and says what the
    /// caller has to do next.
    pub fn step(&mut self, cmd: ReplCommand) -> (r: ReplAction)
        ensures
            final(self)@ == step_view(old(self)@, cmd),
            action_matches(old(self)@, cmd, r),
    {
        match cmd {
            ReplCommand::Empty => ReplAction::Nothing,
            ReplCommand::Quit => ReplAction::Quit,
            ReplCommand::Model(None) => ReplAction::Nothing,
            ReplCommand::Model(Some(m)) => self.step_model(m),
            ReplCommand::Thinking => {
                self.deep_thinking = !self.deep_thinking;
                ReplAction::ThinkingToggled(self.deep_thinking)
            },
            ReplCommand::Context(None) => ReplAction::ContextShown(self.selection),
            ReplCommand::Context(Some(f)) => self.step_context(f),
            ReplCommand::Save => ReplAction::Save,
            ReplCommand::Load => ReplAction::Load,
            ReplCommand::History => ReplAction::History,
            ReplCommand::Help => ReplAction::Help,
            ReplCommand::Clear => {
                self.step_clear();
                ReplAction::Cleared
            },
            ReplCommand::Message(m) => self.step_message(m),
        }
    }

    /// Takes over a stored session: its messages, model, thinking setting
    /// (on exactly when its reasoning effort is "high") and selection.
    pub fn load_session(&mut self, s: &chat::ChatSession)
        ensures
            final(self)@ == (ReplView {
                history: s.messages@.map_values(|m: ChatMessage| message_view(m)),
                model: s.model@,
                deep_thinking: s.reasoning_effort@ == "high"@,
                selection: s.context_selection,
                ..old(self)@
            }),
    {
        let mut h: Vec<ChatMessage> = Vec::new();
        let mut i: usize = 0;
        while i < s.messages.len()
            invariant
                i <= s.messages@.len(),
                h@ == s.messages@.take(i as int),
            decreases s.messages@.len() - i,
        {
            h.push(s.messages[i].duplicate());
            assert(s.messages@.take(i + 1) =~= s.messages@.take(i as int).push(s.messages@[i as int]));
            i += 1;
        }
        assert(s.messages@.take(s.messages@.len() as int) =~= s.messages@);
        self.history = h;
        self.model = s.model.clone();
        self.deep_thinking = str_eq(s.reasoning_effort.as_str(), "high");
        self.selection = s.context_selection;
        assert(self@.history =~= s.messages@.map_values(|m: ChatMessage| message_view(m)));
    }
}

// ---------------------------------------------------------------- the request

/// One message of a request to the model.
pub struct ChatTurn {
    /// "system", "user" or "assistant".
    pub role: String,
    pub content: String,
}

/// The role under which a stored message is sent.
pub open spec fn role_of(speaker: Seq<char>) -> Seq<char> {
    if speaker == "user"@ { "user"@ } else { "assistant"@ }
}

/// The messages of a request: the system prompt with the context appended,
/// the recent messages, then the new one.
pub open spec fn turns_spec(
    prefix: Seq<char>,
    ctx: Seq<char>,
    window: Seq<(Seq<char>, Seq<char>)>,
    line: Seq<char>,
) -> Seq<(Seq<char>, Seq<char>)> {
    seq![("system"@, prefix + ctx)] + window.map_values(
        |m: (Seq<char>, Seq<char>)| (role_of(m.0), m.1),
    ) + seq![("user"@, line)]
}

/// A request's messages as (role, content).
pub open spec fn turn_views(t: Seq<ChatTurn>) -> Seq<(Seq<char>, Seq<char>)> {
    t.map_values(|x: ChatTurn| (x.role@, x.content@))
}

/// Builds the messages of a request.
pub fn compose_messages(prefix: &str, ctx: &str, window: &Vec<ChatMessage>, line: &str) -> (r: Vec<ChatTurn>)
    ensures
        turn_views(r@) == turns_spec(
            prefix@,
            ctx@,
            window@.map_values(|m: ChatMessage| message_view(m)),
            line@,
        ),
{
    let ghost wv = window@.map_values(|m: ChatMessage| message_view(m));
    let ghost mid = wv.map_values(|m: (Seq<char>, Seq<char>)| (role_of(m.0), m.1));
    let mut r: Vec<ChatTurn> = Vec::new();
    let mut sys = str_chars(prefix);
    append_str(&mut sys, ctx);
    r.push(ChatTurn { role: String::from_str("system"), content: string_from_chars(&sys) });
    let mut i: usize = 0;
    while i < window.len()
        invariant
            i <= window@.len(),
            wv == window@.map_values(|m: ChatMessage| message_view(m)),
            mid == wv.map_values(|m: (Seq<char>, Seq<char>)| (role_of(m.0), m.1)),
            turn_views(r@) == seq![("system"@, prefix@ + ctx@)] + mid.take(i as int),
        decreases window@.len() - i,
    {
        let m = &window[i];
        let role = if str_eq(m.speaker.as_str(), "user") {
            String::from_str("user")
        } else {
            String::from_str("assistant")
        };
        let ghost r0 = r@;
        r.push(ChatTurn { role, content: m.content.clone() });
        assert(mid[i as int] == (role_of(m.speaker@), m.content@));
        assert(turn_views(r@) =~= turn_views(r0).push(mid[i as int]));
        assert(mid.take(i + 1) =~= mid.take(i as int).push(mid[i as int]));
        i += 1;
    }
    let ghost r0 = r@;
    r.push(ChatTurn { role: String::from_str("user"), content: String::from_str(line) });
    assert(mid.take(window@.len() as int) =~= mid);
    assert(turn_views(r@) =~= turn_views(r0).push(("user"@, line@)));
    r
}

/// The first 200 characters of a message, as `/history` lists it.
pub fn history_preview(content: &str) -> (r: String)
    ensures
        r@ == (if content@.len() > 200 { content@.take(200) } else { content@ }),
{
    let mut v = str_chars(content);
    if v.len() > 200 {
        v.truncate(200);
    }
    string_from_chars(&v)
}

impl ReplState {
    /// The session `/save` writes: a new session of the given kind holding
    /// the conversation's messages, model, reasoning effort ("high" with
    /// deep thinking, else "off") and selection.
    pub fn session_to_save(&self, kind: &str, session_ref: &str) -> (r: chat::ChatSession)
        ensures
            r.path@.len() == 0,
            r.kind@ == kind@,
            exists|minute: Seq<char>| r.title@ == chat::session_title_spec(kind@, session_ref@, minute),
            r.messages@ == self.history@,
            r.model@ == self.model@,
            r.reasoning_effort@ == (if self.deep_thinking { "high"@ } else { "off"@ }),
            r.context_selection == self.selection,
    {
        let mut s = chat::ChatSession::new(kind, session_ref);
        let mut h: Vec<ChatMessage> = Vec::new();
        let mut i: usize = 0;
        while i < self.history.len()
            invariant
                i <= self.history@.len(),
                h@ == self.history@.take(i as int),
            decreases self.history@.len() - i,
        {
            h.push(self.history[i].duplicate());
            assert(self.history@.take(i + 1) =~= self.history@.take(i as int).push(
                self.history@[i as int],
            ));
            i += 1;
        }
        assert(self.history@.take(self.history@.len() as int) =~= self.history@);
        s.messages = h;
        s.model = self.model.clone();
        s.reasoning_effort = if self.deep_thinking {
            String::from_str("high")
        } else {
            String::from_str("off")
        };
        s.context_selection = self.selection;
        s
    }
}

/// The state once the model's answer to the last message has come back:
/// the answer joins the history as the assistant's.
pub open spec fn reply_view(v: ReplView, answer: Seq<char>) -> ReplView {
    ReplView { history: v.history.push(("assistant"@, answer)), ..v }
}

impl ReplState {
    /// Records the model's answer, so that the following messages carry it
    /// along.
    pub fn record_reply(&mut self, answer: &str)
        ensures
            final(self)@ == reply_view(old(self)@, answer@),
    {
        let ghost h0 = self.history@;
        let m = ChatMessage::new("assistant", answer);
        self.history.push(m);
        assert(self.history@.map_values(|m: ChatMessage| message_view(m)) =~= h0.map_values(
            |m: ChatMessage| message_view(m),
        ).push(("assistant"@, answer@)));
    }
}

// ---------------------------------------------------------------- laws

/// The messages sent along with a new one are the most recent ones, oldest
/// first, and never more than [`HISTORY_WINDOW`].
pub proof fn law_window_is_recent_suffix<T>(h: Seq<T>)
    ensures
        window_spec(h).len() <= HISTORY_WINDOW,
        window_spec(h) == h.subrange(h.len() - window_spec(h).len(), h.len() as int),
        h.len() <= HISTORY_WINDOW ==> window_spec(h) == h,
{
    assert(h.subrange(h.len() - window_spec(h).len(), h.len() as int) =~= window_spec(h));
}

/// In a chat that locks sent fields, once a message has gone out with a
/// field selected, `/context` cannot drop that field.
pub proof fn law_sent_field_is_locked(v: ReplView, m: String, f: String)
    requires
        v.lock_after_send,
        is_field(f@),
        field_value(v.selection, f@),
    ensures
        ({
            let sent = step_view(v, ReplCommand::Message(m));
            &&& is_locked(sent, f@)
            &&& step_view(sent, ReplCommand::Context(Some(f))) == sent
        }),
{
}

/// In a chat that does not lock fields, flipping a field twice with
/// `/context` gives back the state it started from.
pub proof fn law_toggle_twice_restores(v: ReplView, f: String)
    requires
        !v.lock_after_send,
        is_field(f@),
    ensures
        step_view(step_view(v, ReplCommand::Context(Some(f))), ReplCommand::Context(Some(f))) == v,
{
    assert(toggle_spec(toggle_spec(v.selection, f@), f@) == v.selection);
}

/// After `/clear` the history is empty and no field is locked.
pub proof fn law_clear_unlocks(v: ReplView, f: Seq<char>)
    ensures
        step_view(v, ReplCommand::Clear).history.len() == 0,
        !is_locked(step_view(v, ReplCommand::Clear), f),
{
}

/// Sending a message adds exactly that message, as the user's, to the end
/// of the history and changes nothing else but what counts as sent.
pub proof fn law_send_appends_user_message(v: ReplView, m: String)
    ensures
        ({
            let s = step_view(v, ReplCommand::Message(m));
            &&& s.history == v.history.push(("user"@, m@))
            &&& s.last_sent == v.selection
            &&& s.selection == v.selection
            &&& s.model == v.model
            &&& s.deep_thinking == v.deep_thinking
        }),
{
}

/// A question and its recorded answer are the last two messages of the
/// history, and both go along with the next message.
pub proof fn law_answer_follows_question(v: ReplView, m: String, a: Seq<char>)
    ensures
        ({
            let s = reply_view(step_view(v, ReplCommand::Message(m)), a);
            let w = window_spec(s.history);
            &&& s.history == v.history.push(("user"@, m@)).push(("assistant"@, a))
            &&& w.len() >= 2
            &&& w[w.len() - 2] == ("user"@, m@)
            &&& w[w.len() - 1] == ("assistant"@, a)
        }),
{
    let h = v.history.push(("user"@, m@)).push(("assistant"@, a));
    let w = window_spec(h);
    if h.len() > HISTORY_WINDOW {
        assert(w[w.len() - 2] == h[h.len() - 2]);
        assert(w[w.len() - 1] == h[h.len() - 1]);
    }
}

/// `/context` on a known field that is not locked flips exactly that field
/// of the selection; the other fields and the rest of the chat state stay
/// as they were.
pub proof fn law_context_flips_only_that_field(v: ReplView, f: String)
    requires
        is_field(f@),
        !is_locked(v, f@),
    ensures
        ({
            let w = step_view(v, ReplCommand::Context(Some(f)));
            &&& w.selection.body == (v.selection.body != (f@ == "body"@))
            &&& w.selection.appendix == (v.selection.appendix != (f@ == "appendix"@))
            &&& w.selection.description == (v.selection.description != (f@ == "description"@))
            &&& w.selection.note == (v.selection.note != (f@ == "note"@))
            &&& ReplView { selection: v.selection, ..w } == v
        }),
{
    reveal_strlit("body");
    reveal_strlit("appendix");
    reveal_strlit("description");
    reveal_strlit("note");
    assert("body"@ != "appendix"@ && "body"@ != "description"@ && "body"@ != "note"@) by {
        assert("body"@[0] != "appendix"@[0]);
        assert("body"@[0] != "description"@[0]);
        assert("body"@[0] != "note"@[0]);
    }
    assert("appendix"@ != "description"@ && "appendix"@ != "note"@ && "description"@ != "note"@) by {
        assert("appendix"@[0] != "description"@[0]);
        assert("appendix"@[0] != "note"@[0]);
        assert("description"@[0] != "note"@[0]);
    }
    let w = step_view(v, ReplCommand::Context(Some(f)));
    assert(w == ReplView { selection: toggle_spec(v.selection, f@), ..v });
}

} // verus!
