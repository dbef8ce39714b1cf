//! Interactive API-key login: the masked single-line input view, the events it
//! sends, the commands that open it, and the routing of mouse-wheel input in
//! the full-screen interface.

use vstd::prelude::*;
use vstd::string::StringExecFns;

use crate::deepseek::DEEPSEEK_PROVIDER_NAME;
use crate::text::chars_of;
use crate::text::fits_within;
use crate::text::trim;
use crate::text::trimmed;
use crate::text::utf8_len;

verus! {

/// Longest API key accepted, in bytes.
pub const MAX_API_KEY_BYTES: usize = 4096;

/// How a view was closed.
#[derive(Clone, Copy, PartialEq, Eq, Structural)]
pub enum ViewCompletion {
    Accepted,
    Cancelled,
}

/// Whether a Ctrl-C was handled by the view.
#[derive(Clone, Copy, PartialEq, Eq, Structural)]
pub enum CancellationEvent {
    Handled,
    NotHandled,
}

/// A key, as far as the view reads it.
#[derive(Clone, Copy, PartialEq, Eq, Structural)]
pub enum KeyCode {
    Esc,
    Enter,
    Backspace,
    Char(char),
    Other,
}

/// A key event: whether it is a press, the key, whether any modifier is held,
/// and whether Ctrl or Alt is held.
#[derive(Clone, Copy, PartialEq, Eq, Structural)]
pub struct KeyInput {
    pub press: bool,
    pub code: KeyCode,
    pub no_modifiers: bool,
    pub ctrl_or_alt: bool,
}

/// The message shown when the key would exceed `MAX_API_KEY_BYTES`.
pub open spec fn too_long_message() -> Seq<char> {
    "API key is too long"@
}

/// The message shown when an empty key is submitted.
pub open spec fn empty_message() -> Seq<char> {
    "API key cannot be empty"@
}

/// Single-line secret input used by provider login flows. The typed key is
/// never shown; a submitted key is handed back to the caller, which passes it
/// on.
pub struct ApiKeyInputView {
    value: String,
    error: Option<&'static str>,
    completion: Option<ViewCompletion>,
}

/// The state of an `ApiKeyInputView`: the typed text, the error shown, and how
/// the view was closed, if it was.
pub struct InputState {
    pub value: Seq<char>,
    pub error: Option<Seq<char>>,
    pub completion: Option<ViewCompletion>,
}

impl View for ApiKeyInputView {
    type V = InputState;

    closed spec fn view(&self) -> InputState {
        InputState {
            value: self.value@,
            error: match self.error {
                Some(e) => Some(e@),
                None => None,
            },
            completion: self.completion,
        }
    }
}

/// The state after typing or pasting `s`: appended when the key stays within
/// `MAX_API_KEY_BYTES` (clearing the error), otherwise refused with an error.
pub open spec fn append_spec(st: InputState, s: Seq<char>) -> InputState {
    if utf8_len(st.value) + utf8_len(s) > MAX_API_KEY_BYTES {
        InputState { error: Some(too_long_message()), ..st }
    } else {
        InputState { value: st.value + s, error: None, ..st }
    }
}

/// The state after submitting, and the key handed back: the trimmed key
/// when it is not empty (closing the view as accepted), otherwise an error.
pub open spec fn submit_spec(st: InputState) -> (InputState, Option<Seq<char>>) {
    let key = trimmed(st.value);
    if key.len() == 0 {
        (InputState { error: Some(empty_message()), ..st }, None)
    } else {
        (InputState { completion: Some(ViewCompletion::Accepted), ..st }, Some(key))
    }
}

/// The state after a key event, and the key submitted by it, if any.
pub open spec fn key_spec(st: InputState, key: KeyInput) -> (InputState, Option<Seq<char>>) {
    if !key.press {
        (st, None)
    } else {
        match key.code {
            KeyCode::Esc => (InputState { completion: Some(ViewCompletion::Cancelled), ..st }, None),
            KeyCode::Enter => if key.no_modifiers {
                submit_spec(st)
            } else {
                (st, None)
            },
            KeyCode::Backspace => (
                InputState {
                    value: if st.value.len() > 0 {
                        st.value.drop_last()
                    } else {
                        st.value
                    },
                    error: None,
                    ..st
                },
                None,
            ),
            KeyCode::Char(c) => if !key.ctrl_or_alt {
                (append_spec(st, seq![c]), None)
            } else {
                (st, None)
            },
            KeyCode::Other => (st, None),
        }
    }
}

/// The state after a paste, and whether the paste was taken: white space
/// around the pasted text is dropped, and an empty paste is not taken.
pub open spec fn paste_spec(st: InputState, pasted: Seq<char>) -> (InputState, bool) {
    let p = trimmed(pasted);
    if p.len() == 0 {
        (st, false)
    } else {
        (append_spec(st, p), true)
    }
}

/// The number of mask symbols shown in an area `width` cells wide.
pub open spec fn mask_len(value: Seq<char>, width: u16) -> nat {
    let room: nat = if width >= 4 {
        (width - 4) as nat
    } else {
        0
    };
    if value.len() <= room {
        value.len()
    } else {
        room
    }
}

/// The mask symbol.
pub open spec fn bullet() -> char {
    '\u{2022}'
}

/// A login view whose input `value` was typed, with no error, still open.
pub open spec fn fresh_with(value: Seq<char>) -> InputState {
    InputState { value, error: None, completion: None }
}

impl ApiKeyInputView {
    /// An empty, open view.
    pub fn new() -> (v: Self)
        ensures
            v@ == fresh_with(Seq::<char>::empty()),
    {
        ApiKeyInputView { value: String::new(), error: None, completion: None }
    }

    /// Adds `s` to the key unless that would make it longer than
    /// `MAX_API_KEY_BYTES`.
    pub fn append(&mut self, s: &str)
        ensures
            final(self)@ == append_spec(old(self)@, s@),
    {
        let mut combined = self.value.clone();
        combined.append(s);
        proof {
            crate::text::lemma_utf8_len_concat(self.value@, s@);
        }
        if !fits_within(combined.as_str(), MAX_API_KEY_BYTES) {
            self.error = Some("API key is too long");
            return;
        }
        self.value = combined;
        self.error = None;
    }

    /// Submits the trimmed key; an empty key keeps the view open with an error.
    pub fn submit(&mut self) -> (submitted: Option<String>)
        ensures
            (final(self)@, match submitted {
                Some(k) => Some(k@),
                None => None,
            }) == submit_spec(old(self)@),
    {
        let api_key = trim(self.value.as_str());
        if api_key.as_str().is_empty() {
            self.error = Some("API key cannot be empty");
            return None;
        }
        self.completion = Some(ViewCompletion::Accepted);
        Some(api_key)
    }

    /// Handles a key event; returns the submitted key when Enter submits one.
    /// Esc cancels, Backspace deletes the last character, and a character
    /// typed without Ctrl or Alt is appended; releases are ignored.
    pub fn handle_key_event(&mut self, key: KeyInput) -> (submitted: Option<String>)
        ensures
            (final(self)@, match submitted {
                Some(k) => Some(k@),
                None => None,
            }) == key_spec(old(self)@, key),
    {
        if !key.press {
            return None;
        }
        match key.code {
            KeyCode::Esc => {
                self.completion = Some(ViewCompletion::Cancelled);
                None
            },
            KeyCode::Enter => {
                if key.no_modifiers {
                    self.submit()
                } else {
                    None
                }
            },
            KeyCode::Backspace => {
                let v = chars_of(self.value.as_str());
                if v.len() > 0 {
                    self.value = crate::text::string_of_prefix(&v, v.len() - 1);
                }
                self.error = None;
                None
            },
            KeyCode::Char(c) => {
                if !key.ctrl_or_alt {
                    let one = [c];
                    let typed = crate::text::string_of(&one);
                    assert(one@ =~= seq![c]);
                    self.append(typed.as_str());
                }
                None
            },
            KeyCode::Other => None,
        }
    }

    /// Ctrl-C cancels the view.
    pub fn on_ctrl_c(&mut self) -> (e: CancellationEvent)
        ensures
            final(self)@ == (InputState { completion: Some(ViewCompletion::Cancelled), ..old(self)@ }),
            e == CancellationEvent::Handled,
    {
        self.completion = Some(ViewCompletion::Cancelled);
        CancellationEvent::Handled
    }

    /// Whether the view was closed.
    pub fn is_complete(&self) -> (r: bool)
        ensures
            r == (self@.completion is Some),
    {
        self.completion.is_some()
    }

    /// How the view was closed, if it was.
    pub fn completion(&self) -> (c: Option<ViewCompletion>)
        ensures
            c == self@.completion,
    {
        self.completion
    }

    /// The identifier of the view.
    pub fn view_id(&self) -> (id: Option<&'static str>)
        ensures
            id == Some("deepseek-login"),
    {
        Some("deepseek-login")
    }

    /// Takes pasted text, without its surrounding white space; an empty paste
    /// is refused.
    pub fn handle_paste(&mut self, pasted: String) -> (taken: bool)
        ensures
            (final(self)@, taken) == paste_spec(old(self)@, pasted@),
    {
        let p = trim(pasted.as_str());
        if p.as_str().is_empty() {
            return false;
        }
        self.append(p.as_str());
        true
    }

    /// Height of the view, in rows.
    pub fn desired_height(&self, width: u16) -> (h: u16)
        ensures
            h == 5,
    {
        5
    }

    /// The masked key shown in an area `width` cells wide: one bullet per
    /// typed character, as many as fit beside the prompt.
    pub fn masked_value(&self, width: u16) -> (m: String)
        ensures
            m@ == Seq::new(mask_len(self@.value, width), |i: int| bullet()),
    {
        let n = chars_of(self.value.as_str()).len();
        let room: usize = width.saturating_sub(4) as usize;
        let count = if n <= room {
            n
        } else {
            room
        };
        let mut m = String::new();
        let mut i: usize = 0;
        while i < count
            invariant
                i <= count,
                m@ == Seq::new(i as nat, |j: int| bullet()),
            decreases count - i,
        {
            let one = ['\u{2022}'];
            let b = crate::text::string_of(&one);
            assert(one@ =~= seq![bullet()]);
            m.append(b.as_str());
            i = i + 1;
            assert(m@ =~= Seq::new(i as nat, |j: int| bullet()));
        }
        m
    }

    /// Where the cursor goes in an area at (`x`, `y`) of `width` by `height`
    /// cells: after the mask on the input row; nowhere in a tiny area.
    pub fn cursor_pos(&self, x: u16, y: u16, width: u16, height: u16) -> (p: Option<(u16, u16)>)
        ensures
            (width <= 2 || height <= 2) ==> p is None,
            !(width <= 2 || height <= 2) ==> p == Some(
                (
                    if x + 2 + mask_len(self@.value, width) <= u16::MAX {
                        (x + 2 + mask_len(self@.value, width)) as u16
                    } else {
                        u16::MAX
                    },
                    if y + 2 <= u16::MAX {
                        (y + 2) as u16
                    } else {
                        u16::MAX
                    },
                ),
            ),
    {
        if width <= 2 || height <= 2 {
            return None;
        }
        let masked = self.masked_value(width);
        let mask_width = chars_of(masked.as_str()).len() as u16;
        Some((x.saturating_add(2 + mask_width), y.saturating_add(2)))
    }

    /// The detail line: the error when there is one, otherwise a note that the
    /// key is checked before it is saved. The flag tells whether it is an
    /// error.
    pub fn detail_line(&self) -> (r: (&'static str, bool))
        ensures
            match self@.error {
                Some(e) => r.0@ == e && r.1,
                None => r.0@ == "The key is validated before it is saved."@ && !r.1,
            },
    {
        match self.error {
            Some(e) => (e, true),
            None => ("The key is validated before it is saved.", false),
        }
    }

    /// The input line: the masked key, or a placeholder when nothing is typed
    /// (flagged `true`).
    pub fn input_line(&self, width: u16) -> (r: (String, bool))
        ensures
            mask_len(self@.value, width) == 0 ==> r.0@ == "Paste or type your API key"@ && r.1,
            mask_len(self@.value, width) > 0 ==> r.0@ == Seq::new(
                mask_len(self@.value, width),
                |i: int| bullet(),
            ) && !r.1,
    {
        let masked = self.masked_value(width);
        if masked.as_str().is_empty() {
            (String::from_str("Paste or type your API key"), true)
        } else {
            (masked, false)
        }
    }
}

/// An API key that is never shown in debug output.
pub struct SensitiveApiKey {
    key: String,
}

impl SensitiveApiKey {
    /// The key held.
    pub closed spec fn key(&self) -> Seq<char> {
        self.key@
    }

    /// Wraps `key`.
    pub fn new(key: String) -> (k: Self)
        ensures
            k.key() == key@,
    {
        SensitiveApiKey { key }
    }

    /// The key itself, for the code that stores it.
    pub fn expose(&self) -> (k: &str)
        ensures
            k@ == self.key(),
    {
        self.key.as_str()
    }

    /// The debug rendering: the type name with the key redacted.
    pub fn debug_text(&self) -> (t: String)
        ensures
            t@ == "SensitiveApiKey(***)"@,
    {
        String::from_str("SensitiveApiKey(***)")
    }
}

/// An event that the login flow sends to the application.
pub enum AppEvent {
    /// A DeepSeek API key was entered.
    DeepSeekLogin { api_key: SensitiveApiKey },
    /// An API key was entered for the active provider.
    ProviderApiKeyLogin { api_key: SensitiveApiKey },
}

/// The debug rendering of an event: the variant and the redacted key.
pub open spec fn event_debug_text(e: AppEvent) -> Seq<char> {
    match e {
        AppEvent::DeepSeekLogin { .. } => "DeepSeekLogin { api_key: SensitiveApiKey(***) }"@,
        AppEvent::ProviderApiKeyLogin { .. } => "ProviderApiKeyLogin { api_key: SensitiveApiKey(***) }"@,
    }
}

impl AppEvent {
    /// The debug rendering of this event, which never shows the key.
    pub fn debug_text(&self) -> (t: String)
        ensures
            t@ == event_debug_text(*self),
    {
        match self {
            AppEvent::DeepSeekLogin { .. } => String::from_str(
                "DeepSeekLogin { api_key: SensitiveApiKey(***) }",
            ),
            AppEvent::ProviderApiKeyLogin { .. } => String::from_str(
                "ProviderApiKeyLogin { api_key: SensitiveApiKey(***) }",
            ),
        }
    }

    /// The key carried by this event.
    pub fn api_key(&self) -> (k: &SensitiveApiKey)
        ensures
            match self {
                AppEvent::DeepSeekLogin { api_key } => k == api_key,
                AppEvent::ProviderApiKeyLogin { api_key } => k == api_key,
            },
    {
        match self {
            AppEvent::DeepSeekLogin { api_key } => api_key,
            AppEvent::ProviderApiKeyLogin { api_key } => api_key,
        }
    }
}

/// The debug rendering of a login event does not depend on the key: two
/// events of the same kind render alike whatever keys they carry.
pub proof fn law_login_event_debug_is_redacted(a: AppEvent, b: AppEvent)
    requires
        (a is DeepSeekLogin && b is DeepSeekLogin) || (a is ProviderApiKeyLogin
            && b is ProviderApiKeyLogin),
    ensures
        event_debug_text(a) == event_debug_text(b),
{
}

/// Which login a view is for, and so which event a key submitted in it
/// becomes.
#[derive(Clone, Copy, PartialEq, Eq, Structural)]
pub enum LoginTarget {
    /// The `/login` command of the DeepSeek provider.
    DeepSeek,
    /// API-key login for the active model provider.
    Provider,
}

/// The event that a key submitted in a view for `target` becomes: its
/// variant and the key it carries.
pub open spec fn login_event_spec(target: LoginTarget, key: Seq<char>, e: AppEvent) -> bool {
    match target {
        LoginTarget::DeepSeek => e matches AppEvent::DeepSeekLogin { api_key: k } && k.key() == key,
        LoginTarget::Provider => e matches AppEvent::ProviderApiKeyLogin { api_key: k } && k.key()
            == key,
    }
}

/// The event sent when `api_key` is submitted in a login view for `target`.
pub fn login_event(target: LoginTarget, api_key: String) -> (e: AppEvent)
    ensures
        login_event_spec(target, api_key@, e),
{
    match target {
        LoginTarget::DeepSeek => AppEvent::DeepSeekLogin { api_key: SensitiveApiKey::new(api_key) },
        LoginTarget::Provider => AppEvent::ProviderApiKeyLogin {
            api_key: SensitiveApiKey::new(api_key),
        },
    }
}

/// The title of the login view for the provider named `provider_name`.
pub open spec fn login_title_spec(provider_name: Seq<char>) -> Seq<char> {
    provider_name + " login"@
}

/// The title of the login view for the provider named `provider_name`, such as
/// `DeepSeek login`.
pub fn login_title(provider_name: &str) -> (t: String)
    ensures
        t@ == login_title_spec(provider_name@),
{
    let mut t = String::from_str(provider_name);
    t.append(" login");
    t
}

/// What opening a login view leads to.
pub enum LoginOpening {
    /// Show this error message instead.
    Error(String),
    /// Show `view`, titled after `provider_name`; a key submitted in it is
    /// sent as `login_event(target, key)`.
    ShowView { view: ApiKeyInputView, provider_name: String, target: LoginTarget },
}

/// Opens the DeepSeek login view, which is only available when the model
/// provider is DeepSeek.
pub fn open_deepseek_login(provider_is_deepseek: bool) -> (o: LoginOpening)
    ensures
        !provider_is_deepseek ==> (o matches LoginOpening::Error(m) && m@
            == "The /login command is only available when model_provider is deepseek."@),
        provider_is_deepseek ==> (o matches LoginOpening::ShowView { view, provider_name, target }
            && view@ == fresh_with(Seq::<char>::empty()) && provider_name@
            == DEEPSEEK_PROVIDER_NAME@ && target == LoginTarget::DeepSeek),
{
    if !provider_is_deepseek {
        return LoginOpening::Error(
            String::from_str(
                "The /login command is only available when model_provider is deepseek.",
            ),
        );
    }
    LoginOpening::ShowView {
        view: ApiKeyInputView::new(),
        provider_name: String::from_str(DEEPSEEK_PROVIDER_NAME),
        target: LoginTarget::DeepSeek,
    }
}

/// Opens the API-key login view for the active provider, named
/// `provider_name`, which must support interactive API-key login.
pub fn open_provider_login(api_key_login: bool, provider_name: &str) -> (o: LoginOpening)
    ensures
        !api_key_login ==> (o matches LoginOpening::Error(m) && m@
            == "The active model provider does not support interactive API key login."@),
        api_key_login ==> (o matches LoginOpening::ShowView { view, provider_name: name, target }
            && view@ == fresh_with(Seq::<char>::empty()) && name@ == provider_name@ && target
            == LoginTarget::Provider),
{
    if !api_key_login {
        return LoginOpening::Error(
            String::from_str(
                "The active model provider does not support interactive API key login.",
            ),
        );
    }
    LoginOpening::ShowView {
        view: ApiKeyInputView::new(),
        provider_name: String::from_str(provider_name),
        target: LoginTarget::Provider,
    }
}

/// Rows scrolled per wheel step in the transcript.
pub const MOUSE_WHEEL_ROWS: usize = 3;

/// A mouse event, as far as the interface reads it.
#[derive(Clone, Copy, PartialEq, Eq, Structural)]
pub enum MouseKind {
    ScrollUp,
    ScrollDown,
    ScrollLeft,
    ScrollRight,
    Down,
    Up,
    Drag,
    Moved,
}

/// An arrow key.
#[derive(Clone, Copy, PartialEq, Eq, Structural)]
pub enum ArrowKey {
    Up,
    Down,
}

/// What a mouse event does.
#[derive(Clone, Copy, PartialEq, Eq, Structural)]
pub enum MouseAction {
    /// Nothing.
    Ignore,
    /// Send this arrow key (without modifiers) to the open modal or popup.
    ForwardKey(ArrowKey),
    /// Open the transcript overlay and send it `rows` Up keys.
    ScrollTranscriptUp { rows: usize },
}

/// Routes a mouse event: the vertical wheel becomes arrow keys for an open
/// modal or popup; without one, wheel-up opens the transcript and scrolls it
/// back; every other mouse event is ignored.
pub fn route_mouse_event(kind: MouseKind, modal_or_popup_active: bool) -> (a: MouseAction)
    ensures
        a == (match kind {
            MouseKind::ScrollUp => if modal_or_popup_active {
                MouseAction::ForwardKey(ArrowKey::Up)
            } else {
                MouseAction::ScrollTranscriptUp { rows: MOUSE_WHEEL_ROWS }
            },
            MouseKind::ScrollDown => if modal_or_popup_active {
                MouseAction::ForwardKey(ArrowKey::Down)
            } else {
                MouseAction::Ignore
            },
            _ => MouseAction::Ignore,
        }),
{
    let key = match kind {
        MouseKind::ScrollUp => ArrowKey::Up,
        MouseKind::ScrollDown => ArrowKey::Down,
        _ => {
            return MouseAction::Ignore;
        },
    };
    if modal_or_popup_active {
        return MouseAction::ForwardKey(key);
    }
    if key == ArrowKey::Up {
        MouseAction::ScrollTranscriptUp { rows: MOUSE_WHEEL_ROWS }
    } else {
        MouseAction::Ignore
    }
}

/// Typing, pasting, deleting and submitting never let the key grow beyond
/// `MAX_API_KEY_BYTES`.
pub proof fn law_key_stays_within_limit(st: InputState, key: KeyInput, pasted: Seq<char>)
    requires
        utf8_len(st.value) <= MAX_API_KEY_BYTES,
    ensures
        utf8_len(key_spec(st, key).0.value) <= MAX_API_KEY_BYTES,
        utf8_len(paste_spec(st, pasted).0.value) <= MAX_API_KEY_BYTES,
{
    crate::text::lemma_utf8_len_concat(st.value, trimmed(pasted));
    if key.press {
        match key.code {
            KeyCode::Char(c) => {
                crate::text::lemma_utf8_len_concat(st.value, seq![c]);
            },
            KeyCode::Backspace => {
                if st.value.len() > 0 {
                    crate::text::lemma_utf8_len_take_le(st.value, st.value.len() - 1);
                    assert(st.value.take(st.value.len() - 1) =~= st.value.drop_last());
                }
            },
            _ => {},
        }
    }
}

/// A submission that is refused (a blank key) leaves the view open and the
/// typed text as it was.
pub proof fn law_blank_submission_keeps_view_open(st: InputState)
    requires
        trimmed(st.value).len() == 0,
    ensures
        submit_spec(st).0.completion == st.completion,
        submit_spec(st).0.value == st.value,
        submit_spec(st).1 is None,
{
}

/// Backspace deletes the last character typed: from a key `s` followed by
/// `c`, a pressed Backspace leaves `s`, and typing a character that fits and
/// then pressing Backspace restores the key as it was.
pub proof fn law_backspace_deletes_last_char(
    st: InputState,
    s: Seq<char>,
    c: char,
    typed: KeyInput,
    back: KeyInput,
)
    requires
        back.press,
        back.code == KeyCode::Backspace,
        typed.press,
        typed.code == KeyCode::Char(c),
        !typed.ctrl_or_alt,
    ensures
        st.value == s.push(c) ==> key_spec(st, back).0.value == s && key_spec(st, back).1 is None,
        utf8_len(st.value) + utf8_len(seq![c]) <= MAX_API_KEY_BYTES ==> key_spec(
            key_spec(st, typed).0,
            back,
        ).0.value == st.value,
{
    if st.value == s.push(c) {
        assert(st.value.drop_last() =~= s);
    }
    assert((st.value + seq![c]).drop_last() =~= st.value);
}

} // verus!
