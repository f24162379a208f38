use vstd::prelude::*;

use crate::hotkey::HotkeyOption;
use crate::pattern::{match_pattern, matching_words};

verus! {

/// What the window asks of the windowing system during a frame, in order.
#[derive(Debug, Clone, Copy, PartialEq, Eq, Structural)]
pub enum WindowCommand {
    /// Bring the window to the front and give it the keyboard focus.
    Focus,
    /// Resize the window to its full size.
    Expand,
    /// Shrink the window to an icon.
    Collapse,
    /// Minimise the window.
    Minimize,
    /// Keep the window above the others (`true`) or not (`false`).
    SetAlwaysOnTop(bool),
}

/// The global hotkey registrations to make, in the order: first
/// `unregister`, then `register`.
#[derive(Debug, Clone, Copy, PartialEq, Eq, Structural)]
pub struct HotkeyPlan {
    pub unregister: Option<HotkeyOption>,
    pub register: Option<HotkeyOption>,
}

/// What the window shows under the pattern, and which colour its title takes.
#[derive(Debug, Clone, Copy, PartialEq, Eq, Structural)]
pub enum FilterStatus {
    /// No pattern yet: the window asks for one.
    Prompt,
    /// A pattern that no word fits.
    NoMatches,
    /// A pattern and the number of words that fit it.
    Matches(usize),
}

/// The state of the filter window, as plain values.
pub struct FilterView {
    pub words: Seq<String>,
    pub pattern: Seq<char>,
    pub results: Seq<String>,
    pub is_expanded: bool,
    pub always_on_top: bool,
    pub auto_clear: bool,
    pub focus_input_next_frame: bool,
    pub was_focused: bool,
    pub selected_hotkey: HotkeyOption,
    pub registered_hotkey: Option<HotkeyOption>,
    pub listening: bool,
}

impl FilterView {
    /// The results are the words that fit the pattern, or there is neither
    /// pattern nor result (the window starts so, and is cleared so).
    pub open spec fn results_follow_pattern(self) -> bool {
        ||| self.results == matching_words(self.pattern, self.words)
        ||| (self.pattern.len() == 0 && self.results.len() == 0)
    }

    /// A registered hotkey is the selected one, and is registered only while
    /// the window listens for it.
    pub open spec fn hotkey_follows_selection(self) -> bool {
        self.registered_hotkey matches Some(h) ==> h == self.selected_hotkey && self.listening
    }

    /// What every operation of the window keeps.
    pub open spec fn wf(self) -> bool {
        self.results_follow_pattern() && self.hotkey_follows_selection()
    }

    /// The window gains the focus in this frame.
    pub open spec fn gains_focus(self, focused: bool) -> bool {
        focused && !self.was_focused
    }

    /// The window loses the focus in this frame.
    pub open spec fn loses_focus(self, focused: bool) -> bool {
        !focused && self.was_focused
    }

    /// Whether the window is expanded once the focus change of the frame is
    /// handled, before Escape is.
    pub open spec fn expanded_after_focus(self, focused: bool) -> bool {
        self.gains_focus(focused) || (self.is_expanded && !self.loses_focus(focused))
    }

    /// Escape collapses the window in this frame.
    pub open spec fn escapes(self, focused: bool, escape_pressed: bool) -> bool {
        self.expanded_after_focus(focused) && escape_pressed
    }

    /// The window collapses in this frame, by losing the focus or by Escape.
    pub open spec fn collapses(self, focused: bool, escape_pressed: bool) -> bool {
        self.loses_focus(focused) || self.escapes(focused, escape_pressed)
    }

    /// The hotkey that was pressed is the registered one.
    pub open spec fn summoned(self, pressed: Option<HotkeyOption>) -> bool {
        pressed is Some && self.registered_hotkey == pressed
    }

    /// The state after a frame.
    pub open spec fn after_frame(self, focused: bool, escape_pressed: bool) -> FilterView {
        let clear = self.auto_clear && self.collapses(focused, escape_pressed);
        FilterView {
            pattern: if clear {
                Seq::empty()
            } else {
                self.pattern
            },
            results: if clear {
                Seq::empty()
            } else {
                self.results
            },
            is_expanded: self.expanded_after_focus(focused) && !escape_pressed,
            focus_input_next_frame: self.focus_input_next_frame || self.gains_focus(focused),
            was_focused: focused,
            ..self
        }
    }

    /// The commands of a frame.
    pub open spec fn frame_commands(
        self,
        focused: bool,
        escape_pressed: bool,
        pressed: Option<HotkeyOption>,
    ) -> Seq<WindowCommand> {
        (if self.summoned(pressed) {
            seq![WindowCommand::Focus]
        } else {
            Seq::empty()
        }) + (if self.gains_focus(focused) {
            seq![WindowCommand::Expand]
        } else {
            Seq::empty()
        }) + (if self.loses_focus(focused) {
            seq![WindowCommand::Collapse]
        } else {
            Seq::empty()
        }) + (if self.escapes(focused, escape_pressed) {
            seq![WindowCommand::Collapse, WindowCommand::Minimize]
        } else {
            Seq::empty()
        }) + seq![WindowCommand::SetAlwaysOnTop(self.always_on_top)]
    }

    /// The state after listening is turned on or off.
    pub open spec fn after_set_listening(self, enabled: bool) -> FilterView {
        FilterView {
            listening: enabled,
            registered_hotkey: if enabled {
                self.registered_hotkey
            } else {
                None
            },
            ..self
        }
    }

    /// The registrations that turning listening on or off asks for: the
    /// selected hotkey when turning it on with none registered, the
    /// registered one when turning it off.
    pub open spec fn set_listening_plan(self, enabled: bool) -> HotkeyPlan {
        if enabled && self.registered_hotkey is None {
            HotkeyPlan { unregister: None, register: Some(self.selected_hotkey) }
        } else if !enabled && self.registered_hotkey is Some {
            HotkeyPlan { unregister: self.registered_hotkey, register: None }
        } else {
            HotkeyPlan { unregister: None, register: None }
        }
    }

    /// What the window shows under its pattern.
    pub open spec fn status(self) -> FilterStatus {
        if self.pattern.len() == 0 {
            FilterStatus::Prompt
        } else if self.results.len() == 0 {
            FilterStatus::NoMatches
        } else {
            FilterStatus::Matches(self.results.len() as usize)
        }
    }
}

/// The state of the code filter window: the word list, the pattern and its
/// results, whether the window is expanded, and which hotkey summons it.
pub struct CodeFilterApp {
    words: Vec<String>,
    pattern: String,
    results: Vec<String>,
    is_expanded: bool,
    always_on_top: bool,
    auto_clear: bool,
    focus_input_next_frame: bool,
    was_focused: bool,
    selected_hotkey: HotkeyOption,
    registered_hotkey: Option<HotkeyOption>,
    listening: bool,
}

impl View for CodeFilterApp {
    type V = FilterView;

    closed spec fn view(&self) -> FilterView {
        FilterView {
            words: self.words@,
            pattern: self.pattern@,
            results: self.results@,
            is_expanded: self.is_expanded,
            always_on_top: self.always_on_top,
            auto_clear: self.auto_clear,
            focus_input_next_frame: self.focus_input_next_frame,
            was_focused: self.was_focused,
            selected_hotkey: self.selected_hotkey,
            registered_hotkey: self.registered_hotkey,
            listening: self.listening,
        }
    }
}

/// The commands of a frame, from its decisions.
fn frame_commands(summoned: bool, gained: bool, lost: bool, escapes: bool, on_top: bool) -> (commands: Vec<WindowCommand>)
    ensures
        commands@ == (if summoned {
            seq![WindowCommand::Focus]
        } else {
            Seq::empty()
        }) + (if gained {
            seq![WindowCommand::Expand]
        } else {
            Seq::empty()
        }) + (if lost {
            seq![WindowCommand::Collapse]
        } else {
            Seq::empty()
        }) + (if escapes {
            seq![WindowCommand::Collapse, WindowCommand::Minimize]
        } else {
            Seq::empty()
        }) + seq![WindowCommand::SetAlwaysOnTop(on_top)],
{
    let mut commands: Vec<WindowCommand> = Vec::new();
    let ghost a: Seq<WindowCommand> = if summoned {
        seq![WindowCommand::Focus]
    } else {
        Seq::empty()
    };
    let ghost b: Seq<WindowCommand> = if gained {
        seq![WindowCommand::Expand]
    } else {
        Seq::empty()
    };
    let ghost c: Seq<WindowCommand> = if lost {
        seq![WindowCommand::Collapse]
    } else {
        Seq::empty()
    };
    let ghost d: Seq<WindowCommand> = if escapes {
        seq![WindowCommand::Collapse, WindowCommand::Minimize]
    } else {
        Seq::empty()
    };
    if summoned {
        commands.push(WindowCommand::Focus);
    }
    assert(commands@ =~= a);
    if gained {
        commands.push(WindowCommand::Expand);
    }
    assert(commands@ =~= a + b);
    if lost {
        commands.push(WindowCommand::Collapse);
    }
    assert(commands@ =~= a + b + c);
    if escapes {
        commands.push(WindowCommand::Collapse);
        commands.push(WindowCommand::Minimize);
    }
    assert(commands@ =~= a + b + c + d);
    commands.push(WindowCommand::SetAlwaysOnTop(on_top));
    assert(commands@ =~= a + b + c + d + seq![WindowCommand::SetAlwaysOnTop(on_top)]);
    commands
}

/// A frame keeps what every operation keeps.
proof fn lemma_after_frame_keeps_wf(v: FilterView, focused: bool, escape_pressed: bool)
    ensures
        v.wf() ==> v.after_frame(focused, escape_pressed).wf(),
{
}

/// Turning listening on or off when the registration already agrees (a
/// hotkey is registered exactly when `enabled`) asks for no registration and
/// changes at most the listening flag; nothing at all when the flag already
/// agrees too, and nothing when turning it on, since a registered hotkey
/// implies listening.
pub proof fn law_settled_listening_switch_is_idle(v: FilterView, enabled: bool)
    requires
        v.wf(),
        v.registered_hotkey is Some == enabled,
    ensures
        v.set_listening_plan(enabled) == (HotkeyPlan { unregister: None, register: None }),
        v.after_set_listening(enabled) == (FilterView { listening: enabled, ..v }),
        v.listening == enabled ==> v.after_set_listening(enabled) == v,
        enabled ==> v.after_set_listening(enabled) == v,
{
}

/// Turning listening on or off twice leaves the state of turning it so once.
pub proof fn law_listening_switch_twice_is_once(v: FilterView, enabled: bool)
    ensures
        v.after_set_listening(enabled).after_set_listening(enabled) == v.after_set_listening(
            enabled,
        ),
{
}

/// Without auto-clear, a frame leaves the pattern and the results exactly
/// as they were, whatever the focus does and whether Escape was pressed.
pub proof fn law_frame_without_auto_clear_keeps_pattern(
    v: FilterView,
    focused: bool,
    escape_pressed: bool,
)
    requires
        !v.auto_clear,
    ensures
        v.after_frame(focused, escape_pressed).pattern == v.pattern,
        v.after_frame(focused, escape_pressed).results == v.results,
{
}

/// A frame in which the focus does not change and Escape is not pressed
/// leaves the pattern, the results and the expansion as they were.
pub proof fn law_quiet_frame_keeps_pattern(v: FilterView, escape_pressed: bool)
    requires
        !escape_pressed,
    ensures
        v.after_frame(v.was_focused, escape_pressed).pattern == v.pattern,
        v.after_frame(v.was_focused, escape_pressed).results == v.results,
        v.after_frame(v.was_focused, escape_pressed).is_expanded == v.is_expanded,
{
}

/// With auto-clear, losing the focus empties the pattern and the results
/// and collapses the window; so does Escape in a window that is expanded
/// and keeps the focus, which also asks to minimise it.
pub proof fn law_collapse_clears_with_auto_clear(v: FilterView, escape_pressed: bool)
    requires
        v.auto_clear,
    ensures
        v.was_focused ==> v.after_frame(false, escape_pressed).pattern.len() == 0
            && v.after_frame(false, escape_pressed).results.len() == 0
            && !v.after_frame(false, escape_pressed).is_expanded,
        v.was_focused && v.is_expanded ==> v.after_frame(true, true).pattern.len() == 0
            && v.after_frame(true, true).results.len() == 0
            && !v.after_frame(true, true).is_expanded
            && v.frame_commands(true, true, None).contains(WindowCommand::Minimize),
{
    if v.was_focused && v.is_expanded {
        let c = v.frame_commands(true, true, None);
        assert(c =~= seq![WindowCommand::Collapse, WindowCommand::Minimize,
            WindowCommand::SetAlwaysOnTop(v.always_on_top)]);
        assert(c[1] == WindowCommand::Minimize);
    }
}

/// A frame asks for the focus exactly when the pressed hotkey is the
/// registered one, and then as its first command; with no hotkey registered
/// no frame asks for it.
pub proof fn law_only_the_registered_hotkey_summons(
    v: FilterView,
    focused: bool,
    escape_pressed: bool,
    pressed: Option<HotkeyOption>,
)
    ensures
        v.frame_commands(focused, escape_pressed, pressed).contains(WindowCommand::Focus) <==> (
        pressed is Some && pressed == v.registered_hotkey),
        v.frame_commands(focused, escape_pressed, pressed).contains(WindowCommand::Focus)
            ==> v.frame_commands(focused, escape_pressed, pressed)[0] == WindowCommand::Focus,
        v.registered_hotkey is None ==> !v.frame_commands(focused, escape_pressed, pressed).contains(
            WindowCommand::Focus,
        ),
{
    let s = pressed is Some && pressed == v.registered_hotkey;
    let a: Seq<WindowCommand> = if s {
        seq![WindowCommand::Focus]
    } else {
        Seq::empty()
    };
    let b: Seq<WindowCommand> = if v.gains_focus(focused) {
        seq![WindowCommand::Expand]
    } else {
        Seq::empty()
    };
    let c: Seq<WindowCommand> = if v.loses_focus(focused) {
        seq![WindowCommand::Collapse]
    } else {
        Seq::empty()
    };
    let d: Seq<WindowCommand> = if v.escapes(focused, escape_pressed) {
        seq![WindowCommand::Collapse, WindowCommand::Minimize]
    } else {
        Seq::empty()
    };
    let tail = b + c + d + seq![WindowCommand::SetAlwaysOnTop(v.always_on_top)];
    let all = v.frame_commands(focused, escape_pressed, pressed);
    assert(v.summoned(pressed) == s);
    assert(all =~= a + tail);
    assert(!tail.contains(WindowCommand::Focus)) by {
        if tail.contains(WindowCommand::Focus) {
            let i = choose|i: int| 0 <= i < tail.len() && tail[i] == WindowCommand::Focus;
            assert(tail[i] != WindowCommand::Focus);
        }
    }
    if s {
        assert(all[0] == WindowCommand::Focus);
    } else {
        assert(all =~= tail);
    }
}

/// The status follows the pattern and the results: a prompt exactly for the
/// empty pattern; for any other pattern, no matches exactly when there is no
/// result, and otherwise the number of results.
pub proof fn law_status_counts_the_results(v: FilterView)
    ensures
        (v.status() == FilterStatus::Prompt) <==> v.pattern.len() == 0,
        v.pattern.len() > 0 ==> ((v.status() == FilterStatus::NoMatches) <==> v.results.len() == 0),
        v.pattern.len() > 0 && 0 < v.results.len() <= usize::MAX ==> v.status()
            == FilterStatus::Matches(v.results.len() as usize),
{
}

/// Turning listening on never registers a hotkey by itself (the
/// registration is only planned, and a hotkey becomes registered only
/// through a successful `registration_done`); turning it off leaves none
/// registered.
pub proof fn law_listening_switch_registers_nothing(v: FilterView)
    ensures
        v.after_set_listening(true).registered_hotkey == v.registered_hotkey,
        v.after_set_listening(false).registered_hotkey is None,
        v.registered_hotkey is None ==> v.after_set_listening(true).registered_hotkey is None,
{
}

/// A frame never changes which hotkey is selected or registered.
pub proof fn law_frame_keeps_hotkeys(v: FilterView, focused: bool, escape_pressed: bool)
    ensures
        v.after_frame(focused, escape_pressed).registered_hotkey == v.registered_hotkey,
        v.after_frame(focused, escape_pressed).selected_hotkey == v.selected_hotkey,
        v.after_frame(focused, escape_pressed).listening == v.listening,
{
}

impl CodeFilterApp {
    /// The window at start: expanded, focused, always on top, clearing the
    /// pattern when it collapses, with no pattern and no result, listening for
    /// the default hotkey, which is registered when `default_registered`
    /// says that registering it succeeded.
    pub fn new(words: Vec<String>, default_registered: bool) -> (app: Self)
        ensures
            app@ == (FilterView {
                words: words@,
                pattern: Seq::empty(),
                results: Seq::empty(),
                is_expanded: true,
                always_on_top: true,
                auto_clear: true,
                focus_input_next_frame: false,
                was_focused: true,
                selected_hotkey: HotkeyOption::F2,
                registered_hotkey: if default_registered {
                    Some(HotkeyOption::F2)
                } else {
                    None
                },
                listening: true,
            }),
            app@.wf(),
    {
        let default_hotkey = HotkeyOption::default_option();
        CodeFilterApp {
            words,
            pattern: String::new(),
            results: Vec::new(),
            is_expanded: true,
            always_on_top: true,
            auto_clear: true,
            focus_input_next_frame: false,
            was_focused: true,
            selected_hotkey: default_hotkey,
            registered_hotkey: if default_registered {
                Some(default_hotkey)
            } else {
                None
            },
            listening: true,
        }
    }

    /// Handles the start of a frame: the hotkey that was pressed, if any
    /// (`pressed`), whether the window has the focus, and whether Escape was
    /// pressed. Gaining the focus expands the window and asks for the input
    /// to take the focus; losing it collapses the window; Escape collapses an
    /// expanded window and minimises it; a collapse clears the pattern and the
    /// results when auto-clear is on. Returns the commands for the windowing
    /// system, in order.
    pub fn on_frame(&mut self, pressed: Option<HotkeyOption>, focused: bool, escape_pressed: bool) -> (commands: Vec<WindowCommand>)
        ensures
            final(self)@ == old(self)@.after_frame(focused, escape_pressed),
            commands@ == old(self)@.frame_commands(focused, escape_pressed, pressed),
            old(self)@.wf() ==> final(self)@.wf(),
            !old(self)@.auto_clear ==> final(self)@.pattern == old(self)@.pattern
                && final(self)@.results == old(self)@.results,
            commands@.contains(WindowCommand::Focus) <==> (pressed is Some
                && pressed == old(self)@.registered_hotkey),
            final(self)@.registered_hotkey == old(self)@.registered_hotkey,
    {
        let ghost start = self@;
        let summoned = match pressed {
            Some(h) => match self.registered_hotkey {
                Some(r) => h == r,
                None => false,
            },
            None => false,
        };
        let gained_focus = focused && !self.was_focused;
        let lost_focus = !focused && self.was_focused;
        let expanded = gained_focus || (self.is_expanded && !lost_focus);
        let escapes = expanded && escape_pressed;
        let clear = self.auto_clear && (lost_focus || escapes);
        let commands = frame_commands(summoned, gained_focus, lost_focus, escapes, self.always_on_top);
        assert(summoned == start.summoned(pressed));
        if clear {
            self.pattern = String::new();
            self.results = Vec::new();
        }
        self.is_expanded = expanded && !escape_pressed;
        self.focus_input_next_frame = self.focus_input_next_frame || gained_focus;
        self.was_focused = focused;
        proof {
            assert(self@.pattern =~= start.after_frame(focused, escape_pressed).pattern);
            assert(self@.results =~= start.after_frame(focused, escape_pressed).results);
            lemma_after_frame_keeps_wf(start, focused, escape_pressed);
            law_only_the_registered_hotkey_summons(start, focused, escape_pressed, pressed);
        }
        commands
    }

    /// Whether the pattern input should take the keyboard focus now: when a
    /// focus gain asked for it, or when the window is focused and the pattern
    /// is empty. Answering yes settles the pending request.
    pub fn take_input_focus(&mut self, focused: bool) -> (take: bool)
        ensures
            take == (old(self)@.focus_input_next_frame || (focused && old(self)@.pattern.len()
                == 0)),
            final(self)@ == (FilterView {
                focus_input_next_frame: if take {
                    false
                } else {
                    old(self)@.focus_input_next_frame
                },
                ..old(self)@
            }),
            old(self)@.wf() ==> final(self)@.wf(),
    {
        let take = self.focus_input_next_frame || (focused && self.pattern.as_str().is_empty());
        if take {
            self.focus_input_next_frame = false;
        }
        take
    }

    /// The pattern was edited to `pattern`: the results become the words that
    /// fit it.
    pub fn edit_pattern(&mut self, pattern: String)
        ensures
            final(self)@ == (FilterView {
                pattern: pattern@,
                results: matching_words(pattern@, old(self)@.words),
                ..old(self)@
            }),
            old(self)@.wf() ==> final(self)@.wf(),
    {
        let results = match_pattern(pattern.as_str(), self.words.as_slice());
        self.pattern = pattern;
        self.results = results;
    }

    /// The user picked `option` as the summon hotkey. When it differs from
    /// the selected one, the registered hotkey is to be unregistered, and,
    /// while listening, `option` is to be registered (the outcome comes back
    /// through `registration_done`).
    pub fn select_hotkey(&mut self, option: HotkeyOption) -> (plan: HotkeyPlan)
        ensures
            option == old(self)@.selected_hotkey ==> final(self)@ == old(self)@ && plan == (HotkeyPlan {
                unregister: None,
                register: None,
            }),
            option != old(self)@.selected_hotkey ==> final(self)@ == (FilterView {
                selected_hotkey: option,
                registered_hotkey: None,
                ..old(self)@
            }) && plan == (HotkeyPlan {
                unregister: old(self)@.registered_hotkey,
                register: if old(self)@.listening {
                    Some(option)
                } else {
                    None
                },
            }),
            old(self)@.wf() ==> final(self)@.wf(),
    {
        if option == self.selected_hotkey {
            return HotkeyPlan { unregister: None, register: None };
        }
        self.selected_hotkey = option;
        let unregister = self.registered_hotkey;
        self.registered_hotkey = None;
        let register = if self.listening {
            Some(option)
        } else {
            None
        };
        HotkeyPlan { unregister, register }
    }

    /// Turns listening for the hotkey on or off. Turning it on with no
    /// hotkey registered plans to register the selected one; turning it off
    /// with one registered plans to unregister it.
    pub fn set_listening(&mut self, enabled: bool) -> (plan: HotkeyPlan)
        ensures
            final(self)@ == old(self)@.after_set_listening(enabled),
            plan == old(self)@.set_listening_plan(enabled),
            old(self)@.wf() ==> final(self)@.wf(),
            final(self)@.registered_hotkey == (if enabled {
                old(self)@.registered_hotkey
            } else {
                None
            }),
    {
        self.listening = enabled;
        if enabled && self.registered_hotkey.is_none() {
            HotkeyPlan { unregister: None, register: Some(self.selected_hotkey) }
        } else if !enabled && self.registered_hotkey.is_some() {
            let unregister = self.registered_hotkey;
            self.registered_hotkey = None;
            HotkeyPlan { unregister, register: None }
        } else {
            HotkeyPlan { unregister: None, register: None }
        }
    }

    /// Registering the selected hotkey succeeded (`ok`) or failed. On
    /// success, while listening, it becomes the registered hotkey.
    pub fn registration_done(&mut self, ok: bool)
        ensures
            final(self)@ == (FilterView {
                registered_hotkey: if ok && old(self)@.listening {
                    Some(old(self)@.selected_hotkey)
                } else {
                    old(self)@.registered_hotkey
                },
                ..old(self)@
            }),
            old(self)@.wf() ==> final(self)@.wf(),
    {
        if ok && self.listening {
            self.registered_hotkey = Some(self.selected_hotkey);
        }
    }

    /// Sets whether the window stays above the others.
    pub fn set_always_on_top(&mut self, on: bool)
        ensures
            final(self)@ == (FilterView { always_on_top: on, ..old(self)@ }),
            old(self)@.wf() ==> final(self)@.wf(),
    {
        self.always_on_top = on;
    }

    /// Sets whether collapsing the window clears the pattern.
    pub fn set_auto_clear(&mut self, on: bool)
        ensures
            final(self)@ == (FilterView { auto_clear: on, ..old(self)@ }),
            old(self)@.wf() ==> final(self)@.wf(),
    {
        self.auto_clear = on;
    }

    /// What the window shows under its pattern.
    pub fn status(&self) -> (status: FilterStatus)
        ensures
            status == self@.status(),
            (status == FilterStatus::Prompt) <==> self@.pattern.len() == 0,
            self@.pattern.len() > 0 ==> ((status == FilterStatus::NoMatches) <==> self@.results.len()
                == 0),
            self@.pattern.len() > 0 && self@.results.len() > 0 ==> status == FilterStatus::Matches(
                self@.results.len() as usize,
            ),
    {
        let count = self.results.len();
        proof {
            law_status_counts_the_results(self@);
        }
        if self.pattern.as_str().is_empty() {
            FilterStatus::Prompt
        } else if count == 0 {
            FilterStatus::NoMatches
        } else {
            FilterStatus::Matches(count)
        }
    }

    /// The words the window filters.
    pub fn words(&self) -> (words: &Vec<String>)
        ensures
            words@ == self@.words,
    {
        &self.words
    }

    /// The pattern typed so far.
    pub fn pattern(&self) -> (pattern: &String)
        ensures
            pattern@ == self@.pattern,
    {
        &self.pattern
    }

    /// The words that fit the pattern, as last computed.
    pub fn results(&self) -> (results: &Vec<String>)
        ensures
            results@ == self@.results,
    {
        &self.results
    }

    /// Whether the window shows the filter (rather than an icon).
    pub fn is_expanded(&self) -> (b: bool)
        ensures
            b == self@.is_expanded,
    {
        self.is_expanded
    }

    /// Whether the window stays above the others.
    pub fn always_on_top(&self) -> (b: bool)
        ensures
            b == self@.always_on_top,
    {
        self.always_on_top
    }

    /// Whether collapsing the window clears the pattern.
    pub fn auto_clear(&self) -> (b: bool)
        ensures
            b == self@.auto_clear,
    {
        self.auto_clear
    }

    /// Whether the window listens for its hotkey.
    pub fn listening(&self) -> (b: bool)
        ensures
            b == self@.listening,
    {
        self.listening
    }

    /// The hotkey picked in the selector.
    pub fn selected_hotkey(&self) -> (h: HotkeyOption)
        ensures
            h == self@.selected_hotkey,
    {
        self.selected_hotkey
    }

    /// The hotkey registered with the system, if any.
    pub fn registered_hotkey(&self) -> (h: Option<HotkeyOption>)
        ensures
            h == self@.registered_hotkey,
    {
        self.registered_hotkey
    }
}

} // verus!
