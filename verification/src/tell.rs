//! The playback engine: a state machine over the steps of a compiled
//! session. The engine decides; a driver carries out what it asks for and
//! reports back.

use crate::error::{ErrorView, MendaxError};
use crate::speed::Speed;
use crate::style::{standard_style, Style, StyleView};
use crate::tale::{
    filled, tale_wf, vacant, CacheEntryView, Step, StepView, SystemCacheEntry, Tale, TaleView,
};
use crate::text::{str_equal, terminal_bytes, to_terminal, trim, trimmed};
use vstd::prelude::*;
use vstd::string::*;

verus! {

/// What the engine is doing.
#[derive(Clone, Copy, Debug, PartialEq, Eq)]
pub enum Mode {
    /// Executing steps.
    Running,
    /// Blocked in a pause until the operator presses a key.
    AwaitingKey,
    /// Blocked in a pause until the operator names a tag. `incorrect` tells
    /// whether the last name was no tag.
    AwaitingTag { incorrect: bool },
    /// On the way to the step `target`: the commands between the high-water
    /// mark and the target that have not run are run first, from `scan` on.
    Jumping { target: usize, scan: usize },
    /// Waiting for the output of the command of the current step.
    Streaming { id: usize },
    /// Waiting for the output of a command that a jump passes.
    Capturing { id: usize, target: usize, scan: usize },
    /// The playback is over.
    Exited { interrupted: bool },
}

/// What the driver reports to the engine.
#[derive(Debug, PartialEq, Eq)]
pub enum Event {
    /// What the engine asked for last has been done.
    Resume,
    /// The operator pressed a key. `code` is its character, if it has one;
    /// `control` tells whether Control, and no other modifier, was held.
    Key { code: Option<char>, control: bool },
    /// The terminal reported something that is no key.
    Other,
    /// The operator entered a line at the jump prompt.
    Line(String),
    /// The command that the engine asked for has run and printed this.
    Output(Vec<u8>),
}

/// The view of a [`Event`].
pub enum EventView {
    Resume,
    Key { code: Option<char>, control: bool },
    Other,
    Line(Seq<char>),
    Output(Seq<u8>),
}

impl DeepView for Event {
    type V = EventView;

    open spec fn deep_view(&self) -> EventView {
        match self {
            Event::Resume => EventView::Resume,
            Event::Key { code, control } => EventView::Key { code: *code, control: *control },
            Event::Other => EventView::Other,
            Event::Line(line) => EventView::Line(line@),
            Event::Output(bytes) => EventView::Output(bytes@),
        }
    }
}

/// What the operator means by a key.
#[derive(Clone, Copy, Debug, PartialEq, Eq)]
pub enum Intent {
    /// Abort the playback with an error.
    Interrupt,
    /// Show the keys.
    Help,
    /// End the playback.
    Exit,
    /// Go to a tag.
    Jump,
    /// Go on with the next step.
    Advance,
}

/// What the operator means by a key: Control-C interrupts; `h` and `?` ask
/// for help; `!` and Control-D end the playback; `/` starts a jump; every
/// other key goes on.
pub open spec fn intent_of(code: Option<char>, control: bool) -> Intent {
    if code == Some('c') && control {
        Intent::Interrupt
    } else if code == Some('h') || code == Some('?') {
        Intent::Help
    } else if code == Some('!') || (code == Some('d') && control) {
        Intent::Exit
    } else if code == Some('/') {
        Intent::Jump
    } else {
        Intent::Advance
    }
}

/// Tells what the operator means by a key.
pub fn intent(code: Option<char>, control: bool) -> (meant: Intent)
    ensures
        meant == intent_of(code, control),
{
    match code {
        Some(c) => {
            if c == 'c' && control {
                Intent::Interrupt
            } else if c == 'h' || c == '?' {
                Intent::Help
            } else if c == '!' || (c == 'd' && control) {
                Intent::Exit
            } else if c == '/' {
                Intent::Jump
            } else {
                Intent::Advance
            }
        },
        None => Intent::Advance,
    }
}

/// What the engine asks of the driver.
#[derive(Debug, PartialEq, Eq)]
pub enum Action {
    /// Nothing; report [`Event::Resume`].
    Continue,
    /// The event did not fit what the engine waits for and changed nothing.
    Ignored,
    /// Wait for the terminal's next event and report it.
    AwaitKey,
    /// Show this prompt, read a line and report it.
    AskTag(String),
    /// Show this text.
    Say(String),
    /// Show the names of the tags.
    ListTags,
    /// Run this command and report what it printed. Where `live` holds, show
    /// the output while it comes.
    Execute { cmd: String, live: bool },
    /// The output of a command has been shown while it came. Where `marker`
    /// holds, it ended in the middle of a line: mark that and start a new one.
    Streamed { marker: bool },
    /// Show these bytes, which a command printed before. Where `newline`
    /// holds, start a new line after them.
    Replay { output: Vec<u8>, newline: bool },
    ShowCursor,
    HideCursor,
    /// Show the prompt.
    Ps1,
    /// Type this text at this speed.
    Type { text: String, speed: Speed },
    /// Print this line.
    Show(String),
    /// Wait for so many milliseconds.
    Sleep(u64),
    Clear,
    /// Enter the alternate screen.
    ScreenOpen,
    /// Leave the alternate screen.
    ScreenClose,
    /// Set the title of the terminal.
    SetTitle(String),
    /// The playback is over.
    Finished,
    /// The operator interrupted the playback.
    Interrupted,
}

/// The view of a [`Action`].
pub enum ActionView {
    Continue,
    Ignored,
    AwaitKey,
    AskTag(Seq<char>),
    Say(Seq<char>),
    ListTags,
    Execute { cmd: Seq<char>, live: bool },
    Streamed { marker: bool },
    Replay { output: Seq<u8>, newline: bool },
    ShowCursor,
    HideCursor,
    Ps1,
    Type { text: Seq<char>, speed: Seq<char> },
    Show(Seq<char>),
    Sleep(u64),
    Clear,
    ScreenOpen,
    ScreenClose,
    SetTitle(Seq<char>),
    Finished,
    Interrupted,
}

impl DeepView for Action {
    type V = ActionView;

    open spec fn deep_view(&self) -> ActionView {
        match self {
            Action::Continue => ActionView::Continue,
            Action::Ignored => ActionView::Ignored,
            Action::AwaitKey => ActionView::AwaitKey,
            Action::AskTag(prompt) => ActionView::AskTag(prompt@),
            Action::Say(text) => ActionView::Say(text@),
            Action::ListTags => ActionView::ListTags,
            Action::Execute { cmd, live } => ActionView::Execute { cmd: cmd@, live: *live },
            Action::Streamed { marker } => ActionView::Streamed { marker: *marker },
            Action::Replay { output, newline } => ActionView::Replay {
                output: output@,
                newline: *newline,
            },
            Action::ShowCursor => ActionView::ShowCursor,
            Action::HideCursor => ActionView::HideCursor,
            Action::Ps1 => ActionView::Ps1,
            Action::Type { text, speed } => ActionView::Type { text: text@, speed: speed@ },
            Action::Show(line) => ActionView::Show(line@),
            Action::Sleep(millis) => ActionView::Sleep(*millis),
            Action::Clear => ActionView::Clear,
            Action::ScreenOpen => ActionView::ScreenOpen,
            Action::ScreenClose => ActionView::ScreenClose,
            Action::SetTitle(title) => ActionView::SetTitle(title@),
            Action::Finished => ActionView::Finished,
            Action::Interrupted => ActionView::Interrupted,
        }
    }
}

/// The view of a [`Telling`]: the state of a playback.
pub struct TellingView {
    /// The index of the step to execute next.
    pub pc: nat,
    /// The high-water mark: the steps below it have been visited, no step
    /// at or above it has.
    pub high_water: nat,
    /// The cache of command output, by the commands' ids.
    pub cache: Seq<CacheEntryView>,
    pub style: StyleView,
    pub mode: Mode,
    /// Whether the current pause has shown anything yet.
    pub printed: bool,
    /// Whether the alternate screen is shown.
    pub in_screen: bool,
}

/// The help that a pause shows.
pub open spec fn help_text(printed: bool) -> Seq<char> {
    (if printed {
        Seq::empty()
    } else {
        "\r\n"@
    }) + "mendax: press '/' to jump to a tag, '!' to exit, 'h' or '?' to show this help\r\n"@
}

/// The prompt for a tag.
pub open spec fn tag_prompt(printed: bool, incorrect: bool) -> Seq<char> {
    (if printed {
        Seq::empty()
    } else {
        "\r\n"@
    }) + (if incorrect {
        "mendax: tag incorrect; enter tag or '?' to list available: "@
    } else {
        "mendax: enter tag: "@
    })
}

/// What a pause shows when a jump is given up.
pub open spec fn cancelled_text() -> Seq<char> {
    "mendax: jump cancelled\r\n"@
}

/// Whether the engine waits for the output of the command `id`.
pub open spec fn awaits(mode: Mode, id: nat) -> bool {
    match mode {
        Mode::Streaming { id: awaited } => awaited == id,
        Mode::Capturing { id: awaited, .. } => awaited == id,
        _ => false,
    }
}

/// The step at `k` is settled: if it runs a command, the cache holds the
/// output of the command or the engine waits for it.
pub open spec fn settled(tale: TaleView, s: TellingView, k: int) -> bool {
    tale.steps[k] matches StepView::System { id, .. } ==> id < s.cache.len() && (s.cache[id as int]
        .output is Some || awaits(s.mode, id))
}

/// How far the playback has come: the high-water mark, or, on a jump, the
/// step up to which the jump has caught up, if that is further.
pub open spec fn reach(s: TellingView) -> nat {
    let caught_up: nat = match s.mode {
        Mode::Jumping { scan, .. } => scan as nat,
        Mode::Capturing { scan, .. } => scan as nat,
        _ => 0,
    };
    if caught_up > s.high_water {
        caught_up
    } else {
        s.high_water
    }
}

/// The state fits the session it plays. In particular the cache agrees with
/// the high-water mark: a command has run, or is running, if and only if
/// the playback has come to its step.
pub open spec fn telling_wf(tale: TaleView, s: TellingView) -> bool {
    &&& tale_wf(tale)
    &&& tale.steps.len() <= usize::MAX
    &&& tale.num_systems <= usize::MAX
    &&& s.cache.len() == tale.num_systems
    &&& s.pc <= s.high_water <= tale.steps.len()
    &&& reach(s) <= tale.steps.len()
    &&& forall|k: int| 0 <= k < reach(s) ==> #[trigger] settled(tale, s, k)
    &&& forall|k: int|
        0 <= k < tale.steps.len() && (#[trigger] tale.steps[k] matches StepView::System {
            id,
            ..
        } && id < s.cache.len() && s.cache[id as int].output is Some) ==> k < reach(s)
    &&& match s.mode {
        Mode::AwaitingKey => s.pc < s.high_water,
        Mode::AwaitingTag { incorrect } => s.pc < s.high_water,
        Mode::Jumping { target, scan } => target <= tale.steps.len() && scan <= mark_after(
            tale,
            s.high_water,
            target as nat,
        ),
        Mode::Streaming { id } => s.pc < s.high_water && tale.steps[s.pc as int]
            == (StepView::System { cmd: tale.steps[s.pc as int]->cmd, id: id as nat }),
        Mode::Capturing { id, target, scan } => target <= tale.steps.len() && 0 < scan
            <= mark_after(tale, s.high_water, target as nat) && tale.steps[scan - 1]
            == (StepView::System { cmd: tale.steps[scan - 1]->cmd, id: id as nat }),
        _ => true,
    }
}

/// The state at the start of a playback.
pub open spec fn initial(tale: TaleView) -> TellingView {
    TellingView {
        pc: 0,
        high_water: 0,
        cache: Seq::new(tale.num_systems, |i: int| vacant()),
        style: standard_style(),
        mode: Mode::Running,
        printed: false,
        in_screen: false,
    }
}

/// The step at `k` runs a command whose output the cache does not hold.
pub open spec fn pending(tale: TaleView, cache: Seq<CacheEntryView>, k: int) -> bool {
    &&& 0 <= k < tale.steps.len()
    &&& tale.steps[k] matches StepView::System { id, .. }
    &&& id < cache.len()
    &&& cache[id as int].output is None
}

/// The first step from `from` up to and with `to` that runs a command whose
/// output the cache does not hold.
pub open spec fn next_pending(
    tale: TaleView,
    cache: Seq<CacheEntryView>,
    from: nat,
    to: nat,
) -> Option<nat>
    decreases to + 1 - from,
{
    if from > to || from >= tale.steps.len() {
        None
    } else if pending(tale, cache, from as int) {
        Some(from)
    } else {
        next_pending(tale, cache, from + 1, to)
    }
}

/// The high-water mark after the playback has reached the step `index`.
pub open spec fn mark_after(tale: TaleView, high_water: nat, index: nat) -> nat {
    let reached = if index < tale.steps.len() {
        index + 1
    } else {
        tale.steps.len()
    };
    if reached > high_water {
        reached
    } else {
        high_water
    }
}

/// An entry after the output `raw` has been offered to it: an entry is
/// written once.
pub open spec fn offered(entry: CacheEntryView, raw: Seq<u8>) -> CacheEntryView {
    if entry.output is Some {
        entry
    } else {
        filled(raw)
    }
}

/// What executing the step at the program counter does. The step counts as
/// visited from then on.
pub open spec fn run_step(tale: TaleView, s: TellingView) -> (TellingView, ActionView) {
    if s.pc >= tale.steps.len() {
        (TellingView { mode: Mode::Exited { interrupted: false }, ..s }, ActionView::Finished)
    } else {
        let here = TellingView { high_water: mark_after(tale, s.high_water, s.pc), ..s };
        let next = TellingView { pc: s.pc + 1, ..here };
        match tale.steps[s.pc as int] {
            StepView::Pause => (
                TellingView { mode: Mode::AwaitingKey, printed: false, ..here },
                ActionView::AwaitKey,
            ),
            StepView::Ps1 => (next, ActionView::Ps1),
            StepView::Show(line) => (next, ActionView::Show(line)),
            StepView::System { cmd, id } => {
                if id < s.cache.len() && s.cache[id as int].output is Some {
                    (
                        next,
                        ActionView::Replay {
                            output: to_terminal(s.cache[id as int].output->0),
                            newline: s.cache[id as int].requires_newline,
                        },
                    )
                } else {
                    (
                        TellingView { mode: Mode::Streaming { id: id as usize }, ..here },
                        ActionView::Execute { cmd, live: true },
                    )
                }
            },
            StepView::Sleep(millis) => (next, ActionView::Sleep(millis)),
            StepView::Stop => (
                TellingView { mode: Mode::Exited { interrupted: false }, ..here },
                ActionView::Finished,
            ),
            StepView::Type(text) => (next, ActionView::Type { text, speed: s.style.speed }),
            StepView::Clear => (next, ActionView::Clear),
            StepView::ScreenOpen => (
                TellingView { in_screen: true, ..next },
                ActionView::ScreenOpen,
            ),
            StepView::ScreenClose => (
                TellingView { in_screen: false, ..next },
                ActionView::ScreenClose,
            ),
            StepView::ShowCursor => (next, ActionView::ShowCursor),
            StepView::HideCursor => (next, ActionView::HideCursor),
            StepView::SetSpeed(speed) => (
                TellingView { style: StyleView { speed, ..s.style }, ..next },
                ActionView::Continue,
            ),
            StepView::SetTitle(title) => (next, ActionView::SetTitle(title)),
            StepView::SetCwd(cwd) => (
                TellingView { style: StyleView { cwd, ..s.style }, ..next },
                ActionView::Continue,
            ),
            StepView::SetHost(host) => (
                TellingView { style: StyleView { host, ..s.style }, ..next },
                ActionView::Continue,
            ),
            StepView::SetUser(user) => (
                TellingView { style: StyleView { user, ..s.style }, ..next },
                ActionView::Continue,
            ),
        }
    }
}

/// What a jump to `target` does next: it runs the first command at or after
/// `scan` and up to the target that has not run, or, where there is none,
/// lands on the target.
pub open spec fn catch_up(tale: TaleView, s: TellingView, target: nat, scan: nat) -> (
    TellingView,
    ActionView,
) {
    match next_pending(tale, s.cache, scan, target) {
        Some(k) => (
            TellingView {
                mode: Mode::Capturing {
                    id: tale.steps[k as int]->id as usize,
                    target: target as usize,
                    scan: (k + 1) as usize,
                },
                ..s
            },
            ActionView::Execute { cmd: tale.steps[k as int]->cmd, live: false },
        ),
        None => (
            TellingView {
                pc: target,
                high_water: mark_after(tale, s.high_water, target),
                mode: Mode::Running,
                ..s
            },
            ActionView::Continue,
        ),
    }
}

/// What the engine does when the driver has done what it was asked.
pub open spec fn on_resume(tale: TaleView, s: TellingView) -> (TellingView, ActionView) {
    match s.mode {
        Mode::Running => run_step(tale, s),
        Mode::AwaitingKey => (s, ActionView::AwaitKey),
        Mode::AwaitingTag { incorrect } => (
            TellingView { printed: true, ..s },
            ActionView::AskTag(tag_prompt(s.printed, incorrect)),
        ),
        Mode::Jumping { target, scan } => catch_up(tale, s, target as nat, scan as nat),
        Mode::Streaming { .. } => (s, ActionView::Ignored),
        Mode::Capturing { .. } => (s, ActionView::Ignored),
        Mode::Exited { interrupted } => (
            s,
            if interrupted {
                ActionView::Interrupted
            } else {
                ActionView::Finished
            },
        ),
    }
}

/// What the engine does with a key.
pub open spec fn on_key(s: TellingView, code: Option<char>, control: bool) -> (
    TellingView,
    ActionView,
) {
    if s.mode != Mode::AwaitingKey {
        (s, ActionView::Ignored)
    } else {
        match intent_of(code, control) {
            Intent::Interrupt => (
                TellingView { mode: Mode::Exited { interrupted: true }, ..s },
                ActionView::Interrupted,
            ),
            Intent::Help => (
                TellingView { printed: true, ..s },
                ActionView::Say(help_text(s.printed)),
            ),
            Intent::Exit => (
                TellingView { mode: Mode::Exited { interrupted: false }, ..s },
                ActionView::Finished,
            ),
            Intent::Jump => (
                TellingView { mode: Mode::AwaitingTag { incorrect: false }, printed: true, ..s },
                ActionView::AskTag(tag_prompt(s.printed, false)),
            ),
            Intent::Advance => (
                TellingView { pc: s.pc + 1, mode: Mode::Running, ..s },
                ActionView::Continue,
            ),
        }
    }
}

/// What the engine does with an event of the terminal that is no key.
pub open spec fn on_other(s: TellingView) -> (TellingView, ActionView) {
    if s.mode == Mode::AwaitingKey {
        (s, ActionView::AwaitKey)
    } else {
        (s, ActionView::Ignored)
    }
}

/// What the engine does with a line entered at the jump prompt: nothing but
/// white space gives the jump up; `?` lists the tags; a tag starts the jump;
/// anything else is asked for again.
pub open spec fn on_line(tale: TaleView, s: TellingView, line: Seq<char>) -> (
    TellingView,
    ActionView,
) {
    match s.mode {
        Mode::AwaitingTag { incorrect } => {
            let name = trimmed(line);
            if name.len() == 0 {
                (TellingView { mode: Mode::AwaitingKey, ..s }, ActionView::Say(cancelled_text()))
            } else if name == seq!['?'] {
                (s, ActionView::ListTags)
            } else if tale.tags.dom().contains(name) {
                (
                    TellingView {
                        mode: Mode::Jumping {
                            target: tale.tags[name] as usize,
                            scan: s.high_water as usize,
                        },
                        ..s
                    },
                    ActionView::Continue,
                )
            } else {
                (
                    TellingView { mode: Mode::AwaitingTag { incorrect: true }, printed: true, ..s },
                    ActionView::AskTag(tag_prompt(s.printed, true)),
                )
            }
        },
        _ => (s, ActionView::Ignored),
    }
}

/// What the engine does with the output of a command.
pub open spec fn on_output(s: TellingView, raw: Seq<u8>) -> (TellingView, ActionView) {
    match s.mode {
        Mode::Streaming { id } => {
            if id < s.cache.len() {
                let entry = offered(s.cache[id as int], raw);
                (
                    TellingView {
                        cache: s.cache.update(id as int, entry),
                        pc: s.pc + 1,
                        mode: Mode::Running,
                        ..s
                    },
                    ActionView::Streamed { marker: entry.requires_newline },
                )
            } else {
                (s, ActionView::Ignored)
            }
        },
        Mode::Capturing { id, target, scan } => {
            if id < s.cache.len() {
                (
                    TellingView {
                        cache: s.cache.update(id as int, offered(s.cache[id as int], raw)),
                        mode: Mode::Jumping { target, scan },
                        ..s
                    },
                    ActionView::Continue,
                )
            } else {
                (s, ActionView::Ignored)
            }
        },
        _ => (s, ActionView::Ignored),
    }
}

/// The transition function of the playback: the next state and what the
/// driver is to do.
pub open spec fn step_spec(tale: TaleView, s: TellingView, event: EventView) -> (
    TellingView,
    ActionView,
) {
    match event {
        EventView::Resume => on_resume(tale, s),
        EventView::Key { code, control } => on_key(s, code, control),
        EventView::Other => on_other(s),
        EventView::Line(line) => on_line(tale, s, line),
        EventView::Output(raw) => on_output(s, raw),
    }
}

/// Whether the engine answers `event` by asking for the command `id` to
/// be run.
pub open spec fn asks_to_run(tale: TaleView, s: TellingView, event: EventView, id: nat) -> bool {
    step_spec(tale, s, event).1 is Execute && awaits(step_spec(tale, s, event).0.mode, id)
}

/// The state after a series of events.
pub open spec fn run_events(tale: TaleView, s: TellingView, events: Seq<EventView>) -> TellingView
    decreases events.len(),
{
    if events.len() == 0 {
        s
    } else {
        run_events(tale, step_spec(tale, s, events[0]).0, events.drop_first())
    }
}

/// How often the engine asks for the command `id` to be run in the course
/// of a series of events.
pub open spec fn times_run(
    tale: TaleView,
    s: TellingView,
    events: Seq<EventView>,
    id: nat,
) -> nat
    decreases events.len(),
{
    if events.len() == 0 {
        0
    } else {
        (if asks_to_run(tale, s, events[0], id) {
            1nat
        } else {
            0nat
        }) + times_run(tale, step_spec(tale, s, events[0]).0, events.drop_first(), id)
    }
}

/// What [`next_pending`] finds is the first command within the range whose
/// output the cache does not hold; where it finds none, there is none.
pub proof fn lemma_next_pending(tale: TaleView, cache: Seq<CacheEntryView>, from: nat, to: nat)
    ensures
        match next_pending(tale, cache, from, to) {
            Some(k) => from <= k <= to && pending(tale, cache, k as int) && forall|j: int|
                from <= j < k ==> !#[trigger] pending(tale, cache, j),
            None => forall|j: int| from <= j <= to ==> !#[trigger] pending(tale, cache, j),
        },
    decreases to + 1 - from,
{
    if from > to || from >= tale.steps.len() {
    } else if pending(tale, cache, from as int) {
    } else {
        lemma_next_pending(tale, cache, from + 1, to);
    }
}

/// Executing a step leaves a state that fits the session.
proof fn lemma_run_step_wf(tale: TaleView, s: TellingView)
    requires
        telling_wf(tale, s),
        s.mode == Mode::Running,
    ensures
        telling_wf(tale, run_step(tale, s).0),
{
    let t = run_step(tale, s).0;
    assert forall|k: int| 0 <= k < reach(t) implies #[trigger] settled(tale, t, k) by {
        if k < reach(s) {
            assert(settled(tale, s, k));
        }
    }
}

/// Going on with a jump leaves a state that fits the session.
proof fn lemma_catch_up_wf(tale: TaleView, s: TellingView, target: nat, scan: nat)
    requires
        telling_wf(tale, s),
        s.mode == (Mode::Jumping { target: target as usize, scan: scan as usize }),
        target <= usize::MAX,
        scan <= usize::MAX,
    ensures
        telling_wf(tale, catch_up(tale, s, target, scan).0),
{
    let t = catch_up(tale, s, target, scan).0;
    lemma_next_pending(tale, s.cache, scan, target);
    assert forall|k: int| 0 <= k < reach(t) implies #[trigger] settled(tale, t, k) by {
        if k < reach(s) {
            assert(settled(tale, s, k));
        } else {
            assert(!pending(tale, s.cache, k) || next_pending(tale, s.cache, scan, target) == Some(
                k as nat,
            ));
        }
    }
}

/// A key leaves a state that fits the session.
proof fn lemma_on_key_wf(tale: TaleView, s: TellingView, code: Option<char>, control: bool)
    requires
        telling_wf(tale, s),
    ensures
        telling_wf(tale, on_key(s, code, control).0),
{
    let t = on_key(s, code, control).0;
    assert forall|k: int| 0 <= k < reach(t) implies #[trigger] settled(tale, t, k) by {
        assert(settled(tale, s, k));
    }
}

/// A line at the jump prompt leaves a state that fits the session.
proof fn lemma_on_line_wf(tale: TaleView, s: TellingView, line: Seq<char>)
    requires
        telling_wf(tale, s),
    ensures
        telling_wf(tale, on_line(tale, s, line).0),
{
    let t = on_line(tale, s, line).0;
    assert forall|k: int| 0 <= k < reach(t) implies #[trigger] settled(tale, t, k) by {
        assert(settled(tale, s, k));
    }
}

/// The output of a command leaves a state that fits the session.
proof fn lemma_on_output_wf(tale: TaleView, s: TellingView, raw: Seq<u8>)
    requires
        telling_wf(tale, s),
    ensures
        telling_wf(tale, on_output(s, raw).0),
{
    let t = on_output(s, raw).0;
    assert forall|k: int| 0 <= k < reach(t) implies #[trigger] settled(tale, t, k) by {
        assert(settled(tale, s, k));
    }
    match s.mode {
        Mode::Streaming { id } => {
            let at = s.pc as int;
            assert(tale.steps[at] is System);
            assert forall|k: int|
                0 <= k < tale.steps.len() && (#[trigger] tale.steps[k] matches StepView::System {
                    id: other,
                    ..
                } && other < t.cache.len() && t.cache[other as int].output is Some) implies k
                < reach(t) by {
                if tale.steps[k]->id == id as nat && k != at {
                    assert(tale.steps[k] is System && tale.steps[at] is System);
                }
            }
        },
        Mode::Capturing { id, target, scan } => {
            let at = scan - 1;
            assert(tale.steps[at] is System);
            assert forall|k: int|
                0 <= k < tale.steps.len() && (#[trigger] tale.steps[k] matches StepView::System {
                    id: other,
                    ..
                } && other < t.cache.len() && t.cache[other as int].output is Some) implies k
                < reach(t) by {
                if tale.steps[k]->id == id as nat && k != at {
                    assert(tale.steps[k] is System && tale.steps[at] is System);
                }
            }
        },
        _ => {},
    }
}

/// Every transition leaves a state that fits the session.
pub proof fn lemma_step_wf(tale: TaleView, s: TellingView, event: EventView)
    requires
        telling_wf(tale, s),
    ensures
        telling_wf(tale, step_spec(tale, s, event).0),
        step_spec(tale, s, event).0.cache.len() == s.cache.len(),
{
    match event {
        EventView::Resume => match s.mode {
            Mode::Running => {
                lemma_run_step_wf(tale, s);
            },
            Mode::Jumping { target, scan } => {
                lemma_catch_up_wf(tale, s, target as nat, scan as nat);
            },
            Mode::AwaitingTag { incorrect } => {
                let t = on_resume(tale, s).0;
                assert forall|k: int| 0 <= k < reach(t) implies #[trigger] settled(tale, t, k) by {
                    assert(settled(tale, s, k));
                }
            },
            _ => {},
        },
        EventView::Key { code, control } => {
            lemma_on_key_wf(tale, s, code, control);
        },
        EventView::Other => {},
        EventView::Line(line) => {
            lemma_on_line_wf(tale, s, line);
        },
        EventView::Output(raw) => {
            lemma_on_output_wf(tale, s, raw);
        },
    }
}

/// An entry of the cache is written once: no transition changes an entry
/// that holds an output.
pub proof fn lemma_output_is_kept(tale: TaleView, s: TellingView, event: EventView, id: nat)
    requires
        id < s.cache.len(),
        s.cache[id as int].output is Some,
    ensures
        step_spec(tale, s, event).0.cache.len() == s.cache.len(),
        step_spec(tale, s, event).0.cache[id as int] == s.cache[id as int],
{
}

/// The step `step` runs the command that the engine asks for in answer to
/// `event`, the cache does not hold its output, and the engine waits for it.
pub open spec fn runs_first(
    tale: TaleView,
    s: TellingView,
    event: EventView,
    step: StepView,
) -> bool {
    &&& step matches StepView::System { cmd, id }
    &&& id < s.cache.len()
    &&& s.cache[id as int].output is None
    &&& awaits(step_spec(tale, s, event).0.mode, id)
    &&& step_spec(tale, s, event).1->Execute_cmd == cmd
}

/// The engine asks for a command to be run only where the cache does not
/// hold its output, never while it waits for the output of a command, and it
/// waits for the output from then on.
pub proof fn lemma_run_is_first(tale: TaleView, s: TellingView, event: EventView)
    requires
        telling_wf(tale, s),
        step_spec(tale, s, event).1 is Execute,
    ensures
        !(s.mode is Streaming),
        !(s.mode is Capturing),
        exists|k: int|
            0 <= k < tale.steps.len() && runs_first(tale, s, event, #[trigger] tale.steps[k]),
{
    match s.mode {
        Mode::Jumping { target, scan } => {
            lemma_next_pending(tale, s.cache, scan as nat, target as nat);
            let k = next_pending(tale, s.cache, scan as nat, target as nat)->0;
            assert(runs_first(tale, s, event, tale.steps[k as int]));
        },
        Mode::Running => {
            assert(runs_first(tale, s, event, tale.steps[s.pc as int]));
        },
        _ => {},
    }
}

/// What the engine shows again is what the cache holds for the command of
/// the current step, rewritten for the terminal.
pub proof fn law_replay_shows_the_cache(tale: TaleView, s: TellingView, event: EventView)
    requires
        telling_wf(tale, s),
        step_spec(tale, s, event).1 is Replay,
    ensures
        s.pc < tale.steps.len(),
        ({
            &&& tale.steps[s.pc as int] matches StepView::System { id, .. }
            &&& id < s.cache.len()
            &&& s.cache[id as int].output matches Some(raw)
            &&& step_spec(tale, s, event).1 == (ActionView::Replay {
                output: to_terminal(raw),
                newline: s.cache[id as int].requires_newline,
            })
        }),
{
    match s.mode {
        Mode::Jumping { target, scan } => {
            lemma_next_pending(tale, s.cache, scan as nat, target as nat);
        },
        _ => {},
    }
}

/// A playback that is over stays over: whatever is reported to it, the
/// state does not change and nothing is asked of the driver but to take
/// note of the end.
pub proof fn law_over_is_over(tale: TaleView, s: TellingView, event: EventView)
    requires
        s.mode is Exited,
    ensures
        step_spec(tale, s, event).0 == s,
        step_spec(tale, s, event).1 == (if event is Resume {
            if s.mode->interrupted {
                ActionView::Interrupted
            } else {
                ActionView::Finished
            }
        } else {
            ActionView::Ignored
        }),
{
}

/// Every command at a step below the high-water mark has run, unless the
/// engine is waiting for its output.
pub proof fn law_visited_commands_have_run(tale: TaleView, s: TellingView, k: int)
    requires
        telling_wf(tale, s),
        0 <= k < s.high_water,
        tale.steps[k] is System,
        !awaits(s.mode, tale.steps[k]->id),
    ensures
        tale.steps[k]->id < s.cache.len(),
        s.cache[tale.steps[k]->id as int].output is Some,
{
    assert(settled(tale, s, k));
}

/// Whether a command is run or shown again is a matter of the high-water
/// mark: at a step that the playback has visited before, the command's
/// output is shown again from the cache; at a step that it visits for the
/// first time, the command is run.
pub proof fn law_replay_iff_visited(tale: TaleView, s: TellingView)
    requires
        telling_wf(tale, s),
        s.mode == Mode::Running,
        s.pc < tale.steps.len(),
        tale.steps[s.pc as int] is System,
    ensures
        s.pc < s.high_water ==> run_step(tale, s).1 is Replay,
        s.pc >= s.high_water ==> run_step(tale, s).1 == (ActionView::Execute {
            cmd: tale.steps[s.pc as int]->cmd,
            live: true,
        }),
{
    if s.pc < s.high_water {
        assert(settled(tale, s, s.pc as int));
    }
}

/// A jump to a step that the playback has visited runs no command: the
/// playback goes on at the target with the cache as it is.
pub proof fn law_jump_back_runs_nothing(tale: TaleView, s: TellingView, target: usize)
    requires
        telling_wf(tale, s),
        s.mode == (Mode::Jumping { target, scan: s.high_water as usize }),
        target < s.high_water,
    ensures
        on_resume(tale, s) == (
            TellingView { pc: target as nat, mode: Mode::Running, ..s },
            ActionView::Continue,
        ),
{
}

/// A jump forward runs every command that it passes and that has not run:
/// when the playback lands on the target, every command up to and with the
/// target has run.
pub proof fn law_jump_catches_up(tale: TaleView, s: TellingView, k: int)
    requires
        telling_wf(tale, s),
        s.mode is Jumping,
        on_resume(tale, s).1 is Continue,
        0 <= k <= s.mode->Jumping_target,
        k < tale.steps.len(),
        tale.steps[k] is System,
    ensures
        on_resume(tale, s).0.pc == s.mode->Jumping_target,
        on_resume(tale, s).0.mode == Mode::Running,
        on_resume(tale, s).0.cache == s.cache,
        tale.steps[k]->id < s.cache.len(),
        s.cache[tale.steps[k]->id as int].output is Some,
{
    let t = on_resume(tale, s).0;
    lemma_step_wf(tale, s, EventView::Resume);
    lemma_next_pending(tale, s.cache, s.mode->Jumping_scan as nat, s.mode->Jumping_target as nat);
    assert(settled(tale, t, k));
}

/// Whatever the operator does, each command is run at most once: in the
/// course of any series of events the engine asks at most once for the
/// command `id` to be run, and never where its output is held or awaited
/// already.
pub proof fn law_runs_once(tale: TaleView, s: TellingView, events: Seq<EventView>, id: nat)
    requires
        telling_wf(tale, s),
        id < s.cache.len(),
    ensures
        times_run(tale, s, events, id) <= 1,
        s.cache[id as int].output is Some || awaits(s.mode, id) ==> times_run(
            tale,
            s,
            events,
            id,
        ) == 0,
    decreases events.len(),
{
    if events.len() > 0 {
        let event = events[0];
        let next = step_spec(tale, s, event).0;
        lemma_step_wf(tale, s, event);
        law_runs_once(tale, next, events.drop_first(), id);
        if step_spec(tale, s, event).1 is Execute {
            lemma_run_is_first(tale, s, event);
        }
        if s.cache[id as int].output is Some {
            lemma_output_is_kept(tale, s, event, id);
        }
    }
}

/// Once a command has printed `raw`, the cache holds `raw` for it whatever
/// follows: every later showing of the command reproduces these bytes.
pub proof fn law_replay_reproduces(
    tale: TaleView,
    s: TellingView,
    raw: Seq<u8>,
    events: Seq<EventView>,
    id: nat,
)
    requires
        telling_wf(tale, s),
        awaits(s.mode, id),
        s.cache[id as int].output is None,
    ensures
        run_events(tale, step_spec(tale, s, EventView::Output(raw)).0, events).cache[id as int]
            == filled(raw),
{
    let first = step_spec(tale, s, EventView::Output(raw)).0;
    lemma_step_wf(tale, s, EventView::Output(raw));
    assert(first.cache[id as int] == filled(raw));
    lemma_kept_throughout(tale, first, events, id);
}

/// An output that the cache holds stays as it is, whatever follows.
pub proof fn lemma_kept_throughout(
    tale: TaleView,
    s: TellingView,
    events: Seq<EventView>,
    id: nat,
)
    requires
        id < s.cache.len(),
        s.cache[id as int].output is Some,
    ensures
        run_events(tale, s, events).cache.len() == s.cache.len(),
        run_events(tale, s, events).cache[id as int] == s.cache[id as int],
    decreases events.len(),
{
    if events.len() > 0 {
        lemma_output_is_kept(tale, s, events[0], id);
        lemma_kept_throughout(tale, step_spec(tale, s, events[0]).0, events.drop_first(), id);
    }
}

/// Builds the help that a pause shows.
fn help(printed: bool) -> (text: String)
    ensures
        text@ == help_text(printed),
{
    let mut text = String::new();
    if !printed {
        text.append("\r\n");
    }
    text.append(
        "mendax: press '/' to jump to a tag, '!' to exit, 'h' or '?' to show this help\r\n",
    );
    text
}

/// Builds the prompt for a tag.
fn ask(printed: bool, incorrect: bool) -> (text: String)
    ensures
        text@ == tag_prompt(printed, incorrect),
{
    let mut text = String::new();
    if !printed {
        text.append("\r\n");
    }
    if incorrect {
        text.append("mendax: tag incorrect; enter tag or '?' to list available: ");
    } else {
        text.append("mendax: enter tag: ");
    }
    text
}

/// A playback in progress: a compiled session, the place in it, and what
/// the commands run so far have printed.
pub struct Telling {
    tale: Tale,
    pc: usize,
    high_water: usize,
    cache: Vec<SystemCacheEntry>,
    style: Style,
    mode: Mode,
    printed: bool,
    in_screen: bool,
}

impl View for Telling {
    type V = TellingView;

    closed spec fn view(&self) -> TellingView {
        TellingView {
            pc: self.pc as nat,
            high_water: self.high_water as nat,
            cache: self.cache.deep_view(),
            style: self.style.deep_view(),
            mode: self.mode,
            printed: self.printed,
            in_screen: self.in_screen,
        }
    }
}

impl Telling {
    /// The session that is played.
    pub closed spec fn tale_view(&self) -> TaleView {
        self.tale.deep_view()
    }

    /// The state fits the session.
    pub open spec fn wf(&self) -> bool {
        telling_wf(self.tale_view(), self@)
    }

    /// Starts a playback at the first step, with an empty cache and the
    /// standard looks.
    pub fn new(tale: Tale) -> (telling: Telling)
        ensures
            telling.wf(),
            telling.tale_view() == tale.deep_view(),
            telling@ == initial(tale.deep_view()),
    {
        proof {
            use_type_invariant(&tale);
        }
        let n: usize = tale.num_systems();
        let mut cache: Vec<SystemCacheEntry> = Vec::new();
        let mut i: usize = 0;
        while i < n
            invariant
                i <= n,
                cache.len() == i,
                forall|j: int| 0 <= j < i ==> (#[trigger] cache[j]).deep_view() == vacant(),
            decreases n - i,
        {
            cache.push(SystemCacheEntry::new());
            i += 1;
        }
        assert(cache.deep_view() =~= Seq::new(n as nat, |i: int| vacant()));
        let _ = tale.steps().len();
        Telling {
            tale,
            pc: 0,
            high_water: 0,
            cache,
            style: Style::default(),
            mode: Mode::Running,
            printed: false,
            in_screen: false,
        }
    }

    /// The index of the step to execute next.
    pub fn pc(&self) -> (pc: usize)
        ensures
            pc == self@.pc,
    {
        self.pc
    }

    /// The high-water mark: the number of steps from the start on that the
    /// playback has visited.
    pub fn high_water(&self) -> (mark: usize)
        ensures
            mark == self@.high_water,
    {
        self.high_water
    }

    /// What the engine is doing.
    pub fn mode(&self) -> (mode: Mode)
        ensures
            mode == self@.mode,
    {
        self.mode
    }

    /// The looks as they are now.
    pub fn style(&self) -> (style: &Style)
        ensures
            style.deep_view() == self@.style,
    {
        &self.style
    }

    /// The session that is played.
    pub fn tale(&self) -> (tale: &Tale)
        ensures
            tale.deep_view() == self.tale_view(),
    {
        &self.tale
    }

    /// Whether the alternate screen is shown. A driver that ends the
    /// playback leaves the alternate screen where this holds.
    pub fn in_screen(&self) -> (b: bool)
        ensures
            b == self@.in_screen,
    {
        self.in_screen
    }

    /// How the playback ended, once it has: well, or with the failure that
    /// the operator's interrupt is.
    pub fn outcome(&self) -> (outcome: Option<Result<(), MendaxError>>)
        ensures
            match self@.mode {
                Mode::Exited { interrupted } => outcome matches Some(end) && if interrupted {
                    end matches Err(failure) && failure.deep_view()
                        == ErrorView::KeyboardInterrupt
                } else {
                    end is Ok
                },
                _ => outcome is None,
            },
    {
        match self.mode {
            Mode::Exited { interrupted } => {
                if interrupted {
                    Some(Err(MendaxError::KeyboardInterrupt))
                } else {
                    Some(Ok(()))
                }
            },
            _ => None,
        }
    }

    /// The cache entry of the command with the id `id`.
    pub fn cached(&self, id: usize) -> (entry: Option<&SystemCacheEntry>)
        ensures
            entry is Some <==> id < self@.cache.len(),
            entry matches Some(e) ==> e.deep_view() == self@.cache[id as int],
    {
        if id < self.cache.len() {
            Some(&self.cache[id])
        } else {
            None
        }
    }

    /// Executes the step at the program counter.
    fn run(&mut self) -> (action: Action)
        requires
            old(self).wf(),
            old(self)@.mode == Mode::Running,
        ensures
            final(self).wf(),
            final(self).tale_view() == old(self).tale_view(),
            (final(self)@, action.deep_view()) == run_step(old(self).tale_view(), old(self)@),
    {
        let pc: usize = self.pc;
        let ghost tale = self.tale_view();
        proof {
            lemma_run_step_wf(tale, self@);
        }
        let steps: &Vec<Step> = self.tale.steps();
        if pc >= steps.len() {
            self.mode = Mode::Exited { interrupted: false };
            return Action::Finished;
        }
        assert(tale.steps[pc as int] == steps[pc as int].deep_view());
        if pc + 1 > self.high_water {
            self.high_water = pc + 1;
        }
        match &steps[pc] {
            Step::Pause => {
                self.mode = Mode::AwaitingKey;
                self.printed = false;
                Action::AwaitKey
            },
            Step::Ps1 => {
                self.pc = pc + 1;
                Action::Ps1
            },
            Step::Show(line) => {
                self.pc = pc + 1;
                Action::Show(line.clone())
            },
            Step::System(system) => {
                let id: usize = system.id();
                assert(self.cache.deep_view()[id as int] == self.cache[id as int].deep_view());
                match self.cache[id].output() {
                    Some(bytes) => {
                        let output: Vec<u8> = terminal_bytes(bytes);
                        let newline: bool = self.cache[id].requires_newline();
                        self.pc = pc + 1;
                        Action::Replay { output, newline }
                    },
                    None => {
                        self.mode = Mode::Streaming { id };
                        Action::Execute { cmd: String::from_str(system.cmd()), live: true }
                    },
                }
            },
            Step::Sleep(millis) => {
                self.pc = pc + 1;
                Action::Sleep(*millis)
            },
            Step::Stop => {
                self.mode = Mode::Exited { interrupted: false };
                Action::Finished
            },
            Step::Type(text) => {
                self.pc = pc + 1;
                Action::Type { text: text.clone(), speed: self.style.speed().duplicate() }
            },
            Step::Clear => {
                self.pc = pc + 1;
                Action::Clear
            },
            Step::ScreenOpen => {
                self.pc = pc + 1;
                self.in_screen = true;
                Action::ScreenOpen
            },
            Step::ScreenClose => {
                self.pc = pc + 1;
                self.in_screen = false;
                Action::ScreenClose
            },
            Step::ShowCursor => {
                self.pc = pc + 1;
                Action::ShowCursor
            },
            Step::HideCursor => {
                self.pc = pc + 1;
                Action::HideCursor
            },
            Step::SetSpeed(speed) => {
                self.pc = pc + 1;
                self.style.set_speed(speed.duplicate());
                Action::Continue
            },
            Step::SetTitle(title) => {
                self.pc = pc + 1;
                Action::SetTitle(title.clone())
            },
            Step::SetCwd(cwd) => {
                self.pc = pc + 1;
                self.style.set_cwd(cwd.clone());
                Action::Continue
            },
            Step::SetHost(host) => {
                self.pc = pc + 1;
                self.style.set_host(host.clone());
                Action::Continue
            },
            Step::SetUser(user) => {
                self.pc = pc + 1;
                self.style.set_user(user.clone());
                Action::Continue
            },
        }
    }

    /// Goes on with a jump to `target`.
    fn catch_up(&mut self, target: usize, scan: usize) -> (action: Action)
        requires
            old(self).wf(),
            old(self)@.mode == (Mode::Jumping { target, scan }),
        ensures
            final(self).wf(),
            final(self).tale_view() == old(self).tale_view(),
            (final(self)@, action.deep_view()) == catch_up(
                old(self).tale_view(),
                old(self)@,
                target as nat,
                scan as nat,
            ),
    {
        let ghost tale = self.tale_view();
        let ghost cache = self@.cache;
        proof {
            lemma_catch_up_wf(tale, self@, target as nat, scan as nat);
        }
        let steps: &Vec<Step> = self.tale.steps();
        let mut k: usize = scan;
        while k <= target && k < steps.len()
            invariant
                steps.deep_view() == tale.steps,
                self.wf(),
                self.tale_view() == tale,
                tale == old(self).tale_view(),
                target <= tale.steps.len(),
                self@ == old(self)@,
                telling_wf(tale, catch_up(tale, self@, target as nat, scan as nat).0),
                cache == self@.cache,
                next_pending(tale, cache, scan as nat, target as nat) == next_pending(
                    tale,
                    cache,
                    k as nat,
                    target as nat,
                ),
            decreases steps.len() - k,
        {
            assert(tale.steps[k as int] == steps[k as int].deep_view());
            if let Step::System(system) = &steps[k] {
                let id: usize = system.id();
                assert(self.cache.deep_view()[id as int] == self.cache[id as int].deep_view());
                if self.cache[id].output().is_none() {
                    self.mode = Mode::Capturing { id, target, scan: k + 1 };
                    return Action::Execute { cmd: String::from_str(system.cmd()), live: false };
                }
            }
            k += 1;
        }
        self.pc = target;
        let reached: usize = if target < steps.len() {
            target + 1
        } else {
            steps.len()
        };
        if reached > self.high_water {
            self.high_water = reached;
        }
        self.mode = Mode::Running;
        Action::Continue
    }

    /// Reacts to the driver having done what it was asked.
    fn resume(&mut self) -> (action: Action)
        requires
            old(self).wf(),
        ensures
            final(self).wf(),
            final(self).tale_view() == old(self).tale_view(),
            (final(self)@, action.deep_view()) == on_resume(old(self).tale_view(), old(self)@),
    {
        proof {
            lemma_step_wf(self.tale_view(), self@, EventView::Resume);
        }
        match self.mode {
            Mode::Running => self.run(),
            Mode::AwaitingKey => Action::AwaitKey,
            Mode::AwaitingTag { incorrect } => {
                let prompt: String = ask(self.printed, incorrect);
                self.printed = true;
                Action::AskTag(prompt)
            },
            Mode::Jumping { target, scan } => self.catch_up(target, scan),
            Mode::Streaming { .. } => Action::Ignored,
            Mode::Capturing { .. } => Action::Ignored,
            Mode::Exited { interrupted } => {
                if interrupted {
                    Action::Interrupted
                } else {
                    Action::Finished
                }
            },
        }
    }

    /// Reacts to a key.
    fn key(&mut self, code: Option<char>, control: bool) -> (action: Action)
        requires
            old(self).wf(),
        ensures
            final(self).wf(),
            final(self).tale_view() == old(self).tale_view(),
            (final(self)@, action.deep_view()) == on_key(old(self)@, code, control),
    {
        proof {
            lemma_on_key_wf(self.tale_view(), self@, code, control);
        }
        match self.mode {
            Mode::AwaitingKey => {},
            _ => {
                return Action::Ignored;
            },
        }
        match intent(code, control) {
            Intent::Interrupt => {
                self.mode = Mode::Exited { interrupted: true };
                Action::Interrupted
            },
            Intent::Help => {
                let text: String = help(self.printed);
                self.printed = true;
                Action::Say(text)
            },
            Intent::Exit => {
                self.mode = Mode::Exited { interrupted: false };
                Action::Finished
            },
            Intent::Jump => {
                let prompt: String = ask(self.printed, false);
                self.mode = Mode::AwaitingTag { incorrect: false };
                self.printed = true;
                Action::AskTag(prompt)
            },
            Intent::Advance => {
                self.pc = self.pc + 1;
                self.mode = Mode::Running;
                Action::Continue
            },
        }
    }

    /// Reacts to an event of the terminal that is no key.
    fn other(&mut self) -> (action: Action)
        requires
            old(self).wf(),
        ensures
            final(self).wf(),
            final(self).tale_view() == old(self).tale_view(),
            (final(self)@, action.deep_view()) == on_other(old(self)@),
    {
        match self.mode {
            Mode::AwaitingKey => Action::AwaitKey,
            _ => Action::Ignored,
        }
    }

    /// Reacts to a line entered at the jump prompt.
    fn line(&mut self, line: String) -> (action: Action)
        requires
            old(self).wf(),
        ensures
            final(self).wf(),
            final(self).tale_view() == old(self).tale_view(),
            (final(self)@, action.deep_view()) == on_line(
                old(self).tale_view(),
                old(self)@,
                line@,
            ),
    {
        proof {
            lemma_on_line_wf(self.tale_view(), self@, line@);
        }
        match self.mode {
            Mode::AwaitingTag { incorrect } => {
                let name: &str = trim(line.as_str());
                proof {
                    reveal_strlit("?");
                    assert("?"@ =~= seq!['?']);
                }
                if name.is_empty() {
                    self.mode = Mode::AwaitingKey;
                    Action::Say(String::from_str("mendax: jump cancelled\r\n"))
                } else if str_equal(name, "?") {
                    Action::ListTags
                } else {
                    match self.tale.tags().get(name) {
                        Some(target) => {
                            self.mode = Mode::Jumping { target, scan: self.high_water };
                            Action::Continue
                        },
                        None => {
                            let prompt: String = ask(self.printed, true);
                            self.mode = Mode::AwaitingTag { incorrect: true };
                            self.printed = true;
                            Action::AskTag(prompt)
                        },
                    }
                }
            },
            _ => Action::Ignored,
        }
    }

    /// Reacts to the output of a command.
    fn output(&mut self, raw: Vec<u8>) -> (action: Action)
        requires
            old(self).wf(),
        ensures
            final(self).wf(),
            final(self).tale_view() == old(self).tale_view(),
            (final(self)@, action.deep_view()) == on_output(old(self)@, raw@),
    {
        proof {
            lemma_on_output_wf(self.tale_view(), self@, raw@);
        }
        match self.mode {
            Mode::Streaming { id } => {
                let ghost before = self.cache.deep_view();
                self.cache[id].fill(raw);
                let marker: bool = self.cache[id].requires_newline();
                assert(self.cache.deep_view() =~= before.update(
                    id as int,
                    offered(before[id as int], raw@),
                ));
                self.pc = self.pc + 1;
                self.mode = Mode::Running;
                Action::Streamed { marker }
            },
            Mode::Capturing { id, target, scan } => {
                let ghost before = self.cache.deep_view();
                self.cache[id].fill(raw);
                assert(self.cache.deep_view() =~= before.update(
                    id as int,
                    offered(before[id as int], raw@),
                ));
                self.mode = Mode::Jumping { target, scan };
                Action::Continue
            },
            _ => Action::Ignored,
        }
    }

    /// Takes the playback one transition further: reacts to what the driver
    /// reports and tells it what to do next.
    pub fn step(&mut self, event: Event) -> (action: Action)
        requires
            old(self).wf(),
        ensures
            final(self).wf(),
            final(self).tale_view() == old(self).tale_view(),
            (final(self)@, action.deep_view()) == step_spec(
                old(self).tale_view(),
                old(self)@,
                event.deep_view(),
            ),
    {
        match event {
            Event::Resume => self.resume(),
            Event::Key { code, control } => self.key(code, control),
            Event::Other => self.other(),
            Event::Line(line) => self.line(line),
            Event::Output(raw) => self.output(raw),
        }
    }
}

impl Tale {
    /// Starts the playback of this session.
    pub fn tell(self) -> (telling: Telling)
        ensures
            telling.wf(),
            telling.tale_view() == self.deep_view(),
            telling@ == initial(self.deep_view()),
    {
        Telling::new(self)
    }
}

} // verus!
