//! The compiler: from the actions of a session to the steps of its playback.

use crate::bookmarks::Bookmarks;
use crate::fib::{lemma_screen_view, Fib, FibView};
use crate::lie::Lie;
use crate::speed::Speed;
use crate::text::{
    ascending, ends_mid_line, sort_names, terminal_bytes, to_terminal, unterminated,
};
use vstd::prelude::*;
use vstd::string::*;

verus! {

/// A command that the playback really runs. Its `id` is its place in the
/// cache of command output.
#[derive(Debug, PartialEq, Eq)]
pub struct System {
    cmd: String,
    id: usize,
}

/// One instruction of the playback.
#[derive(Debug, PartialEq, Eq)]
pub enum Step {
    /// Wait for the operator.
    Pause,
    /// Show the prompt.
    Ps1,
    /// Print a line.
    Show(String),
    /// Run a command, or show again what it printed before.
    System(System),
    /// Wait for so many milliseconds.
    Sleep(u64),
    /// End the playback.
    Stop,
    /// Type a text, character by character.
    Type(String),
    /// Clear the screen.
    Clear,
    /// Enter the alternate screen.
    ScreenOpen,
    /// Leave the alternate screen.
    ScreenClose,
    ShowCursor,
    HideCursor,
    SetSpeed(Speed),
    SetTitle(String),
    SetCwd(String),
    SetHost(String),
    SetUser(String),
}

/// The view of a [`Step`].
pub enum StepView {
    Pause,
    Ps1,
    Show(Seq<char>),
    System { cmd: Seq<char>, id: nat },
    Sleep(u64),
    Stop,
    Type(Seq<char>),
    Clear,
    ScreenOpen,
    ScreenClose,
    ShowCursor,
    HideCursor,
    SetSpeed(Seq<char>),
    SetTitle(Seq<char>),
    SetCwd(Seq<char>),
    SetHost(Seq<char>),
    SetUser(Seq<char>),
}

impl DeepView for Step {
    type V = StepView;

    open spec fn deep_view(&self) -> StepView {
        match self {
            Step::Pause => StepView::Pause,
            Step::Ps1 => StepView::Ps1,
            Step::Show(line) => StepView::Show(line@),
            Step::System(system) => StepView::System {
                cmd: system.spec_cmd(),
                id: system.spec_id() as nat,
            },
            Step::Sleep(millis) => StepView::Sleep(*millis),
            Step::Stop => StepView::Stop,
            Step::Type(text) => StepView::Type(text@),
            Step::Clear => StepView::Clear,
            Step::ScreenOpen => StepView::ScreenOpen,
            Step::ScreenClose => StepView::ScreenClose,
            Step::ShowCursor => StepView::ShowCursor,
            Step::HideCursor => StepView::HideCursor,
            Step::SetSpeed(speed) => StepView::SetSpeed(speed@),
            Step::SetTitle(title) => StepView::SetTitle(title@),
            Step::SetCwd(cwd) => StepView::SetCwd(cwd@),
            Step::SetHost(host) => StepView::SetHost(host@),
            Step::SetUser(user) => StepView::SetUser(user@),
        }
    }
}

/// What the cache holds for one command: what it printed, byte for byte, once
/// it has run, and whether that left the cursor in the middle of a line.
#[derive(Debug, PartialEq, Eq)]
pub struct SystemCacheEntry {
    output: Option<Vec<u8>>,
    requires_newline: bool,
}

/// The view of a [`SystemCacheEntry`].
pub struct CacheEntryView {
    pub output: Option<Seq<u8>>,
    pub requires_newline: bool,
}

impl DeepView for SystemCacheEntry {
    type V = CacheEntryView;

    closed spec fn deep_view(&self) -> CacheEntryView {
        CacheEntryView {
            output: match self.output {
                Some(bytes) => Some(bytes@),
                None => None,
            },
            requires_newline: self.requires_newline,
        }
    }
}

/// The entry that holds `raw` as the output of a command.
pub open spec fn filled(raw: Seq<u8>) -> CacheEntryView {
    CacheEntryView { output: Some(raw), requires_newline: unterminated(raw) }
}

/// The entry of a command that has not run.
pub open spec fn vacant() -> CacheEntryView {
    CacheEntryView { output: None, requires_newline: false }
}

impl Default for SystemCacheEntry {
    /// The entry of a command that has not run.
    fn default() -> (entry: SystemCacheEntry)
        ensures
            entry.deep_view() == vacant(),
    {
        SystemCacheEntry { output: None, requires_newline: false }
    }
}

impl SystemCacheEntry {
    /// The entry of a command that has not run.
    pub fn new() -> (entry: SystemCacheEntry)
        ensures
            entry.deep_view() == vacant(),
    {
        SystemCacheEntry { output: None, requires_newline: false }
    }

    /// What the command printed, once it has run.
    pub fn output(&self) -> (output: Option<&[u8]>)
        ensures
            match output {
                Some(bytes) => self.deep_view().output == Some(bytes@),
                None => self.deep_view().output is None,
            },
    {
        match &self.output {
            Some(bytes) => Some(bytes.as_slice()),
            None => None,
        }
    }

    /// Whether the output left the cursor in the middle of a line.
    pub fn requires_newline(&self) -> (b: bool)
        ensures
            b == self.deep_view().requires_newline,
    {
        self.requires_newline
    }

    /// Stores what a command printed, unless an output is stored already: an
    /// entry is written once.
    pub fn fill(&mut self, raw: Vec<u8>)
        ensures
            final(self).deep_view() == if old(self).deep_view().output is Some {
                old(self).deep_view()
            } else {
                filled(raw@)
            },
    {
        if self.output.is_none() {
            self.requires_newline = ends_mid_line(raw.as_slice());
            self.output = Some(raw);
        }
    }
}

impl System {
    /// The command `cmd` with the place `id` in the cache.
    pub fn new(cmd: String, id: usize) -> (system: System)
        ensures
            system.spec_cmd() == cmd@,
            system.spec_id() == id,
    {
        System { cmd, id }
    }

    /// The command line.
    pub closed spec fn spec_cmd(&self) -> Seq<char> {
        self.cmd@
    }

    /// The place in the cache.
    pub closed spec fn spec_id(&self) -> usize {
        self.id
    }

    /// The command line.
    pub fn cmd(&self) -> (cmd: &str)
        ensures
            cmd@ == self.spec_cmd(),
    {
        self.cmd.as_str()
    }

    /// The place in the cache.
    pub fn id(&self) -> (id: usize)
        ensures
            id == self.spec_id(),
    {
        self.id
    }

    /// Records what this command printed while nothing of it was shown.
    /// An entry that holds an output already keeps it.
    pub fn capture(&self, output: Vec<u8>, cache: &mut SystemCacheEntry)
        ensures
            final(cache).deep_view() == if old(cache).deep_view().output is Some {
                old(cache).deep_view()
            } else {
                filled(output@)
            },
    {
        cache.fill(output);
    }

    /// Records what this command printed and returns the bytes to show for
    /// it: the recorded output with its line feeds rewritten for the
    /// terminal. An entry that holds an output already keeps it, and that
    /// output is the one returned.
    pub fn stream(&self, output: Vec<u8>, cache: &mut SystemCacheEntry) -> (shown: Vec<u8>)
        ensures
            final(cache).deep_view() == if old(cache).deep_view().output is Some {
                old(cache).deep_view()
            } else {
                filled(output@)
            },
            final(cache).deep_view().output matches Some(kept) && shown@ == to_terminal(kept),
    {
        cache.fill(output);
        match cache.output() {
            Some(kept) => terminal_bytes(kept),
            None => Vec::new(),
        }
    }
}

/// The steps that show the prompt and type `text` at it.
pub open spec fn typed_prompt(text: Seq<char>) -> Seq<StepView> {
    seq![
        StepView::Ps1,
        StepView::ShowCursor,
        StepView::Pause,
        StepView::Type(text),
        StepView::Pause,
        StepView::Show(Seq::empty()),
        StepView::HideCursor,
    ]
}

/// The steps of a command that is run: `text` is typed, `cmd` is run, and
/// its output is kept at `id`.
pub open spec fn typed_system(text: Seq<char>, cmd: Seq<char>, id: nat) -> Seq<StepView> {
    seq![
        StepView::ShowCursor,
        StepView::Ps1,
        StepView::Pause,
        StepView::Type(text),
        StepView::Pause,
        StepView::Show(Seq::empty()),
        StepView::HideCursor,
        StepView::System { cmd, id },
    ]
}

/// One step that prints a line, for each line.
pub open spec fn shown_lines(lines: Seq<Seq<char>>) -> Seq<StepView> {
    Seq::new(lines.len(), |i: int| StepView::Show(lines[i]))
}

/// The steps of a change of looks: one for each field that is given, the
/// title first, then directory, host, user and speed.
pub open spec fn look_steps(
    speed: Option<Seq<char>>,
    title: Option<Seq<char>>,
    cwd: Option<Seq<char>>,
    user: Option<Seq<char>>,
    host: Option<Seq<char>>,
) -> Seq<StepView> {
    (match title {
        Some(t) => seq![StepView::SetTitle(t)],
        None => Seq::empty(),
    }) + (match cwd {
        Some(c) => seq![StepView::SetCwd(c)],
        None => Seq::empty(),
    }) + (match host {
        Some(h) => seq![StepView::SetHost(h)],
        None => Seq::empty(),
    }) + (match user {
        Some(u) => seq![StepView::SetUser(u)],
        None => Seq::empty(),
    }) + (match speed {
        Some(s) => seq![StepView::SetSpeed(s)],
        None => Seq::empty(),
    })
}

/// The number of commands that an action has the playback run.
pub open spec fn systems_in(fib: FibView) -> nat
    decreases fib,
{
    match fib {
        FibView::System { .. } => 1,
        FibView::Screen { fibs, .. } => systems_in_all(fibs),
        _ => 0,
    }
}

/// The number of commands that a list of actions has the playback run.
pub open spec fn systems_in_all(fibs: Seq<FibView>) -> nat
    decreases fibs,
{
    if fibs.len() == 0 {
        0
    } else {
        systems_in_all(fibs.drop_last()) + systems_in(fibs.last())
    }
}

/// The steps of one action. `first_id` is the number of commands that come
/// before it in the session: the commands of the action are numbered from
/// there.
pub open spec fn steps_of(fib: FibView, first_id: nat) -> Seq<StepView>
    decreases fib,
{
    match fib {
        FibView::Run { cmd, result } => typed_prompt(cmd) + shown_lines(result),
        FibView::Show { text } => seq![StepView::Show(text)],
        FibView::System { apparent_cmd, cmd } => typed_system(
            match apparent_cmd {
                Some(apparent) => apparent,
                None => cmd,
            },
            cmd,
            first_id,
        ),
        FibView::Screen { apparent_cmd, fibs } => (match apparent_cmd {
            Some(apparent) => typed_prompt(apparent),
            None => Seq::empty(),
        }) + seq![StepView::ScreenOpen] + steps_of_all(fibs, first_id) + seq![
            StepView::ShowCursor,
            StepView::Pause,
            StepView::ScreenClose,
        ],
        FibView::Look { speed, title, cwd, user, host, final_prompt } => look_steps(
            speed,
            title,
            cwd,
            user,
            host,
        ),
        FibView::Tag { name } => Seq::empty(),
        FibView::Sleep { millis } => seq![StepView::Sleep(millis)],
        FibView::Stop => seq![StepView::Stop],
        FibView::Enter { msg } => seq![
            StepView::Type(msg),
            StepView::Pause,
            StepView::Show(Seq::empty()),
        ],
        FibView::Clear => seq![StepView::Clear],
    }
}

/// The steps of a list of actions: those of each action, in order.
pub open spec fn steps_of_all(fibs: Seq<FibView>, first_id: nat) -> Seq<StepView>
    decreases fibs,
{
    if fibs.len() == 0 {
        Seq::empty()
    } else {
        steps_of_all(fibs.drop_last(), first_id) + steps_of(
            fibs.last(),
            first_id + systems_in_all(fibs.drop_last()),
        )
    }
}

/// The tags of one action, where `base` steps come before it: a tag stands
/// for the index of the step that follows it.
pub open spec fn tags_of(fib: FibView, base: nat) -> Map<Seq<char>, nat>
    decreases fib,
{
    match fib {
        FibView::Tag { name } => Map::empty().insert(name, base),
        FibView::Screen { apparent_cmd, fibs } => tags_of_all(
            fibs,
            base + (match apparent_cmd {
                Some(apparent) => typed_prompt(apparent).len(),
                None => 0,
            }) + 1,
        ),
        _ => Map::empty(),
    }
}

/// The tags of a list of actions, where `base` steps come before it. Where a
/// name occurs twice, the later tag counts.
pub open spec fn tags_of_all(fibs: Seq<FibView>, base: nat) -> Map<Seq<char>, nat>
    decreases fibs,
{
    if fibs.len() == 0 {
        Map::empty()
    } else {
        tags_of_all(fibs.drop_last(), base).union_prefer_right(
            tags_of(fibs.last(), base + steps_of_all(fibs.drop_last(), 0).len()),
        )
    }
}

/// Whether the playback ends on an idle prompt after this action, if it did
/// so before it: the last change of looks that speaks of it decides.
pub open spec fn final_prompt_after(fib: FibView, before: bool) -> bool
    decreases fib,
{
    match fib {
        FibView::Look { final_prompt: Some(wanted), .. } => wanted,
        FibView::Screen { fibs, .. } => final_prompt_after_all(fibs, before),
        _ => before,
    }
}

/// Whether the playback ends on an idle prompt after these actions.
pub open spec fn final_prompt_after_all(fibs: Seq<FibView>, before: bool) -> bool
    decreases fibs,
{
    if fibs.len() == 0 {
        before
    } else {
        final_prompt_after(fibs.last(), final_prompt_after_all(fibs.drop_last(), before))
    }
}

/// The steps that leave the playback on an idle prompt.
pub open spec fn idle_prompt() -> Seq<StepView> {
    seq![StepView::Ps1, StepView::ShowCursor, StepView::Pause, StepView::Show(Seq::empty())]
}

/// The view of a [`Tale`].
pub struct TaleView {
    pub steps: Seq<StepView>,
    pub tags: Map<Seq<char>, nat>,
    pub num_systems: nat,
}

/// The compiled form of a session: the steps of all its actions, followed by
/// an idle prompt unless the session switched that off; the index of each
/// tag; and the number of commands to run.
pub open spec fn compiled(fibs: Seq<FibView>) -> TaleView {
    TaleView {
        steps: steps_of_all(fibs, 0) + (if final_prompt_after_all(fibs, true) {
            idle_prompt()
        } else {
            Seq::empty()
        }),
        tags: tags_of_all(fibs, 0),
        num_systems: systems_in_all(fibs),
    }
}

/// The number of steps does not depend on how the commands are numbered.
pub proof fn lemma_step_count(fib: FibView, a: nat, b: nat)
    ensures
        steps_of(fib, a).len() == steps_of(fib, b).len(),
    decreases fib,
{
    match fib {
        FibView::Screen { apparent_cmd, fibs } => {
            lemma_step_count_all(fibs, a, b);
        },
        _ => {},
    }
}

/// The number of steps does not depend on how the commands are numbered.
pub proof fn lemma_step_count_all(fibs: Seq<FibView>, a: nat, b: nat)
    ensures
        steps_of_all(fibs, a).len() == steps_of_all(fibs, b).len(),
    decreases fibs,
{
    if fibs.len() > 0 {
        lemma_step_count_all(fibs.drop_last(), a, b);
        lemma_step_count(
            fibs.last(),
            a + systems_in_all(fibs.drop_last()),
            b + systems_in_all(fibs.drop_last()),
        );
    }
}

/// The ids of the commands among `steps` lie between `low` and `high`.
pub open spec fn ids_within(steps: Seq<StepView>, low: nat, high: nat) -> bool {
    forall|k: int|
        0 <= k < steps.len() ==> (#[trigger] steps[k] matches StepView::System { id, .. } ==> low
            <= id < high)
}

/// The ids of the commands among `steps` grow from each command to the
/// next.
pub open spec fn ids_ascend(steps: Seq<StepView>) -> bool {
    forall|i: int, j: int|
        0 <= i < j < steps.len() && #[trigger] steps[i] is System && #[trigger] steps[j] is System
            ==> steps[i]->id < steps[j]->id
}

/// The commands among `steps` are numbered in order, between `low` and
/// `high`.
pub open spec fn numbered(steps: Seq<StepView>, low: nat, high: nat) -> bool {
    ids_within(steps, low, high) && ids_ascend(steps)
}

/// Steps that follow each other are numbered in order where each part is
/// and the second part takes up the numbers where the first ends.
proof fn lemma_ids_concat(
    a: Seq<StepView>,
    b: Seq<StepView>,
    low: nat,
    mid: nat,
    high: nat,
)
    requires
        numbered(a, low, mid),
        numbered(b, mid, high),
        low <= mid <= high,
    ensures
        numbered(a + b, low, high),
{
    let both = a + b;
    assert forall|k: int| 0 <= k < both.len() implies (#[trigger] both[k] matches StepView::System {
        id,
        ..
    } ==> low <= id < high) by {
        if k < a.len() {
            assert(both[k] == a[k]);
        } else {
            assert(both[k] == b[k - a.len()]);
        }
    }
    assert forall|i: int, j: int|
        0 <= i < j < both.len() && #[trigger] both[i] is System && #[trigger] both[j]
            is System implies both[i]->id < both[j]->id by {
        if i < a.len() {
            assert(both[i] == a[i]);
        } else {
            assert(both[i] == b[i - a.len()]);
        }
        if j < a.len() {
            assert(both[j] == a[j]);
        } else {
            assert(both[j] == b[j - a.len()]);
        }
    }
}

/// The commands of an action are numbered from `first` on, without a gap.
pub proof fn lemma_ids(fib: FibView, first: nat)
    ensures
        numbered(steps_of(fib, first), first, first + systems_in(fib)),
    decreases fib,
{
    let steps = steps_of(fib, first);
    match fib {
        FibView::Screen { apparent_cmd, fibs } => {
            lemma_ids_all(fibs, first);
            let n = systems_in_all(fibs);
            let head = (match apparent_cmd {
                Some(apparent) => typed_prompt(apparent),
                None => Seq::empty(),
            }) + seq![StepView::ScreenOpen];
            let tail = seq![StepView::ShowCursor, StepView::Pause, StepView::ScreenClose];
            assert(numbered(head, first, first));
            assert(numbered(tail, first + n, first + n));
            lemma_ids_concat(head, steps_of_all(fibs, first), first, first, first + n);
            lemma_ids_concat(head + steps_of_all(fibs, first), tail, first, first + n, first + n);
            assert(steps =~= head + steps_of_all(fibs, first) + tail);
        },
        FibView::Look { speed, title, cwd, user, host, final_prompt } => {
            let t: Seq<StepView> = match title {
                Some(t) => seq![StepView::SetTitle(t)],
                None => Seq::empty(),
            };
            let c: Seq<StepView> = match cwd {
                Some(c) => seq![StepView::SetCwd(c)],
                None => Seq::empty(),
            };
            let h: Seq<StepView> = match host {
                Some(h) => seq![StepView::SetHost(h)],
                None => Seq::empty(),
            };
            let u: Seq<StepView> = match user {
                Some(u) => seq![StepView::SetUser(u)],
                None => Seq::empty(),
            };
            let v: Seq<StepView> = match speed {
                Some(s) => seq![StepView::SetSpeed(s)],
                None => Seq::empty(),
            };
            lemma_ids_concat(t, c, first, first, first);
            lemma_ids_concat(t + c, h, first, first, first);
            lemma_ids_concat(t + c + h, u, first, first, first);
            lemma_ids_concat(t + c + h + u, v, first, first, first);
        },
        FibView::Run { cmd, result } => {
            lemma_ids_concat(typed_prompt(cmd), shown_lines(result), first, first, first);
        },
        _ => {},
    }
}

/// The commands of a list of actions are numbered from `first` on, without
/// a gap.
pub proof fn lemma_ids_all(fibs: Seq<FibView>, first: nat)
    ensures
        numbered(steps_of_all(fibs, first), first, first + systems_in_all(fibs)),
    decreases fibs,
{
    if fibs.len() > 0 {
        let n = systems_in_all(fibs.drop_last());
        lemma_ids_all(fibs.drop_last(), first);
        lemma_ids(fibs.last(), first + n);
        lemma_ids_concat(
            steps_of_all(fibs.drop_last(), first),
            steps_of(fibs.last(), first + n),
            first,
            first + n,
            first + n + systems_in(fibs.last()),
        );
    }
}

/// The tags of `tags` stand for indices between `low` and `high`.
pub open spec fn tags_within(tags: Map<Seq<char>, nat>, low: nat, high: nat) -> bool {
    forall|name: Seq<char>| tags.dom().contains(name) ==> low <= #[trigger] tags[name] <= high
}

/// A tag of an action stands for one of the action's steps or for the step
/// that follows the action.
pub proof fn lemma_tags(fib: FibView, base: nat)
    ensures
        tags_within(tags_of(fib, base), base, base + steps_of(fib, 0).len()),
    decreases fib,
{
    match fib {
        FibView::Screen { apparent_cmd, fibs } => {
            let inner = base + (match apparent_cmd {
                Some(apparent) => typed_prompt(apparent).len(),
                None => 0,
            }) + 1;
            lemma_tags_all(fibs, inner);
        },
        _ => {},
    }
}

/// A tag of a list of actions stands for one of their steps or for the step
/// that follows them.
pub proof fn lemma_tags_all(fibs: Seq<FibView>, base: nat)
    ensures
        tags_within(tags_of_all(fibs, base), base, base + steps_of_all(fibs, 0).len()),
    decreases fibs,
{
    if fibs.len() > 0 {
        let before = steps_of_all(fibs.drop_last(), 0).len();
        lemma_tags_all(fibs.drop_last(), base);
        lemma_tags(fibs.last(), base + before);
        lemma_step_count(fibs.last(), 0, systems_in_all(fibs.drop_last()));
    }
}

/// The steps and tags of a compiled session fit together: the commands are
/// numbered in order, with ids below the number of commands, and every tag
/// stands for a step or for the end.
pub open spec fn tale_wf(tale: TaleView) -> bool {
    &&& numbered(tale.steps, 0, tale.num_systems)
    &&& tags_within(tale.tags, 0, tale.steps.len())
}

/// What [`compiled`] gives fits together.
pub proof fn lemma_compiled_wf(fibs: Seq<FibView>)
    ensures
        tale_wf(compiled(fibs)),
{
    let tale = compiled(fibs);
    let tail: Seq<StepView> = if final_prompt_after_all(fibs, true) {
        idle_prompt()
    } else {
        Seq::empty()
    };
    lemma_ids_all(fibs, 0);
    lemma_ids_concat(
        steps_of_all(fibs, 0),
        tail,
        0,
        systems_in_all(fibs),
        systems_in_all(fibs),
    );
    lemma_tags_all(fibs, 0);
}

/// A compiled session, ready to be played.
#[derive(Debug)]
pub struct Tale {
    steps: Vec<Step>,
    tags: Bookmarks,
    num_systems: usize,
}

impl DeepView for Tale {
    type V = TaleView;

    closed spec fn deep_view(&self) -> TaleView {
        TaleView {
            steps: self.steps.deep_view(),
            tags: self.tags@,
            num_systems: self.num_systems as nat,
        }
    }
}

/// Appends one step.
fn emit(steps: &mut Vec<Step>, step: Step)
    ensures
        final(steps).deep_view() == old(steps).deep_view().push(step.deep_view()),
        final(steps).len() == old(steps).len() + 1,
{
    let ghost added = step.deep_view();
    steps.push(step);
    assert(steps.deep_view() =~= old(steps).deep_view().push(added));
}

/// Appends the steps that show the prompt and type `text` at it.
fn emit_prompt(steps: &mut Vec<Step>, text: String)
    ensures
        final(steps).deep_view() == old(steps).deep_view() + typed_prompt(text@),
        final(steps).len() == old(steps).len() + 7,
{
    emit(steps, Step::Ps1);
    emit(steps, Step::ShowCursor);
    emit(steps, Step::Pause);
    emit(steps, Step::Type(text));
    emit(steps, Step::Pause);
    emit(steps, Step::Show(String::new()));
    emit(steps, Step::HideCursor);
    assert(steps.deep_view() =~= old(steps).deep_view() + typed_prompt(text@));
}

/// Appends one step that prints a line, for each line.
fn emit_lines(steps: &mut Vec<Step>, lines: &Vec<String>)
    ensures
        final(steps).deep_view() == old(steps).deep_view() + shown_lines(lines.deep_view()),
        final(steps).len() == old(steps).len() + lines.len(),
{
    let mut i: usize = 0;
    while i < lines.len()
        invariant
            i <= lines.len(),
            steps.len() == old(steps).len() + i,
            steps.deep_view() == old(steps).deep_view() + shown_lines(
                lines.deep_view().take(i as int),
            ),
        decreases lines.len() - i,
    {
        emit(steps, Step::Show(lines[i].clone()));
        assert(steps.deep_view() =~= old(steps).deep_view() + shown_lines(
            lines.deep_view().take(i + 1),
        ));
        i += 1;
    }
    assert(lines.deep_view().take(i as int) =~= lines.deep_view());
}

/// Appends the steps of a command that is run.
fn emit_system(steps: &mut Vec<Step>, text: String, system: System)
    ensures
        final(steps).deep_view() == old(steps).deep_view() + typed_system(
            text@,
            system.spec_cmd(),
            system.spec_id() as nat,
        ),
        final(steps).len() == old(steps).len() + 8,
{
    let ghost wanted = typed_system(text@, system.spec_cmd(), system.spec_id() as nat);
    emit(steps, Step::ShowCursor);
    emit(steps, Step::Ps1);
    emit(steps, Step::Pause);
    emit(steps, Step::Type(text));
    emit(steps, Step::Pause);
    emit(steps, Step::Show(String::new()));
    emit(steps, Step::HideCursor);
    emit(steps, Step::System(system));
    assert(steps.deep_view() =~= old(steps).deep_view() + wanted);
}

/// Appends the steps of a change of looks.
fn emit_look(
    steps: &mut Vec<Step>,
    speed: &Option<Speed>,
    title: &Option<String>,
    cwd: &Option<String>,
    user: &Option<String>,
    host: &Option<String>,
)
    ensures
        final(steps).deep_view() == old(steps).deep_view() + look_steps(
            speed.deep_view(),
            title.deep_view(),
            cwd.deep_view(),
            user.deep_view(),
            host.deep_view(),
        ),
        final(steps).len() >= old(steps).len(),
{
    let ghost before = steps.deep_view();
    if let Some(title) = title {
        emit(steps, Step::SetTitle(title.clone()));
    }
    if let Some(cwd) = cwd {
        emit(steps, Step::SetCwd(cwd.clone()));
    }
    if let Some(host) = host {
        emit(steps, Step::SetHost(host.clone()));
    }
    if let Some(user) = user {
        emit(steps, Step::SetUser(user.clone()));
    }
    if let Some(speed) = speed {
        emit(steps, Step::SetSpeed(speed.duplicate()));
    }
    assert(steps.deep_view() =~= before + look_steps(
        speed.deep_view(),
        title.deep_view(),
        cwd.deep_view(),
        user.deep_view(),
        host.deep_view(),
    ));
}

/// Appends the steps of a text that is typed and sent without a prompt.
fn emit_enter(steps: &mut Vec<Step>, msg: String)
    ensures
        final(steps).deep_view() == old(steps).deep_view() + seq![
            StepView::Type(msg@),
            StepView::Pause,
            StepView::Show(Seq::empty()),
        ],
        final(steps).len() == old(steps).len() + 3,
{
    let ghost before = steps.deep_view();
    emit(steps, Step::Type(msg));
    emit(steps, Step::Pause);
    emit(steps, Step::Show(String::new()));
    assert(steps.deep_view() =~= before + seq![
        StepView::Type(msg@),
        StepView::Pause,
        StepView::Show(Seq::empty()),
    ]);
}

impl Tale {
    /// The steps and the tags fit together.
    #[verifier::type_invariant]
    pub open spec fn sound(&self) -> bool {
        tale_wf(self.deep_view())
    }

    /// Appends the steps of a screen: the prompt with what appears to be
    /// typed, if anything does; the change to the alternate screen; the steps
    /// of the actions inside; and a pause before the change back.
    fn flatten_screen(
        steps: &mut Vec<Step>,
        tags: &mut Bookmarks,
        num_systems: &mut usize,
        add_final_prompt: &mut bool,
        apparent_cmd: &Option<String>,
        inside: &Vec<Fib>,
    )
        requires
            *old(num_systems) <= old(steps).len(),
        ensures
            final(steps).deep_view() == old(steps).deep_view() + steps_of(
                FibView::Screen {
                    apparent_cmd: apparent_cmd.deep_view(),
                    fibs: inside.deep_view(),
                },
                *old(num_systems) as nat,
            ),
            final(tags)@ == old(tags)@.union_prefer_right(
                tags_of(
                    FibView::Screen {
                        apparent_cmd: apparent_cmd.deep_view(),
                        fibs: inside.deep_view(),
                    },
                    old(steps).len() as nat,
                ),
            ),
            *final(num_systems) == *old(num_systems) + systems_in_all(inside.deep_view()),
            *final(add_final_prompt) == final_prompt_after_all(
                inside.deep_view(),
                *old(add_final_prompt),
            ),
            *final(num_systems) <= final(steps).len(),
        decreases inside, 1nat,
    {
        let ghost view = FibView::Screen {
            apparent_cmd: apparent_cmd.deep_view(),
            fibs: inside.deep_view(),
        };
        let ghost id = *num_systems as nat;
        let ghost steps1 = steps.deep_view();
        proof {
            assert(steps1.len() == steps.len());
        }
        if let Some(apparent) = apparent_cmd {
            emit_prompt(steps, apparent.clone());
        }
        emit(steps, Step::ScreenOpen);
        let ghost steps2 = steps.deep_view();
        proof {
            assert(steps2.len() == steps.len());
        }
        Self::flatten(steps, tags, num_systems, add_final_prompt, inside);
        let ghost steps3 = steps.deep_view();
        emit(steps, Step::ShowCursor);
        emit(steps, Step::Pause);
        emit(steps, Step::ScreenClose);
        proof {
            assert(steps3 == steps2 + steps_of_all(inside.deep_view(), id));
            assert(steps.deep_view() =~= steps3 + seq![
                StepView::ShowCursor,
                StepView::Pause,
                StepView::ScreenClose,
            ]);
            assert(steps.deep_view() =~= steps1 + steps_of(view, id));
        }
    }

    /// Appends the steps of one action to `steps`, notes its tags in `tags`,
    /// numbers its commands from `num_systems` on, and lets it decide in
    /// `add_final_prompt` whether the playback ends on an idle prompt.
    fn flatten_one(
        steps: &mut Vec<Step>,
        tags: &mut Bookmarks,
        num_systems: &mut usize,
        add_final_prompt: &mut bool,
        fib: &Fib,
    )
        requires
            *old(num_systems) <= old(steps).len(),
        ensures
            final(steps).deep_view() == old(steps).deep_view() + steps_of(
                fib.deep_view(),
                *old(num_systems) as nat,
            ),
            final(tags)@ == old(tags)@.union_prefer_right(
                tags_of(fib.deep_view(), old(steps).len() as nat),
            ),
            *final(num_systems) == *old(num_systems) + systems_in(fib.deep_view()),
            *final(add_final_prompt) == final_prompt_after(
                fib.deep_view(),
                *old(add_final_prompt),
            ),
            *final(num_systems) <= final(steps).len(),
        decreases fib, 0nat,
    {
        let ghost view = fib.deep_view();
        let ghost id = *num_systems as nat;
        let ghost steps1 = steps.deep_view();
        let ghost tags1 = tags@;
        proof {
            assert(steps1.len() == steps.len());
        }
        match fib {
            Fib::Run { cmd, result } => {
                emit_prompt(steps, cmd.clone());
                emit_lines(steps, result);
                assert(steps.deep_view() =~= steps1 + steps_of(view, id));
            },
            Fib::Show { text } => {
                emit(steps, Step::Show(text.clone()));
                assert(steps.deep_view() =~= steps1 + steps_of(view, id));
            },
            Fib::System { apparent_cmd, cmd } => {
                let typed: String = match apparent_cmd {
                    Some(apparent) => apparent.clone(),
                    None => cmd.clone(),
                };
                emit_system(steps, typed, System::new(cmd.clone(), *num_systems));
                *num_systems += 1;
            },
            Fib::Screen { apparent_cmd, fibs: inside } => {
                proof {
                    lemma_screen_view(*apparent_cmd, *inside);
                }
                Self::flatten_screen(
                    steps,
                    tags,
                    num_systems,
                    add_final_prompt,
                    apparent_cmd,
                    inside,
                );
            },
            Fib::Look { speed, title, cwd, user, host, final_prompt } => {
                emit_look(steps, speed, title, cwd, user, host);
                if let Some(wanted) = final_prompt {
                    *add_final_prompt = *wanted;
                }
            },
            Fib::Tag { name } => {
                tags.insert(name.clone(), steps.len());
                assert(steps.deep_view() =~= steps1 + steps_of(view, id));
            },
            Fib::Sleep { millis } => {
                emit(steps, Step::Sleep(*millis));
                assert(steps.deep_view() =~= steps1 + steps_of(view, id));
            },
            Fib::Stop => {
                emit(steps, Step::Stop);
                assert(steps.deep_view() =~= steps1 + steps_of(view, id));
            },
            Fib::Enter { msg } => {
                emit_enter(steps, msg.clone());
            },
            Fib::Clear => {
                emit(steps, Step::Clear);
                assert(steps.deep_view() =~= steps1 + steps_of(view, id));
            },
        }
        proof {
            assert(tags@ =~= tags1.union_prefer_right(tags_of(view, steps1.len())));
        }
    }

    /// Appends the steps of `fibs` to `steps`, notes their tags in `tags`,
    /// numbers their commands from `num_systems` on, and lets them decide in
    /// `add_final_prompt` whether the playback ends on an idle prompt.
    pub fn flatten(
        steps: &mut Vec<Step>,
        tags: &mut Bookmarks,
        num_systems: &mut usize,
        add_final_prompt: &mut bool,
        fibs: &Vec<Fib>,
    )
        requires
            *old(num_systems) <= old(steps).len(),
        ensures
            final(steps).deep_view() == old(steps).deep_view() + steps_of_all(
                fibs.deep_view(),
                *old(num_systems) as nat,
            ),
            final(tags)@ == old(tags)@.union_prefer_right(
                tags_of_all(fibs.deep_view(), old(steps).len() as nat),
            ),
            *final(num_systems) == *old(num_systems) + systems_in_all(fibs.deep_view()),
            *final(add_final_prompt) == final_prompt_after_all(
                fibs.deep_view(),
                *old(add_final_prompt),
            ),
            *final(num_systems) <= final(steps).len(),
        decreases fibs, 0nat,
    {
        let ghost all = fibs.deep_view();
        let ghost steps0 = steps.deep_view();
        let ghost tags0 = tags@;
        let ghost first = *num_systems as nat;
        let ghost prompt0 = *add_final_prompt;
        let mut i: usize = 0;
        proof {
            assert(all.take(0) =~= Seq::<FibView>::empty());
            assert(steps0 + steps_of_all(all.take(0), first) =~= steps0);
            assert(tags0.union_prefer_right(tags_of_all(all.take(0), steps0.len())) =~= tags0);
        }
        while i < fibs.len()
            invariant
                i <= fibs.len(),
                all == fibs.deep_view(),
                steps0.len() == old(steps).len(),
                steps.deep_view() == steps0 + steps_of_all(all.take(i as int), first),
                tags@ == tags0.union_prefer_right(tags_of_all(all.take(i as int), steps0.len())),
                *num_systems == first + systems_in_all(all.take(i as int)),
                *add_final_prompt == final_prompt_after_all(all.take(i as int), prompt0),
                *num_systems <= steps.len(),
            decreases fibs.len() - i,
        {
            let ghost done = all.take(i as int);
            let ghost next = all.take(i + 1);
            let ghost fib = all[i as int];
            let ghost base = steps.len() as nat;
            proof {
                assert(next.drop_last() =~= done);
                assert(next.last() == fib);
                assert(fib == fibs[i as int].deep_view());
                lemma_step_count_all(done, first, 0);
                assert(steps.deep_view().len() == steps.len());
                assert(base == steps0.len() + steps_of_all(done, 0).len());
            }
            Self::flatten_one(steps, tags, num_systems, add_final_prompt, &fibs[i]);
            proof {
                assert(tags@ =~= tags0.union_prefer_right(tags_of_all(next, steps0.len())));
                assert(steps.deep_view() =~= steps0 + steps_of_all(next, first));
            }
            i += 1;
        }
        proof {
            assert(all.take(i as int) =~= all);
        }
    }

    /// The steps, in the order in which they are played.
    pub fn steps(&self) -> (steps: &Vec<Step>)
        ensures
            steps.deep_view() == self.deep_view().steps,
    {
        &self.steps
    }

    /// The tags.
    pub fn tags(&self) -> (tags: &Bookmarks)
        ensures
            tags@ == self.deep_view().tags,
    {
        &self.tags
    }

    /// The number of commands that the playback runs.
    pub fn num_systems(&self) -> (n: usize)
        ensures
            n == self.deep_view().num_systems,
    {
        self.num_systems
    }

    /// The names of the tags in ascending order, each once.
    pub fn tag_names(&self) -> (names: Vec<String>)
        ensures
            ascending(names.deep_view()),
            names.deep_view().no_duplicates(),
            forall|name: Seq<char>|
                names.deep_view().contains(name) <==> self.deep_view().tags.dom().contains(name),
    {
        let mut names: Vec<String> = self.tags.names();
        let ghost unsorted = names.deep_view();
        sort_names(&mut names);
        proof {
            let sorted = names.deep_view();
            unsorted.lemma_multiset_has_no_duplicates();
            sorted.lemma_multiset_has_no_duplicates_conv();
            assert forall|name: Seq<char>| sorted.contains(name) <==> unsorted.contains(name) by {
                unsorted.to_multiset_ensures();
                sorted.to_multiset_ensures();
                assert(sorted.to_multiset().count(name) == unsorted.to_multiset().count(name));
                assert(sorted.contains(name) <==> sorted.to_multiset().count(name) > 0);
                assert(unsorted.contains(name) <==> unsorted.to_multiset().count(name) > 0);
            }
        }
        names
    }

    /// Compiles what a recorder has recorded outside any screen.
    pub fn from(lie: Lie) -> (tale: Tale)
        ensures
            tale.deep_view() == compiled(lie@.fibs),
    {
        let fibs: Vec<Fib> = lie.into_fibs();
        Self::compile(&fibs)
    }

    /// Compiles a list of actions.
    pub fn compile(fibs: &Vec<Fib>) -> (tale: Tale)
        ensures
            tale.deep_view() == compiled(fibs.deep_view()),
    {
        let mut steps: Vec<Step> = Vec::new();
        let mut tags = Bookmarks::new();
        let mut num_systems: usize = 0;
        let mut add_final_prompt: bool = true;
        Self::flatten(&mut steps, &mut tags, &mut num_systems, &mut add_final_prompt, fibs);
        let ghost body = steps.deep_view();
        if add_final_prompt {
            emit(&mut steps, Step::Ps1);
            emit(&mut steps, Step::ShowCursor);
            emit(&mut steps, Step::Pause);
            emit(&mut steps, Step::Show(String::new()));
        }
        proof {
            assert(body =~= steps_of_all(fibs.deep_view(), 0));
            assert(steps.deep_view() =~= compiled(fibs.deep_view()).steps);
            assert(tags@ =~= compiled(fibs.deep_view()).tags);
            lemma_compiled_wf(fibs.deep_view());
        }
        Tale { steps, tags, num_systems }
    }
}

} // verus!
