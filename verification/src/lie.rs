//! The recorder: it takes the calls of a script one by one and builds the
//! tree of actions, refusing what would break the rules of a session.

use crate::error::{ErrorView, MendaxError};
use crate::fib::{lemma_screen_view, Fib, FibView};
use crate::speed::Speed;
use crate::tale::{
    compiled, steps_of_all, systems_in, systems_in_all, tags_of, tags_of_all, typed_prompt,
};
use crate::text::{ascending, at_most, str_equal, trim, trimmed};
use vstd::hash_set::StringHashSet;
use vstd::prelude::*;
use vstd::string::*;

verus! {

/// The value of a look option as the script gave it.
#[derive(Debug, PartialEq, Eq)]
pub enum LookValue {
    /// A number, written as a numeral.
    Number(Speed),
    /// A string.
    Text(String),
    /// A truth value.
    Flag(bool),
    /// A value of another type, of which only the type's name is kept.
    Other(String),
}

/// The view of a [`LookValue`].
pub enum LookValueView {
    Number(Seq<char>),
    Text(Seq<char>),
    Flag(bool),
    Other(Seq<char>),
}

impl DeepView for LookValue {
    type V = LookValueView;

    open spec fn deep_view(&self) -> LookValueView {
        match self {
            LookValue::Number(speed) => LookValueView::Number(speed@),
            LookValue::Text(text) => LookValueView::Text(text@),
            LookValue::Flag(flag) => LookValueView::Flag(*flag),
            LookValue::Other(name) => LookValueView::Other(name@),
        }
    }
}

/// The name of the type of a value, as the scripts know it.
pub open spec fn kind_name(value: LookValueView) -> Seq<char> {
    match value {
        LookValueView::Number(_) => "f64"@,
        LookValueView::Text(_) => "string"@,
        LookValueView::Flag(_) => "bool"@,
        LookValueView::Other(name) => name,
    }
}

/// The fields of a change of looks.
pub struct LookFields {
    pub speed: Option<Seq<char>>,
    pub title: Option<Seq<char>>,
    pub cwd: Option<Seq<char>>,
    pub user: Option<Seq<char>>,
    pub host: Option<Seq<char>>,
    pub final_prompt: Option<bool>,
}

impl LookFields {
    /// No field is given.
    pub open spec fn none() -> LookFields {
        LookFields {
            speed: None,
            title: None,
            cwd: None,
            user: None,
            host: None,
            final_prompt: None,
        }
    }

    /// The action that changes these fields.
    pub open spec fn fib(self) -> FibView {
        FibView::Look {
            speed: self.speed,
            title: self.title,
            cwd: self.cwd,
            user: self.user,
            host: self.host,
            final_prompt: self.final_prompt,
        }
    }
}

/// The look options that exist, in ascending order.
pub open spec fn look_keys() -> Seq<Seq<char>> {
    seq!["cwd"@, "final_prompt"@, "host"@, "speed"@, "title"@, "user"@]
}

/// The look options are listed in ascending order.
pub proof fn law_look_keys_are_sorted()
    ensures
        ascending(look_keys()),
{
    reveal_strlit("cwd");
    reveal_strlit("final_prompt");
    reveal_strlit("host");
    reveal_strlit("speed");
    reveal_strlit("title");
    reveal_strlit("user");
    let keys = look_keys();
    assert(at_most(keys[0], keys[1]));
    assert(at_most(keys[1], keys[2]));
    assert(at_most(keys[2], keys[3]));
    assert(at_most(keys[3], keys[4]));
    assert(at_most(keys[4], keys[5]));
    assert(at_most(keys[0], keys[2]));
    assert(at_most(keys[0], keys[3]));
    assert(at_most(keys[0], keys[4]));
    assert(at_most(keys[0], keys[5]));
    assert(at_most(keys[1], keys[3]));
    assert(at_most(keys[1], keys[4]));
    assert(at_most(keys[1], keys[5]));
    assert(at_most(keys[2], keys[4]));
    assert(at_most(keys[2], keys[5]));
    assert(at_most(keys[3], keys[5]));
}

/// The failure for a value of the wrong type.
pub open spec fn mismatch(expecting: Seq<char>, value: LookValueView) -> ErrorView {
    ErrorView::MismatchedType { expecting, actual: kind_name(value) }
}

/// The fields after one more option. The speed takes a number, the final
/// prompt a truth value, the others a string; a value of another type is
/// refused, and so is a key that is no look option. Where the value of
/// `final_prompt` is refused, the failure names `string` as the type that
/// was expected.
pub open spec fn with_option(fields: LookFields, key: Seq<char>, value: LookValueView) -> Result<
    LookFields,
    ErrorView,
> {
    if key == "speed"@ {
        match value {
            LookValueView::Number(speed) => Ok(LookFields { speed: Some(speed), ..fields }),
            _ => Err(mismatch("f64"@, value)),
        }
    } else if key == "title"@ {
        match value {
            LookValueView::Text(title) => Ok(LookFields { title: Some(title), ..fields }),
            _ => Err(mismatch("string"@, value)),
        }
    } else if key == "cwd"@ {
        match value {
            LookValueView::Text(cwd) => Ok(LookFields { cwd: Some(cwd), ..fields }),
            _ => Err(mismatch("string"@, value)),
        }
    } else if key == "host"@ {
        match value {
            LookValueView::Text(host) => Ok(LookFields { host: Some(host), ..fields }),
            _ => Err(mismatch("string"@, value)),
        }
    } else if key == "user"@ {
        match value {
            LookValueView::Text(user) => Ok(LookFields { user: Some(user), ..fields }),
            _ => Err(mismatch("string"@, value)),
        }
    } else if key == "final_prompt"@ {
        match value {
            LookValueView::Flag(wanted) => Ok(
                LookFields { final_prompt: Some(wanted), ..fields },
            ),
            _ => Err(mismatch("string"@, value)),
        }
    } else {
        Err(ErrorView::UnknownField { field: key, expected: look_keys() })
    }
}

/// The fields that a list of options gives: the options are taken in order,
/// a later one overrides an earlier one of the same key, and the first one
/// that is refused decides the failure.
pub open spec fn look_fields(options: Seq<(Seq<char>, LookValueView)>) -> Result<
    LookFields,
    ErrorView,
>
    decreases options.len(),
{
    if options.len() == 0 {
        Ok(LookFields::none())
    } else {
        match look_fields(options.drop_last()) {
            Ok(fields) => with_option(fields, options.last().0, options.last().1),
            Err(e) => Err(e),
        }
    }
}

/// Whether a name cannot be a tag: it is empty or one of the two commands of
/// the jump prompt.
pub open spec fn reserved(name: Seq<char>) -> bool {
    name.len() == 0 || name == seq!['?'] || name == seq!['!']
}

/// A screen whose actions are being recorded.
pub struct OpenScreenView {
    pub apparent_cmd: Option<Seq<char>>,
    pub fibs: Seq<FibView>,
}

/// The view of a [`Lie`].
pub struct LieView {
    /// The actions recorded outside any screen.
    pub fibs: Seq<FibView>,
    /// The screen that is being recorded, if one is.
    pub screen: Option<OpenScreenView>,
    /// The tag names that are taken.
    pub known_tags: Set<Seq<char>>,
    /// Whether the session may run commands.
    pub allow_system: bool,
}

/// The tag names of an action, in order.
pub open spec fn tags_in(fib: FibView) -> Seq<Seq<char>>
    decreases fib,
{
    match fib {
        FibView::Tag { name } => seq![name],
        FibView::Screen { fibs, .. } => tags_in_all(fibs),
        _ => Seq::empty(),
    }
}

/// The tag names of a list of actions, in order.
pub open spec fn tags_in_all(fibs: Seq<FibView>) -> Seq<Seq<char>>
    decreases fibs,
{
    if fibs.len() == 0 {
        Seq::empty()
    } else {
        tags_in_all(fibs.drop_last()) + tags_in(fibs.last())
    }
}

/// No action of the list is a screen.
pub open spec fn flat(fibs: Seq<FibView>) -> bool {
    forall|i: int| 0 <= i < fibs.len() ==> !(#[trigger] fibs[i] is Screen)
}

/// No screen of the list holds a screen.
pub open spec fn one_level(fibs: Seq<FibView>) -> bool {
    forall|i: int|
        0 <= i < fibs.len() ==> (#[trigger] fibs[i] matches FibView::Screen { fibs: inside, .. }
            ==> flat(inside))
}

impl LieView {
    /// A recorder that has recorded nothing.
    pub open spec fn start(allow_system: bool) -> LieView {
        LieView { fibs: Seq::empty(), screen: None, known_tags: Set::empty(), allow_system }
    }

    /// The actions of the screen that is being recorded.
    pub open spec fn inside(self) -> Seq<FibView> {
        match self.screen {
            Some(open) => open.fibs,
            None => Seq::empty(),
        }
    }

    /// All tag names recorded so far, in order.
    pub open spec fn tags(self) -> Seq<Seq<char>> {
        tags_in_all(self.fibs) + tags_in_all(self.inside())
    }

    /// The rules of a session hold: no tag name occurs twice, and each is
    /// known as taken; no screen holds a screen; and a session that may not
    /// run commands holds none.
    pub open spec fn wf(self) -> bool {
        &&& self.tags().no_duplicates()
        &&& forall|i: int|
            0 <= i < self.tags().len() ==> self.known_tags.contains(#[trigger] self.tags()[i])
        &&& one_level(self.fibs)
        &&& flat(self.inside())
        &&& !self.allow_system ==> systems_in_all(self.fibs) == 0 && systems_in_all(self.inside())
            == 0
    }

    /// The recorder with one more action: in the screen that is being
    /// recorded if there is one, at the top level else.
    pub open spec fn appended(self, fib: FibView) -> LieView {
        match self.screen {
            Some(open) => LieView {
                screen: Some(OpenScreenView { fibs: open.fibs.push(fib), ..open }),
                ..self
            },
            None => LieView { fibs: self.fibs.push(fib), ..self },
        }
    }
}

/// A call that a script makes.
pub enum Call {
    Run { cmd: Seq<char>, result: Seq<Seq<char>> },
    Show { text: Seq<char> },
    Cd { dir: Seq<char> },
    System { apparent_cmd: Option<Seq<char>>, cmd: Seq<char> },
    OpenScreen { apparent_cmd: Option<Seq<char>> },
    CloseScreen,
    Look { options: Seq<(Seq<char>, LookValueView)> },
    Tag { name: Seq<char> },
    Sleep { millis: u64 },
    Stop,
    Enter { msg: Seq<char> },
    Clear,
}

/// What a call does to the recorder, and whether it fails. A call that fails
/// changes nothing.
pub open spec fn called(s: LieView, call: Call) -> (LieView, Result<(), ErrorView>) {
    match call {
        Call::Run { cmd, result } => (s.appended(FibView::Run { cmd, result }), Ok(())),
        Call::Show { text } => (s.appended(FibView::Show { text }), Ok(())),
        Call::Cd { dir } => (
            s.appended(FibView::Run { cmd: "cd "@ + dir, result: Seq::empty() }).appended(
                (LookFields { cwd: Some(dir), ..LookFields::none() }).fib(),
            ),
            Ok(()),
        ),
        Call::System { apparent_cmd, cmd } => {
            if s.allow_system {
                (s.appended(FibView::System { apparent_cmd, cmd }), Ok(()))
            } else {
                (s, Err(ErrorView::SystemForbidden))
            }
        },
        Call::OpenScreen { apparent_cmd } => {
            if s.screen is None {
                (
                    LieView {
                        screen: Some(OpenScreenView { apparent_cmd, fibs: Seq::empty() }),
                        ..s
                    },
                    Ok(()),
                )
            } else {
                (s, Err(ErrorView::NestedScreens))
            }
        },
        Call::CloseScreen => match s.screen {
            Some(open) => (
                LieView {
                    fibs: s.fibs.push(
                        FibView::Screen { apparent_cmd: open.apparent_cmd, fibs: open.fibs },
                    ),
                    screen: None,
                    ..s
                },
                Ok(()),
            ),
            None => (s, Ok(())),
        },
        Call::Look { options } => match look_fields(options) {
            Ok(fields) => (s.appended(fields.fib()), Ok(())),
            Err(e) => (s, Err(e)),
        },
        Call::Tag { name } => {
            let name = trimmed(name);
            if reserved(name) {
                (s, Err(ErrorView::InvalidTagName { name }))
            } else if s.known_tags.contains(name) {
                (s, Err(ErrorView::DuplicateTag { name }))
            } else {
                (
                    (LieView { known_tags: s.known_tags.insert(name), ..s }).appended(
                        FibView::Tag { name },
                    ),
                    Ok(()),
                )
            }
        },
        Call::Sleep { millis } => (s.appended(FibView::Sleep { millis }), Ok(())),
        Call::Stop => (s.appended(FibView::Stop), Ok(())),
        Call::Enter { msg } => (s.appended(FibView::Enter { msg }), Ok(())),
        Call::Clear => (s.appended(FibView::Clear), Ok(())),
    }
}

/// The recorder after a series of calls, those that fail included.
pub open spec fn called_all(s: LieView, calls: Seq<Call>) -> LieView
    decreases calls.len(),
{
    if calls.len() == 0 {
        s
    } else {
        called(called_all(s, calls.drop_last()), calls.last()).0
    }
}

/// What one more action adds to a list.
pub proof fn lemma_push(fibs: Seq<FibView>, fib: FibView)
    ensures
        tags_in_all(fibs.push(fib)) == tags_in_all(fibs) + tags_in(fib),
        systems_in_all(fibs.push(fib)) == systems_in_all(fibs) + systems_in(fib),
        flat(fibs.push(fib)) == (flat(fibs) && !(fib is Screen)),
        one_level(fibs.push(fib)) == (one_level(fibs) && (fib matches FibView::Screen {
            fibs: inside,
            ..
        } ==> flat(inside))),
{
    let longer = fibs.push(fib);
    assert(longer.drop_last() =~= fibs);
    assert(longer.last() == fib);
    assert(tags_in_all(longer) == tags_in_all(longer.drop_last()) + tags_in(longer.last()));
    assert(systems_in_all(longer) == systems_in_all(longer.drop_last()) + systems_in(
        longer.last(),
    ));
    if flat(longer) {
        assert forall|i: int| 0 <= i < fibs.len() implies !(#[trigger] fibs[i] is Screen) by {
            assert(longer[i] == fibs[i]);
        }
        assert(longer[fibs.len() as int] == fib);
    }
    if flat(fibs) && !(fib is Screen) {
        assert forall|i: int| 0 <= i < longer.len() implies !(#[trigger] longer[i] is Screen) by {
            if i < fibs.len() {
                assert(longer[i] == fibs[i]);
            }
        }
    }
    let fine = fib matches FibView::Screen { fibs: inside, .. } ==> flat(inside);
    if one_level(longer) {
        assert forall|i: int| 0 <= i < fibs.len() implies (#[trigger] fibs[i] matches
        FibView::Screen { fibs: inside, .. } ==> flat(inside)) by {
            assert(longer[i] == fibs[i]);
        }
        assert(longer[fibs.len() as int] == fib);
    }
    if one_level(fibs) && fine {
        assert forall|i: int| 0 <= i < longer.len() implies (#[trigger] longer[i] matches
        FibView::Screen { fibs: inside, .. } ==> flat(inside)) by {
            if i < fibs.len() {
                assert(longer[i] == fibs[i]);
            }
        }
    }
}

/// One more action that is no screen and no tag, and no command unless
/// commands are allowed, keeps the rules.
proof fn lemma_appended_wf(s: LieView, fib: FibView)
    requires
        s.wf(),
        !(fib is Screen),
        !(fib is Tag),
        fib is System ==> s.allow_system,
    ensures
        s.appended(fib).wf(),
        s.appended(fib).known_tags == s.known_tags,
        s.appended(fib).tags() == s.tags(),
{
    let t = s.appended(fib);
    match s.screen {
        Some(open) => {
            lemma_push(open.fibs, fib);
        },
        None => {
            lemma_push(s.fibs, fib);
        },
    }
    assert(tags_in(fib) =~= Seq::<Seq<char>>::empty());
    assert(t.tags() =~= s.tags());
}

/// Every call keeps the rules of a session, and no call frees a tag name.
pub proof fn lemma_called_wf(s: LieView, call: Call)
    requires
        s.wf(),
    ensures
        called(s, call).0.wf(),
        s.known_tags.subset_of(called(s, call).0.known_tags),
        called(s, call).0.allow_system == s.allow_system,
{
    let t = called(s, call).0;
    match call {
        Call::Run { cmd, result } => {
            lemma_appended_wf(s, FibView::Run { cmd, result });
        },
        Call::Show { text } => {
            lemma_appended_wf(s, FibView::Show { text });
        },
        Call::Cd { dir } => {
            let first = FibView::Run { cmd: "cd "@ + dir, result: Seq::empty() };
            lemma_appended_wf(s, first);
            lemma_appended_wf(
                s.appended(first),
                (LookFields { cwd: Some(dir), ..LookFields::none() }).fib(),
            );
        },
        Call::System { apparent_cmd, cmd } => {
            if s.allow_system {
                lemma_appended_wf(s, FibView::System { apparent_cmd, cmd });
            }
        },
        Call::OpenScreen { apparent_cmd } => {
            if s.screen is None {
                assert(tags_in_all(t.inside()) =~= Seq::<Seq<char>>::empty());
                assert(tags_in_all(s.inside()) =~= Seq::<Seq<char>>::empty());
                assert(t.tags() =~= s.tags());
            }
        },
        Call::CloseScreen => match s.screen {
            Some(open) => {
                let screen = FibView::Screen { apparent_cmd: open.apparent_cmd, fibs: open.fibs };
                lemma_push(s.fibs, screen);
                assert(tags_in_all(t.inside()) =~= Seq::<Seq<char>>::empty());
                assert(t.tags() =~= s.tags());
            },
            None => {},
        },
        Call::Look { options } => match look_fields(options) {
            Ok(fields) => {
                lemma_appended_wf(s, fields.fib());
            },
            Err(e) => {},
        },
        Call::Tag { name } => {
            let name = trimmed(name);
            if !reserved(name) && !s.known_tags.contains(name) {
                let tag = FibView::Tag { name };
                match s.screen {
                    Some(open) => {
                        lemma_push(open.fibs, tag);
                    },
                    None => {
                        lemma_push(s.fibs, tag);
                    },
                }
                assert(t.tags() =~= s.tags().push(name));
                assert forall|i: int, j: int|
                    0 <= i < t.tags().len() && 0 <= j < t.tags().len() && i != j implies t.tags()[i]
                    != t.tags()[j] by {
                    if i < s.tags().len() {
                        assert(s.known_tags.contains(s.tags()[i]));
                    }
                    if j < s.tags().len() {
                        assert(s.known_tags.contains(s.tags()[j]));
                    }
                }
                assert forall|i: int| 0 <= i < t.tags().len() implies t.known_tags.contains(
                    #[trigger] t.tags()[i],
                ) by {
                    if i < s.tags().len() {
                        assert(s.known_tags.contains(s.tags()[i]));
                    }
                }
            }
        },
        Call::Sleep { millis } => {
            lemma_appended_wf(s, FibView::Sleep { millis });
        },
        Call::Stop => {
            lemma_appended_wf(s, FibView::Stop);
        },
        Call::Enter { msg } => {
            lemma_appended_wf(s, FibView::Enter { msg });
        },
        Call::Clear => {
            lemma_appended_wf(s, FibView::Clear);
        },
    }
}

/// Every series of calls keeps the rules of a session, and none frees a tag
/// name or changes whether commands may be run.
pub proof fn lemma_called_all_wf(s: LieView, calls: Seq<Call>)
    requires
        s.wf(),
    ensures
        called_all(s, calls).wf(),
        s.known_tags.subset_of(called_all(s, calls).known_tags),
        called_all(s, calls).allow_system == s.allow_system,
    decreases calls.len(),
{
    if calls.len() > 0 {
        lemma_called_all_wf(s, calls.drop_last());
        lemma_called_wf(called_all(s, calls.drop_last()), calls.last());
    }
}

/// A tag name can be given once: after a tag has been recorded, a tag of
/// the same name fails as a duplicate and changes nothing, whatever was
/// called in between, inside a screen or outside.
pub proof fn law_tag_twice(s: LieView, name: Seq<char>, calls: Seq<Call>)
    requires
        s.wf(),
        called(s, Call::Tag { name }).1 is Ok,
    ensures
        called(called_all(called(s, Call::Tag { name }).0, calls), Call::Tag { name }) == (
            called_all(called(s, Call::Tag { name }).0, calls),
            Err::<(), ErrorView>(ErrorView::DuplicateTag { name: trimmed(name) }),
        ),
{
    let first = called(s, Call::Tag { name }).0;
    lemma_called_wf(s, Call::Tag { name });
    lemma_called_all_wf(first, calls);
    assert(first.known_tags.contains(trimmed(name)));
}

/// While a screen is recorded the top level does not change and no second
/// screen opens: after a call to open a screen, and whatever calls follow
/// that do not close it, a call to open a screen fails and changes nothing,
/// and the actions outside the screen are those from before.
pub proof fn law_no_screen_in_screen(
    s: LieView,
    outer: Option<Seq<char>>,
    calls: Seq<Call>,
    inner: Option<Seq<char>>,
)
    requires
        forall|i: int| 0 <= i < calls.len() ==> !(#[trigger] calls[i] is CloseScreen),
    ensures
        called(
            called_all(called(s, Call::OpenScreen { apparent_cmd: outer }).0, calls),
            Call::OpenScreen { apparent_cmd: inner },
        ) == (
            called_all(called(s, Call::OpenScreen { apparent_cmd: outer }).0, calls),
            Err::<(), ErrorView>(ErrorView::NestedScreens),
        ),
        called_all(called(s, Call::OpenScreen { apparent_cmd: outer }).0, calls).fibs == s.fibs,
{
    let opened = called(s, Call::OpenScreen { apparent_cmd: outer }).0;
    lemma_stays_inside(opened, calls);
}

/// Calls that do not close the screen leave the recorder inside it and the
/// top level as it is.
proof fn lemma_stays_inside(s: LieView, calls: Seq<Call>)
    requires
        s.screen is Some,
        forall|i: int| 0 <= i < calls.len() ==> !(#[trigger] calls[i] is CloseScreen),
    ensures
        called_all(s, calls).screen is Some,
        called_all(s, calls).fibs == s.fibs,
    decreases calls.len(),
{
    if calls.len() > 0 {
        assert forall|i: int| 0 <= i < calls.drop_last().len() implies !(
        #[trigger] calls.drop_last()[i] is CloseScreen) by {
            assert(calls.drop_last()[i] == calls[i]);
        }
        lemma_stays_inside(s, calls.drop_last());
        assert(!(calls[calls.len() - 1] is CloseScreen));
    }
}

/// A session that may not run commands never records one: whatever was
/// called before, a call to run a command fails as forbidden and changes
/// nothing, and the session holds no command.
pub proof fn law_system_forbidden(
    calls: Seq<Call>,
    apparent_cmd: Option<Seq<char>>,
    cmd: Seq<char>,
)
    ensures
        called(called_all(LieView::start(false), calls), Call::System { apparent_cmd, cmd }) == (
            called_all(LieView::start(false), calls),
            Err::<(), ErrorView>(ErrorView::SystemForbidden),
        ),
        systems_in_all(called_all(LieView::start(false), calls).fibs) == 0,
{
    lemma_start_wf(false);
    lemma_called_all_wf(LieView::start(false), calls);
}

/// The compiler keeps every tag: the names that the compiled session knows
/// are the names of the tags among the actions.
pub proof fn law_every_tag_is_compiled(fibs: Seq<FibView>, base: nat)
    ensures
        tags_of_all(fibs, base).dom() =~= tags_in_all(fibs).to_set(),
    decreases fibs,
{
    if fibs.len() > 0 {
        let before = base + steps_of_all(fibs.drop_last(), 0).len();
        law_every_tag_is_compiled(fibs.drop_last(), base);
        lemma_tags_of_one(fibs.last(), before);
        let earlier = tags_in_all(fibs.drop_last());
        let last = tags_in(fibs.last());
        assert forall|name: Seq<char>| (earlier + last).to_set().contains(name) <==> (
        earlier.to_set().contains(name) || last.to_set().contains(name)) by {
            if earlier.contains(name) {
                let i = choose|i: int| 0 <= i < earlier.len() && earlier[i] == name;
                assert((earlier + last)[i] == name);
            }
            if last.contains(name) {
                let i = choose|i: int| 0 <= i < last.len() && last[i] == name;
                assert((earlier + last)[earlier.len() + i] == name);
            }
            if (earlier + last).contains(name) {
                let i = choose|i: int| 0 <= i < (earlier + last).len() && (earlier + last)[i] == name;
                if i < earlier.len() {
                    assert(earlier[i] == name);
                } else {
                    assert(last[i - earlier.len()] == name);
                }
            }
        }
    } else {
        assert(tags_in_all(fibs).to_set() =~= Set::<Seq<char>>::empty());
    }
}

/// The compiler keeps every tag of an action.
proof fn lemma_tags_of_one(fib: FibView, base: nat)
    ensures
        tags_of(fib, base).dom() =~= tags_in(fib).to_set(),
    decreases fib,
{
    match fib {
        FibView::Screen { apparent_cmd, fibs } => {
            let inner = base + (match apparent_cmd {
                Some(apparent) => typed_prompt(apparent).len(),
                None => 0,
            }) + 1;
            law_every_tag_is_compiled(fibs, inner);
        },
        FibView::Tag { name } => {
            assert(seq![name][0] == name);
            assert(tags_in(fib).to_set() =~= Set::<Seq<char>>::empty().insert(name));
        },
        _ => {
            assert(tags_in(fib).to_set() =~= Set::<Seq<char>>::empty());
        },
    }
}

/// A recorder that has recorded nothing keeps the rules.
pub proof fn lemma_start_wf(allow_system: bool)
    ensures
        LieView::start(allow_system).wf(),
{
    let s = LieView::start(allow_system);
    assert(s.tags() =~= Seq::<Seq<char>>::empty());
}

/// What a script records depends on its calls alone, and so does what is
/// compiled from it: two runs of the same calls give the same actions and
/// the same steps, tags and number of commands.
pub proof fn law_same_script_same_session(allow_system: bool, first: Seq<Call>, second: Seq<Call>)
    requires
        first == second,
    ensures
        called_all(LieView::start(allow_system), first) == called_all(
            LieView::start(allow_system),
            second,
        ),
        compiled(called_all(LieView::start(allow_system), first).fibs) == compiled(
            called_all(LieView::start(allow_system), second).fibs,
        ),
{
}

/// A failure of [`look_fields`] on the first options is the failure on all
/// of them.
proof fn lemma_look_failure(options: Seq<(Seq<char>, LookValueView)>, k: int)
    requires
        0 <= k <= options.len(),
        look_fields(options.take(k)) is Err,
    ensures
        look_fields(options) == look_fields(options.take(k)),
    decreases options.len() - k,
{
    if k == options.len() {
        assert(options.take(k) =~= options);
    } else {
        assert(options.take(k + 1).drop_last() =~= options.take(k));
        assert(look_fields(options.take(k + 1)) == look_fields(options.take(k)));
        lemma_look_failure(options, k + 1);
    }
}

/// Whether a call ended as `expected` says.
pub open spec fn ended_as(
    result: Result<(), MendaxError>,
    expected: Result<(), ErrorView>,
) -> bool {
    match (result, expected) {
        (Ok(_), Ok(_)) => true,
        (Err(e), Err(v)) => e.deep_view() == v,
        _ => false,
    }
}

/// The fields of a change of looks while they are collected.
struct Looks {
    speed: Option<Speed>,
    title: Option<String>,
    cwd: Option<String>,
    user: Option<String>,
    host: Option<String>,
    final_prompt: Option<bool>,
}

impl Looks {
    spec fn fields(&self) -> LookFields {
        LookFields {
            speed: self.speed.deep_view(),
            title: self.title.deep_view(),
            cwd: self.cwd.deep_view(),
            user: self.user.deep_view(),
            host: self.host.deep_view(),
            final_prompt: self.final_prompt,
        }
    }

    /// Takes one more option.
    fn take(&mut self, key: &str, value: &LookValue) -> (result: Result<(), MendaxError>)
        ensures
            match with_option(old(self).fields(), key@, value.deep_view()) {
                Ok(fields) => result is Ok && final(self).fields() == fields,
                Err(e) => result matches Err(failure) && failure.deep_view() == e,
            },
    {
        if str_equal(key, "speed") {
            match value {
                LookValue::Number(speed) => {
                    self.speed = Some(speed.duplicate());
                    Ok(())
                },
                _ => Err(mismatched("f64", value)),
            }
        } else if str_equal(key, "title") {
            match value {
                LookValue::Text(title) => {
                    self.title = Some(title.clone());
                    Ok(())
                },
                _ => Err(mismatched("string", value)),
            }
        } else if str_equal(key, "cwd") {
            match value {
                LookValue::Text(cwd) => {
                    self.cwd = Some(cwd.clone());
                    Ok(())
                },
                _ => Err(mismatched("string", value)),
            }
        } else if str_equal(key, "host") {
            match value {
                LookValue::Text(host) => {
                    self.host = Some(host.clone());
                    Ok(())
                },
                _ => Err(mismatched("string", value)),
            }
        } else if str_equal(key, "user") {
            match value {
                LookValue::Text(user) => {
                    self.user = Some(user.clone());
                    Ok(())
                },
                _ => Err(mismatched("string", value)),
            }
        } else if str_equal(key, "final_prompt") {
            match value {
                LookValue::Flag(wanted) => {
                    self.final_prompt = Some(*wanted);
                    Ok(())
                },
                _ => Err(mismatched("string", value)),
            }
        } else {
            Err(MendaxError::UnknownField { field: String::from_str(key), expected: keys() })
        }
    }
}

/// The failure for a value of the wrong type.
fn mismatched(expecting: &str, value: &LookValue) -> (failure: MendaxError)
    ensures
        failure.deep_view() == mismatch(expecting@, value.deep_view()),
{
    let actual: String = match value {
        LookValue::Number(_) => String::from_str("f64"),
        LookValue::Text(_) => String::from_str("string"),
        LookValue::Flag(_) => String::from_str("bool"),
        LookValue::Other(name) => name.clone(),
    };
    MendaxError::MismatchedType { expecting: String::from_str(expecting), actual }
}

/// The look options that exist, in ascending order.
fn keys() -> (keys: Vec<String>)
    ensures
        keys.deep_view() == look_keys(),
{
    let mut keys: Vec<String> = Vec::new();
    keys.push(String::from_str("cwd"));
    keys.push(String::from_str("final_prompt"));
    keys.push(String::from_str("host"));
    keys.push(String::from_str("speed"));
    keys.push(String::from_str("title"));
    keys.push(String::from_str("user"));
    assert(keys.deep_view() =~= look_keys());
    keys
}

/// A screen whose actions are being recorded.
struct OpenScreen {
    apparent_cmd: Option<String>,
    fibs: Vec<Fib>,
}

/// The recorder. It holds the actions recorded so far, the screen that is
/// being recorded, the tag names that are taken, and whether the session may
/// run commands.
pub struct Lie {
    fibs: Vec<Fib>,
    screen: Option<OpenScreen>,
    known_tags: StringHashSet,
    allow_system: bool,
}

impl View for Lie {
    type V = LieView;

    closed spec fn view(&self) -> LieView {
        LieView {
            fibs: self.fibs.deep_view(),
            screen: match self.screen {
                Some(open) => Some(
                    OpenScreenView {
                        apparent_cmd: open.apparent_cmd.deep_view(),
                        fibs: open.fibs.deep_view(),
                    },
                ),
                None => None,
            },
            known_tags: self.known_tags@,
            allow_system: self.allow_system,
        }
    }
}

impl Lie {
    /// The rules of a session hold of what has been recorded.
    pub open spec fn wf(&self) -> bool {
        self@.wf()
    }

    /// A recorder that has recorded nothing. `allow_system` tells whether
    /// the session may run commands.
    pub fn new(allow_system: bool) -> (lie: Lie)
        ensures
            lie@ == LieView::start(allow_system),
            lie.wf(),
    {
        let lie = Lie {
            fibs: Vec::new(),
            screen: None,
            known_tags: StringHashSet::new(),
            allow_system,
        };
        proof {
            assert(lie@.fibs =~= Seq::<FibView>::empty());
            assert(lie@.tags() =~= Seq::<Seq<char>>::empty());
        }
        lie
    }

    /// The actions recorded outside any screen.
    pub fn into_fibs(self) -> (fibs: Vec<Fib>)
        ensures
            fibs.deep_view() == self@.fibs,
    {
        self.fibs
    }

    /// The actions recorded outside any screen.
    pub fn fibs(&self) -> (fibs: &[Fib])
        ensures
            fibs.deep_view() == self@.fibs,
    {
        let fibs: &[Fib] = self.fibs.as_slice();
        assert(fibs.deep_view() =~= self.fibs.deep_view());
        fibs
    }

    /// The actions recorded outside any screen, as the list that holds them.
    pub(crate) fn actions(&self) -> (fibs: &Vec<Fib>)
        ensures
            fibs.deep_view() == self@.fibs,
    {
        &self.fibs
    }

    /// Whether the session may run commands.
    pub fn allows_system(&self) -> (b: bool)
        ensures
            b == self@.allow_system,
    {
        self.allow_system
    }

    /// Whether no screen is being recorded.
    pub fn root(&self) -> (b: bool)
        ensures
            b == (self@.screen is None),
    {
        self.screen.is_none()
    }

    /// Appends an action where the recording stands.
    fn push(&mut self, fib: Fib)
        ensures
            final(self)@ == old(self)@.appended(fib.deep_view()),
    {
        let ghost added = fib.deep_view();
        match self.screen.take() {
            Some(open) => {
                let mut open = open;
                let ghost before = open.fibs.deep_view();
                open.fibs.push(fib);
                assert(open.fibs.deep_view() =~= before.push(added));
                self.screen = Some(open);
            },
            None => {
                let ghost before = self.fibs.deep_view();
                self.fibs.push(fib);
                assert(self.fibs.deep_view() =~= before.push(added));
            },
        }
    }

    /// Records a command that prints nothing.
    pub fn run_no_output(&mut self, cmd: &str)
        requires
            old(self).wf(),
        ensures
            final(self).wf(),
            final(self)@ == old(self)@.appended(
                FibView::Run { cmd: cmd@, result: Seq::empty() },
            ),
    {
        let result: Vec<String> = Vec::new();
        assert(result.deep_view() =~= Seq::<Seq<char>>::empty());
        self.run(cmd, result);
    }

    /// Records a command that prints one line.
    pub fn run_short(&mut self, cmd: &str, result: &str)
        requires
            old(self).wf(),
        ensures
            final(self).wf(),
            final(self)@ == old(self)@.appended(FibView::Run { cmd: cmd@, result: seq![result@] }),
    {
        let mut lines: Vec<String> = Vec::new();
        lines.push(String::from_str(result));
        assert(lines.deep_view() =~= seq![result@]);
        self.run(cmd, lines);
    }

    /// Records a command that prints these lines.
    pub fn run_long(&mut self, cmd: &str, result: Vec<String>)
        requires
            old(self).wf(),
        ensures
            final(self).wf(),
            final(self)@ == old(self)@.appended(
                FibView::Run { cmd: cmd@, result: result.deep_view() },
            ),
    {
        self.run(cmd, result);
    }

    /// Records a command that appears to be typed and the lines it appears
    /// to print.
    pub fn run(&mut self, cmd: &str, result: Vec<String>)
        requires
            old(self).wf(),
        ensures
            final(self).wf(),
            final(self)@ == old(self)@.appended(
                FibView::Run { cmd: cmd@, result: result.deep_view() },
            ),
    {
        proof {
            lemma_called_wf(self@, Call::Run { cmd: cmd@, result: result.deep_view() });
        }
        self.push(Fib::Run { cmd: String::from_str(cmd), result });
    }

    /// Records a line of output.
    pub fn show(&mut self, text: &str)
        requires
            old(self).wf(),
        ensures
            final(self).wf(),
            final(self)@ == old(self)@.appended(FibView::Show { text: text@ }),
    {
        proof {
            lemma_called_wf(self@, Call::Show { text: text@ });
        }
        self.push(Fib::Show { text: String::from_str(text) });
    }

    /// Records a change of directory: the command `cd` with the directory,
    /// which prints nothing, and the directory as the one that the prompt
    /// shows from then on.
    pub fn cd(&mut self, dir: &str)
        requires
            old(self).wf(),
        ensures
            final(self).wf(),
            final(self)@ == called(old(self)@, Call::Cd { dir: dir@ }).0,
    {
        proof {
            lemma_called_wf(self@, Call::Cd { dir: dir@ });
        }
        let mut cmd = String::from_str("cd ");
        cmd.append(dir);
        let result: Vec<String> = Vec::new();
        assert(result.deep_view() =~= Seq::<Seq<char>>::empty());
        self.push(Fib::Run { cmd, result });
        self.push(
            Fib::Look {
                speed: None,
                title: None,
                cwd: Some(String::from_str(dir)),
                user: None,
                host: None,
                final_prompt: None,
            },
        );
    }

    /// Records a command that is run and typed as it is.
    pub fn system_simple(&mut self, cmd: &str) -> (result: Result<(), MendaxError>)
        requires
            old(self).wf(),
        ensures
            final(self).wf(),
            final(self)@ == called(old(self)@, Call::System { apparent_cmd: None, cmd: cmd@ }).0,
            ended_as(
                result,
                called(old(self)@, Call::System { apparent_cmd: None, cmd: cmd@ }).1,
            ),
    {
        self.system(None, cmd)
    }

    /// Records a command that is run. Where `apparent_cmd` is given, it is
    /// what appears to be typed. Fails, and records nothing, where the
    /// session may not run commands.
    pub fn system(&mut self, apparent_cmd: Option<&str>, cmd: &str) -> (result: Result<
        (),
        MendaxError,
    >)
        requires
            old(self).wf(),
        ensures
            final(self).wf(),
            final(self)@ == called(
                old(self)@,
                Call::System { apparent_cmd: apparent_cmd.deep_view(), cmd: cmd@ },
            ).0,
            ended_as(
                result,
                called(
                    old(self)@,
                    Call::System { apparent_cmd: apparent_cmd.deep_view(), cmd: cmd@ },
                ).1,
            ),
    {
        proof {
            lemma_called_wf(
                self@,
                Call::System { apparent_cmd: apparent_cmd.deep_view(), cmd: cmd@ },
            );
        }
        if !self.allow_system {
            return Err(MendaxError::SystemForbidden);
        }
        let apparent_cmd: Option<String> = match apparent_cmd {
            Some(apparent) => Some(String::from_str(apparent)),
            None => None,
        };
        self.push(Fib::System { apparent_cmd, cmd: String::from_str(cmd) });
        Ok(())
    }

    /// Starts the recording of a screen. Where `apparent_cmd` is given, it
    /// appears to be typed before the screen opens. Fails, and changes
    /// nothing, where a screen is being recorded already.
    pub fn open_screen(&mut self, apparent_cmd: Option<&str>) -> (result: Result<(), MendaxError>)
        requires
            old(self).wf(),
        ensures
            final(self).wf(),
            final(self)@ == called(
                old(self)@,
                Call::OpenScreen { apparent_cmd: apparent_cmd.deep_view() },
            ).0,
            ended_as(
                result,
                called(old(self)@, Call::OpenScreen { apparent_cmd: apparent_cmd.deep_view() }).1,
            ),
    {
        proof {
            lemma_called_wf(self@, Call::OpenScreen { apparent_cmd: apparent_cmd.deep_view() });
        }
        if self.screen.is_some() {
            return Err(MendaxError::NestedScreens);
        }
        let apparent_cmd: Option<String> = match apparent_cmd {
            Some(apparent) => Some(String::from_str(apparent)),
            None => None,
        };
        let fibs: Vec<Fib> = Vec::new();
        assert(fibs.deep_view() =~= Seq::<FibView>::empty());
        self.screen = Some(OpenScreen { apparent_cmd, fibs });
        Ok(())
    }

    /// Ends the recording of a screen and records the screen with what was
    /// recorded inside it. Does nothing where no screen is being recorded.
    pub fn close_screen(&mut self)
        requires
            old(self).wf(),
        ensures
            final(self).wf(),
            final(self)@ == called(old(self)@, Call::CloseScreen).0,
    {
        proof {
            lemma_called_wf(self@, Call::CloseScreen);
        }
        match self.screen.take() {
            Some(open) => {
                let ghost before = self.fibs.deep_view();
                proof {
                    lemma_screen_view(open.apparent_cmd, open.fibs);
                }
                let screen = Fib::Screen { apparent_cmd: open.apparent_cmd, fibs: open.fibs };
                let ghost added = screen.deep_view();
                self.fibs.push(screen);
                assert(self.fibs.deep_view() =~= before.push(added));
            },
            None => {},
        }
    }

    /// Records a change of looks from the options of a script, taken in
    /// order. Fails, and records nothing, where a key is no look option or
    /// a value has the wrong type.
    pub fn look(&mut self, options: &Vec<(String, LookValue)>) -> (result: Result<(), MendaxError>)
        requires
            old(self).wf(),
        ensures
            final(self).wf(),
            final(self)@ == called(old(self)@, Call::Look { options: options.deep_view() }).0,
            ended_as(result, called(old(self)@, Call::Look { options: options.deep_view() }).1),
    {
        let ghost all = options.deep_view();
        proof {
            lemma_called_wf(self@, Call::Look { options: all });
            assert(all.take(0) =~= Seq::<(Seq<char>, LookValueView)>::empty());
        }
        let mut looks = Looks {
            speed: None,
            title: None,
            cwd: None,
            user: None,
            host: None,
            final_prompt: None,
        };
        let mut i: usize = 0;
        while i < options.len()
            invariant
                i <= options.len(),
                all == options.deep_view(),
                self@ == old(self)@,
                old(self).wf(),
                look_fields(all.take(i as int)) == Ok::<LookFields, ErrorView>(looks.fields()),
            decreases options.len() - i,
        {
            proof {
                assert(all.take(i + 1).drop_last() =~= all.take(i as int));
                assert(all.take(i + 1).last() == all[i as int]);
                assert(all[i as int] == options[i as int].deep_view());
            }
            match looks.take(options[i].0.as_str(), &options[i].1) {
                Ok(()) => {},
                Err(failure) => {
                    proof {
                        lemma_look_failure(all, i + 1);
                    }
                    return Err(failure);
                },
            }
            i += 1;
        }
        proof {
            assert(all.take(i as int) =~= all);
        }
        self.push(
            Fib::Look {
                speed: looks.speed,
                title: looks.title,
                cwd: looks.cwd,
                user: looks.user,
                host: looks.host,
                final_prompt: looks.final_prompt,
            },
        );
        Ok(())
    }

    /// Records a tag under the name without the white space around it.
    /// Fails, and records nothing, where the name is empty or `?` or `!`,
    /// and where the name is taken.
    pub fn tag(&mut self, name: &str) -> (result: Result<(), MendaxError>)
        requires
            old(self).wf(),
        ensures
            final(self).wf(),
            final(self)@ == called(old(self)@, Call::Tag { name: name@ }).0,
            ended_as(result, called(old(self)@, Call::Tag { name: name@ }).1),
    {
        proof {
            lemma_called_wf(self@, Call::Tag { name: name@ });
            reveal_strlit("?");
            reveal_strlit("!");
            assert("?"@ =~= seq!['?']);
            assert("!"@ =~= seq!['!']);
        }
        let name: &str = trim(name);
        if name.is_empty() || str_equal(name, "?") || str_equal(name, "!") {
            return Err(MendaxError::InvalidTagName { name: String::from_str(name) });
        }
        if self.known_tags.contains(name) {
            return Err(MendaxError::DuplicateTag { name: String::from_str(name) });
        }
        self.known_tags.insert(String::from_str(name));
        self.push(Fib::Tag { name: String::from_str(name) });
        Ok(())
    }

    /// Records a pause of `millis` milliseconds.
    pub fn sleep(&mut self, millis: u64)
        requires
            old(self).wf(),
        ensures
            final(self).wf(),
            final(self)@ == old(self)@.appended(FibView::Sleep { millis }),
    {
        proof {
            lemma_called_wf(self@, Call::Sleep { millis });
        }
        self.push(Fib::Sleep { millis });
    }

    /// Records the end of the playback.
    pub fn stop(&mut self)
        requires
            old(self).wf(),
        ensures
            final(self).wf(),
            final(self)@ == old(self)@.appended(FibView::Stop),
    {
        proof {
            lemma_called_wf(self@, Call::Stop);
        }
        self.push(Fib::Stop);
    }

    /// Records a text that appears to be typed and sent where no prompt is
    /// shown.
    pub fn enter(&mut self, msg: &str)
        requires
            old(self).wf(),
        ensures
            final(self).wf(),
            final(self)@ == old(self)@.appended(FibView::Enter { msg: msg@ }),
    {
        proof {
            lemma_called_wf(self@, Call::Enter { msg: msg@ });
        }
        self.push(Fib::Enter { msg: String::from_str(msg) });
    }

    /// Records that the screen is cleared.
    pub fn clear(&mut self)
        requires
            old(self).wf(),
        ensures
            final(self).wf(),
            final(self)@ == old(self)@.appended(FibView::Clear),
    {
        proof {
            lemma_called_wf(self@, Call::Clear);
        }
        self.push(Fib::Clear);
    }
}

} // verus!
