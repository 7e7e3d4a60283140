//! The dry run: a session written out as text, one line for each action.

use crate::fib::{lemma_screen_view, Fib, FibView};
use crate::lie::{flat, one_level, Lie};
use crate::text::{join, joined, repeat, repeated};
use vstd::prelude::*;
use vstd::string::*;

verus! {

/// A line at a depth of nesting: four spaces for each level, then the line.
pub open spec fn indented(line: Seq<char>, depth: nat) -> Seq<char> {
    repeated("    "@, depth) + line
}

/// Collects the lines of a dry run.
pub struct DryRunBuilder {
    lines: Vec<String>,
}

impl View for DryRunBuilder {
    type V = Seq<Seq<char>>;

    closed spec fn view(&self) -> Seq<Seq<char>> {
        self.lines.deep_view()
    }
}

impl DryRunBuilder {
    /// A builder without lines.
    pub fn new() -> (builder: DryRunBuilder)
        ensures
            builder@ == Seq::<Seq<char>>::empty(),
    {
        let builder = DryRunBuilder { lines: Vec::new() };
        assert(builder@ =~= Seq::<Seq<char>>::empty());
        builder
    }

    /// Adds a line at a depth of nesting.
    pub fn add_line(&mut self, line: &str, indent: usize)
        ensures
            final(self)@ == old(self)@.push(indented(line@, indent as nat)),
    {
        let ghost before = self.lines.deep_view();
        let mut text: String = repeat("    ", indent);
        text.append(line);
        self.lines.push(text);
        assert(self.lines.deep_view() =~= before.push(indented(line@, indent as nat)));
    }

    /// The text: the lines with a line feed between neighbours.
    pub fn build(self) -> (text: String)
        ensures
            text@ == joined(self@, "\n"@),
    {
        join(&self.lines, "\n")
    }
}

/// The text that `pretty_duration` gives for a duration of so many
/// milliseconds when it is asked for its compact form.
pub uninterp spec fn pretty_millis(millis: u64) -> Seq<char>;

/// Calls `pretty_duration::pretty_duration` on the duration of `millis`
/// milliseconds, without options. The crate then writes the duration in its
/// compact form, unit by unit; the text depends on the duration alone.
#[verifier::external_body]
fn pretty(millis: u64) -> (text: String)
    ensures
        text@ == pretty_millis(millis),
{
    pretty_duration::pretty_duration(&std::time::Duration::from_millis(millis), None)
}

/// One part of the line of a change of looks, if the field is given.
pub open spec fn look_part(key: Seq<char>, value: Option<Seq<char>>) -> Seq<Seq<char>> {
    match value {
        Some(v) => seq![key + "="@ + v],
        None => Seq::empty(),
    }
}

/// How a truth value is written.
pub open spec fn flag_text(flag: bool) -> Seq<char> {
    if flag {
        "true"@
    } else {
        "false"@
    }
}

/// The parts of the line of a change of looks: one for each field that is
/// given, in the order speed, title, directory, user, host, final prompt.
/// The final prompt is written under the key `speed`.
pub open spec fn look_parts(
    speed: Option<Seq<char>>,
    title: Option<Seq<char>>,
    cwd: Option<Seq<char>>,
    user: Option<Seq<char>>,
    host: Option<Seq<char>>,
    final_prompt: Option<bool>,
) -> Seq<Seq<char>> {
    look_part("speed"@, speed) + look_part("title"@, title) + look_part("cwd"@, cwd) + look_part(
        "user"@,
        user,
    ) + look_part("host"@, host) + look_part(
        "speed"@,
        match final_prompt {
            Some(wanted) => Some(flag_text(wanted)),
            None => None,
        },
    )
}

/// One line for each line of output, marked with `#`.
pub open spec fn output_lines(result: Seq<Seq<char>>, depth: nat) -> Seq<Seq<char>> {
    Seq::new(result.len(), |i: int| indented("# "@ + result[i], depth))
}

/// The lines of one action at a depth of nesting.
pub open spec fn dry_lines(fib: FibView, depth: nat) -> Seq<Seq<char>>
    decreases fib,
{
    match fib {
        FibView::Run { cmd, result } => seq![indented("$ "@ + cmd, depth)] + output_lines(
            result,
            depth,
        ),
        FibView::Show { text } => seq![indented("# "@ + text, depth)],
        FibView::System { apparent_cmd, cmd } => match apparent_cmd {
            Some(apparent) => seq![
                indented("! "@ + apparent + " (secretly calls: "@ + cmd + ")"@, depth),
            ],
            None => seq![indented("! "@ + cmd, depth)],
        },
        FibView::Screen { apparent_cmd, fibs } => (match apparent_cmd {
            Some(apparent) => seq![indented("$ "@ + apparent, depth)],
            None => Seq::empty(),
        }) + seq![indented("(screen)"@, depth)] + dry_lines_all(fibs, depth + 1),
        FibView::Look { speed, title, cwd, user, host, final_prompt } => seq![
            indented(
                "(look: "@ + joined(
                    look_parts(speed, title, cwd, user, host, final_prompt),
                    ", "@,
                ) + ")"@,
                depth,
            ),
        ],
        FibView::Tag { name } => seq![indented("(tag) "@ + name, depth)],
        FibView::Sleep { millis } => seq![indented("(sleep) "@ + pretty_millis(millis), depth)],
        FibView::Stop => seq![indented("(STOP)"@, depth)],
        FibView::Enter { msg } => seq![indented("(enter) "@ + msg, depth)],
        FibView::Clear => seq![indented("(clear)"@, depth)],
    }
}

/// The lines of a list of actions at a depth of nesting.
pub open spec fn dry_lines_all(fibs: Seq<FibView>, depth: nat) -> Seq<Seq<char>>
    decreases fibs,
{
    if fibs.len() == 0 {
        Seq::empty()
    } else {
        dry_lines_all(fibs.drop_last(), depth) + dry_lines(fibs.last(), depth)
    }
}

/// The depths of nesting that writing out an action reaches fit the
/// machine's numbers.
pub open spec fn fits(fib: FibView, depth: nat) -> bool
    decreases fib,
{
    match fib {
        FibView::Screen { fibs, .. } => depth < usize::MAX && fits_all(fibs, depth + 1),
        _ => true,
    }
}

/// The depths of nesting that writing out a list of actions reaches fit the
/// machine's numbers.
pub open spec fn fits_all(fibs: Seq<FibView>, depth: nat) -> bool
    decreases fibs,
{
    if fibs.len() == 0 {
        true
    } else {
        fits_all(fibs.drop_last(), depth) && fits(fibs.last(), depth)
    }
}

/// What can be written out as a dry run.
pub trait DryRun {
    /// The lines of the dry run at a depth of nesting.
    spec fn lines(&self, depth: nat) -> Seq<Seq<char>>;

    /// The depths of nesting that the dry run reaches fit the machine's
    /// numbers.
    spec fn shallow(&self, depth: nat) -> bool;

    /// Adds the lines of the dry run to `builder`.
    fn build_dry_run(&self, builder: &mut DryRunBuilder, depth: usize)
        requires
            self.shallow(depth as nat),
        ensures
            final(builder)@ == old(builder)@ + self.lines(depth as nat),
    ;

    /// The dry run as one text.
    fn dry_run(&self) -> (text: String)
        requires
            self.shallow(0),
        ensures
            text@ == joined(self.lines(0), "\n"@),
    {
        let mut builder = DryRunBuilder::new();
        self.build_dry_run(&mut builder, 0);
        assert(builder@ =~= self.lines(0));
        builder.build()
    }
}

/// Adds one part of the line of a change of looks.
fn add_part(parts: &mut Vec<String>, key: &str, value: &str)
    ensures
        final(parts).deep_view() == old(parts).deep_view() + look_part(key@, Some(value@)),
{
    let ghost before = parts.deep_view();
    let mut part = String::from_str(key);
    part.append("=");
    part.append(value);
    parts.push(part);
    assert(parts.deep_view() =~= before + look_part(key@, Some(value@)));
}

/// Writes the line of a change of looks.
fn look_line(
    speed: &Option<crate::speed::Speed>,
    title: &Option<String>,
    cwd: &Option<String>,
    user: &Option<String>,
    host: &Option<String>,
    final_prompt: &Option<bool>,
) -> (line: String)
    ensures
        line@ == "(look: "@ + joined(
            look_parts(
                speed.deep_view(),
                title.deep_view(),
                cwd.deep_view(),
                user.deep_view(),
                host.deep_view(),
                *final_prompt,
            ),
            ", "@,
        ) + ")"@,
{
    let mut parts: Vec<String> = Vec::new();
    let ghost none = Seq::<Seq<char>>::empty();
    assert(parts.deep_view() =~= none);
    if let Some(speed) = speed {
        add_part(&mut parts, "speed", speed.as_str());
    }
    let ghost with_speed = parts.deep_view();
    assert(with_speed =~= look_part("speed"@, speed.deep_view()));
    if let Some(title) = title {
        add_part(&mut parts, "title", title.as_str());
    }
    let ghost with_title = parts.deep_view();
    assert(with_title =~= with_speed + look_part("title"@, title.deep_view()));
    if let Some(cwd) = cwd {
        add_part(&mut parts, "cwd", cwd.as_str());
    }
    let ghost with_cwd = parts.deep_view();
    assert(with_cwd =~= with_title + look_part("cwd"@, cwd.deep_view()));
    if let Some(user) = user {
        add_part(&mut parts, "user", user.as_str());
    }
    let ghost with_user = parts.deep_view();
    assert(with_user =~= with_cwd + look_part("user"@, user.deep_view()));
    if let Some(host) = host {
        add_part(&mut parts, "host", host.as_str());
    }
    let ghost with_host = parts.deep_view();
    assert(with_host =~= with_user + look_part("host"@, host.deep_view()));
    if let Some(wanted) = final_prompt {
        if *wanted {
            add_part(&mut parts, "speed", "true");
        } else {
            add_part(&mut parts, "speed", "false");
        }
    }
    assert(parts.deep_view() =~= look_parts(
        speed.deep_view(),
        title.deep_view(),
        cwd.deep_view(),
        user.deep_view(),
        host.deep_view(),
        *final_prompt,
    ));
    let list: String = join(&parts, ", ");
    let mut line = String::from_str("(look: ");
    line.append(list.as_str());
    line.append(")");
    line
}

/// Adds a line that consists of a mark and a text.
fn add_marked(builder: &mut DryRunBuilder, mark: &str, text: &str, depth: usize)
    ensures
        final(builder)@ == old(builder)@.push(indented(mark@ + text@, depth as nat)),
{
    let mut line = String::from_str(mark);
    line.append(text);
    builder.add_line(line.as_str(), depth);
}

/// Adds the lines of one action.
fn write_fib(fib: &Fib, builder: &mut DryRunBuilder, depth: usize)
    requires
        fits(fib.deep_view(), depth as nat),
    ensures
        final(builder)@ == old(builder)@ + dry_lines(fib.deep_view(), depth as nat),
    decreases fib,
{
    let ghost before = builder@;
    let ghost view = fib.deep_view();
    match fib {
        Fib::Run { cmd, result } => {
            add_marked(builder, "$ ", cmd.as_str(), depth);
            let ghost first = builder@;
            let mut i: usize = 0;
            while i < result.len()
                invariant
                    i <= result.len(),
                    builder@ == first + output_lines(result.deep_view(), depth as nat).take(
                        i as int,
                    ),
                decreases result.len() - i,
            {
                add_marked(builder, "# ", result[i].as_str(), depth);
                assert(builder@ =~= first + output_lines(result.deep_view(), depth as nat).take(
                    i + 1,
                ));
                i += 1;
            }
            assert(builder@ =~= before + dry_lines(view, depth as nat));
        },
        Fib::Show { text } => {
            add_marked(builder, "# ", text.as_str(), depth);
            assert(builder@ =~= before + dry_lines(view, depth as nat));
        },
        Fib::System { apparent_cmd, cmd } => {
            match apparent_cmd {
                Some(apparent) => {
                    let mut line = String::from_str("! ");
                    line.append(apparent.as_str());
                    line.append(" (secretly calls: ");
                    line.append(cmd.as_str());
                    line.append(")");
                    builder.add_line(line.as_str(), depth);
                },
                None => {
                    add_marked(builder, "! ", cmd.as_str(), depth);
                },
            }
            assert(builder@ =~= before + dry_lines(view, depth as nat));
        },
        Fib::Screen { apparent_cmd, fibs } => {
            proof {
                lemma_screen_view(*apparent_cmd, *fibs);
            }
            if let Some(apparent) = apparent_cmd {
                add_marked(builder, "$ ", apparent.as_str(), depth);
            }
            builder.add_line("(screen)", depth);
            write_fibs(fibs, builder, depth + 1);
            assert(builder@ =~= before + dry_lines(view, depth as nat));
        },
        Fib::Look { speed, title, cwd, user, host, final_prompt } => {
            let line: String = look_line(speed, title, cwd, user, host, final_prompt);
            builder.add_line(line.as_str(), depth);
            assert(builder@ =~= before + dry_lines(view, depth as nat));
        },
        Fib::Tag { name } => {
            add_marked(builder, "(tag) ", name.as_str(), depth);
            assert(builder@ =~= before + dry_lines(view, depth as nat));
        },
        Fib::Sleep { millis } => {
            let length: String = pretty(*millis);
            add_marked(builder, "(sleep) ", length.as_str(), depth);
            assert(builder@ =~= before + dry_lines(view, depth as nat));
        },
        Fib::Stop => {
            builder.add_line("(STOP)", depth);
            assert(builder@ =~= before + dry_lines(view, depth as nat));
        },
        Fib::Enter { msg } => {
            add_marked(builder, "(enter) ", msg.as_str(), depth);
            assert(builder@ =~= before + dry_lines(view, depth as nat));
        },
        Fib::Clear => {
            builder.add_line("(clear)", depth);
            assert(builder@ =~= before + dry_lines(view, depth as nat));
        },
    }
}

/// Adds the lines of a list of actions.
fn write_fibs(fibs: &Vec<Fib>, builder: &mut DryRunBuilder, depth: usize)
    requires
        fits_all(fibs.deep_view(), depth as nat),
    ensures
        final(builder)@ == old(builder)@ + dry_lines_all(fibs.deep_view(), depth as nat),
    decreases fibs,
{
    let ghost all = fibs.deep_view();
    let ghost before = builder@;
    let mut i: usize = 0;
    proof {
        assert(all.take(0) =~= Seq::<FibView>::empty());
        assert(before + dry_lines_all(all.take(0), depth as nat) =~= before);
        lemma_fits_prefix(all, depth as nat, 0);
    }
    while i < fibs.len()
        invariant
            i <= fibs.len(),
            all == fibs.deep_view(),
            fits_all(all, depth as nat),
            builder@ == before + dry_lines_all(all.take(i as int), depth as nat),
        decreases fibs.len() - i,
    {
        proof {
            assert(all.take(i + 1).drop_last() =~= all.take(i as int));
            assert(all.take(i + 1).last() == fibs[i as int].deep_view());
            lemma_fits_prefix(all, depth as nat, i + 1);
        }
        write_fib(&fibs[i], builder, depth);
        proof {
            assert(builder@ =~= before + dry_lines_all(all.take(i + 1), depth as nat));
        }
        i += 1;
    }
    proof {
        assert(all.take(i as int) =~= all);
    }
}

/// Where a list fits, so does each of its beginnings.
proof fn lemma_fits_prefix(fibs: Seq<FibView>, depth: nat, k: int)
    requires
        fits_all(fibs, depth),
        0 <= k <= fibs.len(),
    ensures
        fits_all(fibs.take(k), depth),
    decreases fibs.len() - k,
{
    if k == fibs.len() {
        assert(fibs.take(k) =~= fibs);
    } else {
        lemma_fits_prefix(fibs, depth, k + 1);
        assert(fibs.take(k + 1).drop_last() =~= fibs.take(k));
    }
}

/// A list without screens fits at every depth.
pub proof fn lemma_flat_fits(fibs: Seq<FibView>, depth: nat)
    requires
        flat(fibs),
    ensures
        fits_all(fibs, depth),
    decreases fibs.len(),
{
    if fibs.len() > 0 {
        assert(!(fibs[fibs.len() - 1] is Screen));
        assert forall|i: int| 0 <= i < fibs.drop_last().len() implies !(
        #[trigger] fibs.drop_last()[i] is Screen) by {
            assert(fibs.drop_last()[i] == fibs[i]);
        }
        lemma_flat_fits(fibs.drop_last(), depth);
        assert(fits(fibs.last(), depth));
        assert(fits_all(fibs, depth) == (fits_all(fibs.drop_last(), depth) && fits(
            fibs.last(),
            depth,
        )));
    } else {
        assert(fits_all(fibs, depth));
    }
}

/// A list whose screens hold no screens fits at every depth but the last.
pub proof fn lemma_one_level_fits(fibs: Seq<FibView>, depth: nat)
    requires
        one_level(fibs),
        depth < usize::MAX,
    ensures
        fits_all(fibs, depth),
    decreases fibs.len(),
{
    if fibs.len() > 0 {
        let last = fibs[fibs.len() - 1];
        match last {
            FibView::Screen { fibs: inside, .. } => {
                lemma_flat_fits(inside, depth + 1);
            },
            _ => {},
        }
        assert forall|i: int| 0 <= i < fibs.drop_last().len() implies (
        #[trigger] fibs.drop_last()[i] matches FibView::Screen { fibs: inside, .. } ==> flat(
            inside,
        )) by {
            assert(fibs.drop_last()[i] == fibs[i]);
        }
        lemma_one_level_fits(fibs.drop_last(), depth);
        assert(fits(fibs.last(), depth));
        assert(fits_all(fibs, depth) == (fits_all(fibs.drop_last(), depth) && fits(
            fibs.last(),
            depth,
        )));
    } else {
        assert(fits_all(fibs, depth));
    }
}

impl DryRun for Fib {
    open spec fn lines(&self, depth: nat) -> Seq<Seq<char>> {
        dry_lines(self.deep_view(), depth)
    }

    open spec fn shallow(&self, depth: nat) -> bool {
        fits(self.deep_view(), depth)
    }

    fn build_dry_run(&self, builder: &mut DryRunBuilder, depth: usize) {
        write_fib(self, builder, depth);
    }
}

impl DryRun for Vec<Fib> {
    open spec fn lines(&self, depth: nat) -> Seq<Seq<char>> {
        dry_lines_all(self.deep_view(), depth)
    }

    open spec fn shallow(&self, depth: nat) -> bool {
        fits_all(self.deep_view(), depth)
    }

    fn build_dry_run(&self, builder: &mut DryRunBuilder, depth: usize) {
        write_fibs(self, builder, depth);
    }
}

impl DryRun for Lie {
    open spec fn lines(&self, depth: nat) -> Seq<Seq<char>> {
        dry_lines_all(self@.fibs, depth)
    }

    open spec fn shallow(&self, depth: nat) -> bool {
        self.wf() && depth < usize::MAX
    }

    fn build_dry_run(&self, builder: &mut DryRunBuilder, depth: usize) {
        proof {
            lemma_one_level_fits(self@.fibs, depth as nat);
        }
        self.actions().build_dry_run(builder, depth);
    }
}

} // verus!
