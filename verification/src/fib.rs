//! The actions that make up a fake terminal session.

use crate::speed::Speed;
use vstd::prelude::*;

verus! {

/// One action of a session.
#[derive(Debug, PartialEq)]
pub enum Fib {
    /// A command that appears to be typed, and the lines it appears to print.
    Run { cmd: String, result: Vec<String> },
    /// A line of output without a prompt.
    Show { text: String },
    /// A command that is really run. Where `apparent_cmd` is given, it is
    /// what appears to be typed.
    System { apparent_cmd: Option<String>, cmd: String },
    /// Actions shown on the alternate screen.
    Screen { apparent_cmd: Option<String>, fibs: Vec<Fib> },
    /// A change of looks. Only the fields that are given change anything.
    Look {
        speed: Option<Speed>,
        title: Option<String>,
        cwd: Option<String>,
        user: Option<String>,
        host: Option<String>,
        final_prompt: Option<bool>,
    },
    /// A named place the operator can jump to.
    Tag { name: String },
    /// A pause of fixed length, in milliseconds.
    Sleep { millis: u64 },
    /// The end of the playback.
    Stop,
    /// Text that appears to be typed and sent where no prompt is shown.
    Enter { msg: String },
    /// Clears the screen.
    Clear,
}

/// The view of a [`Fib`]: the same action with its texts
/// as sequences of characters.
pub enum FibView {
    Run { cmd: Seq<char>, result: Seq<Seq<char>> },
    Show { text: Seq<char> },
    System { apparent_cmd: Option<Seq<char>>, cmd: Seq<char> },
    Screen { apparent_cmd: Option<Seq<char>>, fibs: Seq<FibView> },
    Look {
        speed: Option<Seq<char>>,
        title: Option<Seq<char>>,
        cwd: Option<Seq<char>>,
        user: Option<Seq<char>>,
        host: Option<Seq<char>>,
        final_prompt: Option<bool>,
    },
    Tag { name: Seq<char> },
    Sleep { millis: u64 },
    Stop,
    Enter { msg: Seq<char> },
    Clear,
}

impl DeepView for Fib {
    type V = FibView;

    open spec fn deep_view(&self) -> FibView
        decreases self,
    {
        match self {
            Fib::Run { cmd, result } => FibView::Run { cmd: cmd@, result: result.deep_view() },
            Fib::Show { text } => FibView::Show { text: text@ },
            Fib::System { apparent_cmd, cmd } => FibView::System {
                apparent_cmd: apparent_cmd.deep_view(),
                cmd: cmd@,
            },
            Fib::Screen { apparent_cmd, fibs } => FibView::Screen {
                apparent_cmd: apparent_cmd.deep_view(),
                fibs: views_of(fibs@),
            },
            Fib::Look { speed, title, cwd, user, host, final_prompt } => FibView::Look {
                speed: speed.deep_view(),
                title: title.deep_view(),
                cwd: cwd.deep_view(),
                user: user.deep_view(),
                host: host.deep_view(),
                final_prompt: *final_prompt,
            },
            Fib::Tag { name } => FibView::Tag { name: name@ },
            Fib::Sleep { millis } => FibView::Sleep { millis: *millis },
            Fib::Stop => FibView::Stop,
            Fib::Enter { msg } => FibView::Enter { msg: msg@ },
            Fib::Clear => FibView::Clear,
        }
    }
}

/// The views of the actions of a list, in order.
pub open spec fn views_of(fibs: Seq<Fib>) -> Seq<FibView>
    decreases fibs,
{
    if fibs.len() == 0 {
        Seq::empty()
    } else {
        views_of(fibs.drop_last()).push(fibs.last().deep_view())
    }
}

/// [`views_of`] is the view of each element.
pub proof fn lemma_views_of(fibs: Seq<Fib>)
    ensures
        views_of(fibs).len() == fibs.len(),
        forall|i: int| 0 <= i < fibs.len() ==> #[trigger] views_of(fibs)[i] == fibs[i].deep_view(),
    decreases fibs.len(),
{
    if fibs.len() > 0 {
        lemma_views_of(fibs.drop_last());
        assert(views_of(fibs) == views_of(fibs.drop_last()).push(fibs.last().deep_view()));
    } else {
        assert(views_of(fibs) == Seq::<FibView>::empty());
    }
}

/// The view of a screen holds the views of the actions inside it.
pub proof fn lemma_screen_view(apparent_cmd: Option<String>, fibs: Vec<Fib>)
    ensures
        (Fib::Screen { apparent_cmd, fibs }).deep_view() == (FibView::Screen {
            apparent_cmd: apparent_cmd.deep_view(),
            fibs: fibs.deep_view(),
        }),
{
    let inside = (Fib::Screen { apparent_cmd, fibs }).deep_view()->Screen_fibs;
    lemma_views_of(fibs@);
    assert(inside =~= fibs.deep_view());
}

} // verus!
