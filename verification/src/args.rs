//! What the command line asks for.

use vstd::prelude::*;
use vstd::string::*;

verus! {

/// The subcommand that sets up a new project.
#[derive(Clone, Copy, Debug, PartialEq, Eq)]
pub enum Init {
    Init,
}

/// What the command line asks for.
#[derive(Debug, PartialEq, Eq)]
pub struct Args {
    init: Option<Init>,
    spec: String,
    unrestricted: bool,
    dry_run: bool,
}

/// The view of [`Args`].
pub struct ArgsView {
    pub init: Option<Init>,
    pub spec: Seq<char>,
    pub unrestricted: bool,
    pub dry_run: bool,
}

impl View for Args {
    type V = ArgsView;

    closed spec fn view(&self) -> ArgsView {
        ArgsView {
            init: self.init,
            spec: self.spec@,
            unrestricted: self.unrestricted,
            dry_run: self.dry_run,
        }
    }
}

impl Default for Args {
    /// The arguments of a call without arguments: play `lie.rhai`, within
    /// the sandbox.
    fn default() -> (args: Args)
        ensures
            args@ == (ArgsView {
                init: None,
                spec: "lie.rhai"@,
                unrestricted: false,
                dry_run: false,
            }),
    {
        Args {
            init: None,
            spec: String::from_str("lie.rhai"),
            unrestricted: false,
            dry_run: false,
        }
    }
}

impl Args {
    /// The arguments as given.
    pub fn new(init: Option<Init>, spec: String, unrestricted: bool, dry_run: bool) -> (args: Args)
        ensures
            args@ == (ArgsView { init, spec: spec@, unrestricted, dry_run }),
    {
        Args { init, spec, unrestricted, dry_run }
    }

    /// Whether a new project is to be set up.
    pub fn init(&self) -> (init: &Option<Init>)
        ensures
            *init == self@.init,
    {
        &self.init
    }

    /// The name of the script.
    pub fn input(&self) -> (spec: &str)
        ensures
            spec@ == self@.spec,
    {
        self.spec.as_str()
    }

    /// Whether the script may run commands and is free of the sandbox's
    /// bounds.
    pub fn unrestricted(&self) -> (b: bool)
        ensures
            b == self@.unrestricted,
    {
        self.unrestricted
    }

    /// Whether the session is written out in place of being played.
    pub fn dry_run(&self) -> (b: bool)
        ensures
            b == self@.dry_run,
    {
        self.dry_run
    }
}

} // verus!
