//! Where the script comes from, and the limits under which it runs.

use crate::error::{ErrorView, MendaxError};
use vstd::prelude::*;
use vstd::string::*;

verus! {

/// The name under which a script is looked for besides the name given.
pub open spec fn with_extension(fname: Seq<char>) -> Seq<char> {
    fname + ".rhai"@
}

/// The name under which a script is looked for besides the name given: the
/// name with the extension of scripts.
pub fn inferred_name(fname: &str) -> (name: String)
    ensures
        name@ == with_extension(fname@),
{
    let mut name = String::from_str(fname);
    name.append(".rhai");
    name
}

/// The script to run. `exact` is what the file of the given name holds, if
/// there is one, and `inferred` what the file of the name with the extension
/// holds. Where both exist nobody can tell which was meant; where neither
/// exists there is no script.
pub open spec fn source_of(
    fname: Seq<char>,
    exact: Option<Seq<char>>,
    inferred: Option<Seq<char>>,
) -> Result<Seq<char>, ErrorView> {
    match (exact, inferred) {
        (Some(_), Some(_)) => Err(
            ErrorView::AmbiguousSource { f1: fname, f2: with_extension(fname) },
        ),
        (Some(src), None) => Ok(src),
        (None, Some(src)) => Ok(src),
        (None, None) => Err(ErrorView::NoSuchSource { stem: fname }),
    }
}

/// Picks the script to run from what the two files hold that may be meant
/// by `fname`: the file of that name and the file of that name with the
/// extension. Fails where both exist and where neither does.
pub fn get_src(fname: &str, exact: Option<String>, inferred: Option<String>) -> (src: Result<
    String,
    MendaxError,
>)
    ensures
        match source_of(fname@, exact.deep_view(), inferred.deep_view()) {
            Ok(text) => src matches Ok(found) && found@ == text,
            Err(e) => src matches Err(failure) && failure.deep_view() == e,
        },
{
    match (exact, inferred) {
        (Some(_), Some(_)) => Err(
            MendaxError::AmbiguousSource {
                f1: String::from_str(fname),
                f2: inferred_name(fname),
            },
        ),
        (Some(src), None) => Ok(src),
        (None, Some(src)) => Ok(src),
        (None, None) => Err(MendaxError::NoSuchSource { stem: String::from_str(fname) }),
    }
}

/// The bounds that hold a script in check.
#[derive(Clone, Copy, Debug, PartialEq, Eq)]
pub struct Limits {
    /// The most elements an array may have.
    pub max_array_size: usize,
    /// The deepest that calls may nest.
    pub max_call_levels: usize,
    /// The deepest that an expression may nest outside functions.
    pub max_expr_depth: usize,
    /// The deepest that an expression may nest inside a function.
    pub max_function_expr_depth: usize,
    /// The most entries a map may have.
    pub max_map_size: usize,
    /// The most operations a script may perform.
    pub max_operations: u64,
    /// The most bytes a string may have.
    pub max_string_size: usize,
}

/// How the scripting engine is set up.
#[derive(Clone, Copy, Debug, PartialEq, Eq)]
pub struct Sandbox {
    /// The bounds on the script, if it is bounded.
    pub limits: Option<Limits>,
    /// Whether a variable that was never defined is an error.
    pub strict_variables: bool,
    /// Whether a property that a map lacks is an error.
    pub fail_on_invalid_map_property: bool,
}

/// The bounds on a script that is not trusted.
pub open spec fn standard_limits() -> Limits {
    Limits {
        max_array_size: 1000,
        max_call_levels: 100,
        max_expr_depth: 100,
        max_function_expr_depth: 100,
        max_map_size: 1000,
        max_operations: 10000,
        max_string_size: 15000,
    }
}

/// How the scripting engine is set up: a script that is not trusted runs
/// within the standard bounds, a trusted one without; both are held to
/// strict variables and strict map properties.
pub open spec fn sandbox_of(unrestricted: bool) -> Sandbox {
    Sandbox {
        limits: if unrestricted {
            None
        } else {
            Some(standard_limits())
        },
        strict_variables: true,
        fail_on_invalid_map_property: true,
    }
}

/// Tells how to set up the scripting engine.
pub fn engine(unrestricted: bool) -> (sandbox: Sandbox)
    ensures
        sandbox == sandbox_of(unrestricted),
{
    let limits: Option<Limits> = if unrestricted {
        None
    } else {
        Some(
            Limits {
                max_array_size: 1000,
                max_call_levels: 100,
                max_expr_depth: 100,
                max_function_expr_depth: 100,
                max_map_size: 1000,
                max_operations: 10000,
                max_string_size: 15000,
            },
        )
    };
    Sandbox { limits, strict_variables: true, fail_on_invalid_map_property: true }
}

} // verus!
