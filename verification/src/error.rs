//! The command-line tool's error values and the text each one reads as.

use vstd::prelude::*;

use crate::text::{owned, push_all};

verus! {

/// An error of the command-line tool.
#[derive(Debug)]
pub enum CliError {
    Message(String),
    RequiredArgument { name: String, hint: Option<String> },
    InvalidArgument { name: &'static str, value: String, reason: String, hint: Option<String> },
    OperationFailed { action: &'static str, reason: String },
    NotFound { what: String, hint: Option<String> },
}

/// `"\n  hint: <hint>"` when there is a hint, else nothing.
pub open spec fn hint_text(hint: Option<Seq<char>>) -> Seq<char> {
    match hint {
        Some(h) => "\n  hint: "@ + h,
        None => Seq::empty(),
    }
}

/// The view of an optional hint.
pub open spec fn hint_view(hint: Option<String>) -> Option<Seq<char>> {
    match hint {
        Some(h) => Some(h@),
        None => None,
    }
}

/// The text an error reads as.
pub open spec fn error_text(e: CliError) -> Seq<char> {
    match e {
        CliError::Message(m) => m@,
        CliError::RequiredArgument { name, hint } => name@ + " is required"@ + hint_text(
            hint_view(hint),
        ),
        CliError::InvalidArgument { name, value, reason, hint } => "invalid "@ + name@ + " '"@
            + value@ + "': "@ + reason@ + hint_text(hint_view(hint)),
        CliError::OperationFailed { action, reason } => action@ + " failed: "@ + reason@,
        CliError::NotFound { what, hint } => what@ + " not found"@ + hint_text(hint_view(hint)),
    }
}

/// The suffix an error's text ends with for an optional hint.
pub fn hint_suffix(hint: &Option<String>) -> (r: String)
    ensures
        r@ == hint_text(hint_view(*hint)),
{
    match hint {
        Some(h) => {
            let mut s = owned("\n  hint: ");
            push_all(&mut s, h.as_str());
            s
        },
        None => {
            let s = String::new();
            proof {
                assert(s@ =~= Seq::<char>::empty());
            }
            s
        },
    }
}

impl CliError {
    /// An error that is only a message.
    pub fn msg(message: &str) -> (e: CliError)
        ensures
            e matches CliError::Message(m) && m@ == message@,
    {
        CliError::Message(owned(message))
    }

    /// A required argument is missing.
    pub fn required_argument(name: &str) -> (e: CliError)
        ensures
            e matches CliError::RequiredArgument { name: n, hint } && n@ == name@ && hint is None,
    {
        CliError::RequiredArgument { name: owned(name), hint: None }
    }

    /// A required argument is missing, with a hint.
    pub fn required_argument_with_hint(name: &str, hint: &str) -> (e: CliError)
        ensures
            e matches CliError::RequiredArgument { name: n, hint: h } && n@ == name@ && hint_view(h)
                == Some(hint@),
    {
        CliError::RequiredArgument { name: owned(name), hint: Some(owned(hint)) }
    }

    /// An argument has a value that is not accepted.
    pub fn invalid_argument(name: &'static str, value: &str, reason: &str) -> (e: CliError)
        ensures
            e matches CliError::InvalidArgument { name: n, value: v, reason: r, hint } && n == name
                && v@ == value@ && r@ == reason@ && hint is None,
    {
        CliError::InvalidArgument { name, value: owned(value), reason: owned(reason), hint: None }
    }

    /// An argument has a value that is not accepted, with a hint.
    pub fn invalid_argument_with_hint(name: &'static str, value: &str, reason: &str, hint: &str) -> (e:
        CliError)
        ensures
            e matches CliError::InvalidArgument { name: n, value: v, reason: r, hint: h } && n == name
                && v@ == value@ && r@ == reason@ && hint_view(h) == Some(hint@),
    {
        CliError::InvalidArgument {
            name,
            value: owned(value),
            reason: owned(reason),
            hint: Some(owned(hint)),
        }
    }

    /// An operation failed.
    pub fn operation_failed(action: &'static str, reason: &str) -> (e: CliError)
        ensures
            e matches CliError::OperationFailed { action: a, reason: r } && a == action && r@
                == reason@,
    {
        CliError::OperationFailed { action, reason: owned(reason) }
    }

    /// Something was not found, with an optional hint.
    pub fn not_found(what: &str, hint: Option<String>) -> (e: CliError)
        ensures
            e matches CliError::NotFound { what: w, hint: h } && w@ == what@ && hint_view(h)
                == hint_view(hint),
    {
        CliError::NotFound { what: owned(what), hint }
    }

    /// The text this error reads as.
    pub fn text(&self) -> (r: String)
        ensures
            r@ == error_text(*self),
    {
        match self {
            CliError::Message(m) => owned(m.as_str()),
            CliError::RequiredArgument { name, hint } => {
                let mut s = owned(name.as_str());
                push_all(&mut s, " is required");
                push_all(&mut s, hint_suffix(hint).as_str());
                s
            },
            CliError::InvalidArgument { name, value, reason, hint } => {
                let mut s = owned("invalid ");
                push_all(&mut s, name);
                push_all(&mut s, " '");
                push_all(&mut s, value.as_str());
                push_all(&mut s, "': ");
                push_all(&mut s, reason.as_str());
                push_all(&mut s, hint_suffix(hint).as_str());
                s
            },
            CliError::OperationFailed { action, reason } => {
                let mut s = owned(action);
                push_all(&mut s, " failed: ");
                push_all(&mut s, reason.as_str());
                s
            },
            CliError::NotFound { what, hint } => {
                let mut s = owned(what.as_str());
                push_all(&mut s, " not found");
                push_all(&mut s, hint_suffix(hint).as_str());
                s
            },
        }
    }
}

impl From<String> for CliError {
    fn from(message: String) -> (e: CliError) {
        CliError::Message(message)
    }
}

impl vstd::std_specs::convert::FromSpecImpl<String> for CliError {
    open spec fn obeys_from_spec() -> bool {
        true
    }

    open spec fn from_spec(message: String) -> CliError {
        CliError::Message(message)
    }
}

/// Law: an error with a hint reads as its message followed by a line
/// `  hint: <hint>`.
pub proof fn law_hint_is_last_line(e: CliError, h: Seq<char>)
    requires
        match e {
            CliError::RequiredArgument { hint, .. } => hint_view(hint) == Some(h),
            CliError::InvalidArgument { hint, .. } => hint_view(hint) == Some(h),
            CliError::NotFound { hint, .. } => hint_view(hint) == Some(h),
            _ => false,
        },
    ensures
        error_text(e).len() >= h.len() + 9,
        error_text(e).subrange(error_text(e).len() - h.len() - 9, error_text(e).len() as int)
            == "\n  hint: "@ + h,
{
    let t = error_text(e);
    let suffix = "\n  hint: "@ + h;
    reveal_strlit("\n  hint: ");
    let prefix = match e {
        CliError::RequiredArgument { name, .. } => name@ + " is required"@,
        CliError::InvalidArgument { name, value, reason, .. } => "invalid "@ + name@ + " '"@
            + value@ + "': "@ + reason@,
        CliError::NotFound { what, .. } => what@ + " not found"@,
        _ => Seq::empty(),
    };
    assert(t =~= prefix + suffix);
    assert(t.subrange(t.len() - h.len() - 9, t.len() as int) =~= suffix);
}

} // verus!
