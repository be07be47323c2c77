//! The runner's failure taxonomy and the library's error type.

use vstd::prelude::*;
use crate::dump::{debug_quote, debug_str};
use crate::text::push_str;

verus! {

/// A handler failure as the runner reports it: five kinds.
#[derive(Debug, Clone, PartialEq, Eq)]
pub enum RunnerError {
    /// The input did not decode.
    Decode(String),
    /// No handler has that entrypoint name.
    UnknownEntrypoint(String),
    /// The handler returned an error; `details` is its JSON detail value, if any.
    Function { message: String, details: Option<String> },
    /// The output did not encode.
    Encode(String),
    /// The handler panicked.
    Panic { message: String, backtrace: String },
}

/// The wire name of a failure kind.
pub open spec fn spec_kind(e: RunnerError) -> Seq<char> {
    match e {
        RunnerError::Decode(_) => "decode_error"@,
        RunnerError::UnknownEntrypoint(_) => "unknown_entrypoint"@,
        RunnerError::Function { .. } => "function_error"@,
        RunnerError::Encode(_) => "encode_error"@,
        RunnerError::Panic { .. } => "panic"@,
    }
}

impl RunnerError {
    /// The wire name of this failure's kind.
    pub fn kind(&self) -> (r: &'static str)
        ensures
            r@ == spec_kind(*self),
    {
        match self {
            RunnerError::Decode(_) => "decode_error",
            RunnerError::UnknownEntrypoint(_) => "unknown_entrypoint",
            RunnerError::Function { .. } => "function_error",
            RunnerError::Encode(_) => "encode_error",
            RunnerError::Panic { .. } => "panic",
        }
    }
}

/// The failure a `{kind, message, details, backtrace}` object stands for: the
/// five known kinds map to their variants (details dropped when absent or JSON
/// `null`, a missing backtrace read as empty); any other kind degrades to a
/// decode failure naming it.
pub open spec fn reconstructed(kind: Seq<char>, message: Seq<char>, details: Option<Seq<char>>, backtrace: Seq<char>, r: RunnerError) -> bool {
    if kind == "decode_error"@ {
        r matches RunnerError::Decode(m) && m@ == message
    } else if kind == "unknown_entrypoint"@ {
        r matches RunnerError::UnknownEntrypoint(m) && m@ == message
    } else if kind == "function_error"@ {
        r matches RunnerError::Function { message: m, details: d } && m@ == message && (match details {
            Some(x) => if x == "null"@ { d is None } else { d matches Some(y) && y@ == x },
            None => d is None,
        })
    } else if kind == "encode_error"@ {
        r matches RunnerError::Encode(m) && m@ == message
    } else if kind == "panic"@ {
        r matches RunnerError::Panic { message: m, backtrace: b } && m@ == message && b@ == backtrace
    } else {
        r matches RunnerError::Decode(m) && m@ == "unrecognized error kind: "@ + kind
    }
}

/// Rebuilds a failure from the fields of the runner's error object (`details`:
/// the JSON text of the `details` value, when present).
pub fn reconstruct_runner_error(kind: &str, message: &str, details: Option<&str>, backtrace: &str) -> (r: RunnerError)
    ensures
        reconstructed(kind@, message@, match details {
            Some(x) => Some(x@),
            None => None,
        }, backtrace@, r),
{
    if crate::path::str_eq(kind, "decode_error") {
        RunnerError::Decode(String::from_str(message))
    } else if crate::path::str_eq(kind, "unknown_entrypoint") {
        RunnerError::UnknownEntrypoint(String::from_str(message))
    } else if crate::path::str_eq(kind, "function_error") {
        let d = match details {
            Some(x) => if crate::path::str_eq(x, "null") {
                None
            } else {
                Some(String::from_str(x))
            },
            None => None,
        };
        RunnerError::Function { message: String::from_str(message), details: d }
    } else if crate::path::str_eq(kind, "encode_error") {
        RunnerError::Encode(String::from_str(message))
    } else if crate::path::str_eq(kind, "panic") {
        RunnerError::Panic { message: String::from_str(message), backtrace: String::from_str(backtrace) }
    } else {
        let mut m = String::new();
        push_str(&mut m, "unrecognized error kind: ");
        push_str(&mut m, kind);
        RunnerError::Decode(m)
    }
}

/// The library's error type.
#[derive(Debug, Clone, PartialEq, Eq)]
pub enum Error {
    /// No handler has the entrypoint name; `known` lists the registered ones.
    UnknownEntrypoint { name: String, known: Vec<String> },
    /// The handler failed.
    Runner(RunnerError),
    /// The input did not encode to JSON (the encoder's message).
    Encode(String),
    /// The output did not decode from JSON (the decoder's message).
    Decode(String),
    /// A remote operation needs a connected app.
    NotConnected(String),
    /// The operation is not available in this build.
    NotImplemented(String),
    /// The configuration is invalid.
    Config(String),
}

/// The message a handler failure carries.
pub open spec fn runner_message(e: RunnerError) -> Seq<char> {
    match e {
        RunnerError::Decode(m) => m@,
        RunnerError::UnknownEntrypoint(m) => m@,
        RunnerError::Function { message, .. } => message@,
        RunnerError::Encode(m) => m@,
        RunnerError::Panic { message, .. } => message@,
    }
}

/// The quoted names of the first `k` entrypoints, separated by `", "`.
pub open spec fn quoted_names_upto(v: Seq<String>, k: nat) -> Seq<char>
    decreases k,
{
    if k == 0 {
        Seq::empty()
    } else if k == 1 {
        debug_str(v[0]@)
    } else {
        quoted_names_upto(v, (k - 1) as nat) + ", "@ + debug_str(v[k - 1]@)
    }
}

/// The text of an error.
pub open spec fn error_text(e: Error) -> Seq<char> {
    match e {
        Error::UnknownEntrypoint { name, known } => "unknown entrypoint "@ + debug_str(name@)
            + "; known entrypoints: ["@ + quoted_names_upto(known@, known@.len()) + "]"@,
        Error::Runner(r) => "handler failed: "@ + runner_message(r),
        Error::Encode(m) => "failed to encode .local() input to JSON: "@ + m@,
        Error::Decode(m) => "failed to decode handler output from JSON: "@ + m@,
        Error::NotConnected(m) => m@,
        Error::NotImplemented(m) => m@,
        Error::Config(m) => "invalid config: "@ + m@,
    }
}

impl RunnerError {
    /// The message this failure carries.
    pub fn message(&self) -> (r: &str)
        ensures
            r@ == runner_message(*self),
    {
        match self {
            RunnerError::Decode(m) => m.as_str(),
            RunnerError::UnknownEntrypoint(m) => m.as_str(),
            RunnerError::Function { message, .. } => message.as_str(),
            RunnerError::Encode(m) => m.as_str(),
            RunnerError::Panic { message, .. } => message.as_str(),
        }
    }
}

impl Error {
    /// The human-readable text of this error: the unknown name with the known
    /// ones (each quoted), the handler's own message, the codec's message, or
    /// the configuration problem.
    pub fn message(&self) -> (r: String)
        ensures
            r@ == error_text(*self),
    {
        let mut out = String::new();
        match self {
            Error::UnknownEntrypoint { name, known } => {
                push_str(&mut out, "unknown entrypoint ");
                let q = debug_quote(name.as_str());
                push_str(&mut out, q.as_str());
                push_str(&mut out, "; known entrypoints: [");
                let ghost head = out@;
                let mut i: usize = 0;
                while i < known.len()
                    invariant
                        i <= known@.len(),
                        out@ == head + quoted_names_upto(known@, i as nat),
                    decreases known@.len() - i,
                {
                    if i > 0 {
                        push_str(&mut out, ", ");
                    }
                    let q = debug_quote(known[i].as_str());
                    push_str(&mut out, q.as_str());
                    proof {
                        assert(out@ =~= head + quoted_names_upto(known@, (i + 1) as nat));
                    }
                    i = i + 1;
                }
                push_str(&mut out, "]");
            },
            Error::Runner(e) => {
                push_str(&mut out, "handler failed: ");
                push_str(&mut out, e.message());
            },
            Error::Encode(m) => {
                push_str(&mut out, "failed to encode .local() input to JSON: ");
                push_str(&mut out, m.as_str());
            },
            Error::Decode(m) => {
                push_str(&mut out, "failed to decode handler output from JSON: ");
                push_str(&mut out, m.as_str());
            },
            Error::NotConnected(m) => {
                push_str(&mut out, m.as_str());
            },
            Error::NotImplemented(m) => {
                push_str(&mut out, m.as_str());
            },
            Error::Config(m) => {
                push_str(&mut out, "invalid config: ");
                push_str(&mut out, m.as_str());
            },
        }
        proof {
            assert(out@ =~= error_text(*self));
        }
        out
    }
}

} // verus!
