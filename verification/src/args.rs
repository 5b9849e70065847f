//! The command line: an optional trace flag, then the directory to start
//! in and the file name to look for.

use crate::names::lowercase;
use crate::sampler::TRACE_EVERY;
use crate::sampler::TRACE_NEVER;
use crate::sampler::TRACE_SOME;
use vstd::prelude::*;
use vstd::string::StringExecFns;

verus! {

/// What a command line asks for.
#[derive(Debug, Clone, PartialEq, Eq)]
pub struct Invocation {
    /// The sampler's stride.
    pub trace_each: usize,
    /// Where among the arguments the start directory stands.
    pub start_at: usize,
    /// The file name to look for, in lower case.
    pub search_name_lower: String,
}

/// An invocation as contracts speak of it.
pub struct InvocationView {
    pub trace_each: usize,
    pub start_at: usize,
    pub search_name_lower: Seq<char>,
}

impl View for Invocation {
    type V = InvocationView;

    open spec fn view(&self) -> InvocationView {
        InvocationView {
            trace_each: self.trace_each,
            start_at: self.start_at,
            search_name_lower: self.search_name_lower@,
        }
    }
}

/// The arguments as texts; `None` stands for one that does not decode as
/// text.
pub open spec fn texts_of(args: Seq<Option<String>>) -> Seq<Option<Seq<char>>> {
    args.map_values(
        |arg: Option<String>|
            match arg {
                Some(text) => Some(text@),
                None => None,
            },
    )
}

/// The stride that a trace flag asks for; `None` for anything that is no
/// trace flag.
pub open spec fn flag_stride(arg: Option<Seq<char>>) -> Option<usize> {
    if arg == Some("--trace"@) {
        Some(TRACE_EVERY)
    } else if arg == Some("--trace-some"@) {
        Some(TRACE_SOME)
    } else {
        None
    }
}

/// What the arguments ask for, the program's own name first among them.
/// After an optional trace flag there are exactly two more, and the second,
/// the file name, is text; anything else is no invocation.
pub open spec fn invocation_of(args: Seq<Option<Seq<char>>>) -> Option<InvocationView> {
    if args.len() < 3 {
        None
    } else {
        let (trace_each, start_at) = match flag_stride(args[1]) {
            Some(stride) => (stride, 2usize),
            None => (TRACE_NEVER, 1usize),
        };
        if args.len() != start_at + 2 {
            None
        } else {
            match args[start_at + 1] {
                Some(name) => Some(
                    InvocationView { trace_each, start_at, search_name_lower: lowercase(name) },
                ),
                None => None,
            }
        }
    }
}

/// Whether an argument is the given flag.
fn is_flag(arg: &Option<String>, flag: &str) -> (same: bool)
    ensures
        same == (arg matches Some(text) && text@ == flag@),
{
    match arg {
        Some(text) => {
            let wanted = String::from_str(flag);
            *text == wanted
        },
        None => false,
    }
}

/// Reads the command line. `None` means that it is to be answered with the
/// usage message.
pub fn parse_arguments(args: &Vec<Option<String>>) -> (parsed: Option<Invocation>)
    ensures
        match parsed {
            Some(invocation) => invocation_of(texts_of(args@)) == Some(invocation@),
            None => invocation_of(texts_of(args@)) is None,
        },
{
    if args.len() < 3 {
        return None;
    }
    let mut trace_each: usize = TRACE_NEVER;
    let mut pos_start: usize = 1;
    if is_flag(&args[1], "--trace") {
        trace_each = TRACE_EVERY;
        pos_start = 2;
    } else if is_flag(&args[1], "--trace-some") {
        trace_each = TRACE_SOME;
        pos_start = 2;
    }
    if args.len() != pos_start + 2 {
        return None;
    }
    match &args[pos_start + 1] {
        Some(name) => Some(
            Invocation {
                trace_each,
                start_at: pos_start,
                search_name_lower: name.as_str().to_lowercase(),
            },
        ),
        None => None,
    }
}

} // verus!
