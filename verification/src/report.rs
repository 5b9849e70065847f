//! What a scan has to say: the matches it found, the visits it traced and
//! the things it could not look into.

use vstd::prelude::*;
use vstd::string::StringExecFns;

verus! {

/// One line of output, as the scan produced it.
///
/// `Found` goes to the primary stream; everything else is a diagnostic. A
/// `cause` is the container reader's own account of a failure.
#[derive(Debug, Clone, PartialEq, Eq)]
pub enum Event {
    /// A file or entry whose base name matches the search key.
    Found { path: String },
    /// An archive entry whose visit was sampled for tracing.
    Visited { path: String },
    /// The bytes at `path` could not be opened as an archive.
    NotOpened { path: String, cause: String },
    /// The entry `name` of the archive at `archive` could not be fetched.
    NotFetched { archive: String, name: String, cause: String },
    /// The entry `name` is a nested archive whose content could not be read.
    NotRead { archive: String, name: String, cause: String },
    /// The entry `name` is a nested archive beyond the depth limit.
    TooDeep { archive: String, name: String },
}

/// An event as contracts speak of it: its texts by their characters.
pub enum Report {
    Found { path: Seq<char> },
    Visited { path: Seq<char> },
    NotOpened { path: Seq<char>, cause: Seq<char> },
    NotFetched { archive: Seq<char>, name: Seq<char>, cause: Seq<char> },
    NotRead { archive: Seq<char>, name: Seq<char>, cause: Seq<char> },
    TooDeep { archive: Seq<char>, name: Seq<char> },
}

impl View for Event {
    type V = Report;

    open spec fn view(&self) -> Report {
        match *self {
            Event::Found { path } => Report::Found { path: path@ },
            Event::Visited { path } => Report::Visited { path: path@ },
            Event::NotOpened { path, cause } => Report::NotOpened { path: path@, cause: cause@ },
            Event::NotFetched { archive, name, cause } => Report::NotFetched {
                archive: archive@,
                name: name@,
                cause: cause@,
            },
            Event::NotRead { archive, name, cause } => Report::NotRead {
                archive: archive@,
                name: name@,
                cause: cause@,
            },
            Event::TooDeep { archive, name } => Report::TooDeep { archive: archive@, name: name@ },
        }
    }
}

/// The reports that a run of events stands for, in the same order.
pub open spec fn reports_of(events: Seq<Event>) -> Seq<Report> {
    events.map_values(|event: Event| event@)
}

/// Adds an event to the end of a log.
pub fn record(events: &mut Vec<Event>, event: Event)
    ensures
        reports_of(final(events)@) == reports_of(old(events)@).push(event@),
{
    events.push(event);
}

/// The line of output that an event makes, without its line terminator: a
/// match is its logical path and nothing else, a traced visit is `A> ` and
/// the path, and a failure names what it is about and gives the cause.
pub open spec fn line_of(report: Report) -> Seq<char> {
    match report {
        Report::Found { path } => path,
        Report::Visited { path } => "A> "@ + path,
        Report::NotOpened { path, cause } => "failed to open "@ + path + " as a ZIP archive: "@
            + cause,
        Report::NotFetched { archive, name, cause } => "failed to obtain "@ + name + " from "@
            + archive + ": "@ + cause,
        Report::NotRead { archive, name, cause } => "failed to read "@ + name + " from "@ + archive
            + ": "@ + cause,
        Report::TooDeep { archive, name } => name + " in "@ + archive
            + " is apparently an archive but we have exceeded the maximum depth"@,
    }
}

impl Event {
    /// Whether the event goes to the primary stream: a match does, and
    /// everything else is a diagnostic.
    pub fn is_match(&self) -> (found: bool)
        ensures
            found == (self@ is Found),
    {
        match self {
            Event::Found { .. } => true,
            _ => false,
        }
    }

    /// The line of output that the event makes.
    pub fn line(&self) -> (line: String)
        ensures
            line@ == line_of(self@),
    {
        match self {
            Event::Found { path } => path.clone(),
            Event::Visited { path } => String::from_str("A> ").concat(path.as_str()),
            Event::NotOpened { path, cause } => {
                let mut line = String::from_str("failed to open ");
                line.append(path.as_str());
                line.append(" as a ZIP archive: ");
                line.append(cause.as_str());
                line
            },
            Event::NotFetched { archive, name, cause } => {
                let mut line = String::from_str("failed to obtain ");
                line.append(name.as_str());
                line.append(" from ");
                line.append(archive.as_str());
                line.append(": ");
                line.append(cause.as_str());
                line
            },
            Event::NotRead { archive, name, cause } => {
                let mut line = String::from_str("failed to read ");
                line.append(name.as_str());
                line.append(" from ");
                line.append(archive.as_str());
                line.append(": ");
                line.append(cause.as_str());
                line
            },
            Event::TooDeep { archive, name } => {
                let mut line = name.clone();
                line.append(" in ");
                line.append(archive.as_str());
                line.append(" is apparently an archive but we have exceeded the maximum depth");
                line
            },
        }
    }
}

/// The line that traces the visit of a directory: `F> ` and its path.
pub fn directory_line(path: &str) -> (line: String)
    ensures
        line@ == "F> "@ + path@,
{
    String::from_str("F> ").concat(path)
}

} // verus!
