//! The directory walk: which directory to list next, what to do with a file
//! found in it, and the sampler's counter that the walk shares with the
//! archive scans it starts.
//!
//! The walk itself lists no directory and reads no file. Whoever drives it
//! does, and tells the walk what was found.

use crate::names::is_archive_name;
use crate::names::lowercase;
use crate::names::name_is_relevant_archive;
use crate::report::reports_of;
use crate::report::Event;
use crate::sampler::counter_after;
use crate::sampler::counter_after_visit;
use crate::sampler::is_traced;
use crate::sampler::should_trace_this;
use crate::sampler::traced_among;
use crate::sampler::visits_add_up;
use crate::scan::archive_reports;
use crate::scan::archive_visits;
use crate::scan::scan_archive;
use crate::scan::MAX_DEPTH;
use vstd::prelude::*;

verus! {

/// What to do with a file found in a directory.
#[derive(Debug, Clone, Copy, PartialEq, Eq)]
pub enum FileVerdict {
    /// The name marks a container: read the file and scan it.
    Scan,
    /// The name is the search key: report the file's path.
    Match,
    /// Neither: leave the file alone.
    Pass,
}

/// The verdict on a file by its name. A file whose name marks a container
/// is scanned and not matched; any other matches where its whole name, in
/// lower case, is the key.
pub open spec fn file_verdict_of(file_name: Seq<char>, search_name_lower: Seq<char>) -> FileVerdict {
    if is_archive_name(file_name) {
        FileVerdict::Scan
    } else if lowercase(file_name) == search_name_lower {
        FileVerdict::Match
    } else {
        FileVerdict::Pass
    }
}

/// Decides what to do with a file of the given name.
pub fn file_verdict(file_name: &str, search_name_lower: &str) -> (verdict: FileVerdict)
    ensures
        verdict == file_verdict_of(file_name@, search_name_lower@),
{
    if name_is_relevant_archive(file_name) {
        FileVerdict::Scan
    } else {
        let file_name_lower = file_name.to_lowercase();
        let wanted = search_name_lower.to_owned();
        if file_name_lower == wanted {
            FileVerdict::Match
        } else {
            FileVerdict::Pass
        }
    }
}

/// The state of a walk over directories of type `D`: those still to be
/// listed, the last one next, and the trace sampler.
pub struct Walk<D> {
    pub pending: Vec<D>,
    pub trace_each: usize,
    pub trace_counter: usize,
}

impl<D> Walk<D> {
    /// A walk that has `start` to list and has made no visit yet.
    pub fn new(start: D, trace_each: usize) -> (walk: Self)
        ensures
            walk.pending@ == seq![start],
            walk.trace_each == trace_each,
            walk.trace_counter == 0,
    {
        let mut pending = Vec::new();
        pending.push(start);
        Walk { pending, trace_each, trace_counter: 0 }
    }

    /// Takes the directory to list next, the one noted last, and counts the
    /// visit; the flag says whether the visit is to be traced. `None` when
    /// the walk is over.
    pub fn next_directory(&mut self) -> (next: Option<(D, bool)>)
        ensures
            final(self).trace_each == old(self).trace_each,
            match next {
                Some((directory, traced)) => {
                    &&& old(self).pending@.len() > 0
                    &&& directory == old(self).pending@.last()
                    &&& final(self).pending@ == old(self).pending@.drop_last()
                    &&& traced == is_traced(
                        old(self).trace_each as nat,
                        old(self).trace_counter as nat,
                    )
                    &&& final(self).trace_counter == counter_after_visit(
                        old(self).trace_each as nat,
                        old(self).trace_counter as nat,
                    )
                },
                None => {
                    &&& old(self).pending@.len() == 0
                    &&& final(self).pending@.len() == 0
                    &&& final(self).trace_counter == old(self).trace_counter
                },
            },
    {
        match self.pending.pop() {
            Some(directory) => {
                let traced = should_trace_this(self.trace_each, &mut self.trace_counter);
                Some((directory, traced))
            },
            None => None,
        }
    }

    /// Notes a directory found while listing another: it will be listed
    /// before any that was noted earlier.
    pub fn note_directory(&mut self, directory: D)
        ensures
            final(self).pending@ == old(self).pending@.push(directory),
            final(self).trace_each == old(self).trace_each,
            final(self).trace_counter == old(self).trace_counter,
    {
        self.pending.push(directory);
    }

    /// Scans a container file found on the way, with the full depth budget
    /// and the walk's own sampler.
    pub fn scan_file(
        &mut self,
        path: &str,
        data: &Vec<u8>,
        search_name_lower: &str,
        events: &mut Vec<Event>,
    )
        ensures
            final(self).pending@ == old(self).pending@,
            final(self).trace_each == old(self).trace_each,
            reports_of(final(events)@) == reports_of(old(events)@) + archive_reports(
                path@,
                data@,
                search_name_lower@,
                MAX_DEPTH as nat,
                old(self).trace_each as nat,
                old(self).trace_counter as nat,
            ),
            final(self).trace_counter == counter_after(
                old(self).trace_each as nat,
                old(self).trace_counter as nat,
                archive_visits(data@, MAX_DEPTH as nat),
            ),
    {
        scan_archive(
            path,
            data,
            search_name_lower,
            MAX_DEPTH,
            self.trace_each,
            &mut self.trace_counter,
            events,
        );
    }
}

/// One step of a walk that counts visits: the listing of a directory, or the
/// scan of a container file with the given bytes.
pub enum Step {
    Directory,
    Container(Seq<u8>),
}

/// How many visits a step makes: one for a directory, and for a container
/// file one for each entry that its scan visits.
pub open spec fn step_visits(step: Step) -> nat {
    match step {
        Step::Directory => 1,
        Step::Container(bytes) => archive_visits(bytes, MAX_DEPTH as nat),
    }
}

/// How many visits a run of steps makes.
pub open spec fn steps_visits(steps: Seq<Step>) -> nat
    decreases steps.len(),
{
    if steps.len() == 0 {
        0
    } else {
        steps_visits(steps.drop_last()) + step_visits(steps.last())
    }
}

/// The counter after a run of steps, each step going on from where the one
/// before left it, as `next_directory` and `scan_file` do.
pub open spec fn counter_through(stride: nat, counter: nat, steps: Seq<Step>) -> nat
    decreases steps.len(),
{
    if steps.len() == 0 {
        counter
    } else {
        counter_after(
            stride,
            counter_through(stride, counter, steps.drop_last()),
            step_visits(steps.last()),
        )
    }
}

/// How many visits are traced in a run of steps, each step counted by
/// itself from the counter that the one before left.
pub open spec fn traced_through(stride: nat, counter: nat, steps: Seq<Step>) -> nat
    decreases steps.len(),
{
    if steps.len() == 0 {
        0
    } else {
        traced_through(stride, counter, steps.drop_last()) + traced_among(
            stride,
            counter_through(stride, counter, steps.drop_last()),
            step_visits(steps.last()),
        )
    }
}

/// Directories and archive entries are sampled as one stream of visits: a
/// run of steps leaves the counter, and traces as many visits, as the same
/// number of visits made in a row, whichever kind each of them is.
pub proof fn visits_are_sampled_as_one_stream(stride: nat, counter: nat, steps: Seq<Step>)
    ensures
        counter_through(stride, counter, steps) == counter_after(
            stride,
            counter,
            steps_visits(steps),
        ),
        traced_through(stride, counter, steps) == traced_among(
            stride,
            counter,
            steps_visits(steps),
        ),
    decreases steps.len(),
{
    if steps.len() > 0 {
        visits_are_sampled_as_one_stream(stride, counter, steps.drop_last());
        visits_add_up(
            stride,
            counter,
            steps_visits(steps.drop_last()),
            step_visits(steps.last()),
        );
    }
}

} // verus!
