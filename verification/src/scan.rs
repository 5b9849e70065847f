//! The archive scanner: looks at every entry of an archive, goes into the
//! archives nested in it as far as the depth budget reaches, and records
//! what matches the search key.

use crate::archive::archive_names;
use crate::archive::archive_source;
use crate::archive::ends_in_separator;
use crate::archive::entry_bytes;
use crate::archive::entry_is_directory;
use crate::archive::open_archive;
use crate::archive::zip_entry_content;
use crate::archive::zip_entry_error;
use crate::archive::zip_entry_found;
use crate::archive::zip_names;
use crate::archive::zip_open_error;
use crate::archive::zip_opens;
use crate::names::entry_path;
use crate::names::entry_path_of;
use crate::names::is_archive_name;
use crate::names::is_match;
use crate::names::name_is_relevant_archive;
use crate::names::name_matches;
use crate::report::record;
use crate::report::reports_of;
use crate::report::Event;
use crate::report::Report;
use crate::sampler::counter_after;
use crate::sampler::counter_after_visit;
use crate::sampler::is_traced;
use crate::sampler::should_trace_this;
use crate::sampler::visits_add_up;
use std::io::Cursor;
use vstd::prelude::*;
use zip::ZipArchive;

verus! {

/// How many nested archives a scan may go into, one inside the other, below
/// the archive it starts with.
pub const MAX_DEPTH: usize = 8;

/// What to do with an entry that was fetched.
#[derive(Debug, Clone, Copy, PartialEq, Eq)]
pub enum Verdict {
    /// A directory marker: nothing to do.
    Directory,
    /// A nested archive, and the depth budget is used up: report and skip.
    TooDeep,
    /// A nested archive within the budget: read it and scan it.
    Descend,
    /// An ordinary file whose base name is the search key: report it.
    Match,
    /// An ordinary file of another name: nothing to do.
    Pass,
}

/// The verdict on a fetched entry. A name that marks a container is never
/// matched against the key itself.
pub open spec fn verdict_of(
    name: Seq<char>,
    directory: bool,
    search_name_lower: Seq<char>,
    remain_depth: nat,
) -> Verdict {
    if directory {
        Verdict::Directory
    } else if is_archive_name(name) {
        if remain_depth == 0 {
            Verdict::TooDeep
        } else {
            Verdict::Descend
        }
    } else if is_match(name, search_name_lower) {
        Verdict::Match
    } else {
        Verdict::Pass
    }
}

/// Decides what to do with the entry `name`, given whether the archive marks
/// it as a directory.
pub fn entry_verdict(
    name: &str,
    directory: bool,
    search_name_lower: &str,
    remain_depth: usize,
) -> (verdict: Verdict)
    ensures
        verdict == verdict_of(name@, directory, search_name_lower@, remain_depth as nat),
{
    if directory {
        Verdict::Directory
    } else if name_is_relevant_archive(name) {
        if remain_depth == 0 {
            Verdict::TooDeep
        } else {
            Verdict::Descend
        }
    } else if name_matches(name, search_name_lower) {
        Verdict::Match
    } else {
        Verdict::Pass
    }
}

/// The bytes of the nested archive that the scan of an entry goes into;
/// `None` where it goes into none.
pub open spec fn nested_archive(bytes: Seq<u8>, name: Seq<char>, remain_depth: nat) -> Option<
    Seq<u8>,
> {
    if zip_entry_found(bytes, name) && !ends_in_separator(name) && is_archive_name(name)
        && remain_depth > 0 {
        match zip_entry_content(bytes, name) {
            Ok(inner) => Some(inner),
            Err(_) => None,
        }
    } else {
        None
    }
}

/// How many entries the scan of an archive visits, nested ones included.
pub open spec fn archive_visits(bytes: Seq<u8>, remain_depth: nat) -> nat
    decreases remain_depth, 2nat, 0nat,
{
    if zip_opens(bytes) {
        entries_visits(bytes, zip_names(bytes), remain_depth)
    } else {
        0
    }
}

/// How many entries are visited while the entries `names` of an archive are
/// scanned one after the other.
pub open spec fn entries_visits(bytes: Seq<u8>, names: Seq<Seq<char>>, remain_depth: nat) -> nat
    decreases remain_depth, 1nat, names.len(),
{
    if names.len() == 0 {
        0
    } else {
        entries_visits(bytes, names.drop_last(), remain_depth) + entry_visits(
            bytes,
            names.last(),
            remain_depth,
        )
    }
}

/// How many entries the scan of one entry visits: the entry itself, and
/// those of the archive nested in it where the scan goes into one.
pub open spec fn entry_visits(bytes: Seq<u8>, name: Seq<char>, remain_depth: nat) -> nat
    decreases remain_depth, 0nat, 0nat,
{
    match nested_archive(bytes, name, remain_depth) {
        Some(inner) => 1 + archive_visits(inner, (remain_depth - 1) as nat),
        None => 1,
    }
}

/// What the scan of an archive reports, in order: a failure to open it, or
/// what the scans of its entries report.
pub open spec fn archive_reports(
    path: Seq<char>,
    bytes: Seq<u8>,
    search_name_lower: Seq<char>,
    remain_depth: nat,
    stride: nat,
    counter: nat,
) -> Seq<Report>
    decreases remain_depth, 2nat, 0nat,
{
    if zip_opens(bytes) {
        entries_reports(
            path,
            bytes,
            zip_names(bytes),
            search_name_lower,
            remain_depth,
            stride,
            counter,
        )
    } else {
        seq![Report::NotOpened { path, cause: zip_open_error(bytes)->0 }]
    }
}

/// What the scans of the entries `names` report, one entry after the other,
/// the counter going on from each to the next.
pub open spec fn entries_reports(
    path: Seq<char>,
    bytes: Seq<u8>,
    names: Seq<Seq<char>>,
    search_name_lower: Seq<char>,
    remain_depth: nat,
    stride: nat,
    counter: nat,
) -> Seq<Report>
    decreases remain_depth, 1nat, names.len(),
{
    if names.len() == 0 {
        Seq::empty()
    } else {
        let earlier = names.drop_last();
        entries_reports(path, bytes, earlier, search_name_lower, remain_depth, stride, counter)
            + entry_reports(
            path,
            bytes,
            names.last(),
            search_name_lower,
            remain_depth,
            stride,
            counter_after(stride, counter, entries_visits(bytes, earlier, remain_depth)),
        )
    }
}

/// What the scan reports of an entry itself, its visit and whatever is
/// nested in it left aside: that it cannot be fetched or read, that it is
/// too deep, or that it matches. `None` where it has nothing to say.
pub open spec fn entry_report(
    path: Seq<char>,
    bytes: Seq<u8>,
    name: Seq<char>,
    search_name_lower: Seq<char>,
    remain_depth: nat,
) -> Option<Report> {
    match zip_entry_error(bytes, name) {
        Some(cause) => Some(Report::NotFetched { archive: path, name, cause }),
        None => match verdict_of(name, ends_in_separator(name), search_name_lower, remain_depth) {
            Verdict::Directory => None,
            Verdict::Pass => None,
            Verdict::Match => Some(Report::Found { path: entry_path_of(path, name) }),
            Verdict::TooDeep => Some(Report::TooDeep { archive: path, name }),
            Verdict::Descend => match zip_entry_content(bytes, name) {
                Ok(_) => None,
                Err(cause) => Some(Report::NotRead { archive: path, name, cause }),
            },
        },
    }
}

/// The reports, none or one, that an optional report stands for.
pub open spec fn said(report: Option<Report>) -> Seq<Report> {
    match report {
        Some(report) => seq![report],
        None => Seq::empty(),
    }
}

/// What the scan of one entry reports: its visit where that is sampled, then
/// what the scan of the archive nested in it reports, or what there is to
/// say of the entry itself.
pub open spec fn entry_reports(
    path: Seq<char>,
    bytes: Seq<u8>,
    name: Seq<char>,
    search_name_lower: Seq<char>,
    remain_depth: nat,
    stride: nat,
    counter: nat,
) -> Seq<Report>
    decreases remain_depth, 0nat, 0nat,
{
    let visit = if is_traced(stride, counter) {
        Some(Report::Visited { path: entry_path_of(path, name) })
    } else {
        None
    };
    said(visit) + match nested_archive(bytes, name, remain_depth) {
        Some(inner) => archive_reports(
            entry_path_of(path, name),
            inner,
            search_name_lower,
            (remain_depth - 1) as nat,
            stride,
            counter_after_visit(stride, counter),
        ),
        None => said(entry_report(path, bytes, name, search_name_lower, remain_depth)),
    }
}

/// Scans the archive held in `archive_data`, known by the logical path
/// `archive_path`, and adds to `events` what it finds.
///
/// Bytes that do not open as an archive are reported and left alone. An
/// entry that cannot be fetched or read is reported and skipped; the scan
/// goes on with the next one.
pub fn scan_archive(
    archive_path: &str,
    archive_data: &Vec<u8>,
    search_name_lower: &str,
    remain_depth: usize,
    trace_each: usize,
    trace_counter: &mut usize,
    events: &mut Vec<Event>,
)
    ensures
        reports_of(final(events)@) == reports_of(old(events)@) + archive_reports(
            archive_path@,
            archive_data@,
            search_name_lower@,
            remain_depth as nat,
            trace_each as nat,
            *old(trace_counter) as nat,
        ),
        *final(trace_counter) == counter_after(
            trace_each as nat,
            *old(trace_counter) as nat,
            archive_visits(archive_data@, remain_depth as nat),
        ),
    decreases remain_depth, 1nat,
{
    let ghost before = reports_of(events@);
    let ghost start = *trace_counter as nat;
    let mut archive = match open_archive(archive_data) {
        Ok(archive) => archive,
        Err(cause) => {
            record(events, Event::NotOpened { path: archive_path.to_owned(), cause });
            return ;
        },
    };
    let archive_file_names = archive_names(&archive);
    let ghost names = archive_file_names.deep_view();
    let mut index: usize = 0;
    while index < archive_file_names.len()
        invariant
            archive_source(archive) == archive_data@,
            names == archive_file_names.deep_view(),
            index <= archive_file_names.len(),
            reports_of(events@) == before + entries_reports(
                archive_path@,
                archive_data@,
                names.take(index as int),
                search_name_lower@,
                remain_depth as nat,
                trace_each as nat,
                start,
            ),
            *trace_counter == counter_after(
                trace_each as nat,
                start,
                entries_visits(archive_data@, names.take(index as int), remain_depth as nat),
            ),
        decreases archive_file_names.len() - index,
    {
        let name = archive_file_names[index].as_str();
        proof {
            let earlier = names.take(index as int);
            let upto = names.take(index + 1);
            assert(upto.drop_last() == earlier);
            visits_add_up(
                trace_each as nat,
                start,
                entries_visits(archive_data@, earlier, remain_depth as nat),
                entry_visits(archive_data@, name@, remain_depth as nat),
            );
        }
        scan_entry(
            archive_path,
            &mut archive,
            name,
            search_name_lower,
            remain_depth,
            trace_each,
            trace_counter,
            events,
        );
        index = index + 1;
    }
    assert(names.take(index as int) == names);
}

/// Scans one entry of an open archive: counts the visit, fetches the entry
/// and acts on the verdict.
fn scan_entry(
    archive_path: &str,
    archive: &mut ZipArchive<Cursor<&Vec<u8>>>,
    name: &str,
    search_name_lower: &str,
    remain_depth: usize,
    trace_each: usize,
    trace_counter: &mut usize,
    events: &mut Vec<Event>,
)
    ensures
        archive_source(*final(archive)) == archive_source(*old(archive)),
        reports_of(final(events)@) == reports_of(old(events)@) + entry_reports(
            archive_path@,
            archive_source(*old(archive)),
            name@,
            search_name_lower@,
            remain_depth as nat,
            trace_each as nat,
            *old(trace_counter) as nat,
        ),
        *final(trace_counter) == counter_after(
            trace_each as nat,
            *old(trace_counter) as nat,
            entry_visits(archive_source(*old(archive)), name@, remain_depth as nat),
        ),
    decreases remain_depth, 0nat,
{
    let entry_path = entry_path(archive_path, name);
    if should_trace_this(trace_each, trace_counter) {
        record(events, Event::Visited { path: entry_path.clone() });
    }
    assert(counter_after(trace_each as nat, *trace_counter as nat, 0) == *trace_counter);
    let directory = match entry_is_directory(archive, name) {
        Ok(directory) => directory,
        Err(cause) => {
            record(
                events,
                Event::NotFetched { archive: archive_path.to_owned(), name: name.to_owned(), cause },
            );
            return ;
        },
    };
    match entry_verdict(name, directory, search_name_lower, remain_depth) {
        Verdict::Directory => {},
        Verdict::Pass => {},
        Verdict::Match => {
            record(events, Event::Found { path: entry_path });
        },
        Verdict::TooDeep => {
            record(
                events,
                Event::TooDeep { archive: archive_path.to_owned(), name: name.to_owned() },
            );
        },
        Verdict::Descend => {
            match entry_bytes(archive, name) {
                Ok(sub_archive_bytes) => {
                    scan_archive(
                        entry_path.as_str(),
                        &sub_archive_bytes,
                        search_name_lower,
                        remain_depth - 1,
                        trace_each,
                        trace_counter,
                        events,
                    );
                },
                Err(cause) => {
                    record(
                        events,
                        Event::NotRead {
                            archive: archive_path.to_owned(),
                            name: name.to_owned(),
                            cause,
                        },
                    );
                },
            }
        },
    }
}

} // verus!
