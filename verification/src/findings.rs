//! What a scan finds, the tracing of visits left aside, and how that relates
//! to what it reports.

use crate::archive::zip_names;
use crate::archive::zip_open_error;
use crate::archive::zip_opens;
use crate::names::entry_path_of;
use crate::report::Report;
use crate::sampler::counter_after;
use crate::sampler::counter_after_visit;
use crate::sampler::is_traced;
use crate::sampler::traced_among;
use crate::sampler::visits_add_up;
use crate::scan::archive_reports;
use crate::scan::archive_visits;
use crate::scan::entries_reports;
use crate::scan::entries_visits;
use crate::scan::entry_report;
use crate::scan::entry_reports;
use crate::scan::entry_visits;
use crate::scan::nested_archive;
use crate::scan::said;
use vstd::prelude::*;

verus! {

/// Whether a report is a finding: anything but the trace of a visit.
pub open spec fn is_finding(report: Report) -> bool {
    !(report is Visited)
}

/// The findings among some reports, in their order.
pub open spec fn findings_in(reports: Seq<Report>) -> Seq<Report> {
    reports.filter(|report: Report| is_finding(report))
}

/// The traces of visits among some reports, in their order.
pub open spec fn traces_in(reports: Seq<Report>) -> Seq<Report> {
    reports.filter(|report: Report| report is Visited)
}

/// What the scan of an archive finds: that it does not open, or what the
/// scans of its entries find.
pub open spec fn archive_findings(
    path: Seq<char>,
    bytes: Seq<u8>,
    search_name_lower: Seq<char>,
    remain_depth: nat,
) -> Seq<Report>
    decreases remain_depth, 2nat, 0nat,
{
    if zip_opens(bytes) {
        entries_findings(path, bytes, zip_names(bytes), search_name_lower, remain_depth)
    } else {
        seq![Report::NotOpened { path, cause: zip_open_error(bytes)->0 }]
    }
}

/// What the scans of the entries `names` find, one entry after the other.
pub open spec fn entries_findings(
    path: Seq<char>,
    bytes: Seq<u8>,
    names: Seq<Seq<char>>,
    search_name_lower: Seq<char>,
    remain_depth: nat,
) -> Seq<Report>
    decreases remain_depth, 1nat, names.len(),
{
    if names.len() == 0 {
        Seq::empty()
    } else {
        entries_findings(path, bytes, names.drop_last(), search_name_lower, remain_depth)
            + entry_findings(path, bytes, names.last(), search_name_lower, remain_depth)
    }
}

/// What the scan of one entry finds: what is found in the archive nested in
/// it, or what there is to say of the entry itself.
pub open spec fn entry_findings(
    path: Seq<char>,
    bytes: Seq<u8>,
    name: Seq<char>,
    search_name_lower: Seq<char>,
    remain_depth: nat,
) -> Seq<Report>
    decreases remain_depth, 0nat, 0nat,
{
    match nested_archive(bytes, name, remain_depth) {
        Some(inner) => archive_findings(
            entry_path_of(path, name),
            inner,
            search_name_lower,
            (remain_depth - 1) as nat,
        ),
        None => said(entry_report(path, bytes, name, search_name_lower, remain_depth)),
    }
}

proof fn said_splits(report: Option<Report>)
    ensures
        findings_in(said(report)) == if report matches Some(r) && is_finding(r) {
            said(report)
        } else {
            Seq::empty()
        },
        traces_in(said(report)).len() == if report matches Some(r) && r is Visited {
            1nat
        } else {
            0nat
        },
{
    reveal_with_fuel(Seq::filter, 2);
}

proof fn entry_reports_split(
    path: Seq<char>,
    bytes: Seq<u8>,
    name: Seq<char>,
    search_name_lower: Seq<char>,
    remain_depth: nat,
    stride: nat,
    counter: nat,
)
    ensures
        findings_in(
            entry_reports(path, bytes, name, search_name_lower, remain_depth, stride, counter),
        ) == entry_findings(path, bytes, name, search_name_lower, remain_depth),
        traces_in(
            entry_reports(path, bytes, name, search_name_lower, remain_depth, stride, counter),
        ).len() == traced_among(stride, counter, entry_visits(bytes, name, remain_depth)),
    decreases remain_depth, 0nat, 0nat,
{
    let visit = if is_traced(stride, counter) {
        Some(Report::Visited { path: entry_path_of(path, name) })
    } else {
        None
    };
    let rest = match nested_archive(bytes, name, remain_depth) {
        Some(inner) => archive_reports(
            entry_path_of(path, name),
            inner,
            search_name_lower,
            (remain_depth - 1) as nat,
            stride,
            counter_after_visit(stride, counter),
        ),
        None => said(entry_report(path, bytes, name, search_name_lower, remain_depth)),
    };
    said_splits(visit);
    match nested_archive(bytes, name, remain_depth) {
        Some(inner) => {
            archive_reports_split(
                entry_path_of(path, name),
                inner,
                search_name_lower,
                (remain_depth - 1) as nat,
                stride,
                counter_after_visit(stride, counter),
            );
        },
        None => {
            said_splits(entry_report(path, bytes, name, search_name_lower, remain_depth));
        },
    }
    let after: nat = counter_after_visit(stride, counter);
    assert(traced_among(stride, after, 0) == 0);
}

proof fn entries_reports_split(
    path: Seq<char>,
    bytes: Seq<u8>,
    names: Seq<Seq<char>>,
    search_name_lower: Seq<char>,
    remain_depth: nat,
    stride: nat,
    counter: nat,
)
    ensures
        findings_in(
            entries_reports(path, bytes, names, search_name_lower, remain_depth, stride, counter),
        ) == entries_findings(path, bytes, names, search_name_lower, remain_depth),
        traces_in(
            entries_reports(path, bytes, names, search_name_lower, remain_depth, stride, counter),
        ).len() == traced_among(stride, counter, entries_visits(bytes, names, remain_depth)),
    decreases remain_depth, 1nat, names.len(),
{
    if names.len() > 0 {
        let earlier = names.drop_last();
        let visits: nat = entries_visits(bytes, earlier, remain_depth);
        let later: nat = counter_after(stride, counter, visits);
        let front = entries_reports(
            path,
            bytes,
            earlier,
            search_name_lower,
            remain_depth,
            stride,
            counter,
        );
        let back = entry_reports(
            path,
            bytes,
            names.last(),
            search_name_lower,
            remain_depth,
            stride,
            later,
        );
        entries_reports_split(path, bytes, earlier, search_name_lower, remain_depth, stride, counter);
        entry_reports_split(
            path,
            bytes,
            names.last(),
            search_name_lower,
            remain_depth,
            stride,
            later,
        );
        visits_add_up(stride, counter, visits, entry_visits(bytes, names.last(), remain_depth));
    }
}

/// The findings among the reports of a scan are what the scan finds: they
/// do not depend on the sampler. The visits it traces are as many as the
/// sampler picks among the visits it makes.
pub proof fn archive_reports_split(
    path: Seq<char>,
    bytes: Seq<u8>,
    search_name_lower: Seq<char>,
    remain_depth: nat,
    stride: nat,
    counter: nat,
)
    ensures
        findings_in(
            archive_reports(path, bytes, search_name_lower, remain_depth, stride, counter),
        ) == archive_findings(path, bytes, search_name_lower, remain_depth),
        traces_in(
            archive_reports(path, bytes, search_name_lower, remain_depth, stride, counter),
        ).len() == traced_among(stride, counter, archive_visits(bytes, remain_depth)),
    decreases remain_depth, 2nat, 0nat,
{
    if zip_opens(bytes) {
        entries_reports_split(
            path,
            bytes,
            zip_names(bytes),
            search_name_lower,
            remain_depth,
            stride,
            counter,
        );
    } else {
        said_splits(Some(Report::NotOpened { path, cause: zip_open_error(bytes)->0 }));
    }
}

/// A finding is among the reports of a scan exactly where it is among what
/// the scan finds, whatever the sampler's stride and counter are.
pub proof fn reports_hold_the_findings(
    path: Seq<char>,
    bytes: Seq<u8>,
    search_name_lower: Seq<char>,
    remain_depth: nat,
    stride: nat,
    counter: nat,
    report: Report,
)
    ensures
        is_finding(report) ==> (archive_reports(
            path,
            bytes,
            search_name_lower,
            remain_depth,
            stride,
            counter,
        ).contains(report) <==> archive_findings(
            path,
            bytes,
            search_name_lower,
            remain_depth,
        ).contains(report)),
{
    let reports = archive_reports(path, bytes, search_name_lower, remain_depth, stride, counter);
    let kept = |report: Report| is_finding(report);
    archive_reports_split(path, bytes, search_name_lower, remain_depth, stride, counter);
    if is_finding(report) {
        if reports.contains(report) {
            let index: int = choose|index: int|
                0 <= index < reports.len() && reports[index] == report;
            reports.lemma_filter_contains(kept, index);
        }
        if reports.filter(kept).contains(report) {
            reports.lemma_filter_contains_rev(kept, report);
        }
    }
}

/// What a scan reports is settled by what it is given. Two scans of the same
/// bytes under the same path, key and depth budget report the same findings
/// in the same order; with the same stride and counter they report the same
/// altogether.
pub proof fn scans_agree(
    first: Seq<Report>,
    second: Seq<Report>,
    path: Seq<char>,
    bytes: Seq<u8>,
    search_name_lower: Seq<char>,
    remain_depth: nat,
    first_sampler: (nat, nat),
    second_sampler: (nat, nat),
)
    requires
        first == archive_reports(
            path,
            bytes,
            search_name_lower,
            remain_depth,
            first_sampler.0,
            first_sampler.1,
        ),
        second == archive_reports(
            path,
            bytes,
            search_name_lower,
            remain_depth,
            second_sampler.0,
            second_sampler.1,
        ),
    ensures
        findings_in(first) == findings_in(second),
        first_sampler == second_sampler ==> first == second,
{
    archive_reports_split(
        path,
        bytes,
        search_name_lower,
        remain_depth,
        first_sampler.0,
        first_sampler.1,
    );
    archive_reports_split(
        path,
        bytes,
        search_name_lower,
        remain_depth,
        second_sampler.0,
        second_sampler.1,
    );
}

} // verus!
