//! Where the findings of a scan come from: the archives that the scan comes
//! to, by the entries it goes into, and what it has to say at each.

use crate::archive::ends_in_separator;
use crate::archive::zip_entry_found;
use crate::archive::zip_names;
use crate::archive::zip_open_error;
use crate::archive::zip_opens;
use crate::findings::archive_findings;
use crate::findings::entries_findings;
use crate::findings::entry_findings;
use crate::findings::is_finding;
use crate::findings::reports_hold_the_findings;
use crate::names::entry_path_of;
use crate::names::is_archive_name;
use crate::names::is_match;
use crate::report::Report;
use crate::scan::archive_reports;
use crate::scan::entry_report;
use crate::scan::nested_archive;
use vstd::prelude::*;

verus! {

/// An archive that a scan comes to: its logical path, its bytes, and the
/// depth budget that is left when it is scanned.
pub struct Place {
    pub path: Seq<char>,
    pub bytes: Seq<u8>,
    pub remain_depth: nat,
}

/// The archive nested in the entry `name` of the archive at `place`, where
/// the scan lists that entry and goes into it.
pub open spec fn place_in(place: Place, name: Seq<char>) -> Option<Place> {
    if zip_opens(place.bytes) && zip_names(place.bytes).contains(name) {
        match nested_archive(place.bytes, name, place.remain_depth) {
            Some(inner) => Some(
                Place {
                    path: entry_path_of(place.path, name),
                    bytes: inner,
                    remain_depth: (place.remain_depth - 1) as nat,
                },
            ),
            None => None,
        }
    } else {
        None
    }
}

/// The archive that a scan starting at `start` comes to by going into the
/// entries `chain`, each inside the one before; `None` where it does not get
/// that far. The empty chain leads to `start` itself.
pub open spec fn place_at(start: Place, chain: Seq<Seq<char>>) -> Option<Place>
    decreases chain.len(),
{
    if chain.len() == 0 {
        Some(start)
    } else {
        match place_in(start, chain.first()) {
            Some(inner) => place_at(inner, chain.drop_first()),
            None => None,
        }
    }
}

/// Whether the scan of the archive at `place` has `report` to say of the
/// archive itself or of one of its entries.
pub open spec fn said_at(place: Place, search_name_lower: Seq<char>, report: Report) -> bool {
    if zip_opens(place.bytes) {
        exists|name: Seq<char>|
            zip_names(place.bytes).contains(name) && #[trigger] entry_report(
                place.path,
                place.bytes,
                name,
                search_name_lower,
                place.remain_depth,
            ) == Some(report)
    } else {
        report == (Report::NotOpened { path: place.path, cause: zip_open_error(place.bytes)->0 })
    }
}

/// Whether `report` is said at the archive that `chain` leads to.
pub open spec fn said_along(
    start: Place,
    chain: Seq<Seq<char>>,
    search_name_lower: Seq<char>,
    report: Report,
) -> bool {
    match place_at(start, chain) {
        Some(place) => said_at(place, search_name_lower, report),
        None => false,
    }
}

/// The logical path that the entries `chain` lead to from `path`: each name
/// in its square brackets, one after the other.
pub open spec fn path_along(path: Seq<char>, chain: Seq<Seq<char>>) -> Seq<char>
    decreases chain.len(),
{
    if chain.len() == 0 {
        path
    } else {
        path_along(entry_path_of(path, chain.first()), chain.drop_first())
    }
}

/// Every nested archive on the way costs one unit of the depth budget, so
/// that a chain is never longer than the budget it starts with; and the
/// logical path of the archive it leads to is made of the names on the way.
pub proof fn place_depth(start: Place, chain: Seq<Seq<char>>)
    ensures
        place_at(start, chain) matches Some(place) ==> {
            &&& place.remain_depth + chain.len() == start.remain_depth
            &&& place.path == path_along(start.path, chain)
        },
    decreases chain.len(),
{
    if chain.len() > 0 {
        match place_in(start, chain.first()) {
            Some(inner) => {
                place_depth(inner, chain.drop_first());
            },
            None => {},
        }
    }
}

proof fn contains_either<A>(front: Seq<A>, back: Seq<A>, item: A)
    ensures
        (front + back).contains(item) <==> front.contains(item) || back.contains(item),
{
    if front.contains(item) {
        let i: int = choose|i: int| 0 <= i < front.len() && front[i] == item;
        assert((front + back)[i] == item);
    }
    if back.contains(item) {
        let i: int = choose|i: int| 0 <= i < back.len() && back[i] == item;
        assert((front + back)[front.len() + i] == item);
    }
}

/// Whether one of the entries `names` has `report` among its findings.
pub open spec fn found_by_one(
    path: Seq<char>,
    bytes: Seq<u8>,
    names: Seq<Seq<char>>,
    search_name_lower: Seq<char>,
    remain_depth: nat,
    report: Report,
) -> bool {
    exists|index: int|
        0 <= index < names.len() && #[trigger] entry_findings(
            path,
            bytes,
            names[index],
            search_name_lower,
            remain_depth,
        ).contains(report)
}

/// The findings of a run of entries are the findings of each of them: one
/// entry takes nothing away from what another one yields.
pub proof fn entries_find_what_each_finds(
    path: Seq<char>,
    bytes: Seq<u8>,
    names: Seq<Seq<char>>,
    search_name_lower: Seq<char>,
    remain_depth: nat,
    report: Report,
)
    ensures
        entries_findings(path, bytes, names, search_name_lower, remain_depth).contains(report)
            <==> found_by_one(path, bytes, names, search_name_lower, remain_depth, report),
    decreases names.len(),
{
    if names.len() > 0 {
        let earlier = names.drop_last();
        let front = entries_findings(path, bytes, earlier, search_name_lower, remain_depth);
        let back = entry_findings(path, bytes, names.last(), search_name_lower, remain_depth);
        entries_find_what_each_finds(path, bytes, earlier, search_name_lower, remain_depth, report);
        contains_either(front, back, report);
        if found_by_one(path, bytes, names, search_name_lower, remain_depth, report) {
            let index: int = choose|index: int|
                0 <= index < names.len() && #[trigger] entry_findings(
                    path,
                    bytes,
                    names[index],
                    search_name_lower,
                    remain_depth,
                ).contains(report);
            if index < earlier.len() {
                assert(names[index] == earlier[index]);
            }
        }
    }
}

proof fn finding_has_place(start: Place, search_name_lower: Seq<char>, report: Report) -> (chain:
    Seq<Seq<char>>)
    requires
        archive_findings(start.path, start.bytes, search_name_lower, start.remain_depth).contains(
            report,
        ),
    ensures
        said_along(start, chain, search_name_lower, report),
    decreases start.remain_depth,
{
    if zip_opens(start.bytes) {
        let names = zip_names(start.bytes);
        entries_find_what_each_finds(
            start.path,
            start.bytes,
            names,
            search_name_lower,
            start.remain_depth,
            report,
        );
        let index: int = choose|index: int|
            0 <= index < names.len() && #[trigger] entry_findings(
                start.path,
                start.bytes,
                names[index],
                search_name_lower,
                start.remain_depth,
            ).contains(report);
        let name = names[index];
        match place_in(start, name) {
            Some(inner) => {
                let rest = finding_has_place(inner, search_name_lower, report);
                let chain = seq![name] + rest;
                assert(chain.drop_first() == rest);
                chain
            },
            None => Seq::empty(),
        }
    } else {
        Seq::empty()
    }
}

proof fn place_has_finding(
    start: Place,
    chain: Seq<Seq<char>>,
    search_name_lower: Seq<char>,
    report: Report,
)
    requires
        said_along(start, chain, search_name_lower, report),
    ensures
        archive_findings(start.path, start.bytes, search_name_lower, start.remain_depth).contains(
            report,
        ),
    decreases chain.len(),
{
    if chain.len() == 0 {
        if zip_opens(start.bytes) {
            let names = zip_names(start.bytes);
            let name = choose|name: Seq<char>|
                names.contains(name) && #[trigger] entry_report(
                    start.path,
                    start.bytes,
                    name,
                    search_name_lower,
                    start.remain_depth,
                ) == Some(report);
            let index: int = choose|index: int| 0 <= index < names.len() && names[index] == name;
            assert(entry_findings(
                start.path,
                start.bytes,
                names[index],
                search_name_lower,
                start.remain_depth,
            ).contains(report));
            entries_find_what_each_finds(
                start.path,
                start.bytes,
                names,
                search_name_lower,
                start.remain_depth,
                report,
            );
        } else {
            assert(seq![report][0] == report);
        }
    } else {
        let name = chain.first();
        let inner = place_in(start, name)->0;
        place_has_finding(inner, chain.drop_first(), search_name_lower, report);
        let names = zip_names(start.bytes);
        let index: int = choose|index: int| 0 <= index < names.len() && names[index] == name;
        assert(entry_findings(
            start.path,
            start.bytes,
            names[index],
            search_name_lower,
            start.remain_depth,
        ).contains(report));
        entries_find_what_each_finds(
            start.path,
            start.bytes,
            names,
            search_name_lower,
            start.remain_depth,
            report,
        );
    }
}

/// A scan finds exactly what is said at the archives it comes to. Each of
/// them lies within the depth budget, and none is left out because of what
/// another one holds.
pub proof fn findings_are_what_is_said(
    start: Place,
    search_name_lower: Seq<char>,
    report: Report,
)
    ensures
        archive_findings(start.path, start.bytes, search_name_lower, start.remain_depth).contains(
            report,
        ) <==> exists|chain: Seq<Seq<char>>|
            #[trigger] said_along(start, chain, search_name_lower, report),
{
    if archive_findings(start.path, start.bytes, search_name_lower, start.remain_depth).contains(
        report,
    ) {
        finding_has_place(start, search_name_lower, report);
    }
    if exists|chain: Seq<Seq<char>>| #[trigger] said_along(start, chain, search_name_lower, report) {
        let chain = choose|chain: Seq<Seq<char>>|
            #[trigger] said_along(start, chain, search_name_lower, report);
        place_has_finding(start, chain, search_name_lower, report);
    }
}

/// The logical path of the entry `name` of the archive that `chain` leads
/// to, where the scan lists and fetches that entry, and it is an ordinary
/// file whose base name is the search key; `None` otherwise.
pub open spec fn match_at(
    start: Place,
    chain: Seq<Seq<char>>,
    name: Seq<char>,
    search_name_lower: Seq<char>,
) -> Option<Seq<char>> {
    match place_at(start, chain) {
        Some(place) => if zip_opens(place.bytes) && zip_names(place.bytes).contains(name)
            && zip_entry_found(place.bytes, name) && !ends_in_separator(name) && !is_archive_name(
            name,
        ) && is_match(name, search_name_lower) {
            Some(entry_path_of(place.path, name))
        } else {
            None
        },
        None => None,
    }
}

/// A scan finds the logical paths of the matching entries and no other: the
/// ordinary files, in the archive it starts with or in one it comes to
/// within the depth budget, whose base name in lower case is the key.
pub proof fn found_are_the_matching_entries(
    start: Place,
    search_name_lower: Seq<char>,
    stride: nat,
    counter: nat,
    path: Seq<char>,
)
    ensures
        archive_reports(
            start.path,
            start.bytes,
            search_name_lower,
            start.remain_depth,
            stride,
            counter,
        ).contains(Report::Found { path }) <==> exists|chain: Seq<Seq<char>>, name: Seq<char>|
            #[trigger] match_at(start, chain, name, search_name_lower) == Some(path),
{
    let report = Report::Found { path };
    reports_hold_the_findings(
        start.path,
        start.bytes,
        search_name_lower,
        start.remain_depth,
        stride,
        counter,
        report,
    );
    findings_are_what_is_said(start, search_name_lower, report);
    if exists|chain: Seq<Seq<char>>| #[trigger] said_along(start, chain, search_name_lower, report) {
        let chain = choose|chain: Seq<Seq<char>>|
            #[trigger] said_along(start, chain, search_name_lower, report);
        let place = place_at(start, chain)->0;
        let name = choose|name: Seq<char>|
            zip_names(place.bytes).contains(name) && #[trigger] entry_report(
                place.path,
                place.bytes,
                name,
                search_name_lower,
                place.remain_depth,
            ) == Some(report);
        assert(match_at(start, chain, name, search_name_lower) == Some(path));
    }
    if exists|chain: Seq<Seq<char>>, name: Seq<char>|
        #[trigger] match_at(start, chain, name, search_name_lower) == Some(path) {
        let (chain, name) = choose|chain: Seq<Seq<char>>, name: Seq<char>|
            #[trigger] match_at(start, chain, name, search_name_lower) == Some(path);
        let place = place_at(start, chain)->0;
        assert(entry_report(place.path, place.bytes, name, search_name_lower, place.remain_depth)
            == Some(report));
        assert(said_along(start, chain, search_name_lower, report));
    }
}

/// The logical path of the archive that `chain` leads to, where the chain
/// uses up the whole depth budget and the scan lists and fetches the entry
/// `name` of that archive, which is a nested archive again; `None`
/// otherwise.
pub open spec fn too_deep_at(start: Place, chain: Seq<Seq<char>>, name: Seq<char>) -> Option<
    Seq<char>,
> {
    match place_at(start, chain) {
        Some(place) => if chain.len() == start.remain_depth && zip_opens(place.bytes)
            && zip_names(place.bytes).contains(name) && zip_entry_found(place.bytes, name)
            && !ends_in_separator(name) && is_archive_name(name) {
            Some(place.path)
        } else {
            None
        },
        None => None,
    }
}

/// An entry is reported as too deep exactly where it is a nested archive
/// that the scan meets with the depth budget used up. Such an entry is not
/// gone into: no chain leads further than the budget.
pub proof fn too_deep_are_the_archives_past_the_budget(
    start: Place,
    search_name_lower: Seq<char>,
    stride: nat,
    counter: nat,
    archive: Seq<char>,
    name: Seq<char>,
)
    ensures
        archive_reports(
            start.path,
            start.bytes,
            search_name_lower,
            start.remain_depth,
            stride,
            counter,
        ).contains(Report::TooDeep { archive, name }) <==> exists|chain: Seq<Seq<char>>| #[trigger]
            too_deep_at(start, chain, name) == Some(archive),
        forall|chain: Seq<Seq<char>>| #[trigger]
            place_at(start, chain) is Some ==> chain.len() <= start.remain_depth,
{
    let report = Report::TooDeep { archive, name };
    reports_hold_the_findings(
        start.path,
        start.bytes,
        search_name_lower,
        start.remain_depth,
        stride,
        counter,
        report,
    );
    findings_are_what_is_said(start, search_name_lower, report);
    if exists|chain: Seq<Seq<char>>| #[trigger] said_along(start, chain, search_name_lower, report) {
        let chain = choose|chain: Seq<Seq<char>>|
            #[trigger] said_along(start, chain, search_name_lower, report);
        let place = place_at(start, chain)->0;
        let other = choose|other: Seq<char>|
            zip_names(place.bytes).contains(other) && #[trigger] entry_report(
                place.path,
                place.bytes,
                other,
                search_name_lower,
                place.remain_depth,
            ) == Some(report);
        place_depth(start, chain);
        assert(too_deep_at(start, chain, name) == Some(archive));
    }
    if exists|chain: Seq<Seq<char>>| #[trigger] too_deep_at(start, chain, name) == Some(archive) {
        let chain = choose|chain: Seq<Seq<char>>| #[trigger]
            too_deep_at(start, chain, name) == Some(archive);
        let place = place_at(start, chain)->0;
        place_depth(start, chain);
        assert(entry_report(place.path, place.bytes, name, search_name_lower, place.remain_depth)
            == Some(report));
        assert(said_along(start, chain, search_name_lower, report));
    }
    assert forall|chain: Seq<Seq<char>>| #[trigger] place_at(start, chain) is Some implies chain.len()
        <= start.remain_depth by {
        place_depth(start, chain);
    }
}

/// Whatever an entry yields is among the reports of its archive, whatever
/// the other entries hold: one that cannot be opened, fetched or read hides
/// nothing that another one has.
pub proof fn entry_findings_are_kept(
    path: Seq<char>,
    bytes: Seq<u8>,
    name: Seq<char>,
    search_name_lower: Seq<char>,
    remain_depth: nat,
    stride: nat,
    counter: nat,
    report: Report,
)
    requires
        zip_opens(bytes),
        zip_names(bytes).contains(name),
        entry_findings(path, bytes, name, search_name_lower, remain_depth).contains(report),
    ensures
        archive_findings(path, bytes, search_name_lower, remain_depth).contains(report),
        is_finding(report) ==> archive_reports(
            path,
            bytes,
            search_name_lower,
            remain_depth,
            stride,
            counter,
        ).contains(report),
{
    let names = zip_names(bytes);
    let index: int = choose|index: int| 0 <= index < names.len() && names[index] == name;
    entries_find_what_each_finds(path, bytes, names, search_name_lower, remain_depth, report);
    reports_hold_the_findings(path, bytes, search_name_lower, remain_depth, stride, counter, report);
}

/// What the first `count` entries yield comes first among the findings,
/// unchanged by what the entries after them hold.
pub proof fn earlier_findings_come_first(
    path: Seq<char>,
    bytes: Seq<u8>,
    names: Seq<Seq<char>>,
    search_name_lower: Seq<char>,
    remain_depth: nat,
    count: int,
)
    requires
        0 <= count <= names.len(),
    ensures
        entries_findings(
            path,
            bytes,
            names.take(count),
            search_name_lower,
            remain_depth,
        ).is_prefix_of(entries_findings(path, bytes, names, search_name_lower, remain_depth)),
    decreases names.len(),
{
    if count < names.len() {
        let earlier = names.drop_last();
        earlier_findings_come_first(path, bytes, earlier, search_name_lower, remain_depth, count);
        assert(earlier.take(count) == names.take(count));
    } else {
        assert(names.take(count) == names);
    }
}

} // verus!
