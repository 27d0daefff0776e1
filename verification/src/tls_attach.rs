//! Where the TLS library is: out of what ldconfig and the proc file system
//! print, the first path that is there. Whether a path is there is asked of
//! the caller.

use vstd::prelude::*;
use vstd::string::*;
use crate::numbers::{parse_number, read_number};
use crate::text::{
    chars_of, contains, find_text, first_standing, has_text, lines, split_lines, split_words,
    stands_at, text_of, trim, trim_range, trimmed, views, words,
};

verus! {

/// `is_there` gave this answer about a path.
pub open spec fn answered<F: Fn(&str) -> bool>(is_there: F, path: Seq<char>, answer: bool) -> bool {
    exists|p: &str| p@ == path && #[trigger] call_ensures(is_there, (p,), answer)
}

/// `path` is the first of `paths` that is there.
pub open spec fn is_first_there<F: Fn(&str) -> bool>(
    is_there: F,
    paths: Seq<Seq<char>>,
    path: Seq<char>,
) -> bool {
    exists|i: int|
        0 <= i < paths.len() && #[trigger] paths[i] == path && answered(is_there, path, true)
            && forall|j: int| 0 <= j < i ==> answered(is_there, #[trigger] paths[j], false)
}

/// None of `paths` is there.
pub open spec fn none_there<F: Fn(&str) -> bool>(is_there: F, paths: Seq<Seq<char>>) -> bool {
    forall|j: int| 0 <= j < paths.len() ==> answered(is_there, #[trigger] paths[j], false)
}

fn first_there<F: Fn(&str) -> bool>(paths: &Vec<String>, is_there: &F) -> (r: Option<String>)
    requires
        forall|p: &str| #[trigger] call_requires(*is_there, (p,)),
    ensures
        match r {
            Some(path) => is_first_there(*is_there, views(paths@), path@),
            None => none_there(*is_there, views(paths@)),
        },
{
    let ghost all = views(paths@);
    let mut i: usize = 0;
    while i < paths.len()
        invariant
            i <= paths@.len(),
            all == views(paths@),
            forall|p: &str| #[trigger] call_requires(*is_there, (p,)),
            forall|j: int| 0 <= j < i ==> answered(*is_there, #[trigger] all[j], false),
        decreases paths@.len() - i,
    {
        let path = paths[i].as_str();
        assert(all[i as int] == path@);
        if is_there(path) {
            assert(answered(*is_there, path@, true));
            return Some(path.to_owned());
        }
        assert(answered(*is_there, path@, false));
        i = i + 1;
    }
    None
}

/// There is no libssl on this system.
#[derive(Debug, Clone, Copy, PartialEq, Eq)]
pub struct LibsslNotFound;

impl LibsslNotFound {
    /// What to tell the user.
    pub fn message(&self) -> (r: &'static str)
        ensures
            r@ == "libssl not found — install openssl or specify path manually"@,
    {
        "libssl not found — install openssl or specify path manually"
    }
}

/// Where distributions keep libssl.
pub open spec fn known_libssl_paths() -> Seq<Seq<char>> {
    seq![
        "/usr/lib/x86_64-linux-gnu/libssl.so.3"@,
        "/usr/lib/x86_64-linux-gnu/libssl.so.1.1"@,
        "/usr/lib/aarch64-linux-gnu/libssl.so.3"@,
        "/lib/x86_64-linux-gnu/libssl.so.3"@,
        "/usr/lib64/libssl.so.3"@,
        "/usr/lib/libssl.so.3"@,
    ]
}

/// What stands between the first and the second arrow of a line, or behind
/// the only one, without white space at either end.
pub open spec fn behind_arrow(line: Seq<char>) -> Option<Seq<char>> {
    let first = first_standing(line, "=>"@, 0);
    let start = first + 2;
    if first < line.len() {
        Some(trim(line.subrange(start, first_standing(line, "=>"@, start))))
    } else {
        None
    }
}

/// The path that a line of ldconfig's listing gives for libssl.
pub open spec fn ldconfig_path(line: Seq<char>) -> Option<Seq<char>> {
    if contains(line, "libssl.so"@) {
        behind_arrow(line)
    } else {
        None
    }
}

/// The paths that the lines of ldconfig's listing give for libssl, in order.
pub open spec fn ldconfig_paths(lines: Seq<Seq<char>>) -> Seq<Seq<char>>
    decreases lines.len(),
{
    if lines.len() == 0 {
        seq![]
    } else {
        let before = ldconfig_paths(lines.drop_last());
        match ldconfig_path(lines.last()) {
            Some(path) => before.push(path),
            None => before,
        }
    }
}

/// Where to look for libssl, in order: what ldconfig lists, if it ran, then
/// the known paths.
pub open spec fn libssl_places(listing: Option<Seq<char>>) -> Seq<Seq<char>> {
    match listing {
        Some(text) => ldconfig_paths(lines(text)) + known_libssl_paths(),
        None => known_libssl_paths(),
    }
}

fn path_in_line(line: &str) -> (r: Option<String>)
    ensures
        match r {
            Some(path) => ldconfig_path(line@) == Some(path@),
            None => ldconfig_path(line@) is None,
        },
{
    if !has_text(line, "libssl.so") {
        return None;
    }
    let v = chars_of(line);
    let arrow = chars_of("=>");
    let first = find_text(v.as_slice(), arrow.as_slice(), 0);
    if first >= v.len() {
        return None;
    }
    proof {
        reveal_strlit("=>");
        assert(stands_at(line@, "=>"@, first as int));
    }
    let start = first + 2;
    let end = find_text(v.as_slice(), arrow.as_slice(), start);
    let (a, b) = trim_range(v.as_slice(), start, end);
    Some(text_of(v.as_slice(), a, b))
}

fn push_path(out: &mut Vec<String>, path: &str)
    ensures
        views(final(out)@) == views(old(out)@).push(path@),
{
    out.push(path.to_owned());
    assert(views(out@) =~= views(old(out)@).push(path@));
}

fn libssl_candidates(listing: Option<&str>) -> (r: Vec<String>)
    ensures
        views(r@) == libssl_places(
            match listing {
                Some(text) => Some(text@),
                None => None,
            },
        ),
{
    let mut r: Vec<String> = Vec::new();
    if let Some(text) = listing {
        let all = split_lines(text);
        let ghost list = lines(text@);
        let mut i: usize = 0;
        while i < all.len()
            invariant
                i <= all@.len(),
                list == views(all@),
                views(r@) =~= ldconfig_paths(list.take(i as int)),
            decreases all@.len() - i,
        {
            proof {
                assert(list.take(i + 1).drop_last() =~= list.take(i as int));
                assert(list.take(i + 1).last() == all@[i as int]@);
            }
            if let Some(path) = path_in_line(all[i].as_str()) {
                push_path(&mut r, path.as_str());
            }
            i = i + 1;
        }
        assert(list.take(i as int) =~= list);
    }
    let ghost listed = views(r@);
    assert(listing is None ==> listed =~= seq![]);
    push_path(&mut r, "/usr/lib/x86_64-linux-gnu/libssl.so.3");
    push_path(&mut r, "/usr/lib/x86_64-linux-gnu/libssl.so.1.1");
    push_path(&mut r, "/usr/lib/aarch64-linux-gnu/libssl.so.3");
    push_path(&mut r, "/lib/x86_64-linux-gnu/libssl.so.3");
    push_path(&mut r, "/usr/lib64/libssl.so.3");
    push_path(&mut r, "/usr/lib/libssl.so.3");
    assert(views(r@) =~= listed + known_libssl_paths());
    r
}

/// `r` is the libssl of this system: the first place that is there.
pub open spec fn finds_libssl<F: Fn(&str) -> bool>(
    is_there: F,
    listing: Option<&str>,
    r: Result<String, LibsslNotFound>,
) -> bool {
    let places = libssl_places(
        match listing {
            Some(text) => Some(text@),
            None => None,
        },
    );
    match r {
        Ok(path) => is_first_there(is_there, places, path@),
        Err(_) => none_there(is_there, places),
    }
}

/// Finds libssl on this system: the first path that is there of those that
/// ldconfig lists, if it ran, and then of the known ones.
pub fn find_libssl<F: Fn(&str) -> bool>(listing: Option<&str>, is_there: F) -> (r: Result<
    String,
    LibsslNotFound,
>)
    requires
        forall|p: &str| #[trigger] call_requires(is_there, (p,)),
    ensures
        finds_libssl(is_there, listing, r),
{
    let places = libssl_candidates(listing);
    match first_there(&places, &is_there) {
        Some(path) => Ok(path),
        None => Err(LibsslNotFound),
    }
}

/// The path that a line of a process's maps file gives for libssl: its last
/// word.
pub open spec fn maps_path(line: Seq<char>) -> Option<Seq<char>> {
    if contains(line, "libssl"@) && words(line).len() > 0 {
        Some(words(line).last())
    } else {
        None
    }
}

/// The paths that the lines of a process's maps file give for libssl, in order.
pub open spec fn maps_paths(lines: Seq<Seq<char>>) -> Seq<Seq<char>>
    decreases lines.len(),
{
    if lines.len() == 0 {
        seq![]
    } else {
        let before = maps_paths(lines.drop_last());
        match maps_path(lines.last()) {
            Some(path) => before.push(path),
            None => before,
        }
    }
}

fn libssl_in_maps(maps: &str) -> (r: Vec<String>)
    ensures
        views(r@) == maps_paths(lines(maps@)),
{
    let all = split_lines(maps);
    let ghost list = lines(maps@);
    let mut r: Vec<String> = Vec::new();
    let mut i: usize = 0;
    while i < all.len()
        invariant
            i <= all@.len(),
            list == views(all@),
            views(r@) =~= maps_paths(list.take(i as int)),
        decreases all@.len() - i,
    {
        proof {
            assert(list.take(i + 1).drop_last() =~= list.take(i as int));
            assert(list.take(i + 1).last() == all@[i as int]@);
        }
        if has_text(all[i].as_str(), "libssl") {
            let parts = split_words(all[i].as_str());
            assert(views(parts@).len() == parts@.len());
            if parts.len() > 0 {
                assert(views(parts@).last() == parts@.last()@);
                push_path(&mut r, parts[parts.len() - 1].as_str());
            }
        }
        i = i + 1;
    }
    assert(list.take(i as int) =~= list);
    r
}

/// Finds the libssl that a process uses, given its maps file: the first path
/// for it that is there.
pub fn find_libssl_for_pid<F: Fn(&str) -> bool>(maps: &str, is_there: &F) -> (r: Option<String>)
    requires
        forall|p: &str| #[trigger] call_requires(*is_there, (p,)),
    ensures
        match r {
            Some(path) => is_first_there(*is_there, maps_paths(lines(maps@)), path@),
            None => none_there(*is_there, maps_paths(lines(maps@))),
        },
{
    let paths = libssl_in_maps(maps);
    first_there(&paths, is_there)
}

/// Proxies and API clients whose TLS is of interest.
pub open spec fn interesting_names() -> Seq<Seq<char>> {
    seq![
        "envoy"@,
        "nginx"@,
        "squid"@,
        "haproxy"@,
        "python3"@,
        "python"@,
        "node"@,
        "java"@,
        "curl"@,
        "wget"@,
    ]
}

/// Whether a process of this name is of interest: an interesting name stands
/// in it.
pub open spec fn is_interesting(comm: Seq<char>) -> bool {
    exists|i: int|
        0 <= i < interesting_names().len() && contains(comm, #[trigger] interesting_names()[i])
}

/// The name of a process whose TLS is of interest, given its comm file;
/// `None` for other processes.
pub fn interesting_process(comm_file: &str) -> (r: Option<String>)
    ensures
        match r {
            Some(name) => is_interesting(trim(comm_file@)) && name@ == trim(comm_file@),
            None => !is_interesting(trim(comm_file@)),
        },
{
    let comm = trimmed(comm_file);
    let names: [&str; 10] = [
        "envoy",
        "nginx",
        "squid",
        "haproxy",
        "python3",
        "python",
        "node",
        "java",
        "curl",
        "wget",
    ];
    assert forall|k: int| 0 <= k < 10 implies #[trigger] names@[k]@ == interesting_names()[k] by {}
    let mut i: usize = 0;
    while i < 10
        invariant
            i <= 10,
            comm@ == trim(comm_file@),
            forall|k: int| 0 <= k < 10 ==> #[trigger] names@[k]@ == interesting_names()[k],
            forall|k: int| 0 <= k < i ==> !contains(comm@, #[trigger] interesting_names()[k]),
        decreases 10 - i,
    {
        if has_text(comm.as_str(), names[i]) {
            assert(contains(comm@, interesting_names()[i as int]));
            return Some(comm);
        }
        i = i + 1;
    }
    None
}

/// An entry of the proc file system; `None` where a file could not be read.
pub struct ProcEntry {
    /// The name of the entry: the process id, if it is one of a process.
    pub name: String,
    /// The text of the comm file.
    pub comm: Option<String>,
    /// The text of the maps file.
    pub maps: Option<String>,
}

/// An entry is one of a process whose TLS is of interest and whose maps file
/// could be read.
pub open spec fn is_candidate(entry: ProcEntry) -> bool {
    &&& parse_number(entry.name@, u32::MAX as int) is Some
    &&& entry.comm is Some && is_interesting(trim(entry.comm->0@))
    &&& entry.maps is Some
}

/// `found` is what an entry gives: the process id, the name of the process and
/// the libssl that it uses.
pub open spec fn is_finding<F: Fn(&str) -> bool>(
    is_there: F,
    entry: ProcEntry,
    found: (u32, String, String),
) -> bool {
    &&& is_candidate(entry)
    &&& parse_number(entry.name@, u32::MAX as int) == Some(found.0 as int)
    &&& found.1@ == trim(entry.comm->0@)
    &&& is_first_there(is_there, maps_paths(lines(entry.maps->0@)), found.2@)
}

/// An entry gives nothing.
pub open spec fn is_no_finding<F: Fn(&str) -> bool>(is_there: F, entry: ProcEntry) -> bool {
    is_candidate(entry) ==> none_there(is_there, maps_paths(lines(entry.maps->0@)))
}

/// `found` is what the entries give, in order.
pub open spec fn are_findings<F: Fn(&str) -> bool>(
    is_there: F,
    entries: Seq<ProcEntry>,
    found: Seq<(u32, String, String)>,
) -> bool
    decreases entries.len(),
{
    if entries.len() == 0 {
        found.len() == 0
    } else {
        ||| is_no_finding(is_there, entries.last()) && are_findings(
            is_there,
            entries.drop_last(),
            found,
        )
        ||| found.len() > 0 && is_finding(is_there, entries.last(), found.last()) && are_findings(
            is_there,
            entries.drop_last(),
            found.drop_last(),
        )
    }
}

fn examine<F: Fn(&str) -> bool>(entry: &ProcEntry, is_there: &F) -> (r: Option<
    (u32, String, String),
>)
    requires
        forall|p: &str| #[trigger] call_requires(*is_there, (p,)),
    ensures
        match r {
            Some(found) => is_finding(*is_there, *entry, found),
            None => is_no_finding(*is_there, *entry),
        },
{
    let pid = match read_number(entry.name.as_str(), u32::MAX) {
        Some(pid) => pid,
        None => {
            return None;
        },
    };
    let name = match &entry.comm {
        Some(comm) => match interesting_process(comm.as_str()) {
            Some(name) => name,
            None => {
                return None;
            },
        },
        None => {
            return None;
        },
    };
    match &entry.maps {
        Some(maps) => match find_libssl_for_pid(maps.as_str(), is_there) {
            Some(path) => Some((pid, name, path)),
            None => None,
        },
        None => None,
    }
}

/// Finds the processes whose TLS is of interest and that use libssl: process
/// id, name and library of each.
pub fn find_interesting_processes<F: Fn(&str) -> bool>(
    entries: &Vec<ProcEntry>,
    is_there: F,
) -> (r: Vec<(u32, String, String)>)
    requires
        forall|p: &str| #[trigger] call_requires(is_there, (p,)),
    ensures
        are_findings(is_there, entries@, r@),
{
    let mut r: Vec<(u32, String, String)> = Vec::new();
    let mut i: usize = 0;
    while i < entries.len()
        invariant
            i <= entries@.len(),
            forall|p: &str| #[trigger] call_requires(is_there, (p,)),
            are_findings(is_there, entries@.take(i as int), r@),
        decreases entries@.len() - i,
    {
        let ghost before = r@;
        let ghost next = entries@.take(i + 1);
        assert(next.drop_last() =~= entries@.take(i as int));
        assert(next.last() == entries@[i as int]);
        if let Some(found) = examine(&entries[i], &is_there) {
            r.push(found);
            assert(r@.drop_last() =~= before);
            assert(r@.last() == found);
        }
        i = i + 1;
    }
    assert(entries@.take(i as int) =~= entries@);
    r
}

} // verus!
