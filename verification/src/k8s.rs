//! The Kubernetes identity in a cgroup path.

use vstd::prelude::*;
use vstd::string::*;
use vstd::utf8::{
    decode_utf8, encode_utf8, encode_utf8_decode_utf8, is_ascii_chars, is_char_boundary,
};
use crate::ascii::{ascii_cuts_anywhere, ascii_front};
use crate::text::{
    begins_with, chars_of, contains, equals, find_char, first_char, first_char_is,
    has_text, lines, split, split_at_sep, split_lines, split_of_one, split_on,
    stands_at, strip_all, strip_prefixes, text_of, views,
};

verus! {

/// Bytes of a short container id.
pub const SHORT_ID_LEN: usize = 12;

/// The path that a line names. In a line of a cgroup file it stands behind the
/// second colon; a line without two colons that begins with a slash is a path
/// itself.
pub open spec fn cgroup_path(line: Seq<char>) -> Option<Seq<char>> {
    let first = first_char(line, 0, equals(':'));
    let second = first_char(line, first + 1, equals(':'));
    if first < line.len() && second < line.len() {
        Some(line.skip(second + 1))
    } else if line.len() > 0 && line[0] == '/' {
        Some(line)
    } else {
        None
    }
}

/// The pod that the segments of a path name: the first that begins with
/// `pod`, without that.
pub open spec fn pod_of(segments: Seq<Seq<char>>) -> Option<Seq<char>>
    decreases segments.len(),
{
    if segments.len() == 0 {
        None
    } else if stands_at(segments[0], "pod"@, 0) {
        Some(strip_all(segments[0], "pod"@))
    } else {
        pod_of(segments.drop_first())
    }
}

/// The last segment of a path that is not empty, nothing if all are.
pub open spec fn last_filled(segments: Seq<Seq<char>>) -> Seq<char>
    decreases segments.len(),
{
    if segments.len() == 0 {
        seq![]
    } else if segments.last().len() > 0 {
        segments.last()
    } else {
        last_filled(segments.drop_last())
    }
}

/// The first bytes of a container id.
pub open spec fn short_id(segment: Seq<char>) -> Seq<char> {
    decode_utf8(encode_utf8(segment).subrange(0, SHORT_ID_LEN as int))
}

/// The container that a segment names, if it is long enough for a short id and
/// the short id does not end inside a character.
pub open spec fn container_of(segment: Seq<char>) -> Option<Seq<char>> {
    if encode_utf8(segment).len() >= SHORT_ID_LEN && is_char_boundary(
        encode_utf8(segment),
        SHORT_ID_LEN as int,
    ) {
        Some(short_id(segment))
    } else {
        None
    }
}

/// The segments of a line's path, if it is one of a Kubernetes pod's cgroup.
pub open spec fn kubepods_segments(line: Seq<char>) -> Option<Seq<Seq<char>>> {
    match cgroup_path(line) {
        Some(path) => if contains(path, "kubepods"@) {
            Some(split(path, '/'))
        } else {
            None
        },
        None => None,
    }
}

/// The pod and container that the lines of a cgroup file name: those of the
/// first line that names a pod.
pub open spec fn k8s_identity(lines: Seq<Seq<char>>) -> Option<(Seq<char>, Option<Seq<char>>)>
    decreases lines.len(),
{
    if lines.len() == 0 {
        None
    } else {
        match kubepods_segments(lines[0]) {
            Some(segments) => match pod_of(segments) {
                Some(pod) => Some((pod, container_of(last_filled(segments)))),
                None => k8s_identity(lines.drop_first()),
            },
            None => k8s_identity(lines.drop_first()),
        }
    }
}

/// The path that a line names.
fn path_of(line: &str) -> (r: Option<String>)
    ensures
        match r {
            Some(path) => cgroup_path(line@) == Some(path@),
            None => cgroup_path(line@) is None,
        },
{
    let v = chars_of(line);
    let len = v.len();
    let first = find_char(v.as_slice(), 0, ':');
    if first < len {
        let second = find_char(v.as_slice(), first + 1, ':');
        if second < len {
            assert(v@.subrange(second + 1, v@.len() as int) =~= v@.skip(second + 1));
            return Some(text_of(v.as_slice(), second + 1, len));
        }
    }
    if len > 0 && v[0] == '/' {
        return Some(line.to_owned());
    }
    None
}

/// The segments of a line's path, if it is one of a Kubernetes pod's cgroup.
fn segments_of(line: &str) -> (r: Option<Vec<String>>)
    ensures
        match r {
            Some(segments) => kubepods_segments(line@) == Some(views(segments@)),
            None => kubepods_segments(line@) is None,
        },
{
    match path_of(line) {
        Some(path) => if has_text(path.as_str(), "kubepods") {
            Some(split_on(path.as_str(), '/'))
        } else {
            None
        },
        None => None,
    }
}

/// The last segment that is not empty.
fn find_last_filled(segments: &Vec<String>) -> (r: &str)
    ensures
        r@ == last_filled(views(segments@)),
{
    let ghost all = views(segments@);
    let mut n: usize = segments.len();
    assert(all.take(n as int) =~= all);
    while n > 0
        invariant
            n <= segments@.len(),
            all == views(segments@),
            last_filled(all) == last_filled(all.take(n as int)),
        decreases n,
    {
        let segment = segments[n - 1].as_str();
        assert(all.take(n as int).last() == segment@);
        if !segment.is_empty() {
            return segment;
        }
        assert(all.take(n as int).drop_last() =~= all.take(n - 1));
        n = n - 1;
    }
    proof {
        reveal_strlit("");
        assert(""@ =~= seq![]);
    }
    ""
}

fn find_pod(segments: &Vec<String>) -> (r: Option<String>)
    ensures
        match r {
            Some(pod) => pod_of(views(segments@)) == Some(pod@),
            None => pod_of(views(segments@)) is None,
        },
{
    let ghost all = views(segments@);
    let mut i: usize = 0;
    assert(all.skip(0) =~= all);
    while i < segments.len()
        invariant
            i <= segments@.len(),
            all == views(segments@),
            pod_of(all) == pod_of(all.skip(i as int)),
        decreases segments@.len() - i,
    {
        assert(all.skip(i as int)[0] == segments@[i as int]@);
        if begins_with(segments[i].as_str(), "pod") {
            return Some(strip_prefixes(segments[i].as_str(), "pod"));
        }
        assert(all.skip(i as int).drop_first() =~= all.skip(i + 1));
        i = i + 1;
    }
    None
}

fn find_container(segment: &str) -> (r: Option<String>)
    ensures
        match r {
            Some(id) => container_of(segment@) == Some(id@),
            None => container_of(segment@) is None,
        },
{
    if segment.as_bytes().len() < SHORT_ID_LEN || !segment.is_char_boundary(SHORT_ID_LEN) {
        return None;
    }
    let (id, _) = segment.split_at(SHORT_ID_LEN);
    proof {
        encode_utf8_decode_utf8(id@);
    }
    Some(id.to_owned())
}

/// Reads pod, namespace and container out of a cgroup file. The namespace is
/// not in the path: it is reported as unknown.
pub fn parse_k8s_cgroup(cgroup: &str) -> (r: (Option<String>, Option<String>, Option<String>))
    ensures
        match k8s_identity(lines(cgroup@)) {
            Some((pod, container)) => {
                &&& r.0 matches Some(p) && p@ == pod
                &&& r.1 matches Some(ns) && ns@ == "unknown"@
                &&& match container {
                    Some(id) => r.2 matches Some(c) && c@ == id,
                    None => r.2 is None,
                }
            },
            None => r.0 is None && r.1 is None && r.2 is None,
        },
{
    let all = split_lines(cgroup);
    let ghost list = lines(cgroup@);
    let mut i: usize = 0;
    assert(list.skip(0) =~= list);
    while i < all.len()
        invariant
            i <= all@.len(),
            list == views(all@),
            list == lines(cgroup@),
            k8s_identity(list) == k8s_identity(list.skip(i as int)),
        decreases all@.len() - i,
    {
        assert(list.skip(i as int)[0] == all@[i as int]@);
        assert(list.skip(i as int).drop_first() =~= list.skip(i + 1));
        if let Some(segments) = segments_of(all[i].as_str()) {
            let container = find_container(find_last_filled(&segments));
            if let Some(pod) = find_pod(&segments) {
                return (Some(pod), Some("unknown".to_owned()), container);
            }
        }
        i = i + 1;
    }
    (None, None, None)
}

/// The short id of a segment of ASCII characters is its first characters.
pub proof fn ascii_container_is_shortened(segment: Seq<char>)
    requires
        is_ascii_chars(segment),
        segment.len() >= SHORT_ID_LEN,
    ensures
        container_of(segment) == Some(segment.take(SHORT_ID_LEN as int)),
{
    ascii_cuts_anywhere(segment, SHORT_ID_LEN as int);
    ascii_front(segment, SHORT_ID_LEN as int);
}

/// The path of a container's cgroup: below `front`, `pod` with the pod's id,
/// then the container's id, with or without a slash at the end.
pub open spec fn pod_path(
    front: Seq<char>,
    pod: Seq<char>,
    container: Seq<char>,
    slash: bool,
) -> Seq<char> {
    front + seq!['/'] + ("pod"@ + pod + seq!['/'] + container) + if slash {
        seq!['/']
    } else {
        seq![]
    }
}

/// What a pod's cgroup may lie below: a path of Kubernetes that names no pod
/// itself.
pub open spec fn is_above_pods(front: Seq<char>) -> bool {
    contains(front, "kubepods"@) && pod_of(split(front, '/')) is None
}

/// What stands for a pod and a container in a path.
pub open spec fn is_identity(pod: Seq<char>, container: Seq<char>) -> bool {
    &&& !pod.contains('/') && !stands_at(pod, "pod"@, 0)
    &&& !container.contains('/') && is_ascii_chars(container) && container.len() >= SHORT_ID_LEN
}

proof fn path_behind_colons(hierarchy: Seq<char>, controllers: Seq<char>, path: Seq<char>)
    requires
        !hierarchy.contains(':') && !controllers.contains(':'),
    ensures
        cgroup_path(hierarchy + seq![':'] + controllers + seq![':'] + path) == Some(path),
{
    let line = hierarchy + seq![':'] + controllers + seq![':'] + path;
    let h = hierarchy.len() as int;
    let c = controllers.len() as int;
    let colon = equals(':');
    assert forall|i: int| 0 <= i < h implies !colon(#[trigger] line[i]) by {
        assert(line[i] == hierarchy[i]);
    }
    first_char_is(line, 0, colon, h);
    assert forall|i: int| h + 1 <= i < h + 1 + c implies !colon(#[trigger] line[i]) by {
        assert(line[i] == controllers[i - h - 1]);
    }
    first_char_is(line, h + 1, colon, h + 1 + c);
    assert(line.skip(h + c + 2) =~= path);
}

proof fn pod_behind(front: Seq<Seq<char>>, rest: Seq<Seq<char>>)
    requires
        pod_of(front) is None,
    ensures
        pod_of(front + rest) == pod_of(rest),
    decreases front.len(),
{
    if front.len() == 0 {
        assert(front + rest =~= rest);
    } else {
        assert((front + rest).drop_first() =~= front.drop_first() + rest);
        pod_behind(front.drop_first(), rest);
    }
}

proof fn pod_path_segments(front: Seq<char>, pod: Seq<char>, container: Seq<char>, slash: bool)
    requires
        is_identity(pod, container),
    ensures
        split(pod_path(front, pod, container, slash), '/') == split(front, '/') + seq![
            "pod"@ + pod,
            container,
        ] + if slash {
            seq![Seq::<char>::empty()]
        } else {
            seq![]
        },
{
    let id = "pod"@ + pod;
    let empty = Seq::<char>::empty();
    let tail = if slash {
        seq!['/']
    } else {
        empty
    };
    let behind = id + seq!['/'] + (container + tail);
    assert(pod_path(front, pod, container, slash) =~= front + seq!['/'] + behind);
    assert(!id.contains('/')) by {
        reveal_strlit("pod");
        assert forall|i: int| 0 <= i < id.len() implies #[trigger] id[i] != '/' by {
            if i >= 3 {
                assert(id[i] == pod[i - 3]);
            }
        }
    }
    split_at_sep(front, '/', behind);
    split_at_sep(id, '/', container + tail);
    split_of_one(id, '/');
    split_of_one(container, '/');
    if slash {
        assert(container + tail =~= container + seq!['/'] + empty);
        split_at_sep(container, '/', empty);
        split_of_one(empty, '/');
    } else {
        assert(container + tail =~= container);
    }
    assert(split(pod_path(front, pod, container, slash), '/') =~= split(front, '/') + seq![
        "pod"@ + pod,
        container,
    ] + if slash {
        seq![empty]
    } else {
        seq![]
    });
}

proof fn pod_path_names(front: Seq<char>, pod: Seq<char>, container: Seq<char>, slash: bool)
    requires
        is_above_pods(front),
        is_identity(pod, container),
    ensures
        ({
            let path = pod_path(front, pod, container, slash);
            let segments = split(path, '/');
            &&& contains(path, "kubepods"@)
            &&& pod_of(segments) == Some(pod)
            &&& container_of(last_filled(segments)) == Some(container.take(SHORT_ID_LEN as int))
        }),
{
    let path = pod_path(front, pod, container, slash);
    let root = "kubepods"@;
    let at = choose|i: int| #[trigger] stands_at(front, root, i);
    assert(path.subrange(at, at + root.len()) =~= front.subrange(at, at + root.len()));
    assert(stands_at(path, root, at));
    pod_path_segments(front, pod, container, slash);
    let id = "pod"@ + pod;
    let segments = split(path, '/');
    let rest = seq![id, container] + if slash {
        seq![Seq::<char>::empty()]
    } else {
        seq![]
    };
    assert(segments =~= split(front, '/') + rest);
    pod_behind(split(front, '/'), rest);
    assert(pod_of(rest) == Some(pod)) by {
        reveal_strlit("pod");
        assert(id.subrange(0, 3) =~= "pod"@);
        assert(id.skip(3) =~= pod);
        assert(strip_all(id, "pod"@) == strip_all(pod, "pod"@));
    }
    assert(last_filled(segments) == container) by {
        let plain = split(front, '/') + seq![id, container];
        assert(plain.last() == container);
        assert(last_filled(plain) == container);
        if slash {
            assert(segments.drop_last() =~= plain);
            assert(segments.last().len() == 0);
        } else {
            assert(segments =~= plain);
        }
    }
    ascii_container_is_shortened(container);
}

/// A line of a cgroup file that names a container's cgroup gives the pod's id
/// and the first characters of the container's.
pub proof fn pod_line_gives_identity(
    hierarchy: Seq<char>,
    controllers: Seq<char>,
    front: Seq<char>,
    pod: Seq<char>,
    container: Seq<char>,
    slash: bool,
)
    requires
        !hierarchy.contains(':') && !controllers.contains(':'),
        is_above_pods(front),
        is_identity(pod, container),
    ensures
        k8s_identity(
            seq![
                hierarchy + seq![':'] + controllers + seq![':'] + pod_path(
                    front,
                    pod,
                    container,
                    slash,
                ),
            ],
        ) == Some((pod, Some(container.take(SHORT_ID_LEN as int)))),
{
    path_behind_colons(hierarchy, controllers, pod_path(front, pod, container, slash));
    pod_path_names(front, pod, container, slash);
}

/// The path of a container's cgroup alone gives the pod's id and the first
/// characters of the container's.
pub proof fn pod_path_gives_identity(
    front: Seq<char>,
    pod: Seq<char>,
    container: Seq<char>,
    slash: bool,
)
    requires
        front.len() > 0 && front[0] == '/' && !front.contains(':'),
        is_above_pods(front),
        is_identity(pod, container),
        !pod.contains(':') && !container.contains(':'),
    ensures
        k8s_identity(seq![pod_path(front, pod, container, slash)]) == Some(
            (pod, Some(container.take(SHORT_ID_LEN as int))),
        ),
{
    let path = pod_path(front, pod, container, slash);
    let f = front.len() as int;
    let p = pod.len() as int;
    let colon = equals(':');
    reveal_strlit("pod");
    assert forall|i: int| 0 <= i < path.len() implies !colon(#[trigger] path[i]) by {
        if i < f {
            assert(path[i] == front[i]);
        } else if f + 4 <= i < f + 4 + p {
            assert(path[i] == pod[i - f - 4]);
        } else if f + 5 + p <= i < f + 5 + p + container.len() {
            assert(path[i] == container[i - f - 5 - p]);
        }
    }
    first_char_is(path, 0, colon, path.len() as int);
    assert(path[0] == front[0]);
    pod_path_names(front, pod, container, slash);
}

} // verus!
