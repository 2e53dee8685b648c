//! Paths by their parts: doubled and trailing slashes make no difference, nor do parts that name
//! the directory they stand in.

use vstd::prelude::*;

use crate::text::{characters, joined, texts};

verus! {

/// A path that starts at the root.
pub open spec fn is_rooted(path: Seq<char>) -> bool {
    path.len() > 0 && path[0] == '/'
}

/// The place of the first slash from `from` on, or the end of the path.
pub open spec fn slash_from(path: Seq<char>, from: int) -> int
    decreases path.len() - from,
{
    if from >= path.len() {
        path.len() as int
    } else if path[from] == '/' {
        from
    } else {
        slash_from(path, from + 1)
    }
}

/// A part that names the directory it stands in. At the very start of a path it counts.
pub open spec fn is_idle(path: Seq<char>, start: int, end: int) -> bool {
    start > 0 && end == start + 1 && path[start] == '.'
}

/// Where the parts of a path from `from` on start and end.
pub open spec fn parts_from(path: Seq<char>, from: int) -> Seq<(int, int)>
    decreases path.len() - from when from >= 0 via slashes_are_ahead
{
    if from >= path.len() {
        Seq::empty()
    } else if path[from] == '/' {
        parts_from(path, from + 1)
    } else {
        let end = slash_from(path, from);
        if is_idle(path, from, end) {
            parts_from(path, end)
        } else {
            seq![(from, end)] + parts_from(path, end)
        }
    }
}

#[via_fn]
proof fn slashes_are_ahead(path: Seq<char>, from: int) {
    slash_is_found(path, from);
}

/// What is known of the first slash.
proof fn slash_is_found(path: Seq<char>, from: int)
    requires
        from >= 0,
    ensures
        from <= path.len() ==> from <= slash_from(path, from) <= path.len(),
        from > path.len() ==> slash_from(path, from) == path.len(),
        slash_from(path, from) < path.len() ==> path[slash_from(path, from)] == '/',
        forall|i: int| from <= i < slash_from(path, from) ==> path[i] != '/',
        from < path.len() && path[from] != '/' ==> slash_from(path, from) > from,
    decreases path.len() - from,
{
    if from < path.len() && path[from] != '/' {
        slash_is_found(path, from + 1);
    }
}

/// A slash that is first is the first one.
proof fn slash_is_first(path: Seq<char>, from: int, end: int)
    requires
        0 <= from <= end <= path.len(),
        forall|i: int| from <= i < end ==> path[i] != '/',
        end < path.len() ==> path[end] == '/',
    ensures
        slash_from(path, from) == end,
{
    slash_is_found(path, from);
    let found = slash_from(path, from);
    if found < end {
        assert(path[found] != '/');
    }
}

/// Where the parts of a path start and end.
pub open spec fn parts(path: Seq<char>) -> Seq<(int, int)> {
    parts_from(path, 0)
}

/// The part of a path between two places.
pub open spec fn part_text(path: Seq<char>) -> spec_fn((int, int)) -> Seq<char> {
    |part: (int, int)| path.subrange(part.0, part.1)
}

/// The root, where a path starts there.
pub open spec fn root_of(path: Seq<char>) -> Seq<Seq<char>> {
    if is_rooted(path) {
        seq!["/"@]
    } else {
        Seq::empty()
    }
}

/// What a path is made of: the root, where it starts there, and its parts.
pub open spec fn components(path: Seq<char>) -> Seq<Seq<char>> {
    root_of(path) + parts(path).map_values(part_text(path))
}

/// Two texts for one path.
pub open spec fn same_path(left: Seq<char>, right: Seq<char>) -> bool {
    components(left) == components(right)
}

/// A path is a directory or lies in it.
pub open spec fn lies_in(path: Seq<char>, directory: Seq<char>) -> bool {
    let base = components(directory);
    base.len() <= components(path).len() && components(path).take(base.len() as int) == base
}

/// A directory in front of what lies in it.
pub open spec fn as_parent(directory: Seq<char>) -> Seq<char> {
    if directory.len() == 0 || directory.last() == '/' {
        directory
    } else {
        directory + "/"@
    }
}

/// What lies in a directory, by its place there.
pub open spec fn joined_path(directory: Seq<char>, rest: Seq<char>) -> Seq<char> {
    as_parent(directory) + rest
}

/// A path up to the first `n` of its parts.
pub open spec fn leading(path: Seq<char>, n: int) -> Seq<char> {
    if n <= 0 {
        if is_rooted(path) {
            path.take(1)
        } else {
            Seq::empty()
        }
    } else {
        path.take(parts(path)[n - 1].1)
    }
}

/// A path behind the first `n` of its parts.
pub open spec fn trailing(path: Seq<char>, n: int) -> Seq<char> {
    if n >= parts(path).len() {
        Seq::empty()
    } else {
        path.subrange(parts(path)[n].0, parts(path).last().1)
    }
}

/// Where a part of a path starts and ends.
#[derive(Clone, Copy, Debug, PartialEq, Eq, Structural)]
pub struct Part {
    pub start: usize,
    pub end: usize,
}

pub open spec fn spans(list: Seq<Part>) -> Seq<(int, int)> {
    list.map_values(|part: Part| (part.start as int, part.end as int))
}

/// Parts lie in their path, one behind the other, with a slash or the end of the path behind each.
pub proof fn parts_are_in_order(path: Seq<char>, from: int)
    requires
        0 <= from,
    ensures
        forall|k: int|
            0 <= k < parts_from(path, from).len() ==> {
                let part = #[trigger] parts_from(path, from)[k];
                &&& from <= part.0 < part.1 <= path.len()
                &&& part.1 == slash_from(path, part.0)
                &&& path[part.0] != '/'
                &&& !is_idle(path, part.0, part.1)
            },
        forall|k: int, l: int|
            0 <= k < l < parts_from(path, from).len() ==> (
            #[trigger] parts_from(path, from)[k]).1 < (#[trigger] parts_from(path, from)[l]).0,
    decreases path.len() - from,
{
    slash_is_found(path, from);
    if from >= path.len() {
        assert(parts_from(path, from).len() == 0);
    } else {
        if path[from] == '/' {
            parts_are_in_order(path, from + 1);
            assert(parts_from(path, from) == parts_from(path, from + 1));
        } else {
            let end = slash_from(path, from);
            parts_are_in_order(path, end);
            let rest = parts_from(path, end);
            let all = parts_from(path, from);
            assert forall|k: int| 0 <= k < rest.len() implies (#[trigger] rest[k]).0 > end by {
                if rest[k].0 == end {
                    assert(path[end] == '/');
                }
            }
            if is_idle(path, from, end) {
                assert(all == rest);
            } else {
                assert(all =~= seq![(from, end)] + rest);
                assert forall|k: int| 0 <= k < all.len() implies {
                    let part = #[trigger] all[k];
                    &&& from <= part.0 < part.1 <= path.len()
                    &&& part.1 == slash_from(path, part.0)
                    &&& path[part.0] != '/'
                    &&& !is_idle(path, part.0, part.1)
                } by {
                    if k > 0 {
                        assert(all[k] == rest[k - 1]);
                    }
                }
                assert forall|k: int, l: int| 0 <= k < l < all.len() implies (#[trigger] all[k]).1
                    < (#[trigger] all[l]).0 by {
                    assert(all[l] == rest[l - 1]);
                    if k > 0 {
                        assert(all[k] == rest[k - 1]);
                    }
                }
            }
        }
    }
}

/// The parts of a path.
pub fn path_parts(path: &str) -> (list: Vec<Part>)
    ensures
        spans(list@) == parts(path@),
{
    let characters = characters(path);
    let length: usize = characters.len();
    let mut list: Vec<Part> = Vec::new();
    let mut i: usize = 0;
    proof {
        assert(spans(list@) + parts_from(path@, 0) =~= parts(path@));
    }
    while i < length
        invariant
            characters@ == path@,
            length == characters@.len(),
            i <= length,
            spans(list@) + parts_from(path@, i as int) == parts(path@),
        decreases length - i,
    {
        if characters[i] == '/' {
            i += 1;
        } else {
            let start: usize = i;
            let mut end: usize = i;
            while end < length && characters[end] != '/'
                invariant
                    characters@ == path@,
                    length == characters@.len(),
                    start <= end <= length,
                    forall|k: int| start <= k < end ==> path@[k] != '/',
                decreases length - end,
            {
                end += 1;
            }
            proof {
                slash_is_first(path@, start as int, end as int);
                slash_is_found(path@, start as int);
            }
            if !(start > 0 && end == start + 1 && characters[start] == '.') {
                let ghost before = spans(list@);
                list.push(Part { start, end });
                proof {
                    assert(spans(list@) =~= before.push((start as int, end as int)));
                    assert(before + (seq![(start as int, end as int)] + parts_from(
                        path@,
                        end as int,
                    )) =~= spans(list@) + parts_from(path@, end as int));
                }
            }
            i = end;
        }
    }
    proof {
        assert(spans(list@) + Seq::<(int, int)>::empty() =~= spans(list@));
    }
    list
}

/// What a path is made of.
pub fn components_of(path: &str) -> (list: Vec<String>)
    ensures
        texts(list@) == components(path@),
{
    let found = path_parts(path);
    let length: usize = path.unicode_len();
    let mut list: Vec<String> = Vec::new();
    if length > 0 && path.get_char(0) == '/' {
        list.push("/".to_owned());
    }
    let ghost root = root_of(path@);
    proof {
        assert(texts(list@) =~= root);
        parts_are_in_order(path@, 0);
    }
    let mut i: usize = 0;
    while i < found.len()
        invariant
            i <= found@.len(),
            length == path@.len(),
            spans(found@) == parts(path@),
            root == root_of(path@),
            forall|k: int|
                0 <= k < parts(path@).len() ==> 0 <= (#[trigger] parts(path@)[k]).0 < parts(
                    path@,
                )[k].1 <= path@.len(),
            texts(list@) =~= root + parts(path@).take(i as int).map_values(part_text(path@)),
        decreases found@.len() - i,
    {
        let part = found[i];
        proof {
            assert(spans(found@)[i as int] == (part.start as int, part.end as int));
            assert(spans(found@).len() == found@.len());
        }
        let ghost before = list@;
        list.push(path.substring_char(part.start, part.end).to_owned());
        proof {
            assert(texts(list@) =~= texts(before).push(
                path@.subrange(part.start as int, part.end as int),
            ));
            assert(parts(path@).take(i + 1) =~= parts(path@).take(i as int).push(
                parts(path@)[i as int],
            ));
            assert(parts(path@).take(i + 1).map_values(part_text(path@)) =~= parts(path@).take(
                i as int,
            ).map_values(part_text(path@)).push(
                path@.subrange(part.start as int, part.end as int),
            ));
        }
        i += 1;
    }
    proof {
        assert(spans(found@).len() == found@.len());
        assert(parts(path@).take(found@.len() as int) =~= parts(path@));
    }
    list
}

/// Whether a list starts with another.
fn begins_with(list: &Vec<String>, base: &Vec<String>) -> (result: bool)
    ensures
        result == (base@.len() <= list@.len() && texts(list@).take(base@.len() as int) == texts(
            base@,
        )),
{
    if base.len() > list.len() {
        return false;
    }
    let mut i: usize = 0;
    while i < base.len()
        invariant
            i <= base@.len() <= list@.len(),
            forall|k: int| 0 <= k < i ==> (#[trigger] list@[k])@ == base@[k]@,
        decreases base@.len() - i,
    {
        if list[i] != base[i] {
            proof {
                assert(texts(list@).take(base@.len() as int)[i as int] != texts(base@)[i as int]);
            }
            return false;
        }
        i += 1;
    }
    proof {
        assert(texts(list@).take(base@.len() as int) =~= texts(base@));
    }
    true
}

/// Whether two texts name one path.
pub fn is_same_path(left: &str, right: &str) -> (result: bool)
    ensures
        result == same_path(left@, right@),
{
    let list = components_of(left);
    let base = components_of(right);
    let result = list.len() == base.len() && begins_with(&list, &base);
    proof {
        assert(texts(list@).len() == list@.len());
        assert(texts(base@).len() == base@.len());
        if list@.len() == base@.len() {
            assert(texts(list@).take(base@.len() as int) =~= texts(list@));
        }
    }
    result
}

/// Whether a path is a directory or lies in it.
pub fn is_in(path: &str, directory: &str) -> (result: bool)
    ensures
        result == lies_in(path@, directory@),
{
    let list = components_of(path);
    let base = components_of(directory);
    proof {
        assert(texts(list@).len() == list@.len());
        assert(texts(base@).len() == base@.len());
    }
    begins_with(&list, &base)
}

/// What lies in a directory, by its place there.
pub fn join_path(directory: &str, rest: &str) -> (path: String)
    ensures
        path@ == joined_path(directory@, rest@),
{
    let length: usize = directory.unicode_len();
    if length == 0 || directory.get_char(length - 1) == '/' {
        joined(directory, rest)
    } else {
        let parent = joined(directory, "/");
        joined(parent.as_str(), rest)
    }
}

/// The path up to the first `n` of its parts.
pub fn leading_path(path: &str, found: &Vec<Part>, n: usize) -> (text: String)
    requires
        spans(found@) == parts(path@),
        n <= found@.len(),
    ensures
        text@ == leading(path@, n as int),
{
    if n == 0 {
        if path.unicode_len() > 0 && path.get_char(0) == '/' {
            proof {
                assert(path@.subrange(0, 1) =~= path@.take(1));
            }
            return path.substring_char(0, 1).to_owned();
        }
        let text = "".to_owned();
        proof {
            reveal_strlit("");
            assert(text@ =~= Seq::<char>::empty());
        }
        return text;
    }
    let end: usize = found[n - 1].end;
    proof {
        parts_are_in_order(path@, 0);
        assert(spans(found@)[n - 1].1 == end);
        assert(path@.subrange(0, end as int) =~= path@.take(end as int));
    }
    path.substring_char(0, end).to_owned()
}

/// The path behind the first `n` of its parts.
pub fn trailing_path(path: &str, found: &Vec<Part>, n: usize) -> (text: String)
    requires
        spans(found@) == parts(path@),
    ensures
        text@ == trailing(path@, n as int),
{
    proof {
        assert(spans(found@).len() == found@.len());
    }
    if n >= found.len() {
        let text = "".to_owned();
        proof {
            reveal_strlit("");
            assert(text@ =~= Seq::<char>::empty());
        }
        return text;
    }
    let start: usize = found[n].start;
    let end: usize = found[found.len() - 1].end;
    proof {
        parts_are_in_order(path@, 0);
        assert(spans(found@)[n as int].0 == start);
        assert(spans(found@)[found@.len() - 1].1 == end);
        if n < found@.len() - 1 {
            assert(parts(path@)[n as int].1 < parts(path@)[found@.len() - 1].0);
        }
    }
    path.substring_char(start, end).to_owned()
}

/// Places moved along by `by`.
pub open spec fn shifted(list: Seq<(int, int)>, by: int) -> Seq<(int, int)> {
    list.map_values(|part: (int, int)| (part.0 + by, part.1 + by))
}

/// What can stand behind a directory: it starts with a part that counts there, or is nothing.
pub open spec fn is_continuation(rest: Seq<char>) -> bool {
    rest.len() > 0 ==> rest[0] != '/' && !(rest[0] == '.' && slash_from(rest, 0) == 1)
}

proof fn later_parts_are_shifted(head: Seq<char>, rest: Seq<char>, k: int)
    requires
        0 <= k,
        k > 0 || head.len() == 0 || is_continuation(rest),
    ensures
        parts_from(head + rest, head.len() + k) == shifted(parts_from(rest, k), head.len() as int),
    decreases rest.len() - k,
{
    let by = head.len() as int;
    let all = head + rest;
    if k >= rest.len() {
        assert(parts_from(rest, k) =~= Seq::empty());
        assert(parts_from(all, by + k) =~= Seq::empty());
        assert(shifted(parts_from(rest, k), by) =~= Seq::empty());
    } else {
        assert(all[by + k] == rest[k]);
        if rest[k] == '/' {
            later_parts_are_shifted(head, rest, k + 1);
            assert(parts_from(rest, k) == parts_from(rest, k + 1));
            assert(parts_from(all, by + k) == parts_from(all, by + k + 1));
        } else {
            slash_is_found(rest, k);
            let end = slash_from(rest, k);
            assert forall|i: int| by + k <= i < by + end implies all[i] != '/' by {
                assert(all[i] == rest[i - by]);
            }
            if end < rest.len() {
                assert(all[by + end] == rest[end]);
            }
            slash_is_first(all, by + k, by + end);
            later_parts_are_shifted(head, rest, end);
            if is_idle(all, by + k, by + end) {
                assert(is_idle(rest, k, end));
                assert(parts_from(rest, k) == parts_from(rest, end));
                assert(parts_from(all, by + k) == parts_from(all, by + end));
            } else {
                assert(!is_idle(rest, k, end));
                assert(parts_from(rest, k) == seq![(k, end)] + parts_from(rest, end));
                assert(parts_from(all, by + k) == seq![(by + k, by + end)] + parts_from(
                    all,
                    by + end,
                ));
                assert(shifted(seq![(k, end)] + parts_from(rest, end), by) =~= seq![
                    (by + k, by + end),
                ] + shifted(parts_from(rest, end), by));
            }
        }
    }
}

proof fn parts_behind_a_slash(head: Seq<char>, rest: Seq<char>, i: int)
    requires
        0 <= i <= head.len(),
        head.len() > 0 ==> head.last() == '/',
        head.len() > 0 ==> is_continuation(rest),
    ensures
        parts_from(head + rest, i) == parts_from(head, i) + shifted(
            parts_from(rest, 0),
            head.len() as int,
        ),
    decreases head.len() - i,
{
    let all = head + rest;
    let tail = shifted(parts_from(rest, 0), head.len() as int);
    if i == head.len() {
        later_parts_are_shifted(head, rest, 0);
        assert(parts_from(head, i) =~= Seq::empty());
        assert(parts_from(head, i) + tail =~= tail);
    } else {
        assert(all[i] == head[i]);
        if head[i] == '/' {
            parts_behind_a_slash(head, rest, i + 1);
            assert(parts_from(head, i) == parts_from(head, i + 1));
            assert(parts_from(all, i) == parts_from(all, i + 1));
        } else {
            slash_is_found(head, i);
            let end = slash_from(head, i);
            assert(end < head.len()) by {
                if end >= head.len() {
                    assert(head[head.len() - 1] != '/');
                }
            }
            assert forall|k: int| i <= k < end implies all[k] != '/' by {
                assert(all[k] == head[k]);
            }
            assert(all[end] == head[end]);
            slash_is_first(all, i, end);
            parts_behind_a_slash(head, rest, end);
            if is_idle(head, i, end) {
                assert(parts_from(head, i) == parts_from(head, end));
                assert(parts_from(all, i) == parts_from(all, end));
            } else {
                assert(parts_from(head, i) == seq![(i, end)] + parts_from(head, end));
                assert(parts_from(all, i) == seq![(i, end)] + parts_from(all, end));
                assert(seq![(i, end)] + (parts_from(head, end) + tail) =~= (seq![(i, end)]
                    + parts_from(head, end)) + tail);
            }
        }
    }
}

proof fn a_slash_adds_no_part(path: Seq<char>, i: int)
    requires
        0 <= i <= path.len(),
    ensures
        parts_from(path + "/"@, i) == parts_from(path, i),
    decreases path.len() - i,
{
    reveal_strlit("/");
    let longer = path + "/"@;
    if i == path.len() {
        assert(longer[i] == '/');
        assert(parts_from(longer, i) == parts_from(longer, i + 1));
        assert(parts_from(longer, i + 1) =~= Seq::empty());
        assert(parts_from(path, i) =~= Seq::empty());
    } else {
        assert(longer[i] == path[i]);
        if path[i] == '/' {
            a_slash_adds_no_part(path, i + 1);
            assert(parts_from(path, i) == parts_from(path, i + 1));
            assert(parts_from(longer, i) == parts_from(longer, i + 1));
        } else {
            slash_is_found(path, i);
            let end = slash_from(path, i);
            assert forall|k: int| i <= k < end implies longer[k] != '/' by {
                assert(longer[k] == path[k]);
            }
            if end < path.len() {
                assert(longer[end] == path[end]);
            } else {
                assert(longer[end] == '/');
            }
            slash_is_first(longer, i, end);
            a_slash_adds_no_part(path, end);
            if is_idle(path, i, end) {
                assert(parts_from(path, i) == parts_from(path, end));
                assert(parts_from(longer, i) == parts_from(longer, end));
            } else {
                assert(parts_from(path, i) == seq![(i, end)] + parts_from(path, end));
                assert(parts_from(longer, i) == seq![(i, end)] + parts_from(longer, end));
            }
        }
    }
}

/// What lies in a directory is made of what the directory is made of, and of its place there.
pub proof fn joined_components(directory: Seq<char>, rest: Seq<char>)
    requires
        rest.len() > 0 ==> rest[0] != '/',
        directory.len() > 0 ==> is_continuation(rest),
    ensures
        components(joined_path(directory, rest)) == components(directory) + components(rest),
        parts(joined_path(directory, rest)).len() == parts(directory).len() + parts(rest).len(),
{
    let head = as_parent(directory);
    let all = joined_path(directory, rest);
    reveal_strlit("/");
    if head != directory {
        a_slash_adds_no_part(directory, 0);
        assert(head.last() == '/');
    }
    assert(parts(head) == parts(directory));
    parts_behind_a_slash(head, rest, 0);
    parts_are_in_order(directory, 0);
    parts_are_in_order(rest, 0);
    let by = head.len() as int;
    assert(parts(all) == parts(directory) + shifted(parts(rest), by));
    assert(is_rooted(all) == is_rooted(directory)) by {
        if head.len() > 0 {
            assert(all[0] == head[0]);
        }
    }
    let found = components(directory) + components(rest);
    assert(root_of(rest).len() == 0);
    assert(components(all) =~= found) by {
        let r = root_of(directory).len() as int;
        let n = parts(directory).len() as int;
        assert(components(all).len() == found.len());
        assert forall|k: int| 0 <= k < found.len() implies #[trigger] components(all)[k]
            == found[k] by {
            if k < r {
            } else if k < r + n {
                let part = parts(directory)[k - r];
                assert(parts(all)[k - r] == part);
                assert(all.subrange(part.0, part.1) =~= directory.subrange(part.0, part.1));
            } else {
                let part = parts(rest)[k - r - n];
                assert(parts(all)[k - r] == (part.0 + by, part.1 + by));
                assert(all.subrange(part.0 + by, part.1 + by) =~= rest.subrange(part.0, part.1));
            }
        }
    }
}

proof fn parts_before_an_end(path: Seq<char>, end: int, from: int)
    requires
        0 <= from <= end <= path.len(),
        end < path.len() ==> path[end] == '/',
    ensures
        parts_from(path, from) == parts_from(path.take(end), from) + parts_from(path, end),
    decreases end - from,
{
    let head = path.take(end);
    if from == end {
        assert(parts_from(head, from) =~= Seq::empty());
        assert(parts_from(head, from) + parts_from(path, end) =~= parts_from(path, end));
    } else {
        assert(head[from] == path[from]);
        if path[from] == '/' {
            parts_before_an_end(path, end, from + 1);
            assert(parts_from(head, from) == parts_from(head, from + 1));
            assert(parts_from(path, from) == parts_from(path, from + 1));
        } else {
            slash_is_found(path, from);
            let stop = slash_from(path, from);
            assert(stop <= end) by {
                if stop > end {
                    assert(path[end] != '/');
                }
            }
            assert forall|k: int| from <= k < stop implies head[k] != '/' by {
                assert(head[k] == path[k]);
            }
            if stop < end {
                assert(head[stop] == path[stop]);
            }
            slash_is_first(head, from, stop);
            parts_before_an_end(path, end, stop);
            let later = parts_from(path, end);
            if is_idle(path, from, stop) {
                assert(parts_from(head, from) == parts_from(head, stop));
                assert(parts_from(path, from) == parts_from(path, stop));
            } else {
                assert(parts_from(head, from) == seq![(from, stop)] + parts_from(head, stop));
                assert(parts_from(path, from) == seq![(from, stop)] + parts_from(path, stop));
                assert(seq![(from, stop)] + (parts_from(head, stop) + later) =~= (seq![
                    (from, stop),
                ] + parts_from(head, stop)) + later);
            }
        }
    }
}

/// The text of `n` parts from `at` on: the parts before the last one's end, and those behind it.
proof fn parts_divide(path: Seq<char>, n: int)
    requires
        0 < n <= parts(path).len(),
    ensures
        ({
            let end = parts(path)[n - 1].1;
            &&& 0 < end <= path.len()
            &&& parts(path.take(end)) == parts(path).take(n)
            &&& parts_from(path, end) == parts(path).skip(n)
        }),
{
    parts_are_in_order(path, 0);
    let end = parts(path)[n - 1].1;
    slash_is_found(path, parts(path)[n - 1].0);
    parts_before_an_end(path, end, 0);
    let head = path.take(end);
    parts_are_in_order(head, 0);
    parts_are_in_order(path, end);
    let before = parts(head);
    let behind = parts_from(path, end);
    assert(parts(path) == before + behind);
    assert(before.len() == n) by {
        if before.len() > n {
            assert(parts(path)[n] == before[n]);
            assert(parts(path)[n - 1].1 < parts(path)[n].0);
        }
        if before.len() < n {
            assert(parts(path)[n - 1] == behind[n - 1 - before.len()]);
        }
    }
    assert(parts(path).take(n) =~= before);
    assert(parts(path).skip(n) =~= behind);
}

/// A path up to the first `n` of its parts is made of those.
pub proof fn leading_components(path: Seq<char>, n: int)
    requires
        0 <= n <= parts(path).len(),
    ensures
        components(leading(path, n)) == components(path).take(root_of(path).len() + n),
        parts(leading(path, n)).len() == n,
        root_of(leading(path, n)) == root_of(path),
{
    let head = leading(path, n);
    if n == 0 {
        if is_rooted(path) {
            assert(head[0] == '/');
            assert(parts_from(head, 0) == parts_from(head, 1));
            assert(parts_from(head, 1) =~= Seq::empty());
        } else {
            assert(parts_from(head, 0) =~= Seq::empty());
        }
        assert(components(head) =~= components(path).take(root_of(path).len() + n));
    } else {
        parts_divide(path, n);
        parts_are_in_order(path, 0);
        let end = parts(path)[n - 1].1;
        assert(head[0] == path[0]);
        let r = root_of(path).len() as int;
        assert forall|k: int| 0 <= k < r + n implies #[trigger] components(head)[k]
            == components(path)[k] by {
            if k >= r {
                let part = parts(path)[k - r];
                assert(parts(head)[k - r] == part);
                if k - r < n - 1 {
                    assert(parts(path)[k - r].1 < parts(path)[n - 1].0);
                }
                assert(head.subrange(part.0, part.1) =~= path.subrange(part.0, part.1));
            }
        }
        assert(components(head) =~= components(path).take(r + n));
    }
}

/// A path behind the first `n` of its parts is made of the rest of them.
#[verifier::spinoff_prover]
#[verifier::rlimit(60)]
pub proof fn trailing_components(path: Seq<char>, n: int)
    requires
        0 <= n <= parts(path).len(),
    ensures
        components(trailing(path, n)) == components(path).skip(root_of(path).len() + n),
        trailing(path, n).len() > 0 ==> trailing(path, n)[0] != '/',
        n > 0 || is_rooted(path) ==> is_continuation(trailing(path, n)),
{
    let rest = trailing(path, n);
    let r = root_of(path).len() as int;
    let all = parts(path);
    parts_are_in_order(path, 0);
    if n == all.len() {
        assert(parts_from(rest, 0) =~= Seq::empty());
        assert(components(rest) =~= components(path).skip(r + n));
    } else {
        let m = all.len() as int;
        let start = all[n].0;
        let end = all[m - 1].1;
        if n < m - 1 {
            assert(all[n].1 < all[m - 1].0);
        }
        parts_divide(path, m);
        let cut = path.take(end);
        assert(parts(cut) =~= all);
        let head = path.take(start);
        assert(cut =~= head + rest);
        slash_is_found(path, start);
        let stop = slash_from(path, start);
        assert(rest[0] == path[start]);
        assert(stop <= end);
        assert forall|i: int| 0 <= i < stop - start implies rest[i] != '/' by {
            assert(rest[i] == path[start + i]);
        }
        if stop < end {
            assert(rest[stop - start] == path[stop]);
        }
        slash_is_first(rest, 0, stop - start);
        if start > 0 {
            assert(is_continuation(rest));
        }
        later_parts_are_shifted(head, rest, 0);
        parts_start_where_they_are(cut, n);
        assert(parts_from(cut, start) == all.skip(n));
        assert(shifted(parts(rest), start) == all.skip(n));
        parts_are_in_order(rest, 0);
        assert forall|k: int| 0 <= k < m - n implies #[trigger] components(rest)[k] == components(
            path,
        )[r + n + k] by {
            let part = parts(rest)[k];
            assert(shifted(parts(rest), start)[k] == (part.0 + start, part.1 + start));
            assert(all.skip(n)[k] == all[n + k]);
            assert(rest.subrange(part.0, part.1) =~= path.subrange(
                part.0 + start,
                part.1 + start,
            ));
        }
        assert(shifted(parts(rest), start).len() == parts(rest).len());
        assert(components(rest) =~= components(path).skip(r + n));
        if start == 0 {
            assert(!is_rooted(path));
            if n > 0 {
                assert(all[0].1 < all[n].0);
            }
        }
    }
}

/// From where a part starts, the parts are that one and those behind it.
proof fn parts_start_where_they_are(path: Seq<char>, n: int)
    requires
        0 <= n < parts(path).len(),
    ensures
        parts_from(path, parts(path)[n].0) == parts(path).skip(n),
{
    parts_are_in_order(path, 0);
    let part = parts(path)[n];
    slash_is_found(path, part.0);
    parts_divide(path, n + 1);
    assert(parts_from(path, part.0) == seq![(part.0, part.1)] + parts_from(path, part.1));
    assert(parts(path).skip(n) =~= seq![part] + parts(path).skip(n + 1));
}

/// A path starts at the root exactly where the root is its first component.
pub proof fn rooted_by_component(path: Seq<char>)
    ensures
        is_rooted(path) == (components(path).len() > 0 && components(path)[0] == "/"@),
{
    reveal_strlit("/");
    if !is_rooted(path) && components(path).len() > 0 {
        parts_are_in_order(path, 0);
        let part = parts(path)[0];
        slash_is_found(path, part.0);
        assert(components(path)[0] == path.subrange(part.0, part.1));
        assert(components(path)[0][0] == path[part.0]);
        assert(path[part.0] != '/');
    }
}

/// A text without a slash is one part.
pub proof fn one_part(text: Seq<char>)
    requires
        text.len() > 0,
        forall|i: int| 0 <= i < text.len() ==> text[i] != '/',
    ensures
        parts(text) == seq![(0int, text.len() as int)],
        components(text) == seq![text],
        text.len() > 1 ==> is_continuation(text),
{
    let n = text.len() as int;
    slash_is_first(text, 0, n);
    assert(parts_from(text, n) =~= Seq::empty());
    assert(parts(text) == seq![(0int, n)] + parts_from(text, n));
    assert(parts(text) =~= seq![(0int, n)]);
    assert(text.subrange(0, n) =~= text);
    assert(components(text) =~= seq![text]);
}

/// A text can stand behind a directory where its first component is a name.
pub proof fn first_component_is_no_dot(text: Seq<char>)
    requires
        text.len() > 0 ==> text[0] != '/',
        text.len() > 0 ==> components(text)[0].len() > 1,
    ensures
        is_continuation(text),
{
    if text.len() > 0 {
        slash_is_found(text, 0);
        let end = slash_from(text, 0);
        assert(parts(text) == seq![(0int, end)] + parts_from(text, end));
        assert(parts(text)[0] == (0int, end));
        assert(components(text)[0] == text.subrange(0, end));
    }
}

} // verus!
