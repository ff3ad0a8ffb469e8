//! Places below the root of a crawl, and their paths.
//!
//! A place is the sequence of directory names that leads to it from the root:
//! the root itself is the empty sequence. One place lies inside another where
//! the other's names are a proper beginning of its own. A name is one or more
//! characters, none of them the separator, so that the path of a place tells
//! its names apart again.

use vstd::prelude::*;
use vstd::string::*;

verus! {

/// A place below the root, as the names that lead to it.
pub type Location = Seq<Seq<char>>;

/// Whether `name` can be the name of a directory entry: it is not empty and
/// holds no separator.
pub open spec fn valid_name(name: Seq<char>) -> bool {
    name.len() > 0 && !name.contains('/')
}

/// Whether every name of `place` can be the name of a directory entry.
pub open spec fn valid_place(place: Location) -> bool {
    forall|k: int| 0 <= k < place.len() ==> valid_name(#[trigger] place[k])
}

/// Whether `inner` lies strictly inside the tree of `outer`.
pub open spec fn nested(inner: Location, outer: Location) -> bool {
    outer.len() < inner.len() && inner.take(outer.len() as int) == outer
}

/// Whether two places are different and neither lies inside the other.
pub open spec fn unrelated(a: Location, b: Location) -> bool {
    a != b && !nested(a, b) && !nested(b, a)
}

/// Whether the places in `places` are pairwise unrelated.
pub open spec fn scattered(places: Seq<Location>) -> bool {
    forall|i: int, j: int|
        0 <= i < j < places.len() ==> unrelated(#[trigger] places[i], #[trigger] places[j])
}

/// The path of the entry `name` of the directory `dir`.
pub open spec fn join(dir: Seq<char>, name: Seq<char>) -> Seq<char> {
    if dir.len() > 0 && dir.last() == '/' {
        dir + name
    } else {
        dir + seq!['/'] + name
    }
}

/// The path of `place` below `root`.
pub open spec fn path_string(root: Seq<char>, place: Location) -> Seq<char>
    decreases place.len(),
{
    if place.len() == 0 {
        root
    } else {
        join(path_string(root, place.drop_last()), place.last())
    }
}

/// Whether the path `inner` leads strictly inside the directory whose path is
/// `outer`: it goes on after `outer` and a separator.
pub open spec fn path_inside(inner: Seq<char>, outer: Seq<char>) -> bool {
    &&& outer.len() < inner.len()
    &&& inner.take(outer.len() as int) == outer
    &&& (outer.len() > 0 && outer.last() == '/') || inner[outer.len() as int] == '/'
}

/// Tests whether `name` can be the name of a directory entry.
pub fn is_entry_name(name: &str) -> (valid: bool)
    ensures
        valid == valid_name(name@),
{
    let mut any = false;
    for c in chars: name.chars()
        invariant
            chars.seq() == name@,
            any == (chars.index() > 0),
            forall|k: int| 0 <= k < chars.index() ==> chars.seq()[k] != '/',
    {
        if c == '/' {
            return false;
        }
        any = true;
    }
    any
}

/// Builds the path of the entry `name` of the directory `dir`.
pub fn join_path(dir: &str, name: &str) -> (path: String)
    ensures
        path@ == join(dir@, name@),
{
    let length = dir.unicode_len();
    let mut path = String::from_str(dir);
    if length == 0 || dir.get_char(length - 1) != '/' {
        proof {
            reveal_strlit("/");
        }
        path.append("/");
        assert(path@ == dir@ + seq!['/']);
    }
    path.append(name);
    path
}

/// Builds the path of `place` below `root`.
pub fn place_path(root: &str, place: &Vec<String>) -> (path: String)
    ensures
        path@ == path_string(root@, place.deep_view()),
{
    let mut path = String::from_str(root);
    let mut i: usize = 0;
    while i < place.len()
        invariant
            i <= place.len(),
            path@ == path_string(root@, place.deep_view().take(i as int)),
        decreases place.len() - i,
    {
        assert(place.deep_view().take(i + 1).drop_last() == place.deep_view().take(i as int));
        assert(place.deep_view().take(i + 1).last() == place[i as int]@);
        path = join_path(path.as_str(), place[i].as_str());
        i = i + 1;
    }
    assert(place.deep_view().take(place.len() as int) == place.deep_view());
    path
}

/// A place that is unrelated to a directory is unrelated to everything in it.
pub proof fn lemma_unrelated_to_entries(place: Location, dir: Location, name: Seq<char>)
    requires
        unrelated(place, dir),
    ensures
        unrelated(place, dir.push(name)),
{
    let entry = dir.push(name);
    assert(entry.take(dir.len() as int) == dir);
    if place == entry {
        assert(nested(place, dir));
    }
    if nested(entry, place) {
        if place.len() == dir.len() {
            assert(place == dir);
        } else {
            assert(dir.take(place.len() as int) == entry.take(place.len() as int));
            assert(nested(dir, place));
        }
    }
    if nested(place, entry) {
        assert(place.take(dir.len() as int) == place.take(entry.len() as int).take(
            dir.len() as int,
        ));
        assert(nested(place, dir));
    }
}

/// Two entries of one directory with different names are unrelated.
pub proof fn lemma_entries_unrelated(dir: Location, first: Seq<char>, second: Seq<char>)
    requires
        first != second,
    ensures
        unrelated(dir.push(first), dir.push(second)),
{
    let a = dir.push(first);
    let b = dir.push(second);
    assert(a[dir.len() as int] == first);
    assert(b[dir.len() as int] == second);
}

/// The root's path with the separator that comes before the first name.
spec fn base(root: Seq<char>) -> Seq<char> {
    if root.len() > 0 && root.last() == '/' {
        root
    } else {
        root + seq!['/']
    }
}

/// The names of a place with a separator between each two.
spec fn tail(place: Location) -> Seq<char>
    decreases place.len(),
{
    if place.len() == 0 {
        Seq::empty()
    } else if place.len() == 1 {
        place[0]
    } else {
        tail(place.drop_last()) + seq!['/'] + place.last()
    }
}

/// The path of a place below the root is the root's, a separator, and the
/// place's names with a separator between each two. It ends in no separator.
proof fn lemma_path_is_base_and_tail(root: Seq<char>, place: Location)
    requires
        valid_place(place),
        place.len() > 0,
    ensures
        path_string(root, place) == base(root) + tail(place),
        tail(place).len() > 0,
        tail(place).last() != '/',
    decreases place.len(),
{
    let name = place.last();
    assert(valid_name(name));
    assert(name.contains(name.last()));
    if place.len() == 1 {
        assert(place.drop_last().len() == 0);
        assert(path_string(root, place.drop_last()) == root);
        assert(path_string(root, place) =~= base(root) + tail(place));
    } else {
        let before = place.drop_last();
        lemma_valid_drop_last(place);
        lemma_path_is_base_and_tail(root, before);
        let dir = path_string(root, before);
        assert(dir.last() == tail(before).last());
        assert(path_string(root, place) =~= base(root) + tail(place));
    }
}

/// The beginning of a valid place is a valid place.
proof fn lemma_valid_drop_last(place: Location)
    requires
        valid_place(place),
        place.len() > 0,
    ensures
        valid_place(place.drop_last()),
        valid_name(place.last()),
{
    let before = place.drop_last();
    assert forall|k: int| 0 <= k < before.len() implies valid_name(#[trigger] before[k]) by {
        assert(before[k] == place[k]);
    }
}

/// A name holds no separator at any index.
proof fn lemma_no_separator(name: Seq<char>, i: int)
    requires
        valid_name(name),
        0 <= i < name.len(),
    ensures
        name[i] != '/',
{
    if name[i] == '/' {
        assert(name.contains('/'));
    }
}

/// Places with the same names between separators are one place.
proof fn lemma_tail_tells_apart(a: Location, b: Location)
    requires
        valid_place(a),
        valid_place(b),
        a.len() > 0,
        b.len() > 0,
        tail(a) == tail(b),
    ensures
        a == b,
    decreases a.len(),
{
    let t = tail(a);
    lemma_valid_drop_last(a);
    lemma_valid_drop_last(b);
    if a.len() == 1 && b.len() == 1 {
        assert(a =~= b);
    } else if a.len() == 1 {
        let at = tail(b.drop_last()).len() as int;
        assert(t[at] == '/');
        lemma_no_separator(a[0], at);
    } else if b.len() == 1 {
        let at = tail(a.drop_last()).len() as int;
        assert(t[at] == '/');
        lemma_no_separator(b[0], at);
    } else {
        let ta = tail(a.drop_last());
        let tb = tail(b.drop_last());
        let la = a.last();
        let lb = b.last();
        assert(t == ta + seq!['/'] + la);
        assert(t == tb + seq!['/'] + lb);
        assert(t.len() == ta.len() + 1 + la.len());
        assert(t.len() == tb.len() + 1 + lb.len());
        assert(t[ta.len() as int] == '/');
        assert(t[tb.len() as int] == '/');
        if ta.len() < tb.len() {
            assert(t[tb.len() as int] == la[tb.len() - ta.len() - 1]);
            lemma_no_separator(la, tb.len() - ta.len() - 1);
        } else if tb.len() < ta.len() {
            assert(t[ta.len() as int] == lb[ta.len() - tb.len() - 1]);
            lemma_no_separator(lb, ta.len() - tb.len() - 1);
        } else {
            assert(ta =~= t.take(ta.len() as int));
            assert(tb =~= t.take(tb.len() as int));
            assert(la =~= t.skip((ta.len() + 1) as int));
            assert(lb =~= t.skip((tb.len() + 1) as int));
            lemma_tail_tells_apart(a.drop_last(), b.drop_last());
            assert(a =~= a.drop_last().push(la));
            assert(b =~= b.drop_last().push(lb));
        }
    }
}

/// Where the names of `a`, each followed by a separator, begin the names of
/// `b`, the place `b` lies inside the place `a`.
proof fn lemma_tail_tells_inside(a: Location, b: Location)
    requires
        valid_place(a),
        valid_place(b),
        a.len() > 0,
        b.len() > 0,
        tail(a).len() < tail(b).len(),
        tail(b).take(tail(a).len() as int) == tail(a),
        tail(b)[tail(a).len() as int] == '/',
    ensures
        nested(b, a),
    decreases b.len(),
{
    let ta = tail(a);
    let t = tail(b);
    let at = ta.len() as int;
    lemma_valid_drop_last(b);
    if b.len() == 1 {
        lemma_no_separator(b[0], at);
    } else {
        let before = b.drop_last();
        let tb = tail(before);
        let lb = b.last();
        assert(t == tb + seq!['/'] + lb);
        assert(t.len() == tb.len() + 1 + lb.len());
        if at > tb.len() {
            assert(t[at] == lb[at - tb.len() - 1]);
            lemma_no_separator(lb, at - tb.len() - 1);
        } else if at == tb.len() {
            assert(tb =~= t.take(at));
            lemma_tail_tells_apart(a, before);
            assert(b.take(a.len() as int) == before);
        } else {
            assert(tb.take(at) =~= t.take(at));
            assert(tb[at] == t[at]);
            lemma_tail_tells_inside(a, before);
            assert(b.take(a.len() as int) =~= before.take(a.len() as int));
        }
    }
}

/// One direction of the next lemma: the path of `b` does not lead inside the
/// directory at the path of `a`.
proof fn lemma_path_not_inside(root: Seq<char>, a: Location, b: Location)
    requires
        valid_place(a),
        valid_place(b),
        a.len() > 0,
        b.len() > 0,
        !nested(b, a),
    ensures
        !path_inside(path_string(root, b), path_string(root, a)),
{
    lemma_path_is_base_and_tail(root, a);
    lemma_path_is_base_and_tail(root, b);
    let front = base(root);
    let pa = path_string(root, a);
    let pb = path_string(root, b);
    if path_inside(pb, pa) {
        let ta = tail(a);
        let tb = tail(b);
        assert(pa.last() == ta.last());
        assert(pb[pa.len() as int] == tb[ta.len() as int]);
        assert(tb.take(ta.len() as int) =~= ta) by {
            assert forall|k: int| 0 <= k < ta.len() implies tb[k] == ta[k] by {
                assert(pb.take(pa.len() as int)[front.len() + k] == pa[front.len() + k]);
            }
        }
        lemma_tail_tells_inside(a, b);
    }
}

/// Places that are unrelated have paths that are unrelated: the paths are
/// different, and neither leads inside the directory at the other.
pub proof fn lemma_unrelated_paths(root: Seq<char>, a: Location, b: Location)
    requires
        valid_place(a),
        valid_place(b),
        unrelated(a, b),
    ensures
        path_string(root, a) != path_string(root, b),
        !path_inside(path_string(root, a), path_string(root, b)),
        !path_inside(path_string(root, b), path_string(root, a)),
{
    if a.len() == 0 {
        assert(b.take(0) =~= a);
        assert(b.len() == 0 ==> a =~= b);
    }
    if b.len() == 0 {
        assert(a.take(0) =~= b);
    }
    lemma_path_is_base_and_tail(root, a);
    lemma_path_is_base_and_tail(root, b);
    let front = base(root);
    if path_string(root, a) == path_string(root, b) {
        assert(tail(a) =~= (front + tail(a)).skip(front.len() as int));
        assert(tail(b) =~= (front + tail(b)).skip(front.len() as int));
        lemma_tail_tells_apart(a, b);
    }
    lemma_path_not_inside(root, a, b);
    lemma_path_not_inside(root, b, a);
}

} // verus!
