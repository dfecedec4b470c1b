//! Unix file system paths: byte strings whose segments are separated by `/`.
use crate::utf8::{decode_lossy, lossy_text};
use vstd::prelude::*;
use vstd::string::{StrSliceExecFns, StringExecFns};
use vstd::utf8::{decode_utf8, encode_utf8, valid_utf8};

verus! {

/// The byte that separates the segments of a path.
pub const SEPARATOR: u8 = 0x2f;

/// The byte `.`.
pub const DOT: u8 = 0x2e;

/// The segments of a path: what stands before, between and after its separators.
pub open spec fn segments(path: Seq<u8>) -> Seq<Seq<u8>>
    decreases path.len(),
{
    if path.len() == 0 {
        seq![Seq::<u8>::empty()]
    } else {
        let front = segments(path.drop_last());
        if path.last() == SEPARATOR {
            front.push(Seq::empty())
        } else {
            front.drop_last().push(front.last().push(path.last()))
        }
    }
}

/// Whether a segment stands for nothing: it is empty or a single dot.
pub open spec fn is_blank(segment: Seq<u8>) -> bool {
    segment.len() == 0 || segment == seq![DOT]
}

/// The segments that name a directory or a file.
pub open spec fn names(path: Seq<u8>) -> Seq<Seq<u8>> {
    named(segments(path))
}

/// The segments that are not blank, in order.
pub open spec fn named(parts: Seq<Seq<u8>>) -> Seq<Seq<u8>>
    decreases parts.len(),
{
    if parts.len() == 0 {
        Seq::empty()
    } else if is_blank(parts.last()) {
        named(parts.drop_last())
    } else {
        named(parts.drop_last()).push(parts.last())
    }
}

/// What a path means once repeated separators and inner dots are set aside.
pub struct Meaning {
    /// The path starts at the root directory.
    pub rooted: bool,
    /// The path starts with a `.` segment.
    pub dotted: bool,
    /// The names that follow, from the outermost to the innermost.
    pub names: Seq<Seq<u8>>,
}

/// The meaning of a path.
pub open spec fn meaning(path: Seq<u8>) -> Meaning {
    Meaning {
        rooted: is_absolute(path),
        dotted: segments(path)[0] == seq![DOT],
        names: names(path),
    }
}

/// Whether a path starts at the root directory.
pub open spec fn is_absolute(path: Seq<u8>) -> bool {
    path.len() > 0 && path[0] == SEPARATOR
}

/// The last name of a path, unless the path ends in `..` or holds no name.
pub open spec fn file_name(path: Seq<u8>) -> Option<Seq<u8>> {
    if names(path).len() > 0 && names(path).last() != seq![DOT, DOT] {
        Some(names(path).last())
    } else {
        None
    }
}

/// A meaning without its last component.
pub open spec fn outer(m: Meaning) -> Option<Meaning> {
    if m.names.len() > 0 {
        Some(Meaning { names: m.names.drop_last(), ..m })
    } else if m.dotted {
        Some(Meaning { dotted: false, ..m })
    } else {
        None
    }
}

/// The length of the shortest prefix of `path`, of at least `from` bytes, that means `m`.
pub open spec fn first_meaning(path: Seq<u8>, m: Meaning, from: nat) -> nat
    decreases path.len() - from,
{
    if from >= path.len() || meaning(path.take(from as int)) == m {
        from
    } else {
        first_meaning(path, m, from + 1)
    }
}

/// The directory that holds what `path` names: the shortest prefix of `path` that means
/// the path without its last component.
pub open spec fn parent(path: Seq<u8>) -> Option<Seq<u8>> {
    match outer(meaning(path)) {
        Some(m) => Some(path.take(first_meaning(path, m, 0) as int)),
        None => None,
    }
}

/// `path` taken relative to `base`.
pub open spec fn join(base: Seq<u8>, path: Seq<u8>) -> Seq<u8> {
    if is_absolute(path) {
        path
    } else if base.len() == 0 || base.last() == SEPARATOR {
        base + path
    } else {
        base.push(SEPARATOR) + path
    }
}

/// The position of the last dot of a name, or -1.
pub open spec fn last_dot(name: Seq<u8>) -> int
    decreases name.len(),
{
    if name.len() == 0 {
        -1
    } else if name.last() == DOT {
        name.len() - 1
    } else {
        last_dot(name.drop_last())
    }
}

/// What follows the last dot of the file name, unless that dot is its first byte.
pub open spec fn extension(path: Seq<u8>) -> Option<Seq<u8>> {
    match file_name(path) {
        Some(name) => if last_dot(name) > 0 {
            Some(name.skip(last_dot(name) + 1))
        } else {
            None
        },
        None => None,
    }
}

/// The last segment of the prefix that ends before a byte grows by that byte.
proof fn lemma_segments_step(path: Seq<u8>, i: int)
    requires
        0 <= i < path.len(),
    ensures
        segments(path.take(i + 1)) == (if path[i] == SEPARATOR {
            segments(path.take(i)).push(Seq::empty())
        } else {
            segments(path.take(i)).drop_last().push(segments(path.take(i)).last().push(path[i]))
        }),
{
    assert(path.take(i + 1).drop_last() =~= path.take(i));
}

/// A path always has a segment.
proof fn lemma_segments_nonempty(path: Seq<u8>)
    ensures
        segments(path).len() > 0,
    decreases path.len(),
{
    if path.len() > 0 {
        lemma_segments_nonempty(path.drop_last());
    }
}

/// The segment that starts at `s` and has been read up to `e`.
proof fn lemma_segments_window(path: Seq<u8>, s: int, e: int)
    requires
        0 <= s <= e <= path.len(),
        s == 0 || path[s - 1] == SEPARATOR,
        forall|k: int| s <= k < e ==> path[k] != SEPARATOR,
    ensures
        segments(path.take(s)).last().len() == 0,
        segments(path.take(e)) == segments(path.take(s)).drop_last().push(path.subrange(s, e)),
    decreases e,
{
    lemma_segments_nonempty(path.take(s));
    if s > 0 {
        lemma_segments_step(path, s - 1);
    }
    if e == s {
        assert(path.subrange(s, e) =~= Seq::<u8>::empty());
        assert(segments(path.take(s)) =~= segments(path.take(s)).drop_last().push(
            segments(path.take(s)).last(),
        ));
        assert(segments(path.take(s)).last() =~= path.subrange(s, e));
    } else {
        lemma_segments_window(path, s, e - 1);
        lemma_segments_step(path, e - 1);
        let front = segments(path.take(s)).drop_last();
        assert(front.push(path.subrange(s, e - 1)).drop_last() =~= front);
        assert(path.subrange(s, e - 1).push(path[e - 1]) =~= path.subrange(s, e));
    }
}

/// Once a separator has been read, the first segment is settled.
proof fn lemma_first_segment_settled(path: Seq<u8>, i: int, j: int)
    requires
        0 <= i <= j <= path.len(),
        segments(path.take(i)).len() > 1,
    ensures
        segments(path.take(j)).len() > 1,
        segments(path.take(j))[0] == segments(path.take(i))[0],
    decreases j,
{
    if i < j {
        lemma_first_segment_settled(path, i, j - 1);
        lemma_segments_step(path, j - 1);
    }
}

/// A longer prefix holds at least as many names.
proof fn lemma_names_grow(path: Seq<u8>, i: int, j: int)
    requires
        0 <= i <= j <= path.len(),
    ensures
        names(path.take(i)).len() <= names(path.take(j)).len(),
    decreases j,
{
    if i < j {
        lemma_names_grow(path, i, j - 1);
        lemma_segments_step(path, j - 1);
        lemma_segments_nonempty(path.take(j - 1));
        let before = segments(path.take(j - 1));
        let after = segments(path.take(j));
        if path[j - 1] == SEPARATOR {
            assert(after.drop_last() =~= before);
        } else {
            assert(after.drop_last() =~= before.drop_last());
            assert(after.last() == before.last().push(path[j - 1]));
            if !is_blank(before.last()) {
                assert(after.last().len() == before.last().len() + 1);
            }
        }
    }
}

/// The names of a prefix that has been read up to `e`, where its last segment starts at `s`.
proof fn lemma_names_window(path: Seq<u8>, s: int, e: int)
    requires
        0 <= s <= e <= path.len(),
        s == 0 || path[s - 1] == SEPARATOR,
        forall|k: int| s <= k < e ==> path[k] != SEPARATOR,
    ensures
        names(path.take(e)) == (if is_blank(path.subrange(s, e)) {
            names(path.take(s))
        } else {
            names(path.take(s)).push(path.subrange(s, e))
        }),
{
    lemma_segments_window(path, s, e);
    lemma_segments_nonempty(path.take(s));
    let front = segments(path.take(s)).drop_last();
    assert(front.push(path.subrange(s, e)).drop_last() =~= front);
}

/// A prefix that ends with a whole name means something that no shorter prefix means.
proof fn lemma_name_end_is_shortest(path: Seq<u8>, s: int, e: int)
    requires
        0 <= s <= e <= path.len(),
        s == 0 || path[s - 1] == SEPARATOR,
        forall|k: int| s <= k < e ==> path[k] != SEPARATOR,
        !is_blank(path.subrange(s, e)),
    ensures
        forall|k: int| 0 <= k < e ==> meaning(#[trigger] path.take(k)) != meaning(path.take(e)),
{
    lemma_names_window(path, s, e);
    assert forall|k: int| 0 <= k < e implies meaning(#[trigger] path.take(k)) != meaning(
        path.take(e),
    ) by {
        if k < s {
            lemma_names_grow(path, k, s);
        } else {
            lemma_names_window(path, s, k);
            if !is_blank(path.subrange(s, k)) {
                assert(names(path.take(k)).last().len() == k - s);
                assert(names(path.take(e)).last().len() == e - s);
            }
        }
    }
}

/// Finds the result of the search for the shortest prefix.
proof fn lemma_first_meaning(path: Seq<u8>, m: Meaning, from: nat, at: nat)
    requires
        from <= at <= path.len(),
        meaning(path.take(at as int)) == m,
        forall|k: int| from <= k < at ==> meaning(#[trigger] path.take(k)) != m,
    ensures
        first_meaning(path, m, from) == at,
    decreases at - from,
{
    if from < at {
        assert(meaning(path.take(from as int)) != m);
        lemma_first_meaning(path, m, from + 1, at);
    }
}

/// A path that starts with a `.` segment starts with a dot.
proof fn lemma_dotted_starts_with_dot(path: Seq<u8>)
    requires
        meaning(path).dotted,
    ensures
        path.len() > 0,
        path[0] == DOT,
    decreases path.len(),
{
    assert(seq![DOT].len() == 1 && seq![DOT][0] == DOT);
    if path.len() > 0 {
        let front = path.drop_last();
        lemma_segments_nonempty(front);
        if segments(front).len() > 1 || path.last() == SEPARATOR {
            assert(segments(path)[0] == segments(front)[0]);
            lemma_dotted_starts_with_dot(front);
        } else {
            lemma_single_segment(front);
            assert(segments(path)[0] == front.push(path.last()));
            assert(front.push(path.last()) =~= path);
        }
    }
}

/// The empty path means nothing.
proof fn lemma_empty_meaning()
    ensures
        meaning(Seq::empty()) == (Meaning { rooted: false, dotted: false, names: Seq::empty() }),
{
    reveal_with_fuel(named, 2);
    let parts = segments(Seq::<u8>::empty());
    assert(parts =~= seq![Seq::<u8>::empty()]);
    assert(parts.drop_last() =~= Seq::<Seq<u8>>::empty());
    assert(Seq::<u8>::empty() != seq![DOT]) by {
        assert(seq![DOT].len() == 1);
    }
}

/// A path with a single segment is that segment.
proof fn lemma_single_segment(path: Seq<u8>)
    requires
        segments(path).len() == 1,
    ensures
        segments(path)[0] == path,
        !is_absolute(path),
    decreases path.len(),
{
    if path.len() > 0 {
        let front = path.drop_last();
        lemma_segments_nonempty(front);
        lemma_single_segment(front);
        assert(front.push(path.last()) =~= path);
        if path.len() > 1 {
            assert(front[0] == path[0]);
        }
    } else {
        assert(segments(path)[0] =~= path);
    }
}

/// What the prefix behind the separator at `e` means, where the segment before that
/// separator starts at `s`.
proof fn lemma_after_separator(path: Seq<u8>, s: int, e: int)
    requires
        0 <= s <= e < path.len(),
        s == 0 || path[s - 1] == SEPARATOR,
        forall|k: int| s <= k < e ==> path[k] != SEPARATOR,
        path[e] == SEPARATOR,
    ensures
        is_blank(path.subrange(s, e)) && s > 0 ==> meaning(path.take(e + 1)) == meaning(
            path.take(s),
        ),
        is_blank(path.subrange(s, e)) && s == 0 ==> {
            &&& meaning(path.take(e + 1)) == meaning(path.take(1))
            &&& meaning(path.take(0)) != meaning(path.take(1))
            &&& names(path.take(e + 1)).len() == 0
            &&& names(path.take(0)).len() == 0
        },
        !is_blank(path.subrange(s, e)) ==> {
            &&& names(path.take(e + 1)).len() > 0
            &&& meaning(path.take(e + 1)) == meaning(path.take(e))
            &&& outer(meaning(path.take(e + 1))) == Some(meaning(path.take(s)))
            &&& forall|k: int|
                0 <= k < e ==> meaning(#[trigger] path.take(k)) != meaning(path.take(e))
        },
{
    let seg = path.subrange(s, e);
    lemma_names_window(path, s, e);
    lemma_segments_window(path, s, e);
    lemma_segments_step(path, e);
    lemma_segments_nonempty(path.take(s));
    lemma_segments_nonempty(path.take(e));
    assert(segments(path.take(e + 1)).drop_last() =~= segments(path.take(e)));
    assert(names(path.take(e + 1)) == names(path.take(e)));
    assert(segments(path.take(e + 1))[0] == segments(path.take(e))[0]);
    if s > 0 {
        lemma_segments_step(path, s - 1);
        lemma_segments_nonempty(path.take(s - 1));
        lemma_first_segment_settled(path, s, e);
        assert(path.take(s)[0] == path.take(e + 1)[0]);
    } else {
        assert(path.take(0) =~= Seq::<u8>::empty());
        assert(segments(path.take(0)) =~= seq![Seq::<u8>::empty()]);
        reveal_with_fuel(named, 2);
        assert(segments(path.take(0)).drop_last() =~= Seq::<Seq<u8>>::empty());
        assert(segments(path.take(e)) =~= seq![seg]);
        assert(Seq::<u8>::empty() != seq![DOT]) by {
            assert(seq![DOT].len() == 1);
        }
    }
    if is_blank(seg) {
        if s == 0 {
            if e == 1 {
                assert(seg[0] == path[0]);
                assert(path[0] == DOT);
            }
        }
    } else {
        lemma_name_end_is_shortest(path, s, e);
        assert(names(path.take(e)).drop_last() =~= names(path.take(s)));
        if s == 0 {
            assert(e > 0);
            assert(path.take(e + 1)[0] == path[0]);
        }
        if e > 0 {
            assert(path.take(e + 1)[0] == path.take(e)[0]);
        }
    }
}

/// The meaning of a path whose last segment, which starts at `s`, is a name.
proof fn lemma_before_last_name(path: Seq<u8>, s: int, e: int)
    requires
        0 <= s <= e == path.len(),
        s == 0 || path[s - 1] == SEPARATOR,
        forall|k: int| s <= k < e ==> path[k] != SEPARATOR,
        !is_blank(path.subrange(s, e)),
    ensures
        outer(meaning(path)) == Some(meaning(path.take(s))),
{
    assert(path.take(e) =~= path);
    lemma_names_window(path, s, e);
    lemma_segments_window(path, s, e);
    lemma_segments_nonempty(path.take(s));
    assert(names(path).drop_last() =~= names(path.take(s)));
    if s > 0 {
        lemma_segments_step(path, s - 1);
        lemma_segments_nonempty(path.take(s - 1));
        lemma_first_segment_settled(path, s, e);
        assert(path.take(s)[0] == path[0]);
    } else {
        assert(path.take(0) =~= Seq::<u8>::empty());
        assert(segments(path.take(0)) =~= seq![Seq::<u8>::empty()]);
        assert(segments(path) =~= seq![path.subrange(s, e)]);
        assert(Seq::<u8>::empty() != seq![DOT]) by {
            assert(seq![DOT].len() == 1);
        }
    }
}

/// A blank last segment that follows a separator adds nothing to the meaning.
proof fn lemma_blank_tail(path: Seq<u8>, s: int, e: int)
    requires
        0 <= s <= e == path.len(),
        s == 0 || path[s - 1] == SEPARATOR,
        forall|k: int| s <= k < e ==> path[k] != SEPARATOR,
        is_blank(path.subrange(s, e)),
        names(path.take(s)).len() > 0,
    ensures
        meaning(path) == meaning(path.take(s)),
{
    assert(path.take(e) =~= path);
    lemma_names_window(path, s, e);
    if s > 0 {
        lemma_segments_step(path, s - 1);
        lemma_segments_nonempty(path.take(s - 1));
        lemma_first_segment_settled(path, s, e);
        assert(path.take(s)[0] == path[0]);
    } else {
        assert(path.take(0) =~= Seq::<u8>::empty());
        reveal_with_fuel(named, 2);
        assert(segments(path.take(0)).drop_last() =~= Seq::<Seq<u8>>::empty());
    }
}

/// Where the last segment of a path starts.
proof fn lemma_last_segment_start(path: Seq<u8>) -> (s: int)
    ensures
        0 <= s <= path.len(),
        s == 0 || path[s - 1] == SEPARATOR,
        forall|k: int| s <= k < path.len() ==> path[k] != SEPARATOR,
    decreases path.len(),
{
    if path.len() == 0 || path.last() == SEPARATOR {
        path.len() as int
    } else {
        let s = lemma_last_segment_start(path.drop_last());
        assert(s == 0 || path[s - 1] == path.drop_last()[s - 1]);
        assert forall|k: int| s <= k < path.len() implies path[k] != SEPARATOR by {
            if k < path.len() - 1 {
                assert(path[k] == path.drop_last()[k]);
            }
        }
        s
    }
}

/// Where the last name of a path stands.
proof fn lemma_last_name_window(path: Seq<u8>) -> (window: (int, int))
    requires
        names(path).len() > 0,
    ensures
        0 <= window.0 <= window.1 <= path.len(),
        names(path).last() == path.subrange(window.0, window.1),
        window.0 == 0 || path[window.0 - 1] == SEPARATOR,
        window.1 == path.len() || path[window.1] == SEPARATOR,
        forall|k: int| window.0 <= k < window.1 ==> path[k] != SEPARATOR,
    decreases path.len(),
{
    let n = path.len() as int;
    let s = lemma_last_segment_start(path);
    lemma_names_window(path, s, n);
    assert(path.take(n) =~= path);
    if !is_blank(path.subrange(s, n)) {
        (s, n)
    } else if s == 0 {
        lemma_empty_meaning();
        assert(path.take(0) =~= Seq::<u8>::empty());
        assert(false);
        (0, 0)
    } else {
        lemma_segments_step(path, s - 1);
        assert(segments(path.take(s)).drop_last() =~= segments(path.take(s - 1)));
        let front = path.take(s - 1);
        let w = lemma_last_name_window(front);
        assert(path.subrange(w.0, w.1) =~= front.subrange(w.0, w.1));
        assert(w.0 == 0 || path[w.0 - 1] == front[w.0 - 1]);
        assert(w.1 == s - 1 || path[w.1] == front[w.1]);
        assert forall|k: int| w.0 <= k < w.1 implies path[k] != SEPARATOR by {
            assert(path[k] == front[k]);
        }
        w
    }
}

/// The file name in a path that is written as text can be written as text.
pub proof fn lemma_file_name_of_text(text: Seq<char>)
    ensures
        file_name(encode_utf8(text)) matches Some(name) ==> valid_utf8(name),
{
    let path = encode_utf8(text);
    if names(path).len() > 0 {
        let w = lemma_last_name_window(path);
        vstd::utf8::encode_utf8_valid_utf8(text);
        crate::utf8::lemma_cut_is_valid(path, w.0, w.1);
    }
}

/// A single name that is taken relative to a directory is the one name that comes behind those
/// of the directory.
pub proof fn lemma_join_name(dir: Seq<u8>, name: Seq<u8>)
    requires
        !is_blank(name),
        !name.contains(SEPARATOR),
    ensures
        names(join(dir, name)) == names(dir).push(name),
{
    let path = join(dir, name);
    let n = path.len() as int;
    let s = n - name.len();
    assert(name[0] != SEPARATOR) by {
        assert(name.contains(name[0]));
    }
    assert(path.subrange(s, n) =~= name);
    assert forall|k: int| s <= k < n implies path[k] != SEPARATOR by {
        assert(path[k] == name[k - s]);
        assert(name.contains(name[k - s]));
    }
    lemma_names_window(path, s, n);
    assert(path.take(n) =~= path);
    if s == dir.len() {
        assert(path.take(s) =~= dir);
    } else {
        assert(path.take(s).drop_last() =~= dir);
        assert(segments(path.take(s)).drop_last() =~= segments(dir));
    }
}

/// A prefix that means `m` is found where there is one.
proof fn lemma_meaning_found(path: Seq<u8>, m: Meaning, from: nat, at: nat)
    requires
        from <= at <= path.len(),
        meaning(path.take(at as int)) == m,
    ensures
        meaning(path.take(first_meaning(path, m, from) as int)) == m,
    decreases at - from,
{
    if from < at && meaning(path.take(from as int)) != m {
        lemma_meaning_found(path, m, from + 1, at);
    }
}

/// What a single name leads to from a directory stands in that directory.
pub proof fn lemma_join_parent(dir: Seq<u8>, name: Seq<u8>)
    requires
        !is_blank(name),
        !name.contains(SEPARATOR),
    ensures
        parent(join(dir, name)) is Some,
        meaning(parent(join(dir, name))->0) == meaning(dir),
{
    let path = join(dir, name);
    let n = path.len() as int;
    let s = n - name.len();
    assert(name[0] != SEPARATOR) by {
        assert(name.contains(name[0]));
    }
    assert(path.subrange(s, n) =~= name);
    assert forall|k: int| s <= k < n implies path[k] != SEPARATOR by {
        assert(path[k] == name[k - s]);
        assert(name.contains(name[k - s]));
    }
    lemma_before_last_name(path, s, n);
    if s == dir.len() {
        assert(path.take(s) =~= dir);
    } else {
        assert(path.take(s).drop_last() =~= dir);
        assert(segments(path.take(s)).drop_last() =~= segments(dir));
        lemma_segments_nonempty(dir);
        assert(segments(path.take(s))[0] == segments(dir)[0]);
        assert(path[0] == dir[0]);
        assert(meaning(path.take(s)) == meaning(dir));
    }
    lemma_meaning_found(path, meaning(dir), 0, s as nat);
}

/// A path is its own file name exactly if it is a single name that is neither blank nor `..`.
pub proof fn lemma_plain_file_name(path: Seq<u8>)
    ensures
        file_name(path) == Some(path) <==> !is_blank(path) && path != seq![DOT, DOT]
            && !path.contains(SEPARATOR),
{
    if path.contains(SEPARATOR) {
        if file_name(path) == Some(path) {
            let w = lemma_last_name_window(path);
            assert(w.0 == 0 && w.1 == path.len());
        }
    } else {
        lemma_names_window(path, 0, path.len() as int);
        lemma_empty_meaning();
        assert(path.take(0) =~= Seq::<u8>::empty());
        assert(path.take(path.len() as int) =~= path);
        assert(path.subrange(0, path.len() as int) =~= path);
    }
}

/// A Unix path.
#[derive(Clone, Debug)]
pub struct UnixPath {
    pub bytes: Vec<u8>,
}

impl View for UnixPath {
    type V = Seq<u8>;

    open spec fn view(&self) -> Seq<u8> {
        self.bytes@
    }
}

impl DeepView for UnixPath {
    type V = Seq<u8>;

    open spec fn deep_view(&self) -> Seq<u8> {
        self.bytes@
    }
}

/// Whether two byte strings are the same.
pub fn bytes_eq(a: &[u8], b: &[u8]) -> (same: bool)
    ensures
        same == (a@ == b@),
{
    if a.len() != b.len() {
        return false;
    }
    let n: usize = a.len();
    let mut i: usize = 0;
    while i < n
        invariant
            n == a@.len(),
            n == b@.len(),
            i <= n,
            forall|k: int| 0 <= k < i ==> a@[k] == b@[k],
        decreases n - i,
    {
        if a[i] != b[i] {
            return false;
        }
        i = i + 1;
    }
    assert(a@ =~= b@);
    true
}

/// A copy of the bytes `from..to`.
pub fn copy_range(bytes: &Vec<u8>, from: usize, to: usize) -> (r: Vec<u8>)
    requires
        from <= to <= bytes@.len(),
    ensures
        r@ == bytes@.subrange(from as int, to as int),
{
    let mut r: Vec<u8> = Vec::new();
    let mut i: usize = from;
    while i < to
        invariant
            from <= i <= to <= bytes@.len(),
            r@ == bytes@.subrange(from as int, i as int),
        decreases to - i,
    {
        r.push(bytes[i]);
        i = i + 1;
        assert(r@ =~= bytes@.subrange(from as int, i as int));
    }
    r
}

/// Whether the segment `from..to` of a path is blank.
fn range_is_blank(bytes: &Vec<u8>, from: usize, to: usize) -> (r: bool)
    requires
        from <= to <= bytes@.len(),
    ensures
        r == is_blank(bytes@.subrange(from as int, to as int)),
{
    let ghost segment = bytes@.subrange(from as int, to as int);
    if from == to {
        return true;
    }
    if to - from == 1 && bytes[from] == DOT {
        assert(segment =~= seq![DOT]);
        return true;
    }
    assert(segment != seq![DOT]) by {
        if segment == seq![DOT] {
            assert(segment.len() == 1 && segment[0] == DOT);
        }
    }
    false
}

impl UnixPath {
    /// The path written as `text`.
    pub fn new(text: &str) -> (r: UnixPath)
        ensures
            r@ == encode_utf8(text@),
    {
        UnixPath { bytes: text.as_bytes_vec() }
    }

    /// A copy of this path.
    pub fn copy(&self) -> (r: UnixPath)
        ensures
            r@ == self@,
    {
        let bytes = copy_range(&self.bytes, 0, self.bytes.len());
        assert(bytes@ =~= self@);
        UnixPath { bytes }
    }

    /// The path as it is shown to people.
    pub fn display(&self) -> (r: String)
        ensures
            r@ == lossy_text(self@),
            valid_utf8(self@) ==> r@ == decode_utf8(self@),
    {
        decode_lossy(self.bytes.as_slice())
    }

    /// Whether the path starts at the root directory.
    pub fn is_absolute(&self) -> (r: bool)
        ensures
            r == is_absolute(self@),
    {
        self.bytes.len() > 0 && self.bytes[0] == SEPARATOR
    }

    /// `path` taken relative to this path.
    pub fn join(&self, path: &UnixPath) -> (r: UnixPath)
        ensures
            r@ == join(self@, path@),
    {
        if path.is_absolute() {
            return path.copy();
        }
        let mut bytes = copy_range(&self.bytes, 0, self.bytes.len());
        assert(bytes@ =~= self@);
        if bytes.len() > 0 && bytes[bytes.len() - 1] != SEPARATOR {
            bytes.push(SEPARATOR);
        }
        let mut tail = copy_range(&path.bytes, 0, path.bytes.len());
        assert(tail@ =~= path@);
        bytes.append(&mut tail);
        UnixPath { bytes }
    }

    /// The names of the path, from the outermost to the innermost.
    pub fn names(&self) -> (r: Vec<Vec<u8>>)
        ensures
            r@.map_values(|name: Vec<u8>| name@) == names(self@),
    {
        let n: usize = self.bytes.len();
        let mut r: Vec<Vec<u8>> = Vec::new();
        let mut start: usize = 0;
        let mut i: usize = 0;
        assert(self@.take(0) =~= Seq::<u8>::empty());
        proof {
            reveal_with_fuel(named, 2);
            assert(segments(self@.take(0)).drop_last() =~= Seq::<Seq<u8>>::empty());
            assert(r@.map_values(|name: Vec<u8>| name@) =~= names(self@.take(0)));
        }
        while i < n
            invariant
                n == self@.len(),
                start <= i <= n,
                start == 0 || self@[start - 1] == SEPARATOR,
                forall|k: int| start <= k < i ==> self@[k] != SEPARATOR,
                r@.map_values(|name: Vec<u8>| name@) == names(self@.take(start as int)),
            decreases n - i,
        {
            if self.bytes[i] == SEPARATOR {
                self.push_name(&mut r, start, i);
                proof {
                    lemma_segments_step(self@, i as int);
                    assert(segments(self@.take(i + 1)).drop_last() =~= segments(
                        self@.take(i as int),
                    ));
                }
                start = i + 1;
            }
            i = i + 1;
        }
        self.push_name(&mut r, start, n);
        assert(self@.take(n as int) =~= self@);
        r
    }

    /// Adds the segment `start..end` to the names read so far, unless it is blank.
    fn push_name(&self, r: &mut Vec<Vec<u8>>, start: usize, end: usize)
        requires
            start <= end <= self@.len(),
            start == 0 || self@[start - 1] == SEPARATOR,
            forall|k: int| start <= k < end ==> self@[k] != SEPARATOR,
            old(r)@.map_values(|name: Vec<u8>| name@) == names(self@.take(start as int)),
        ensures
            final(r)@.map_values(|name: Vec<u8>| name@) == names(self@.take(end as int)),
    {
        proof {
            lemma_names_window(self@, start as int, end as int);
        }
        if !range_is_blank(&self.bytes, start, end) {
            r.push(copy_range(&self.bytes, start, end));
            assert(r@.map_values(|name: Vec<u8>| name@) =~= names(self@.take(end as int)));
        }
    }

    /// Whether two paths mean the same.
    pub fn same_as(&self, other: &UnixPath) -> (r: bool)
        ensures
            r == (meaning(self@) == meaning(other@)),
    {
        let a = self.names();
        let b = other.names();
        let ghost av = names(self@);
        let ghost bv = names(other@);
        assert(av.len() == a@.len() && bv.len() == b@.len());
        if self.is_absolute() != other.is_absolute() || self.is_dotted() != other.is_dotted()
            || a.len() != b.len() {
            return false;
        }
        let n: usize = a.len();
        let mut i: usize = 0;
        while i < n
            invariant
                n == a@.len(),
                n == b@.len(),
                i <= n,
                av == a@.map_values(|name: Vec<u8>| name@),
                bv == b@.map_values(|name: Vec<u8>| name@),
                av == names(self@),
                bv == names(other@),
                forall|k: int| 0 <= k < i ==> av[k] == bv[k],
            decreases n - i,
        {
            assert(av[i as int] == a@[i as int]@ && bv[i as int] == b@[i as int]@);
            if !bytes_eq(a[i].as_slice(), b[i].as_slice()) {
                return false;
            }
            i = i + 1;
        }
        assert(av =~= bv);
        true
    }

    /// Whether the path starts with a `.` segment.
    fn is_dotted(&self) -> (r: bool)
        ensures
            r == meaning(self@).dotted,
    {
        let n: usize = self.bytes.len();
        let mut end: usize = 0;
        while end < n && self.bytes[end] != SEPARATOR
            invariant
                n == self@.len(),
                end <= n,
                forall|k: int| 0 <= k < end ==> self@[k] != SEPARATOR,
            decreases n - end,
        {
            end = end + 1;
        }
        proof {
            lemma_segments_window(self@, 0, end as int);
            assert(self@.take(0) =~= Seq::<u8>::empty());
            assert(segments(self@.take(end as int)) =~= seq![self@.subrange(0, end as int)]);
            if end < n {
                lemma_segments_step(self@, end as int);
                lemma_first_segment_settled(self@, end + 1, n as int);
            }
            assert(self@.take(n as int) =~= self@);
            assert(segments(self@)[0] == self@.subrange(0, end as int));
        }
        if end == 1 && self.bytes[0] == DOT {
            assert(self@.subrange(0, end as int) =~= seq![DOT]);
            true
        } else {
            assert(self@.subrange(0, end as int) != seq![DOT]) by {
                if end == 1 {
                    assert(self@.subrange(0, end as int)[0] == self@[0]);
                }
            }
            false
        }
    }

    /// The last name of the path, unless the path ends in `..` or holds no name.
    pub fn file_name(&self) -> (r: Option<Vec<u8>>)
        ensures
            r is Some <==> file_name(self@) is Some,
            r matches Some(name) ==> file_name(self@) == Some(name@),
    {
        let mut all = self.names();
        let ghost views = all@.map_values(|name: Vec<u8>| name@);
        assert(views.len() == all@.len());
        match all.pop() {
            Some(last) => {
                assert(views.last() == last@);
                if last.len() == 2 && last[0] == DOT && last[1] == DOT {
                    assert(last@ =~= seq![DOT, DOT]);
                    None
                } else {
                    Some(last)
                }
            },
            None => None,
        }
    }

    /// The directory that holds what this path names.
    pub fn parent(&self) -> (r: Option<UnixPath>)
        ensures
            r is Some <==> parent(self@) is Some,
            r matches Some(p) ==> parent(self@) == Some(p@),
    {
        let n: usize = self.bytes.len();
        // The segment being read starts at `start`. The shortest prefix that means what
        // precedes it has length `base`; the shortest prefix that means what precedes the
        // last name read has length `before`.
        let mut start: usize = 0;
        let mut base: usize = 0;
        let mut before: usize = 0;
        let mut found = false;
        let mut i: usize = 0;
        assert(self@.take(0) =~= Seq::<u8>::empty());
        proof {
            reveal_with_fuel(named, 2);
            assert(segments(self@.take(0)).drop_last() =~= Seq::<Seq<u8>>::empty());
        }
        while i < n
            invariant
                n == self@.len(),
                start <= i <= n,
                base <= start,
                before <= start,
                start == 0 || self@[start - 1] == SEPARATOR,
                forall|k: int| start <= k < i ==> self@[k] != SEPARATOR,
                meaning(self@.take(base as int)) == meaning(self@.take(start as int)),
                forall|k: int|
                    0 <= k < base ==> meaning(#[trigger] self@.take(k)) != meaning(
                        self@.take(start as int),
                    ),
                found <==> names(self@.take(start as int)).len() > 0,
                found ==> outer(meaning(self@.take(start as int))) == Some(
                    meaning(self@.take(before as int)),
                ),
                found ==> forall|k: int|
                    0 <= k < before ==> meaning(#[trigger] self@.take(k)) != meaning(
                        self@.take(before as int),
                    ),
            decreases n - i,
        {
            if self.bytes[i] == SEPARATOR {
                proof {
                    lemma_after_separator(self@, start as int, i as int);
                }
                if !range_is_blank(&self.bytes, start, i) {
                    before = base;
                    found = true;
                    base = i;
                } else if start == 0 {
                    base = 1;
                }
                start = i + 1;
            }
            i = i + 1;
        }
        proof {
            lemma_names_window(self@, start as int, n as int);
            assert(self@.take(n as int) =~= self@);
        }
        if !range_is_blank(&self.bytes, start, n) {
            proof {
                lemma_before_last_name(self@, start as int, n as int);
                lemma_first_meaning(
                    self@,
                    meaning(self@.take(base as int)),
                    0,
                    base as nat,
                );
            }
            return Some(self.prefix(base));
        }
        if found {
            proof {
                lemma_blank_tail(self@, start as int, n as int);
                lemma_first_meaning(
                    self@,
                    meaning(self@.take(before as int)),
                    0,
                    before as nat,
                );
            }
            return Some(self.prefix(before));
        }
        if self.is_dotted() {
            proof {
                assert(self@.len() > 0 && self@[0] == DOT) by {
                    lemma_dotted_starts_with_dot(self@);
                }
                lemma_empty_meaning();
                assert(names(self@) =~= Seq::<Seq<u8>>::empty());
                assert(meaning(self@.take(0)) == outer(meaning(self@))->0) by {
                    assert(self@.take(0) =~= Seq::<u8>::empty());
                }
                lemma_first_meaning(self@, meaning(self@.take(0)), 0, 0);
            }
            return Some(self.prefix(0));
        }
        None
    }

    /// The first `len` bytes of the path.
    fn prefix(&self, len: usize) -> (r: UnixPath)
        requires
            len <= self@.len(),
        ensures
            r@ == self@.take(len as int),
    {
        let bytes = copy_range(&self.bytes, 0, len);
        assert(bytes@ =~= self@.take(len as int));
        UnixPath { bytes }
    }

    /// What follows the last dot of the file name, unless that dot is its first byte.
    pub fn extension(&self) -> (r: Option<Vec<u8>>)
        ensures
            r is Some <==> extension(self@) is Some,
            r matches Some(ext) ==> extension(self@) == Some(ext@),
    {
        match self.file_name() {
            Some(name) => {
                let n: usize = name.len();
                let mut i: usize = n;
                assert(name@.take(n as int) =~= name@);
                while i > 0 && name[i - 1] != DOT
                    invariant
                        n == name@.len(),
                        i <= n,
                        last_dot(name@.take(i as int)) == last_dot(name@),
                    decreases i,
                {
                    assert(name@.take(i as int).drop_last() =~= name@.take(i - 1));
                    i = i - 1;
                }
                if i > 1 {
                    let ext = copy_range(&name, i, n);
                    assert(ext@ =~= name@.skip(i as int));
                    Some(ext)
                } else {
                    None
                }
            },
            None => None,
        }
    }
}

/// Parts with a separator between each two of them.
pub open spec fn glued(parts: Seq<Seq<u8>>) -> Seq<u8>
    decreases parts.len(),
{
    if parts.len() == 0 {
        Seq::empty()
    } else if parts.len() == 1 {
        parts[0]
    } else {
        glued(parts.drop_last()).push(SEPARATOR) + parts.last()
    }
}

/// The last part of glued parts may grow.
proof fn lemma_glued_grows(parts: Seq<Seq<u8>>, b: u8)
    requires
        parts.len() > 0,
    ensures
        glued(parts.drop_last().push(parts.last().push(b))) == glued(parts).push(b),
{
    let more = parts.drop_last().push(parts.last().push(b));
    assert(more.drop_last() =~= parts.drop_last());
    assert(glued(more) =~= glued(parts).push(b));
}

/// A path is its segments with separators between them, and no segment holds a separator.
pub proof fn law_paths_are_glued_segments(path: Seq<u8>)
    ensures
        segments(path).len() > 0,
        glued(segments(path)) == path,
        forall|i: int|
            0 <= i < segments(path).len() ==> !(#[trigger] segments(path)[i]).contains(47u8),
    decreases path.len(),
{
    if path.len() == 0 {
        let parts = segments(path);
        assert(parts =~= seq![Seq::<u8>::empty()]);
        assert(glued(parts) =~= path);
    } else {
        let front = path.drop_last();
        law_paths_are_glued_segments(front);
        let parts = segments(front);
        let all = segments(path);
        assert(front.push(path.last()) =~= path);
        if path.last() == SEPARATOR {
            assert(all.drop_last() =~= parts);
            assert(glued(all) =~= path);
            assert forall|i: int| 0 <= i < all.len() implies !(#[trigger] all[i]).contains(
                47u8,
            ) by {
                if i < parts.len() {
                    assert(all[i] == parts[i]);
                }
            }
        } else {
            lemma_glued_grows(parts, path.last());
            assert forall|i: int| 0 <= i < all.len() implies !(#[trigger] all[i]).contains(
                47u8,
            ) by {
                if i < parts.len() - 1 {
                    assert(all[i] == parts[i]);
                } else {
                    assert(all[i] == parts.last().push(path.last()));
                    assert(!parts[parts.len() - 1].contains(47u8));
                    if all[i].contains(47u8) {
                        let k = choose|k: int| 0 <= k < all[i].len() && all[i][k] == 47u8;
                        if k < parts.last().len() {
                            assert(parts.last()[k] == 47u8);
                        }
                    }
                }
            }
        }
    }
}

/// The names in a path are its segments without the empty ones and the single dots.
pub proof fn law_names_are_the_other_segments(parts: Seq<Seq<u8>>)
    ensures
        named(parts) == parts.filter(|part: Seq<u8>| part.len() > 0 && part != seq![46u8]),
    decreases parts.len(),
{
    reveal(Seq::filter);
    if parts.len() > 0 {
        law_names_are_the_other_segments(parts.drop_last());
    }
}

/// The file name is the last name, unless that is `..`; an absolute path starts with a separator;
/// the file name is cut into what stands before its last dot and what follows, which is the
/// extension, where something stands before.
pub proof fn law_file_names_and_extensions(path: Seq<u8>)
    ensures
        is_absolute(path) <==> (path.len() > 0 && path[0] == 47u8),
        file_name(path) matches Some(name) ==> {
            &&& named(segments(path)).len() > 0
            &&& name == named(segments(path)).last()
            &&& name != seq![46u8, 46u8]
        },
        file_name(path) is None ==> named(segments(path)).len() == 0 || named(
            segments(path),
        ).last() == seq![46u8, 46u8],
        extension(path) matches Some(ext) ==> {
            let name = file_name(path)->0;
            &&& file_name(path) is Some
            &&& !ext.contains(46u8)
            &&& name.len() > ext.len() + 1
            &&& name[name.len() - ext.len() - 1] == 46u8
            &&& name.skip(name.len() - ext.len()) == ext
        },
        extension(path) is None ==> (file_name(path) matches Some(name) ==> forall|k: int|
            0 < k < name.len() ==> #[trigger] name[k] != 46u8),
{
    if let Some(name) = file_name(path) {
        lemma_last_dot_is_last(name);
        let dot = last_dot(name);
        if dot > 0 {
            let ext = name.skip(dot + 1);
            assert(name.skip(name.len() - ext.len()) =~= ext);
            if ext.contains(46u8) {
                let k = choose|k: int| 0 <= k < ext.len() && ext[k] == 46u8;
                assert(name[dot + 1 + k] == 46u8);
            }
        }
    }
}

/// At the last dot there is a dot, and behind it there is none.
proof fn lemma_last_dot_is_last(name: Seq<u8>)
    ensures
        -1 <= last_dot(name) < name.len(),
        last_dot(name) >= 0 ==> name[last_dot(name)] == 46u8,
        forall|k: int| last_dot(name) < k < name.len() && k >= 0 ==> #[trigger] name[k] != 46u8,
    decreases name.len(),
{
    if name.len() > 0 && name.last() != DOT {
        let front = name.drop_last();
        lemma_last_dot_is_last(front);
        assert forall|k: int| last_dot(name) < k < name.len() && k >= 0 implies #[trigger] name[k]
            != 46u8 by {
            if k < front.len() {
                assert(front[k] == name[k]);
            }
        }
    }
}

/// A path is taken relative to another by writing it behind, with one separator between them where
/// the first does not end in one; an absolute path is kept.
pub proof fn law_joining(base: Seq<u8>, path: Seq<u8>)
    ensures
        path.len() > 0 && path[0] == 47u8 ==> join(base, path) == path,
        !(path.len() > 0 && path[0] == 47u8) ==> {
            &&& base.is_prefix_of(join(base, path))
            &&& path.is_suffix_of(join(base, path))
            &&& base.len() > 0 && base.last() != 47u8 ==> join(base, path) == base + seq![47u8]
                + path
            &&& base.len() == 0 || base.last() == 47u8 ==> join(base, path) == base + path
        },
{
    if !(path.len() > 0 && path[0] == 47u8) {
        let joined = join(base, path);
        assert(joined.subrange(0, base.len() as int) =~= base);
        assert(joined.subrange(joined.len() - path.len(), joined.len() as int) =~= path);
        if base.len() > 0 && base.last() != 47u8 {
            assert(joined =~= base + seq![47u8] + path);
        }
    }
}

/// The parent of a path is the start of the path that has all of its names but the last, and no
/// shorter start has the same meaning.
pub proof fn law_parents_lack_the_last_name(path: Seq<u8>)
    requires
        names(path).len() > 0,
    ensures
        parent(path) is Some,
        parent(path)->0.is_prefix_of(path),
        names(parent(path)->0) == names(path).drop_last(),
        is_absolute(parent(path)->0) == is_absolute(path),
        forall|k: int|
            0 <= k < parent(path)->0.len() ==> meaning(#[trigger] path.take(k)) != meaning(
                parent(path)->0,
            ),
{
    let m = outer(meaning(path))->0;
    let at = lemma_outer_is_a_start(path);
    lemma_meaning_found(path, m, 0, at as nat);
    let n = first_meaning(path, m, 0) as int;
    lemma_first_meaning_bounds(path, m, 0);
    assert(parent(path)->0 == path.take(n));
    assert(path.subrange(0, n) =~= path.take(n));
}

/// Some start of a path has the meaning of the path without its last name.
proof fn lemma_outer_is_a_start(path: Seq<u8>) -> (at: int)
    requires
        names(path).len() > 0,
    ensures
        0 <= at <= path.len(),
        Some(meaning(path.take(at))) == outer(meaning(path)),
    decreases path.len(),
{
    let n = path.len() as int;
    let s = lemma_last_segment_start(path);
    lemma_names_window(path, s, n);
    assert(path.take(n) =~= path);
    if is_blank(path.subrange(s, n)) {
        lemma_blank_tail(path, s, n);
        let front = path.take(s);
        if s == n {
            assert(n > 0) by {
                if n == 0 {
                    lemma_empty_meaning();
                    assert(path =~= Seq::empty());
                }
            }
            let shorter = path.take(n - 1);
            lemma_segments_step(path, n - 1);
            lemma_segments_nonempty(shorter);
            assert(segments(path).drop_last() =~= segments(shorter));
            assert(names(shorter) == names(path));
            assert(shorter.len() > 0) by {
                if shorter.len() == 0 {
                    lemma_empty_meaning();
                    assert(shorter =~= Seq::empty());
                }
            }
            assert(meaning(shorter) == meaning(path));
            let at = lemma_outer_is_a_start(shorter);
            assert(shorter.take(at) =~= path.take(at));
            at
        } else {
            let at = lemma_outer_is_a_start(front);
            assert(front.take(at) =~= path.take(at));
            at
        }
    } else {
        lemma_before_last_name(path, s, n);
        s
    }
}

/// The shortest start of some meaning is not longer than the path, and no shorter one has it.
proof fn lemma_first_meaning_bounds(path: Seq<u8>, m: Meaning, from: nat)
    requires
        from <= path.len(),
    ensures
        from <= first_meaning(path, m, from) <= path.len(),
        forall|k: int|
            from <= k < first_meaning(path, m, from) ==> meaning(#[trigger] path.take(k)) != m,
    decreases path.len() - from,
{
    if from < path.len() && meaning(path.take(from as int)) != m {
        lemma_first_meaning_bounds(path, m, from + 1);
    }
}

/// Two paths mean the same exactly if both start with a separator or neither does, both have a
/// single dot for their first segment or neither does, and they have the same names.
pub proof fn law_paths_with_the_same_names_mean_the_same(a: Seq<u8>, b: Seq<u8>)
    ensures
        meaning(a) == meaning(b) <==> {
            &&& (a.len() > 0 && a[0] == 47u8) == (b.len() > 0 && b[0] == 47u8)
            &&& (segments(a)[0] == seq![46u8]) == (segments(b)[0] == seq![46u8])
            &&& named(segments(a)) == named(segments(b))
        },
{
}

/// A path without names has no parent, unless it starts with a single dot; then the parent is the
/// empty path.
pub proof fn law_parents_of_paths_without_names(path: Seq<u8>)
    requires
        named(segments(path)).len() == 0,
    ensures
        parent(path) is Some <==> segments(path)[0] == seq![46u8],
        parent(path) matches Some(dir) ==> dir.len() == 0,
{
    if segments(path)[0] == seq![46u8] {
        lemma_first_segment_starts(path);
        lemma_empty_meaning();
        let m = outer(meaning(path))->0;
        assert(path[0] == segments(path)[0][0]);
        assert(m.names =~= Seq::empty());
        assert(path.take(0) =~= Seq::empty());
        assert(meaning(path.take(0)) == m);
    }
}

/// A path starts with its first segment.
proof fn lemma_first_segment_starts(path: Seq<u8>)
    ensures
        segments(path).len() > 0,
        segments(path)[0].is_prefix_of(path),
    decreases path.len(),
{
    if path.len() > 0 {
        let front = path.drop_last();
        lemma_first_segment_starts(front);
        let first = segments(path)[0];
        if segments(front).len() == 1 && path.last() != SEPARATOR {
            law_paths_are_glued_segments(path);
            assert(segments(path) =~= seq![first]);
            assert(glued(segments(path)) =~= first);
            assert(path.subrange(0, first.len() as int) =~= first);
        } else {
            assert(first == segments(front)[0]);
            assert(path.subrange(0, first.len() as int) =~= front.subrange(
                0,
                first.len() as int,
            ));
        }
    }
}

} // verus!
