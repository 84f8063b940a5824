//! Unix paths as byte strings, with the component rules of `std::path` on Unix.
//!
//! A component is a run of bytes: `/` for the root, `.` for a leading current directory, `..`
//! for a parent directory, and any other name as it stands. Empty segments and every `.` but a
//! leading one are no components.

use crate::strings;
use vstd::prelude::*;

verus! {

/// The path separator.
pub const SLASH: u8 = 47;

/// The byte `.`.
pub const DOT: u8 = 46;

/// A path: any run of bytes, not necessarily UTF-8.
#[derive(Debug, PartialEq, Eq)]
pub struct UnixPath {
    pub bytes: Vec<u8>,
}

impl View for UnixPath {
    type V = Seq<u8>;

    open spec fn view(&self) -> Seq<u8> {
        self.bytes@
    }
}

impl Clone for UnixPath {
    fn clone(&self) -> (r: Self)
        ensures
            r@ == self@,
    {
        UnixPath { bytes: copy_bytes(&self.bytes) }
    }
}

/// A path that starts at the root.
pub open spec fn absolute(p: Seq<u8>) -> bool {
    p.len() > 0 && p[0] == SLASH
}

/// Where the segment that starts at `i` ends: at the next separator, or with the path.
pub open spec fn segment_end(p: Seq<u8>, i: int) -> int
    decreases p.len() - i,
{
    if i >= p.len() || p[i] == SLASH {
        i
    } else {
        segment_end(p, i + 1)
    }
}

/// Whether the segment from `i` to `e` is no component: an empty one, or a `.` that does not
/// stand at the very start.
pub open spec fn skipped(p: Seq<u8>, i: int, e: int) -> bool {
    e == i || (e == i + 1 && p[i] == DOT && i > 0)
}

/// Start and end of each component that starts at `i` or later.
pub open spec fn spans_from(p: Seq<u8>, i: int) -> Seq<(int, int)>
    decreases p.len() + 1 - i,
{
    if i >= p.len() {
        seq![]
    } else {
        let e = segment_end(p, i);
        if e < i || e > p.len() {
            seq![]
        } else if skipped(p, i, e) {
            spans_from(p, e + 1)
        } else {
            seq![(i, e)] + spans_from(p, e + 1)
        }
    }
}

/// Start and end of each component, in order.
pub open spec fn spans(p: Seq<u8>) -> Seq<(int, int)> {
    if absolute(p) {
        seq![(0int, 1int)] + spans_from(p, 1)
    } else {
        spans_from(p, 0)
    }
}

/// The components of `p`, in order.
pub open spec fn components(p: Seq<u8>) -> Seq<Seq<u8>> {
    spans(p).map_values(|s: (int, int)| p.subrange(s.0, s.1))
}

/// The component `/`.
pub open spec fn root_name() -> Seq<u8> {
    seq![SLASH]
}

/// The component `.`.
pub open spec fn current_dir_name() -> Seq<u8> {
    seq![DOT]
}

/// The component `..`.
pub open spec fn parent_dir_name() -> Seq<u8> {
    seq![DOT, DOT]
}

/// A component that names an entry of a directory.
pub open spec fn is_name(c: Seq<u8>) -> bool {
    c != root_name() && c != current_dir_name() && c != parent_dir_name()
}

/// A byte string that can stand as one component: not empty, without separators, not `.`.
pub open spec fn plain(n: Seq<u8>) -> bool {
    n.len() > 0 && n != current_dir_name() && forall|i: int|
        0 <= i < n.len() ==> #[trigger] n[i] != SLASH
}

/// `p` extended by `q`: an absolute `q` replaces `p`; otherwise `q` follows `p`, after a
/// separator unless `p` is empty or ends in one.
pub open spec fn join(p: Seq<u8>, q: Seq<u8>) -> Seq<u8> {
    if absolute(q) {
        q
    } else if p.len() > 0 && p.last() != SLASH {
        p.push(SLASH) + q
    } else {
        p + q
    }
}

/// `p` up to the end of the component before its last one. The empty path and the root have
/// no parent.
pub open spec fn parent(p: Seq<u8>) -> Option<Seq<u8>> {
    let s = spans(p);
    if s.len() == 0 || (s.len() == 1 && absolute(p)) {
        None
    } else if s.len() == 1 {
        Some(seq![])
    } else {
        Some(p.take(s[s.len() - 2].1))
    }
}

/// The last component, when it names an entry of a directory.
pub open spec fn file_name(p: Seq<u8>) -> Option<Seq<u8>> {
    let c = components(p);
    if c.len() > 0 && is_name(c.last()) {
        Some(c.last())
    } else {
        None
    }
}

/// The components of `q` are the first components of `p`.
pub open spec fn starts_with(p: Seq<u8>, q: Seq<u8>) -> bool {
    components(q).is_prefix_of(components(p))
}

/// The components of `q` are the last components of `p`.
pub open spec fn ends_with(p: Seq<u8>, q: Seq<u8>) -> bool {
    components(q).is_suffix_of(components(p))
}

/// Some component of `p` is `..`.
pub open spec fn has_parent_dir(p: Seq<u8>) -> bool {
    components(p).contains(parent_dir_name())
}

/// The text of a path, as `std::path::Path::display` shows it.
pub open spec fn shown(p: Seq<u8>) -> Seq<char> {
    strings::text_of_bytes(p)
}

/// What the `Debug` format of `std::path::Path` gives for a path with this text.
pub uninterp spec fn path_debug(s: Seq<char>) -> Seq<char>;

/// `format!` with the `Debug` format of `std::path::Path`, for a path given as text: the path
/// in quotes, with escapes. Which characters are escaped, and how, is left to the name.
#[verifier::external_body]
fn debug_of(s: &str) -> (r: String)
    ensures
        r@ == path_debug(s@),
{
    format!("{:?}", std::path::Path::new(s))
}

/// A path in quotes, as it appears in messages. Bytes that are not UTF-8 are replaced before
/// the path is quoted.
pub open spec fn quoted_path(p: Seq<u8>) -> Seq<char> {
    path_debug(shown(p))
}

/// The byte strings of a list of paths.
pub open spec fn path_views(v: Seq<UnixPath>) -> Seq<Seq<u8>> {
    v.map_values(|p: UnixPath| p@)
}

proof fn segment_end_bounds(p: Seq<u8>, i: int)
    requires
        0 <= i <= p.len(),
    ensures
        i <= segment_end(p, i) <= p.len(),
        segment_end(p, i) < p.len() ==> p[segment_end(p, i)] == SLASH,
        forall|k: int| i <= k < segment_end(p, i) ==> #[trigger] p[k] != SLASH,
    decreases p.len() - i,
{
    if i < p.len() && p[i] != SLASH {
        segment_end_bounds(p, i + 1);
    }
}

proof fn segment_end_is(p: Seq<u8>, i: int, e: int)
    requires
        0 <= i <= e <= p.len(),
        e < p.len() ==> p[e] == SLASH,
        forall|k: int| i <= k < e ==> #[trigger] p[k] != SLASH,
    ensures
        segment_end(p, i) == e,
    decreases e - i,
{
    if i < e {
        assert(p[i] != SLASH);
        segment_end_is(p, i + 1, e);
    }
}

/// Components are not empty, lie inside the path, and follow one another.
proof fn spans_from_ordered(p: Seq<u8>, i: int)
    requires
        0 <= i,
    ensures
        forall|k: int|
            0 <= k < spans_from(p, i).len() ==> i <= (#[trigger] spans_from(p, i)[k]).0
                < spans_from(p, i)[k].1 <= p.len(),
        forall|j: int, k: int|
            0 <= j < k < spans_from(p, i).len() ==> (#[trigger] spans_from(p, i)[j]).1 < (
            #[trigger] spans_from(p, i)[k]).0,
    decreases p.len() + 1 - i,
{
    if i < p.len() {
        segment_end_bounds(p, i);
        let e = segment_end(p, i);
        spans_from_ordered(p, e + 1);
        let t = spans_from(p, e + 1);
        if !skipped(p, i, e) {
            let s = spans_from(p, i);
            assert(s =~= seq![(i, e)] + t);
            assert forall|k: int| 0 <= k < s.len() implies i <= (#[trigger] s[k]).0 < s[k].1
                <= p.len() by {
                if k > 0 {
                    assert(s[k] == t[k - 1]);
                }
            }
            assert forall|j: int, k: int| 0 <= j < k < s.len() implies (#[trigger] s[j]).1 < (
            #[trigger] s[k]).0 by {
                assert(s[k] == t[k - 1]);
                if j > 0 {
                    assert(s[j] == t[j - 1]);
                }
            }
        }
    }
}

/// Components are not empty, lie inside the path, and follow one another.
pub proof fn spans_ordered(p: Seq<u8>)
    ensures
        forall|k: int|
            0 <= k < spans(p).len() ==> 0 <= (#[trigger] spans(p)[k]).0 < spans(p)[k].1
                <= p.len(),
        forall|j: int, k: int|
            0 <= j < k < spans(p).len() ==> (#[trigger] spans(p)[j]).1 <= (#[trigger] spans(
                p,
            )[k]).0,
{
    if absolute(p) {
        spans_from_ordered(p, 1);
        let t = spans_from(p, 1);
        let s = spans(p);
        assert forall|k: int| 0 <= k < s.len() implies 0 <= (#[trigger] s[k]).0 < s[k].1
            <= p.len() by {
            if k > 0 {
                assert(s[k] == t[k - 1]);
            }
        }
        assert forall|j: int, k: int| 0 <= j < k < s.len() implies (#[trigger] s[j]).1 <= (
        #[trigger] s[k]).0 by {
            assert(s[k] == t[k - 1]);
            if j > 0 {
                assert(s[j] == t[j - 1]);
            }
        }
    } else {
        spans_from_ordered(p, 0);
    }
}

/// A parent is shorter than the path.
pub proof fn parent_is_shorter(p: Seq<u8>)
    ensures
        parent(p) matches Some(q) ==> q.len() < p.len() && q == p.take(q.len() as int),
{
    spans_ordered(p);
    let s = spans(p);
    if s.len() >= 2 {
        let a = s[s.len() - 2];
        let b = s[s.len() - 1];
        assert(a.1 <= b.0);
    } else if s.len() == 1 {
        assert(s[0].1 <= p.len());
        assert(p.take(0) =~= seq![]);
    }
}

proof fn spans_from_prefix(p: Seq<u8>, e: int, i: int, n: int)
    requires
        0 <= i,
        0 <= n < spans_from(p, i).len(),
        e == spans_from(p, i)[n].1,
    ensures
        spans_from(p.take(e), i) == spans_from(p, i).take(n + 1),
    decreases p.len() + 1 - i,
{
    spans_from_ordered(p, i);
    let q = p.take(e);
    let s = spans_from(p, i);
    assert(i <= s[n].0 < s[n].1 <= p.len());
    segment_end_bounds(p, i);
    let f = segment_end(p, i);
    let t = spans_from(p, f + 1);
    if skipped(p, i, f) {
        spans_from_ordered(p, f + 1);
        assert(f + 1 <= s[n].0);
        segment_end_is(q, i, f);
        spans_from_prefix(p, e, f + 1, n);
        assert(q[i] == p[i]);
    } else {
        assert(s =~= seq![(i, f)] + t);
        if n == 0 {
            assert(e == f);
            segment_end_is(q, i, f);
            assert(spans_from(q, f + 1) =~= seq![]);
            assert(spans_from(q, i) =~= seq![(i, f)]);
            assert(s.take(1) =~= seq![(i, f)]);
        } else {
            assert(s[n] == t[n - 1]);
            assert(s[0].1 < s[n].0);
            segment_end_is(q, i, f);
            spans_from_prefix(p, e, f + 1, n - 1);
            assert(spans_from(q, i) =~= seq![(i, f)] + t.take(n));
            assert(s.take(n + 1) =~= seq![(i, f)] + t.take(n));
        }
    }
}

/// Cutting a path at the end of its `n`-th component leaves the components up to that one.
pub proof fn cut_keeps_components(p: Seq<u8>, n: int)
    requires
        0 <= n < spans(p).len(),
    ensures
        components(p.take(spans(p)[n].1)) == components(p).take(n + 1),
{
    spans_ordered(p);
    let e = spans(p)[n].1;
    let q = p.take(e);
    if absolute(p) {
        let t = spans_from(p, 1);
        if n == 0 {
            assert(spans_from(q, 1) =~= seq![]);
            assert(spans(q) =~= spans(p).take(1));
        } else {
            assert(spans(p)[n] == t[n - 1]);
            spans_from_ordered(p, 1);
            spans_from_prefix(p, e, 1, n - 1);
            assert(q[0] == p[0]);
            assert(spans(q) =~= spans(p).take(n + 1));
        }
    } else {
        assert(!absolute(q)) by {
            assert(q.len() > 0 ==> q[0] == p[0]);
        }
        spans_from_prefix(p, e, 0, n);
        assert(spans(q) =~= spans(p).take(n + 1));
    }
    let c = components(p).take(n + 1);
    assert forall|k: int| 0 <= k < c.len() implies components(q)[k] == #[trigger] c[k] by {
        let s = spans(p)[k];
        assert(spans(q)[k] == s);
        assert(s.1 <= e) by {
            if k < n {
                assert(spans(p)[k].1 <= spans(p)[n].0);
                assert(spans(p)[n].0 < spans(p)[n].1);
            }
        }
        assert(0 <= s.0 < s.1 <= e <= p.len());
        assert(q.subrange(s.0, s.1) =~= p.subrange(s.0, s.1));
    }
    assert(components(q) =~= c);
}

/// A parent has the components of the path but the last one.
pub proof fn parent_drops_last_component(p: Seq<u8>)
    ensures
        parent(p) matches Some(q) ==> components(p).len() > 0 && components(q) == components(
            p,
        ).drop_last(),
{
    let s = spans(p);
    if s.len() >= 2 {
        cut_keeps_components(p, s.len() - 2);
        assert(components(p).take(s.len() - 1) =~= components(p).drop_last());
    } else if s.len() == 1 {
        assert(components(Seq::<u8>::empty()) =~= components(p).drop_last());
    }
}

proof fn spans_from_append(p: Seq<u8>, s: Seq<u8>, b: int, i: int)
    requires
        0 <= i <= b,
        p.is_prefix_of(s),
        p.len() <= b < s.len(),
        b == p.len() || (b == p.len() + 1 && s[p.len() as int] == SLASH),
        b == p.len() ==> (p.len() == 0 || p.last() == SLASH),
        i <= p.len() || i == b,
        plain(s.skip(b)),
        p.len() > 0 ==> b > 0,
        i < p.len() && b == p.len() ==> p.last() == SLASH,
    ensures
        spans_from(s, i) == spans_from(p, i).push((b, s.len() as int)),
    decreases b - i,
{
    let n = s.skip(b);
    if i >= p.len() {
        assert(spans_from(p, i) =~= seq![]);
        if i == b {
            assert forall|k: int| b <= k < s.len() implies #[trigger] s[k] != SLASH by {
                assert(n[k - b] == s[k]);
            }
            segment_end_is(s, b, s.len() as int);
            assert(spans_from(s, s.len() as int + 1) =~= seq![]);
            if s.len() == b + 1 {
                assert(n =~= seq![s[b]]);
                assert(s[b] != DOT);
            }
            assert(spans_from(s, b) =~= seq![(b, s.len() as int)]);
        } else {
            assert(i == p.len() && b == i + 1);
            assert(segment_end(s, i) == i);
            spans_from_append(p, s, b, b);
            assert(spans_from(p, b) =~= seq![]);
        }
    } else {
        segment_end_bounds(p, i);
        let e = segment_end(p, i);
        assert forall|k: int| i <= k < e implies #[trigger] s[k] != SLASH by {
            assert(p[k] == s[k]);
        }
        if e == p.len() {
            assert(b == p.len() + 1) by {
                if b == p.len() {
                    assert(p[p.len() - 1] == SLASH);
                }
            }
        } else {
            assert(s[e] == p[e]);
        }
        segment_end_is(s, i, e);
        assert(s[i] == p[i]);
        spans_from_append(p, s, b, e + 1);
        if !skipped(p, i, e) {
            assert(spans_from(s, i) =~= spans_from(p, i).push((b, s.len() as int)));
        }
    }
}

/// Joining a plain name adds it as the last component.
pub proof fn join_adds_component(p: Seq<u8>, n: Seq<u8>)
    requires
        plain(n),
    ensures
        components(join(p, n)) == components(p).push(n),
{
    assert(n[0] != SLASH);
    let s = join(p, n);
    let b = if p.len() > 0 && p.last() != SLASH {
        p.len() as int + 1
    } else {
        p.len() as int
    };
    assert(s.skip(b) =~= n);
    assert(s.len() == b + n.len());
    assert(p =~= s.take(p.len() as int));
    if absolute(p) {
        assert(s[0] == p[0]);
        spans_from_append(p, s, b, 1);
        assert(spans(s) =~= spans(p).push((b, s.len() as int)));
    } else {
        if p.len() > 0 {
            assert(s[0] == p[0]);
        } else {
            assert(s[0] == n[0]);
        }
        spans_from_append(p, s, b, 0);
        assert(spans(s) =~= spans(p).push((b, s.len() as int)));
    }
    spans_ordered(p);
    assert forall|k: int| 0 <= k < components(p).len() implies components(s)[k] == #[trigger] components(
        p,
    )[k] by {
        let w = spans(p)[k];
        assert(spans(s)[k] == w);
        assert(0 <= w.0 < w.1 <= p.len());
        assert(s.subrange(w.0, w.1) =~= p.subrange(w.0, w.1));
    }
    assert(s.subrange(b, s.len() as int) =~= n);
    assert(components(s) =~= components(p).push(n));
}

/// The file name of a path joined with a name is that name.
pub proof fn file_name_of_join(p: Seq<u8>, n: Seq<u8>)
    requires
        plain(n),
        n != parent_dir_name(),
    ensures
        file_name(join(p, n)) == Some(n),
{
    join_adds_component(p, n);
    assert(n != root_name()) by {
        assert(n[0] != SLASH);
    }
}

/// A path joined with a name starts with the path.
pub proof fn join_starts_with(p: Seq<u8>, n: Seq<u8>)
    requires
        plain(n),
    ensures
        starts_with(join(p, n), p),
{
    join_adds_component(p, n);
    assert(components(p) =~= components(p).push(n).take(components(p).len() as int));
}

/// `starts_with` is transitive.
pub proof fn starts_with_trans(p: Seq<u8>, q: Seq<u8>, r: Seq<u8>)
    requires
        starts_with(p, q),
        starts_with(q, r),
    ensures
        starts_with(p, r),
{
    let a = components(p);
    let b = components(q);
    let c = components(r);
    assert(c =~= a.take(c.len() as int)) by {
        assert forall|k: int| 0 <= k < c.len() implies c[k] == a[k] by {
            assert(c[k] == b[k]);
            assert(b[k] == a[k]);
        }
    }
}

/// A non-empty run of ASCII characters without separators, other than `.`, encodes to a plain
/// name.
pub proof fn ascii_text_is_plain(s: Seq<char>)
    requires
        s.len() > 0,
        forall|i: int| 0 <= i < s.len() ==> '\0' <= #[trigger] s[i] <= '\u{7f}' && s[i] != '/',
        s.len() == 1 ==> s[0] != '.',
    ensures
        plain(vstd::utf8::encode_utf8(s)),
        vstd::utf8::encode_utf8(s).len() == s.len(),
        s.len() != 2 ==> vstd::utf8::encode_utf8(s) != parent_dir_name(),
{
    assert(vstd::utf8::is_ascii_chars(s));
    vstd::utf8::is_ascii_chars_encode_utf8(s);
    let b = vstd::utf8::encode_utf8(s);
    assert forall|i: int| 0 <= i < b.len() implies #[trigger] b[i] != SLASH by {
        assert(s[i] as u8 == b[i]);
        let c = s[i] as u32;
        assert(c != 47 && c < 128 ==> c as u8 != 47) by (bit_vector);
    }
    if b == current_dir_name() {
        assert(s[0] as u8 == b[0]);
        let c = s[0] as u32;
        assert(c != 46 && c < 128 ==> c as u8 != 46) by (bit_vector);
    }
}

/// Each component but the first is plain; the first one is plain, the root or `.`.
pub proof fn components_are_plain(p: Seq<u8>)
    ensures
        forall|k: int|
            0 <= k < components(p).len() ==> {
                ||| plain(#[trigger] components(p)[k])
                ||| k == 0 && (components(p)[k] == root_name() || components(p)[k]
                    == current_dir_name())
            },
{
    let from = if absolute(p) {
        1int
    } else {
        0int
    };
    spans_from_plain(p, from);
    spans_from_ordered(p, from);
    let t = spans_from(p, from);
    let c = components(p);
    assert forall|k: int| 0 <= k < c.len() implies {
        ||| plain(#[trigger] c[k])
        ||| k == 0 && (c[k] == root_name() || c[k] == current_dir_name())
    } by {
        if absolute(p) && k == 0 {
            assert(p.subrange(0, 1) =~= root_name());
        } else {
            let j = k - from;
            assert(spans(p)[k] == t[j]);
            let s = t[j];
            assert(from <= s.0 < s.1 <= p.len());
            assert(plain(p.subrange(s.0, s.1)) || s.0 == 0);
            if !plain(p.subrange(s.0, s.1)) {
                if j > 0 {
                    assert(t[0].1 < t[j].0);
                    assert(0 <= t[0].0 < t[0].1);
                }
                let w = p.subrange(s.0, s.1);
                assert forall|i: int| 0 <= i < w.len() implies #[trigger] w[i] != SLASH by {
                    assert(w[i] == p[s.0 + i]);
                }
                assert(w == current_dir_name());
            }
        }
    }
}

/// The root and `.` are paths of one component.
pub proof fn single_component(c: Seq<u8>)
    requires
        c == root_name() || c == current_dir_name(),
    ensures
        components(c) == seq![c],
{
    assert(spans_from(c, 1) =~= seq![]);
    assert(c.subrange(0, 1) =~= c);
    if c == root_name() {
        assert(spans(c) =~= seq![(0int, 1int)]);
    } else {
        segment_end_is(c, 0, 1);
        assert(spans_from(c, 2) =~= seq![]);
        assert(spans(c) =~= seq![(0int, 1int)]);
    }
    assert(components(c) =~= seq![c]);
}

proof fn spans_from_plain(p: Seq<u8>, i: int)
    requires
        0 <= i,
    ensures
        forall|k: int|
            0 <= k < spans_from(p, i).len() ==> {
                let s = #[trigger] spans_from(p, i)[k];
                &&& forall|j: int| s.0 <= j < s.1 ==> #[trigger] p[j] != SLASH
                &&& plain(p.subrange(s.0, s.1)) || s.0 == 0
            },
    decreases p.len() + 1 - i,
{
    if i < p.len() {
        segment_end_bounds(p, i);
        let e = segment_end(p, i);
        spans_from_plain(p, e + 1);
        let t = spans_from(p, e + 1);
        if !skipped(p, i, e) {
            let s = spans_from(p, i);
            assert(s =~= seq![(i, e)] + t);
            let w = p.subrange(i, e);
            assert forall|j: int| 0 <= j < w.len() implies #[trigger] w[j] != SLASH by {
                assert(w[j] == p[i + j]);
            }
            if i > 0 {
                assert(w != current_dir_name()) by {
                    if w == current_dir_name() {
                        assert(w[0] == p[i]);
                    }
                }
            }
            assert forall|k: int| 0 <= k < s.len() implies {
                let x = #[trigger] s[k];
                &&& forall|j: int| x.0 <= j < x.1 ==> #[trigger] p[j] != SLASH
                &&& plain(p.subrange(x.0, x.1)) || x.0 == 0
            } by {
                if k > 0 {
                    assert(s[k] == t[k - 1]);
                }
            }
        }
    }
}

/// A copy of `v`.
pub fn copy_bytes(v: &Vec<u8>) -> (r: Vec<u8>)
    ensures
        r@ == v@,
{
    sub_bytes(v, 0, v.len())
}

/// The bytes of `v` from `from` up to, not including, `to`.
pub fn sub_bytes(v: &Vec<u8>, from: usize, to: usize) -> (r: Vec<u8>)
    requires
        from <= to <= v.len(),
    ensures
        r@ == v@.subrange(from as int, to as int),
{
    let mut out: Vec<u8> = Vec::new();
    let mut i: usize = from;
    while i < to
        invariant
            from <= i <= to <= v.len(),
            out@ == v@.subrange(from as int, i as int),
        decreases to - i,
    {
        out.push(v[i]);
        assert(v@.subrange(from as int, i + 1) =~= v@.subrange(from as int, i as int).push(
            v@[i as int],
        ));
        i = i + 1;
    }
    out
}

/// Whether two byte strings are equal.
pub fn same_bytes(a: &Vec<u8>, b: &Vec<u8>) -> (r: bool)
    ensures
        r == (a@ == b@),
{
    if a.len() != b.len() {
        return false;
    }
    let mut i: usize = 0;
    while i < a.len()
        invariant
            a.len() == b.len(),
            i <= a.len(),
            forall|k: int| 0 <= k < i ==> a@[k] == b@[k],
        decreases a.len() - i,
    {
        if a[i] != b[i] {
            return false;
        }
        i = i + 1;
    }
    assert(a@ =~= b@);
    true
}

spec fn span_views(v: Seq<(usize, usize)>) -> Seq<(int, int)> {
    v.map_values(|s: (usize, usize)| (s.0 as int, s.1 as int))
}

impl UnixPath {
    /// The path with the bytes of `s`.
    pub fn from_text(s: &str) -> (r: UnixPath)
        ensures
            r@ == vstd::utf8::encode_utf8(s@),
    {
        UnixPath { bytes: strings::bytes_of(s) }
    }

    /// Whether the path has no bytes.
    pub fn is_empty(&self) -> (r: bool)
        ensures
            r == (self@.len() == 0),
    {
        self.bytes.len() == 0
    }

    /// Whether the path starts at the root.
    pub fn is_absolute(&self) -> (r: bool)
        ensures
            r == absolute(self@),
    {
        self.bytes.len() > 0 && self.bytes[0] == SLASH
    }

    /// The text of the path; bytes that are not UTF-8 are replaced.
    pub fn to_text(&self) -> (r: String)
        ensures
            r@ == shown(self@),
    {
        strings::lossy(&self.bytes)
    }

    /// The path in quotes; bytes that are not UTF-8 are replaced.
    pub fn quoted(&self) -> (r: String)
        ensures
            r@ == quoted_path(self@),
    {
        debug_of(self.to_text().as_str())
    }

    /// Whether two paths have the same bytes.
    pub fn same(&self, other: &UnixPath) -> (r: bool)
        ensures
            r == (self@ == other@),
    {
        same_bytes(&self.bytes, &other.bytes)
    }

    fn spans_exec(&self) -> (r: Vec<(usize, usize)>)
        ensures
            span_views(r@) == spans(self@),
    {
        let mut out: Vec<(usize, usize)> = Vec::new();
        let mut i: usize = 0;
        if self.is_absolute() {
            out.push((0, 1));
            i = 1;
        }
        assert(span_views(out@) + spans_from(self@, i as int) =~= spans(self@));
        while i < self.bytes.len()
            invariant
                i <= self.bytes.len(),
                span_views(out@) + spans_from(self@, i as int) == spans(self@),
            decreases self.bytes.len() - i,
        {
            let ghost before = span_views(out@);
            proof {
                segment_end_bounds(self@, i as int);
            }
            let mut e: usize = i;
            while e < self.bytes.len() && self.bytes[e] != SLASH
                invariant
                    i <= e <= self.bytes.len(),
                    segment_end(self@, i as int) == segment_end(self@, e as int),
                decreases self.bytes.len() - e,
            {
                e = e + 1;
            }
            let skip: bool = e == i || (e == i + 1 && self.bytes[i] == DOT && i > 0);
            if !skip {
                out.push((i, e));
                assert(span_views(out@) =~= before + seq![(i as int, e as int)]);
            }
            assert(span_views(out@) + spans_from(self@, e + 1) =~= spans(self@));
            if e < self.bytes.len() {
                i = e + 1;
            } else {
                assert(spans_from(self@, e + 1) =~= seq![]);
                assert(spans_from(self@, e as int) =~= seq![]);
                i = e;
            }
        }
        assert(spans_from(self@, i as int) =~= seq![]);
        assert(span_views(out@) + spans_from(self@, i as int) =~= span_views(out@));
        out
    }

    /// The components of the path, in order.
    pub fn components(&self) -> (r: Vec<UnixPath>)
        ensures
            path_views(r@) == components(self@),
    {
        let at: Vec<(usize, usize)> = self.spans_exec();
        let mut out: Vec<UnixPath> = Vec::new();
        let mut k: usize = 0;
        proof {
            spans_ordered(self@);
        }
        while k < at.len()
            invariant
                k <= at.len(),
                span_views(at@) == spans(self@),
                forall|j: int|
                    0 <= j < spans(self@).len() ==> 0 <= (#[trigger] spans(self@)[j]).0 < spans(
                        self@,
                    )[j].1 <= self@.len(),
                path_views(out@) == components(self@).take(k as int),
            decreases at.len() - k,
        {
            let ghost s = spans(self@)[k as int];
            assert(s == span_views(at@)[k as int]);
            let piece: UnixPath = UnixPath { bytes: sub_bytes(&self.bytes, at[k].0, at[k].1) };
            let ghost before = path_views(out@);
            out.push(piece);
            assert(path_views(out@) =~= before.push(components(self@)[k as int]));
            assert(components(self@).take(k + 1) =~= components(self@).take(k as int).push(
                components(self@)[k as int],
            ));
            k = k + 1;
        }
        assert(components(self@).take(k as int) =~= components(self@));
        out
    }

    /// The path extended by `other`; an absolute `other` replaces it.
    pub fn join(&self, other: &UnixPath) -> (r: UnixPath)
        ensures
            r@ == join(self@, other@),
    {
        if other.is_absolute() {
            return other.clone();
        }
        let mut bytes: Vec<u8> = copy_bytes(&self.bytes);
        if bytes.len() > 0 && bytes[bytes.len() - 1] != SLASH {
            bytes.push(SLASH);
        }
        let ghost head = bytes@;
        let mut i: usize = 0;
        while i < other.bytes.len()
            invariant
                i <= other.bytes.len(),
                bytes@ == head + other@.take(i as int),
            decreases other.bytes.len() - i,
        {
            bytes.push(other.bytes[i]);
            assert(other@.take(i + 1) =~= other@.take(i as int).push(other@[i as int]));
            i = i + 1;
        }
        assert(other@.take(i as int) =~= other@);
        UnixPath { bytes }
    }

    /// The path extended by the text `name`.
    pub fn join_text(&self, name: &str) -> (r: UnixPath)
        ensures
            r@ == join(self@, vstd::utf8::encode_utf8(name@)),
    {
        self.join(&UnixPath::from_text(name))
    }

    /// The path without its last component.
    pub fn parent(&self) -> (r: Option<UnixPath>)
        ensures
            r matches Some(q) ==> parent(self@) == Some(q@),
            r is None ==> parent(self@) is None,
    {
        let at: Vec<(usize, usize)> = self.spans_exec();
        assert(span_views(at@).len() == spans(self@).len());
        if at.len() == 0 || (at.len() == 1 && self.is_absolute()) {
            None
        } else if at.len() == 1 {
            let bytes: Vec<u8> = Vec::new();
            Some(UnixPath { bytes })
        } else {
            proof {
                spans_ordered(self@);
            }
            let ghost s = spans(self@)[at.len() - 2];
            assert(s == span_views(at@)[at.len() - 2]);
            let end: usize = at[at.len() - 2].1;
            assert(self@.take(end as int) =~= self@.subrange(0, end as int));
            Some(UnixPath { bytes: sub_bytes(&self.bytes, 0, end) })
        }
    }

    /// The last component, when it names an entry of a directory.
    pub fn file_name(&self) -> (r: Option<UnixPath>)
        ensures
            r matches Some(n) ==> file_name(self@) == Some(n@),
            r is None ==> file_name(self@) is None,
    {
        let parts: Vec<UnixPath> = self.components();
        assert(path_views(parts@).len() == components(self@).len());
        if parts.len() == 0 {
            return None;
        }
        let last: &UnixPath = &parts[parts.len() - 1];
        assert(last@ == path_views(parts@).last());
        let b: &Vec<u8> = &last.bytes;
        assert(last@ == root_name() <==> last@.len() == 1 && last@[0] == SLASH) by {
            if last@.len() == 1 && last@[0] == SLASH {
                assert(last@ =~= root_name());
            }
        }
        assert(last@ == current_dir_name() <==> last@.len() == 1 && last@[0] == DOT) by {
            if last@.len() == 1 && last@[0] == DOT {
                assert(last@ =~= current_dir_name());
            }
        }
        assert(last@ == parent_dir_name() <==> last@.len() == 2 && last@[0] == DOT && last@[1]
            == DOT) by {
            if last@.len() == 2 && last@[0] == DOT && last@[1] == DOT {
                assert(last@ =~= parent_dir_name());
            }
        }
        if (b.len() == 1 && (b[0] == SLASH || b[0] == DOT)) || (b.len() == 2 && b[0] == DOT
            && b[1] == DOT) {
            None
        } else {
            Some(last.clone())
        }
    }

    /// Whether some component is `..`.
    pub fn has_parent_dir(&self) -> (r: bool)
        ensures
            r == has_parent_dir(self@),
    {
        let parts: Vec<UnixPath> = self.components();
        let mut k: usize = 0;
        while k < parts.len()
            invariant
                k <= parts.len(),
                path_views(parts@) == components(self@),
                forall|j: int| 0 <= j < k ==> #[trigger] components(self@)[j] != parent_dir_name(),
            decreases parts.len() - k,
        {
            let b: &Vec<u8> = &parts[k].bytes;
            let ghost c = components(self@)[k as int];
            assert(c == path_views(parts@)[k as int]);
            if b.len() == 2 && b[0] == DOT && b[1] == DOT {
                assert(c =~= parent_dir_name());
                assert(components(self@).contains(c));
                return true;
            }
            k = k + 1;
        }
        assert(path_views(parts@).len() == parts.len());
        false
    }

    /// Whether the components of `base` are the first components of the path.
    pub fn starts_with(&self, base: &UnixPath) -> (r: bool)
        ensures
            r == starts_with(self@, base@),
    {
        let a: Vec<UnixPath> = self.components();
        let b: Vec<UnixPath> = base.components();
        assert(path_views(a@).len() == a.len());
        assert(path_views(b@).len() == b.len());
        if b.len() > a.len() {
            return false;
        }
        let mut k: usize = 0;
        while k < b.len()
            invariant
                k <= b.len() <= a.len(),
                path_views(a@) == components(self@),
                path_views(b@) == components(base@),
                path_views(b@).len() == b.len(),
                forall|j: int| 0 <= j < k ==> components(base@)[j] == #[trigger] components(self@)[j],
            decreases b.len() - k,
        {
            assert(components(self@)[k as int] == path_views(a@)[k as int]);
            assert(components(base@)[k as int] == path_views(b@)[k as int]);
            if !a[k].same(&b[k]) {
                return false;
            }
            k = k + 1;
        }
        assert(components(base@) =~= components(self@).take(components(base@).len() as int));
        true
    }

    /// Whether the components of `tail` are the last components of the path.
    pub fn ends_with(&self, tail: &UnixPath) -> (r: bool)
        ensures
            r == ends_with(self@, tail@),
    {
        let a: Vec<UnixPath> = self.components();
        let b: Vec<UnixPath> = tail.components();
        assert(path_views(a@).len() == a.len());
        assert(path_views(b@).len() == b.len());
        if b.len() > a.len() {
            return false;
        }
        let off: usize = a.len() - b.len();
        let mut k: usize = 0;
        while k < b.len()
            invariant
                k <= b.len() <= a.len(),
                off == a.len() - b.len(),
                path_views(a@) == components(self@),
                path_views(b@) == components(tail@),
                path_views(a@).len() == a.len(),
                path_views(b@).len() == b.len(),
                forall|j: int|
                    0 <= j < k ==> #[trigger] components(tail@)[j] == components(self@)[off + j],
            decreases b.len() - k,
        {
            assert(components(self@)[off + k] == path_views(a@)[off + k]);
            assert(components(tail@)[k as int] == path_views(b@)[k as int]);
            if !a[off + k].same(&b[k]) {
                return false;
            }
            k = k + 1;
        }
        assert(components(tail@) =~= components(self@).skip(off as int));
        true
    }
}

/// What the bytes of a path mean: a path is absolute when it begins with a slash; an absolute
/// path replaces what it is joined to, and any other follows it after exactly one slash.
pub proof fn slashes_and_joins(p: Seq<u8>, q: Seq<u8>)
    ensures
        absolute(p) <==> p.len() > 0 && p[0] == 47,
        q.len() > 0 && q[0] == 47 ==> join(p, q) == q,
        !(q.len() > 0 && q[0] == 47) && p.len() == 0 ==> join(p, q) == q,
        !(q.len() > 0 && q[0] == 47) && p.len() > 0 && p.last() == 47 ==> join(p, q) == p + q,
        !(q.len() > 0 && q[0] == 47) && p.len() > 0 && p.last() != 47 ==> join(p, q) == p + seq![
            47u8,
        ] + q,
{
    assert(p.push(47u8) + q =~= p + seq![47u8] + q);
    if p.len() == 0 {
        assert(p + q =~= q);
    }
}

/// The empty path and the root have no parent; every other path has one. A path has a file
/// name unless it has no components or ends in the root, `.` or `..`.
pub proof fn paths_with_parents_and_names(p: Seq<u8>)
    ensures
        parent(p) is None <==> components(p).len() == 0 || components(p) == seq![seq![47u8]],
        file_name(p) is Some <==> components(p).len() > 0 && components(p).last() != seq![47u8]
            && components(p).last() != seq![46u8] && components(p).last() != seq![46u8, 46u8],
        file_name(p) matches Some(n) ==> n == components(p).last(),
        has_parent_dir(p) <==> exists|i: int|
            0 <= i < components(p).len() && #[trigger] components(p)[i] == seq![46u8, 46u8],
{
    let c = components(p);
    let s = spans(p);
    assert(c.len() == s.len());
    if absolute(p) {
        assert(s[0] == (0int, 1int));
        assert(p.subrange(0, 1) =~= seq![47u8]);
        if s.len() == 1 {
            assert(c =~= seq![seq![47u8]]);
        }
    } else if s.len() == 1 && c == seq![seq![47u8]] {
        spans_from_plain(p, 0);
        spans_from_ordered(p, 0);
        let w = s[0];
        assert(c[0] == p.subrange(w.0, w.1));
        assert(c[0][0] == 47);
        assert(p[w.0] == 47);
        assert(p[w.0] != SLASH);
    }
    if exists|i: int| 0 <= i < c.len() && #[trigger] c[i] == seq![46u8, 46u8] {
        let i = choose|i: int| 0 <= i < c.len() && #[trigger] c[i] == seq![46u8, 46u8];
        assert(c[i] =~= parent_dir_name());
    }
}

/// A path starts with another when the components of that one come first among its own, and
/// ends with it when they come last.
pub proof fn starts_and_ends(p: Seq<u8>, q: Seq<u8>)
    ensures
        ({
            let a = components(p);
            let b = components(q);
            &&& starts_with(p, q) <==> b.len() <= a.len() && forall|i: int|
                0 <= i < b.len() ==> #[trigger] b[i] == a[i]
            &&& ends_with(p, q) <==> b.len() <= a.len() && forall|i: int|
                0 <= i < b.len() ==> #[trigger] b[i] == a[a.len() - b.len() + i]
        }),
{
    let a = components(p);
    let b = components(q);
    if b.len() <= a.len() {
        if forall|i: int| 0 <= i < b.len() ==> #[trigger] b[i] == a[i] {
            assert(b =~= a.subrange(0, b.len() as int));
        }
        if starts_with(p, q) {
            assert forall|i: int| 0 <= i < b.len() implies #[trigger] b[i] == a[i] by {
                assert(a.subrange(0, b.len() as int)[i] == a[i]);
            }
        }
        let n = a.len() - b.len();
        if forall|i: int| 0 <= i < b.len() ==> #[trigger] b[i] == a[a.len() - b.len() + i] {
            assert(b =~= a.subrange(n, a.len() as int));
        }
        if ends_with(p, q) {
            assert forall|i: int| 0 <= i < b.len() implies #[trigger] b[i] == a[a.len() - b.len()
                + i] by {
                assert(a.subrange(n, a.len() as int)[i] == a[n + i]);
            }
        }
    }
}

/// A path that was made from a text is shown as that text, and quoted as it.
pub proof fn texts_are_shown_as_they_are(s: Seq<char>)
    ensures
        shown(vstd::utf8::encode_utf8(s)) == s,
        quoted_path(vstd::utf8::encode_utf8(s)) == path_debug(s),
{
    strings::text_of_encoded(s);
}

} // verus!
