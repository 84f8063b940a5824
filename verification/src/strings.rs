//! Characters, words and lines: the small vocabulary every other module is stated in.

use vstd::prelude::*;
use vstd::string::*;

verus! {

/// `String::push` appends one character at the end.
pub assume_specification[ String::push ](s: &mut String, c: char)
    ensures
        final(s)@ == old(s)@.push(c),
;

/// The characters with the Unicode `White_Space` property.
pub open spec fn white_space(c: char) -> bool {
    ||| '\u{9}' <= c <= '\u{d}'
    ||| c == '\u{20}'
    ||| c == '\u{85}'
    ||| c == '\u{a0}'
    ||| c == '\u{1680}'
    ||| '\u{2000}' <= c <= '\u{200a}'
    ||| c == '\u{2028}'
    ||| c == '\u{2029}'
    ||| c == '\u{202f}'
    ||| c == '\u{205f}'
    ||| c == '\u{3000}'
}

/// Whether `c` has the Unicode `White_Space` property.
pub fn is_white_space(c: char) -> (r: bool)
    ensures
        r == white_space(c),
{
    ('\u{9}' <= c && c <= '\u{d}') || c == '\u{20}' || c == '\u{85}' || c == '\u{a0}' || c
        == '\u{1680}' || ('\u{2000}' <= c && c <= '\u{200a}') || c == '\u{2028}' || c == '\u{2029}'
        || c == '\u{202f}' || c == '\u{205f}' || c == '\u{3000}'
}

/// The characters of `s`, in order.
pub fn chars_of(s: &str) -> (r: Vec<char>)
    ensures
        r@ == s@,
{
    let mut out: Vec<char> = Vec::new();
    let mut it = s.chars();
    let ghost mut rest: Seq<char> = s@;
    loop
        invariant
            out@ + rest == s@,
            vstd::std_specs::iter::IteratorSpec::remaining(&it) == rest,
        ensures
            out@ == s@,
        decreases rest.len(),
    {
        match it.next() {
            Some(c) => {
                out.push(c);
                proof {
                    assert(out@ + rest.drop_first() =~= s@);
                    rest = rest.drop_first();
                }
            },
            None => {
                assert(out@ + rest =~= out@);
                break;
            },
        }
    }
    out
}

/// The string with the characters of `v`, in order.
pub fn string_of(v: &Vec<char>) -> (r: String)
    ensures
        r@ == v@,
{
    let mut out: String = String::new();
    let mut i: usize = 0;
    while i < v.len()
        invariant
            i <= v.len(),
            out@ == v@.take(i as int),
        decreases v.len() - i,
    {
        out.push(v[i]);
        assert(v@.take(i + 1) =~= v@.take(i as int).push(v@[i as int]));
        i = i + 1;
    }
    assert(v@.take(i as int) =~= v@);
    out
}

/// Whether two strings hold the same characters.
pub fn same(a: &str, b: &str) -> (r: bool)
    ensures
        r == (a@ == b@),
{
    let left: String = a.to_owned();
    let right: String = b.to_owned();
    left == right
}

/// The characters of `v` from position `from` up to, not including, `to`.
pub fn sub_chars(v: &Vec<char>, from: usize, to: usize) -> (r: Vec<char>)
    requires
        from <= to <= v.len(),
    ensures
        r@ == v@.subrange(from as int, to as int),
{
    let mut out: Vec<char> = Vec::new();
    let mut i: usize = from;
    while i < to
        invariant
            from <= i <= to <= v.len(),
            out@ == v@.subrange(from as int, i as int),
        decreases to - i,
    {
        out.push(v[i]);
        assert(v@.subrange(from as int, i + 1) =~= v@.subrange(from as int, i as int).push(
            v@[i as int],
        ));
        i = i + 1;
    }
    out
}

/// Whether two character lists are equal.
pub fn same_chars(a: &Vec<char>, b: &Vec<char>) -> (r: bool)
    ensures
        r == (a@ == b@),
{
    if a.len() != b.len() {
        return false;
    }
    let mut i: usize = 0;
    while i < a.len()
        invariant
            a.len() == b.len(),
            i <= a.len(),
            forall|k: int| 0 <= k < i ==> a@[k] == b@[k],
        decreases a.len() - i,
    {
        if a[i] != b[i] {
            return false;
        }
        i = i + 1;
    }
    assert(a@ =~= b@);
    true
}

/// `s` without its leading white space.
pub open spec fn trim_start(s: Seq<char>) -> Seq<char>
    decreases s.len(),
{
    if s.len() > 0 && white_space(s[0]) {
        trim_start(s.drop_first())
    } else {
        s
    }
}

/// `s` without its trailing white space.
pub open spec fn trim_end(s: Seq<char>) -> Seq<char>
    decreases s.len(),
{
    if s.len() > 0 && white_space(s.last()) {
        trim_end(s.drop_last())
    } else {
        s
    }
}

/// `s` without white space on either side.
pub open spec fn trim(s: Seq<char>) -> Seq<char> {
    trim_end(trim_start(s))
}

/// `s` consists of white space only.
pub open spec fn blank(s: Seq<char>) -> bool {
    forall|i: int| 0 <= i < s.len() ==> white_space(#[trigger] s[i])
}

/// The characters of `v` without white space on either side.
pub fn trim_chars(v: &Vec<char>) -> (r: Vec<char>)
    ensures
        r@ == trim(v@),
{
    let mut i: usize = 0;
    assert(v@.skip(0) =~= v@);
    while i < v.len() && is_white_space(v[i])
        invariant
            i <= v.len(),
            trim_start(v@.skip(i as int)) == trim_start(v@),
        decreases v.len() - i,
    {
        assert(v@.skip(i as int).drop_first() =~= v@.skip(i + 1));
        i = i + 1;
    }
    let mut j: usize = v.len();
    assert(v@.subrange(i as int, j as int) =~= v@.skip(i as int));
    while j > i && is_white_space(v[j - 1])
        invariant
            i <= j <= v.len(),
            trim_end(v@.subrange(i as int, j as int)) == trim_end(v@.skip(i as int)),
        decreases j,
    {
        assert(v@.subrange(i as int, j as int).drop_last() =~= v@.subrange(i as int, j - 1));
        j = j - 1;
    }
    sub_chars(v, i, j)
}

/// `s` without white space on either side.
pub fn trimmed(s: &str) -> (r: String)
    ensures
        r@ == trim(s@),
{
    string_of(&trim_chars(&chars_of(s)))
}

/// A string is blank exactly when nothing of it is left after trimming.
pub proof fn blank_iff_trim_empty(s: Seq<char>)
    ensures
        blank(s) <==> trim(s).len() == 0,
    decreases s.len(),
{
    if s.len() > 0 {
        if white_space(s[0]) {
            let t = s.drop_first();
            blank_iff_trim_empty(t);
            if blank(t) {
                assert forall|i: int| 0 <= i < s.len() implies white_space(#[trigger] s[i]) by {
                    if i > 0 {
                        assert(s[i] == t[i - 1]);
                    }
                }
            }
            if blank(s) {
                assert forall|i: int| 0 <= i < t.len() implies white_space(#[trigger] t[i]) by {
                    assert(t[i] == s[i + 1]);
                }
            }
        } else {
            trim_end_keeps_first(s);
        }
    }
}

/// Trimming the end keeps a first character that is not white space.
pub proof fn trim_end_keeps_first(s: Seq<char>)
    requires
        s.len() > 0,
        !white_space(s[0]),
    ensures
        trim_end(s).len() > 0,
        trim_end(s)[0] == s[0],
    decreases s.len(),
{
    if white_space(s.last()) {
        trim_end_keeps_first(s.drop_last());
    }
}

/// White space at the end of `b` is what trimming the end of `a + b` takes away, when `a` does
/// not end in white space.
pub proof fn trim_end_of_prefix(a: Seq<char>, b: Seq<char>)
    requires
        a.len() > 0,
        !white_space(a.last()),
    ensures
        trim_end(a + b) == a + trim_end(b),
    decreases b.len(),
{
    let s = a + b;
    if b.len() == 0 {
        assert(s =~= a);
        assert(a + trim_end(b) =~= a);
    } else if white_space(b.last()) {
        assert(s.drop_last() =~= a + b.drop_last());
        assert(s.last() == b.last());
        trim_end_of_prefix(a, b.drop_last());
    } else {
        assert(s.last() == b.last());
    }
}

/// Trimming the end first changes nothing of what trimming gives.
pub proof fn trim_of_trim_end(s: Seq<char>)
    ensures
        trim(trim_end(s)) == trim(s),
    decreases s.len(),
{
    if s.len() > 0 && white_space(s.last()) {
        let t = s.drop_last();
        trim_of_trim_end(t);
        trim_of_drop_last(s);
    } else {
        assert(trim_end(s) == s);
    }
}

/// White space at the end does not count in trimming.
pub proof fn trim_of_drop_last(s: Seq<char>)
    requires
        s.len() > 0,
        white_space(s.last()),
    ensures
        trim(s.drop_last()) == trim(s),
    decreases s.len(),
{
    let t = s.drop_last();
    if white_space(s[0]) {
        if s.len() > 1 {
            assert(t[0] == s[0]);
            assert(t.drop_first() =~= s.drop_first().drop_last());
            assert(s.drop_first().last() == s.last());
            trim_of_drop_last(s.drop_first());
        } else {
            assert(t =~= seq![]);
            assert(s.drop_first() =~= seq![]);
        }
    } else {
        assert(s.len() > 1);
        assert(t[0] == s[0]);
        assert(trim_start(s) == s);
        assert(trim_start(t) == t);
    }
}

/// The length of the longest prefix of `s` that does not hold `c`.
pub open spec fn run_without(s: Seq<char>, c: char) -> int
    decreases s.len(),
{
    if s.len() == 0 || s[0] == c {
        0
    } else {
        1 + run_without(s.drop_first(), c)
    }
}

/// `run_without` names the first occurrence of `c`, or the length when there is none.
pub proof fn run_without_is_first(s: Seq<char>, c: char)
    ensures
        0 <= run_without(s, c) <= s.len(),
        run_without(s, c) < s.len() ==> s[run_without(s, c)] == c,
        forall|i: int| 0 <= i < run_without(s, c) ==> #[trigger] s[i] != c,
        run_without(s, c) < s.len() <==> s.contains(c),
    decreases s.len(),
{
    if s.len() == 0 || s[0] == c {
        if s.len() > 0 {
            assert(s.contains(c));
        }
    } else {
        let t = s.drop_first();
        run_without_is_first(t, c);
        assert forall|i: int| 0 <= i < run_without(s, c) implies #[trigger] s[i] != c by {
            if i > 0 {
                assert(t[i - 1] == s[i]);
            }
        }
        if t.contains(c) {
            let k = choose|k: int| 0 <= k < t.len() && t[k] == c;
            assert(s[k + 1] == c);
        }
        if s.contains(c) {
            let k = choose|k: int| 0 <= k < s.len() && s[k] == c;
            assert(t[k - 1] == c);
        }
    }
}

/// The position of the first `c` in `v` at or after `from`, or the length of `v`.
pub fn find_from(v: &Vec<char>, from: usize, c: char) -> (r: usize)
    requires
        from <= v.len(),
    ensures
        from <= r <= v.len(),
        r == from + run_without(v@.skip(from as int), c),
{
    let mut i: usize = from;
    while i < v.len() && v[i] != c
        invariant
            from <= i <= v.len(),
            run_without(v@.skip(from as int), c) == i - from + run_without(v@.skip(i as int), c),
        decreases v.len() - i,
    {
        assert(v@.skip(i as int).drop_first() =~= v@.skip(i + 1));
        i = i + 1;
    }
    i
}

/// The pieces of `s` between occurrences of `sep`; one more piece than there are separators.
pub open spec fn split(s: Seq<char>, sep: char) -> Seq<Seq<char>>
    decreases s.len(),
{
    let n = run_without(s, sep);
    if 0 <= n < s.len() {
        seq![s.take(n)] + split(s.skip(n + 1), sep)
    } else {
        seq![s]
    }
}

/// The character lists of `v`, as mathematical sequences.
pub open spec fn views(v: Seq<Vec<char>>) -> Seq<Seq<char>> {
    v.map_values(|w: Vec<char>| w@)
}

/// The strings of `v`, as mathematical sequences.
pub open spec fn texts(v: Seq<String>) -> Seq<Seq<char>> {
    v.map_values(|w: String| w@)
}

/// The pieces of `v` between occurrences of `sep`.
pub fn split_chars(v: &Vec<char>, sep: char) -> (r: Vec<Vec<char>>)
    ensures
        views(r@) == split(v@, sep),
        r.len() > 0,
{
    let mut out: Vec<Vec<char>> = Vec::new();
    let mut i: usize = 0;
    assert(v@.skip(0) =~= v@);
    assert(views(out@) + split(v@.skip(0), sep) =~= split(v@, sep));
    loop
        invariant_except_break
            i <= v.len(),
            views(out@) + split(v@.skip(i as int), sep) == split(v@, sep),
        ensures
            views(out@) == split(v@, sep),
            out.len() > 0,
        decreases v.len() - i,
    {
        let n: usize = find_from(v, i, sep);
        let ghost s = v@.skip(i as int);
        let ghost before = views(out@);
        proof {
            run_without_is_first(s, sep);
            assert(s.take(n - i) =~= v@.subrange(i as int, n as int));
        }
        let piece: Vec<char> = sub_chars(v, i, n);
        out.push(piece);
        assert(views(out@) =~= before + seq![s.take(n - i)]);
        if n == v.len() {
            assert(s.take(n - i) =~= s);
            assert(views(out@) =~= before + split(s, sep));
            break;
        }
        assert(s.skip(n - i + 1) =~= v@.skip(n + 1));
        assert(views(out@) + split(v@.skip(n + 1), sep) =~= before + split(s, sep));
        i = n + 1;
    }
    out
}

/// A line without the carriage return that ends it, if there is one.
pub open spec fn strip_cr(s: Seq<char>) -> Seq<char> {
    if s.len() > 0 && s.last() == '\r' {
        s.drop_last()
    } else {
        s
    }
}

/// The lines of `s`: what stands before each line feed, without a carriage return right
/// before it, and what follows the last line feed unless that is empty.
pub open spec fn lines(s: Seq<char>) -> Seq<Seq<char>>
    decreases s.len(),
{
    let n = run_without(s, '\n');
    if s.len() == 0 {
        seq![]
    } else if 0 <= n < s.len() {
        seq![strip_cr(s.take(n))] + lines(s.skip(n + 1))
    } else {
        seq![s]
    }
}

/// The lines of `v`.
pub fn lines_of(v: &Vec<char>) -> (r: Vec<Vec<char>>)
    ensures
        views(r@) == lines(v@),
{
    let mut out: Vec<Vec<char>> = Vec::new();
    let mut i: usize = 0;
    assert(v@.skip(0) =~= v@);
    assert(views(out@) + lines(v@.skip(0)) =~= lines(v@));
    while i < v.len()
        invariant
            i <= v.len(),
            views(out@) + lines(v@.skip(i as int)) == lines(v@),
        decreases v.len() - i,
    {
        let n: usize = find_from(v, i, '\n');
        let ghost s = v@.skip(i as int);
        let ghost before = views(out@);
        proof {
            run_without_is_first(s, '\n');
            assert(s.take(n - i) =~= v@.subrange(i as int, n as int));
        }
        if n == v.len() {
            out.push(sub_chars(v, i, n));
            assert(s.take(n - i) =~= s);
            assert(v@.skip(n as int) =~= Seq::<char>::empty());
            assert(views(out@) + lines(v@.skip(n as int)) =~= before + lines(s));
            i = n;
        } else {
            let end: usize = if n > i && v[n - 1] == '\r' {
                n - 1
            } else {
                n
            };
            out.push(sub_chars(v, i, end));
            assert(strip_cr(s.take(n - i)) =~= v@.subrange(i as int, end as int));
            assert(s.skip(n - i + 1) =~= v@.skip(n + 1));
            assert(views(out@) + lines(v@.skip(n + 1)) =~= before + lines(s));
            i = n + 1;
        }
    }
    assert(v@.skip(i as int) =~= Seq::<char>::empty());
    assert(views(out@) + lines(v@.skip(i as int)) =~= views(out@));
    out
}

/// The length of the longest prefix of `s` without white space.
pub open spec fn word_len(s: Seq<char>) -> int
    decreases s.len(),
{
    if s.len() == 0 || white_space(s[0]) {
        0
    } else {
        1 + word_len(s.drop_first())
    }
}

/// The maximal runs of characters of `s` that are not white space, in order.
pub open spec fn words(s: Seq<char>) -> Seq<Seq<char>>
    decreases s.len(),
{
    if s.len() == 0 {
        seq![]
    } else if white_space(s[0]) {
        words(s.drop_first())
    } else {
        let n = word_len(s);
        if 0 < n <= s.len() {
            seq![s.take(n)] + words(s.skip(n))
        } else {
            seq![]
        }
    }
}

/// `word_len` names the first white space of `s`, or its length.
pub proof fn word_len_is_first(s: Seq<char>)
    ensures
        0 <= word_len(s) <= s.len(),
        s.len() > 0 && !white_space(s[0]) ==> word_len(s) > 0,
        word_len(s) < s.len() ==> white_space(s[word_len(s)]),
        forall|i: int| 0 <= i < word_len(s) ==> !white_space(#[trigger] s[i]),
    decreases s.len(),
{
    if s.len() > 0 && !white_space(s[0]) {
        let t = s.drop_first();
        word_len_is_first(t);
        assert forall|i: int| 0 <= i < word_len(s) implies !white_space(#[trigger] s[i]) by {
            if i > 0 {
                assert(t[i - 1] == s[i]);
            }
        }
    }
}

/// The words of `v`, in order.
pub fn words_of(v: &Vec<char>) -> (r: Vec<Vec<char>>)
    ensures
        views(r@) == words(v@),
{
    let mut out: Vec<Vec<char>> = Vec::new();
    let mut i: usize = 0;
    assert(v@.skip(0) =~= v@);
    assert(views(out@) + words(v@.skip(0)) =~= words(v@));
    while i < v.len()
        invariant
            i <= v.len(),
            views(out@) + words(v@.skip(i as int)) == words(v@),
        decreases v.len() - i,
    {
        let ghost s = v@.skip(i as int);
        if is_white_space(v[i]) {
            assert(s.drop_first() =~= v@.skip(i + 1));
            i = i + 1;
        } else {
            let ghost before = views(out@);
            let mut j: usize = i;
            while j < v.len() && !is_white_space(v[j])
                invariant
                    i <= j <= v.len(),
                    word_len(v@.skip(i as int)) == j - i + word_len(v@.skip(j as int)),
                decreases v.len() - j,
            {
                assert(v@.skip(j as int).drop_first() =~= v@.skip(j + 1));
                j = j + 1;
            }
            proof {
                word_len_is_first(s);
                assert(s.take(j - i) =~= v@.subrange(i as int, j as int));
                assert(s.skip(j - i) =~= v@.skip(j as int));
            }
            out.push(sub_chars(v, i, j));
            assert(views(out@) + words(v@.skip(j as int)) =~= before + words(s));
            i = j;
        }
    }
    assert(v@.skip(i as int) =~= Seq::<char>::empty());
    assert(views(out@) + words(v@.skip(i as int)) =~= views(out@));
    out
}

/// The lower-case counterpart of an ASCII capital; every other character unchanged.
pub open spec fn ascii_lower(c: char) -> char {
    if 'A' <= c <= 'Z' {
        (c as u32 + 32) as char
    } else {
        c
    }
}

/// `s` with each ASCII capital in lower case.
pub open spec fn ascii_lowercase(s: Seq<char>) -> Seq<char> {
    s.map_values(|c: char| ascii_lower(c))
}

/// The lower-case counterpart of an ASCII capital; every other character unchanged.
pub fn to_ascii_lower(c: char) -> (r: char)
    ensures
        r == ascii_lower(c),
{
    if 'A' <= c && c <= 'Z' {
        let n: u8 = c as u8;
        (n + 32) as char
    } else {
        c
    }
}

/// The characters of `v` with each ASCII capital in lower case.
pub fn lower_chars(v: &Vec<char>) -> (r: Vec<char>)
    ensures
        r@ == ascii_lowercase(v@),
{
    let mut out: Vec<char> = Vec::new();
    let mut i: usize = 0;
    while i < v.len()
        invariant
            i <= v.len(),
            out@ == ascii_lowercase(v@.take(i as int)),
        decreases v.len() - i,
    {
        out.push(to_ascii_lower(v[i]));
        assert(v@.take(i + 1) =~= v@.take(i as int).push(v@[i as int]));
        i = i + 1;
    }
    assert(v@.take(i as int) =~= v@);
    out
}

/// Whether `v` begins with the characters of `prefix`.
pub fn starts_with(v: &Vec<char>, prefix: &str) -> (r: bool)
    ensures
        r == prefix@.is_prefix_of(v@),
{
    let p: Vec<char> = chars_of(prefix);
    if p.len() > v.len() {
        return false;
    }
    let head: Vec<char> = sub_chars(v, 0, p.len());
    assert(prefix@.is_prefix_of(v@) <==> prefix@ =~= v@.subrange(0, prefix@.len() as int));
    same_chars(&p, &head)
}

/// Whether `v` holds exactly the characters of `s`.
pub fn chars_are(v: &Vec<char>, s: &str) -> (r: bool)
    ensures
        r == (v@ == s@),
{
    same_chars(v, &chars_of(s))
}

/// The position of the first `true`.
pub open spec fn first_true(links: Seq<bool>) -> Option<int>
    decreases links.len(),
{
    if links.len() == 0 {
        None
    } else {
        match first_true(links.drop_last()) {
            Some(i) => Some(i),
            None => if links.last() {
                Some(links.len() - 1)
            } else {
                None
            },
        }
    }
}

/// `first_true` names a `true` with none before it, when there is one.
pub proof fn first_true_is_first(links: Seq<bool>)
    ensures
        first_true(links) matches Some(i) ==> 0 <= i < links.len() && links[i] && forall|j: int|
            0 <= j < i ==> !#[trigger] links[j],
        first_true(links) is None ==> forall|j: int| 0 <= j < links.len() ==> !#[trigger] links[j],
    decreases links.len(),
{
    if links.len() > 0 {
        let t = links.drop_last();
        first_true_is_first(t);
        if first_true(t) is None {
            assert forall|j: int| 0 <= j < links.len() - 1 implies !#[trigger] links[j] by {
                assert(t[j] == links[j]);
            }
        } else {
            let i = first_true(t).unwrap();
            assert forall|j: int| 0 <= j < i implies !#[trigger] links[j] by {
                assert(t[j] == links[j]);
            }
        }
    }
}

/// What follows the first `true` does not change its position.
pub proof fn first_true_extends(links: Seq<bool>, n: int)
    requires
        0 <= n <= links.len(),
        first_true(links.take(n)) is Some,
    ensures
        first_true(links) == first_true(links.take(n)),
    decreases links.len() - n,
{
    if n < links.len() {
        assert(links.take(n + 1).drop_last() =~= links.take(n));
        first_true_extends(links, n + 1);
    } else {
        assert(links.take(n) =~= links);
    }
}

/// `a` followed by `b`.
pub fn cat(a: &str, b: &str) -> (r: String)
    ensures
        r@ == a@ + b@,
{
    let mut out: String = a.to_owned();
    out.append(b);
    out
}

/// The digit with value `d`.
pub open spec fn digit(d: int) -> char {
    (d + 48) as char
}

/// `n` written in `base`, most significant digit first, without leading zeros.
pub open spec fn numeral(n: nat, base: nat) -> Seq<char>
    decreases n,
{
    if base < 2 {
        seq![]
    } else if n < base {
        seq![digit(n as int)]
    } else {
        proof {
            assert(n / base < n) by (nonlinear_arith)
                requires
                    n >= base,
                    base >= 2,
            ;
        }
        numeral(n / base, base).push(digit((n % base) as int))
    }
}

/// `n` in decimal.
pub open spec fn decimal(n: nat) -> Seq<char> {
    numeral(n, 10)
}

/// `n` in octal.
pub open spec fn octal(n: nat) -> Seq<char> {
    numeral(n, 8)
}

fn numeral_chars(n: u64, base: u64) -> (r: Vec<char>)
    requires
        2 <= base <= 10,
    ensures
        r@ == numeral(n as nat, base as nat),
    decreases n,
{
    if n < base {
        let d: u8 = (n as u8) + 48;
        let mut out: Vec<char> = Vec::new();
        out.push(d as char);
        assert(out@ =~= seq![digit(n as int)]);
        out
    } else {
        assert(n / base < n) by (nonlinear_arith)
            requires
                n >= base,
                base >= 2,
        ;
        assert(n % base < base) by (nonlinear_arith)
            requires
                base >= 2,
        ;
        let mut out: Vec<char> = numeral_chars(n / base, base);
        let d: u8 = ((n % base) as u8) + 48;
        out.push(d as char);
        out
    }
}

/// `n` written in decimal.
pub fn decimal_of(n: u64) -> (r: String)
    ensures
        r@ == decimal(n as nat),
{
    string_of(&numeral_chars(n, 10))
}

/// `n` written in octal.
pub fn octal_of(n: u64) -> (r: String)
    ensures
        r@ == octal(n as nat),
{
    string_of(&numeral_chars(n, 8))
}

/// A character that is a decimal digit.
pub open spec fn is_digit(c: char) -> bool {
    '0' <= c <= '9'
}

/// The value of a run of decimal digits.
pub open spec fn decimal_value(s: Seq<char>) -> nat
    decreases s.len(),
{
    if s.len() == 0 {
        0
    } else {
        10 * decimal_value(s.drop_last()) + (s.last() as u32 - 48) as nat
    }
}

/// `s` holds decimal digits only.
pub open spec fn all_digits(s: Seq<char>) -> bool {
    forall|i: int| 0 <= i < s.len() ==> is_digit(#[trigger] s[i])
}

/// `s` without the plus sign that it may start with.
pub open spec fn after_plus(s: Seq<char>) -> Seq<char> {
    if s.len() > 0 && s[0] == '+' {
        s.drop_first()
    } else {
        s
    }
}

/// What a run of characters denotes as an unsigned number no larger than `max`: an optional
/// plus sign, then one or more decimal digits.
pub open spec fn parse_unsigned(s: Seq<char>, max: nat) -> Option<nat> {
    let d = after_plus(s);
    if d.len() > 0 && all_digits(d) && decimal_value(d) <= max {
        Some(decimal_value(d))
    } else {
        None
    }
}

/// The unsigned number that `v` denotes, when it fits 32 bits.
pub fn parse_u32(v: &Vec<char>) -> (r: Option<u32>)
    ensures
        r matches Some(n) ==> parse_unsigned(v@, u32::MAX as nat) == Some(n as nat),
        r is None ==> parse_unsigned(v@, u32::MAX as nat) is None,
{
    let start: usize = if v.len() > 0 && v[0] == '+' {
        1
    } else {
        0
    };
    let ghost d = after_plus(v@);
    assert(d =~= v@.skip(start as int));
    if start == v.len() {
        return None;
    }
    let mut i: usize = start;
    let mut n: u64 = 0;
    let mut over: bool = false;
    while i < v.len()
        invariant
            start <= i <= v.len(),
            d == v@.skip(start as int),
            d == after_plus(v@),
            forall|k: int| 0 <= k < i - start ==> is_digit(#[trigger] d[k]),
            n <= u32::MAX,
            !over ==> n == decimal_value(d.take(i - start)),
            over ==> decimal_value(d.take(i - start)) > u32::MAX,
        decreases v.len() - i,
    {
        let c: char = v[i];
        assert(c == d[i - start]);
        if !('0' <= c && c <= '9') {
            assert(!is_digit(d[i - start]));
            return None;
        }
        let ghost t = d.take(i - start + 1);
        assert(t.drop_last() =~= d.take(i - start));
        if !over {
            let m: u64 = n * 10 + ((c as u8 - 48) as u64);
            if m > 4294967295 {
                over = true;
            } else {
                n = m;
            }
        }
        i = i + 1;
    }
    assert(d.take(i - start) =~= d);
    if over {
        None
    } else {
        Some(n as u32)
    }
}

/// What `String::from_utf8_lossy` makes of a run of bytes that is not UTF-8.
pub uninterp spec fn utf8_lossy(bytes: Seq<u8>) -> Seq<char>;

/// The text of a run of bytes: UTF-8 is decoded; for anything else the text is the one that
/// `String::from_utf8_lossy` gives.
pub open spec fn text_of_bytes(bytes: Seq<u8>) -> Seq<char> {
    if vstd::utf8::valid_utf8(bytes) {
        vstd::utf8::decode_utf8(bytes)
    } else {
        utf8_lossy(bytes)
    }
}

/// `String::from_utf8_lossy`: the bytes as text. Valid UTF-8 is decoded as it stands; what is
/// put in the place of invalid bytes is left to the name.
#[verifier::external_body]
pub(crate) fn lossy(bytes: &Vec<u8>) -> (r: String)
    ensures
        vstd::utf8::valid_utf8(bytes@) ==> r@ == vstd::utf8::decode_utf8(bytes@),
        !vstd::utf8::valid_utf8(bytes@) ==> r@ == utf8_lossy(bytes@),
{
    String::from_utf8_lossy(bytes).into_owned()
}

/// The text of bytes that encode a text is that text.
pub proof fn text_of_encoded(s: Seq<char>)
    ensures
        text_of_bytes(vstd::utf8::encode_utf8(s)) == s,
{
    vstd::utf8::encode_utf8_valid_utf8(s);
    vstd::utf8::encode_utf8_decode_utf8(s);
}

/// `std::str::from_utf8`: the text that the bytes encode, exactly when they are UTF-8.
#[verifier::external_body]
pub(crate) fn utf8_text(bytes: &Vec<u8>) -> (r: Option<String>)
    ensures
        r is Some <==> vstd::utf8::valid_utf8(bytes@),
        r matches Some(s) ==> s@ == vstd::utf8::decode_utf8(bytes@),
{
    match std::str::from_utf8(bytes) {
        Ok(s) => Some(s.to_owned()),
        Err(_) => None,
    }
}

/// What the `Debug` format of a string gives.
pub uninterp spec fn debug_text(s: Seq<char>) -> Seq<char>;

/// Characters that stand for themselves in the `Debug` format of a string.
pub open spec fn printable(s: Seq<char>) -> bool {
    forall|i: int| 0 <= i < s.len() ==> ' ' <= #[trigger] s[i] <= '~' && s[i] != '"' && s[i] != '\\'
}

/// `format!` with the `Debug` format of `str`: the text in double quotes, with escapes.
/// Printable ASCII other than the quote and the backslash stands as it is; how other
/// characters are escaped is left to the name.
#[verifier::external_body]
pub(crate) fn quoted(s: &str) -> (r: String)
    ensures
        r@ == debug_text(s@),
        printable(s@) ==> r@ == seq!['"'] + s@ + seq!['"'],
{
    format!("{:?}", s)
}

/// The UTF-8 bytes of `s`.
pub fn bytes_of(s: &str) -> (r: Vec<u8>)
    ensures
        r@ == vstd::utf8::encode_utf8(s@),
{
    let b = s.as_bytes();
    let mut out: Vec<u8> = Vec::new();
    let mut i: usize = 0;
    while i < b.len()
        invariant
            i <= b.len(),
            out@ == b@.take(i as int),
        decreases b.len() - i,
    {
        out.push(b[i]);
        assert(b@.take(i + 1) =~= b@.take(i as int).push(b@[i as int]));
        i = i + 1;
    }
    assert(b@.take(i as int) =~= b@);
    out
}

/// White space is what Unicode counts as such: the space, the tab and the characters that
/// break lines or pages, and the wider and narrower spaces beyond ASCII.
pub proof fn white_space_characters(c: char)
    ensures
        c as int <= 127 ==> (white_space(c) <==> c == ' ' || 9 <= c as int <= 13),
        c as int > 127 ==> (white_space(c) <==> c as int == 0x85 || c as int == 0xa0 || c as int
            == 0x1680 || 0x2000 <= c as int <= 0x200a || c as int == 0x2028 || c as int == 0x2029
            || c as int == 0x202f || c as int == 0x205f || c as int == 0x3000),
{
}

proof fn trim_start_is(s: Seq<char>) -> (a: int)
    ensures
        0 <= a <= s.len(),
        trim_start(s) == s.skip(a),
        forall|i: int| 0 <= i < a ==> white_space(#[trigger] s[i]),
        a < s.len() ==> !white_space(s[a]),
    decreases s.len(),
{
    if s.len() > 0 && white_space(s[0]) {
        let t = s.drop_first();
        let b = trim_start_is(t);
        assert(t.skip(b) =~= s.skip(b + 1));
        assert forall|i: int| 0 <= i < b + 1 implies white_space(#[trigger] s[i]) by {
            if i > 0 {
                assert(t[i - 1] == s[i]);
            }
        }
        b + 1
    } else {
        assert(s.skip(0) =~= s);
        0
    }
}

proof fn trim_end_is(s: Seq<char>) -> (b: int)
    ensures
        0 <= b <= s.len(),
        trim_end(s) == s.take(b),
        forall|i: int| b <= i < s.len() ==> white_space(#[trigger] s[i]),
        b > 0 ==> !white_space(s[b - 1]),
    decreases s.len(),
{
    if s.len() > 0 && white_space(s.last()) {
        let t = s.drop_last();
        let b = trim_end_is(t);
        assert(t.take(b) =~= s.take(b));
        assert forall|i: int| b <= i < s.len() implies white_space(#[trigger] s[i]) by {
            if i < t.len() {
                assert(t[i] == s[i]);
            }
        }
        b
    } else {
        assert(s.take(s.len() as int) =~= s);
        s.len() as int
    }
}

/// Trimming takes white space off both ends and nothing else: what is left is the part of `s`
/// from `ends.0` up to `ends.1`, which neither begins nor ends with white space, and everything
/// around it is white space.
pub proof fn trim_takes_white_space_off(s: Seq<char>) -> (ends: (int, int))
    ensures
        0 <= ends.0 <= ends.1 <= s.len(),
        trim(s) == s.subrange(ends.0, ends.1),
        forall|i: int| 0 <= i < ends.0 || ends.1 <= i < s.len() ==> white_space(#[trigger] s[i]),
        ends.0 < ends.1 ==> !white_space(s[ends.0]) && !white_space(s[ends.1 - 1]),
{
    let a = trim_start_is(s);
    let t = s.skip(a);
    let b = trim_end_is(t);
    assert(t.take(b) =~= s.subrange(a, a + b));
    assert forall|i: int| 0 <= i < a || a + b <= i < s.len() implies white_space(
        #[trigger] s[i],
    ) by {
        if i >= a + b {
            assert(t[i - a] == s[i]);
        }
    }
    if b > 0 {
        assert(t[b - 1] == s[a + b - 1]);
        if a < s.len() {
            assert(t[0] == s[a]);
        }
    }
    (a, a + b)
}

/// In a text that continues behind `c`, the longest prefix without `c` ends there.
pub proof fn run_up_to(a: Seq<char>, c: char, b: Seq<char>)
    requires
        !a.contains(c),
    ensures
        run_without(a.push(c) + b, c) == a.len(),
        (a.push(c) + b).take(a.len() as int) == a,
        (a.push(c) + b).skip(a.len() as int + 1) == b,
{
    let s = a.push(c) + b;
    let n = run_without(s, c);
    run_without_is_first(s, c);
    assert(s[a.len() as int] == c);
    assert(s.contains(c));
    if n < a.len() {
        assert(a[n] == s[n]);
        assert(a.contains(c));
    }
    if n > a.len() {
        assert(s[a.len() as int] != c);
    }
    assert(s.take(a.len() as int) =~= a);
    assert(s.skip(a.len() as int + 1) =~= b);
}

/// Splitting cuts at each separator: what stands before the first one is the first piece, and
/// the rest is split in turn. A text without a separator is one piece, the empty text too.
pub proof fn split_cuts_at_separators(a: Seq<char>, sep: char, b: Seq<char>)
    requires
        !a.contains(sep),
    ensures
        split(a, sep) == seq![a],
        split(a.push(sep) + b, sep) == seq![a] + split(b, sep),
{
    run_without_is_first(a, sep);
    run_up_to(a, sep, b);
}

/// Lines end at each line feed, and a carriage return right before it belongs to the end of the
/// line. What follows the last line feed is a line unless it is empty.
pub proof fn lines_end_at_line_feeds(a: Seq<char>, b: Seq<char>)
    requires
        !a.contains('\n'),
    ensures
        lines(Seq::<char>::empty()).len() == 0,
        a.len() > 0 ==> lines(a) == seq![a],
        a.len() > 0 && a.last() == '\r' ==> lines(a.push('\n') + b) == seq![a.drop_last()] + lines(
            b,
        ),
        !(a.len() > 0 && a.last() == '\r') ==> lines(a.push('\n') + b) == seq![a] + lines(b),
{
    run_without_is_first(a, '\n');
    run_up_to(a, '\n', b);
    assert(lines(Seq::<char>::empty()) =~= seq![]);
}

proof fn word_then_space(w: Seq<char>, c: char, b: Seq<char>)
    requires
        forall|i: int| 0 <= i < w.len() ==> !white_space(#[trigger] w[i]),
        white_space(c),
    ensures
        word_len(w) == w.len(),
        word_len(w.push(c) + b) == w.len(),
    decreases w.len(),
{
    if w.len() > 0 {
        let t = w.drop_first();
        assert forall|i: int| 0 <= i < t.len() implies !white_space(#[trigger] t[i]) by {
            assert(t[i] == w[i + 1]);
        }
        word_then_space(t, c, b);
        assert((w.push(c) + b).drop_first() =~= t.push(c) + b);
        assert((w.push(c) + b)[0] == w[0]);
    } else {
        assert((w.push(c) + b)[0] == c);
    }
}

/// Words are what white space separates, however much of it: white space in front is passed
/// over, and a run of other characters up to the next white space is a word.
pub proof fn words_end_at_white_space(w: Seq<char>, c: char, b: Seq<char>)
    requires
        w.len() > 0,
        forall|i: int| 0 <= i < w.len() ==> !white_space(#[trigger] w[i]),
        white_space(c),
    ensures
        words(Seq::<char>::empty()).len() == 0,
        words(w) == seq![w],
        words(w.push(c) + b) == seq![w] + words(b),
        words(seq![c] + b) == words(b),
{
    word_then_space(w, c, b);
    let s = w.push(c) + b;
    let n = w.len() as int;
    assert(!white_space(w[0]));
    assert(s[0] == w[0]);
    assert(s.take(n) =~= w);
    assert(s.skip(n) =~= seq![c] + b);
    assert((seq![c] + b).drop_first() =~= b);
    assert(w.take(n) =~= w);
    assert(w.skip(n) =~= Seq::<char>::empty());
    assert(words(Seq::<char>::empty()) =~= seq![]);
    assert(words(w) =~= seq![w]);
    assert(words(s) == seq![w] + words(s.skip(n)));
}

/// Lower case moves the ASCII capitals by 32 and nothing else.
pub proof fn lower_case_of_ascii(s: Seq<char>, i: int)
    requires
        0 <= i < s.len(),
    ensures
        ascii_lowercase(s).len() == s.len(),
        'A' <= s[i] <= 'Z' ==> ascii_lowercase(s)[i] as int == s[i] as int + 32,
        !('A' <= s[i] <= 'Z') ==> ascii_lowercase(s)[i] == s[i],
{
}

/// Numbers are written as people write them: a last digit behind the digits of the rest, in
/// tens and in eights.
pub proof fn numbers_are_written_out(n: nat, d: nat)
    ensures
        d < 10 ==> decimal(d) == seq![('0' as int + d) as char],
        d < 8 ==> octal(d) == seq![('0' as int + d) as char],
        d < 10 && n > 0 ==> decimal(10 * n + d) == decimal(n).push(('0' as int + d) as char),
        d < 8 && n > 0 ==> octal(8 * n + d) == octal(n).push(('0' as int + d) as char),
{
    if d < 10 && n > 0 {
        assert((10 * n + d) / 10 == n && (10 * n + d) % 10 == d);
    }
    if d < 8 && n > 0 {
        assert((8 * n + d) / 8 == n && (8 * n + d) % 8 == d);
    }
}

/// A number in decimal is one or more digits.
pub proof fn decimal_is_digits(n: nat)
    ensures
        decimal(n).len() > 0,
        all_digits(decimal(n)),
        decimal_value(decimal(n)) == n,
    decreases n,
{
    let s = decimal(n);
    if n < 10 {
        assert(s =~= seq![digit(n as int)]);
        assert(s.drop_last() =~= Seq::<char>::empty());
        assert(decimal_value(s.drop_last()) == 0);
    } else {
        let q = n / 10;
        decimal_is_digits(q);
        let t = decimal(q);
        assert(s == t.push(digit((n % 10) as int)));
        assert(s.drop_last() =~= t);
        assert(n == 10 * q + n % 10);
        assert forall|i: int| 0 <= i < s.len() implies is_digit(#[trigger] s[i]) by {
            if i < t.len() {
                assert(s[i] == t[i]);
            }
        }
    }
}

/// A number that is written out is read back as itself, with or without a plus sign in front,
/// where it is within the bound, and is refused where it is not.
pub proof fn numbers_read_back(n: nat, max: nat)
    ensures
        parse_unsigned(decimal(n), max) == (if n <= max {
            Some(n)
        } else {
            None
        }),
        parse_unsigned(seq!['+'] + decimal(n), max) == parse_unsigned(decimal(n), max),
{
    decimal_is_digits(n);
    let s = decimal(n);
    assert(is_digit(s[0]));
    assert((seq!['+'] + s).drop_first() =~= s);
}

/// No text but digits, after one plus sign at most, is a number.
pub proof fn other_texts_are_no_numbers(s: Seq<char>, max: nat, i: int)
    requires
        s.len() == 0 || (0 <= i < s.len() && !('0' <= s[i] <= '9') && (i > 0 || s[0] != '+'
            || s.len() == 1)),
    ensures
        parse_unsigned(s, max) is None,
{
    if s.len() > 0 {
        let d = after_plus(s);
        if s[0] == '+' {
            if i > 0 {
                assert(d[i - 1] == s[i]);
            }
        } else {
            assert(!is_digit(d[i]));
        }
    }
}

proof fn leading_zero_value(s: Seq<char>)
    ensures
        decimal_value(seq!['0'] + s) == decimal_value(s),
    decreases s.len(),
{
    let t = seq!['0'] + s;
    if s.len() == 0 {
        assert(t.drop_last() =~= Seq::<char>::empty());
        assert(decimal_value(t.drop_last()) == 0);
    } else {
        leading_zero_value(s.drop_last());
        assert(t.drop_last() =~= seq!['0'] + s.drop_last());
    }
}

/// Zeros in front of a number do not count.
pub proof fn leading_zeros_do_not_count(s: Seq<char>, max: nat)
    requires
        s.len() > 0,
        '0' <= s[0] <= '9',
    ensures
        parse_unsigned(seq!['0'] + s, max) == parse_unsigned(s, max),
{
    let t = seq!['0'] + s;
    leading_zero_value(s);
    if all_digits(t) {
        assert forall|i: int| 0 <= i < s.len() implies is_digit(#[trigger] s[i]) by {
            assert(t[i + 1] == s[i]);
        }
    }
    if all_digits(s) {
        assert forall|i: int| 0 <= i < t.len() implies is_digit(#[trigger] t[i]) by {
            if i > 0 {
                assert(t[i] == s[i - 1]);
            }
        }
    }
}

} // verus!
