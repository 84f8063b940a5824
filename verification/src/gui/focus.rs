//! Which application has the focus.

use crate::strings;
use vstd::prelude::*;
use vstd::string::*;

verus! {

/// The application of a line `app_id:title`, without white space around it; `None` for a line
/// without a colon or without an application.
pub open spec fn app_of(line: Seq<char>) -> Option<Seq<char>> {
    let n = strings::run_without(line, ':');
    if n < line.len() {
        let id = strings::trim(line.take(n));
        if id.len() > 0 {
            Some(id)
        } else {
            None
        }
    } else {
        None
    }
}

/// The applications of some lines, each once, in the order of their first lines.
pub open spec fn apps_of(lines: Seq<Seq<char>>) -> Seq<Seq<char>>
    decreases lines.len(),
{
    if lines.len() == 0 {
        seq![]
    } else {
        let rest = apps_of(lines.drop_last());
        match app_of(lines.last()) {
            Some(id) => if rest.contains(id) {
                rest
            } else {
                rest.push(id)
            },
            None => rest,
        }
    }
}

fn app_of_line(line: &Vec<char>) -> (r: Option<Vec<char>>)
    ensures
        r matches Some(id) ==> app_of(line@) == Some(id@),
        r is None ==> app_of(line@) is None,
{
    let n: usize = strings::find_from(line, 0, ':');
    assert(line@.skip(0) =~= line@);
    if n < line.len() {
        let head: Vec<char> = strings::sub_chars(line, 0, n);
        assert(head@ =~= line@.take(n as int));
        let id: Vec<char> = strings::trim_chars(&head);
        if id.len() > 0 {
            Some(id)
        } else {
            None
        }
    } else {
        None
    }
}

fn listed_already(seen: &Vec<String>, id: &Vec<char>) -> (r: bool)
    ensures
        r == strings::texts(seen@).contains(id@),
{
    let ghost all = strings::texts(seen@);
    let mut i: usize = 0;
    while i < seen.len()
        invariant
            i <= seen.len(),
            all == strings::texts(seen@),
            all.len() == seen.len(),
            forall|k: int| 0 <= k < i ==> #[trigger] all[k] != id@,
        decreases seen.len() - i,
    {
        assert(all[i as int] == seen@[i as int]@);
        if strings::chars_are(id, seen[i].as_str()) {
            assert(all.contains(all[i as int]));
            return true;
        }
        i = i + 1;
    }
    false
}

/// The applications in the `app_id:title` lines that `wlrctl toplevel list` prints, each once,
/// in order.
pub fn parse_app_ids(output: &str) -> (r: Vec<String>)
    ensures
        strings::texts(r@) == apps_of(strings::lines(output@)),
{
    let lines: Vec<Vec<char>> = strings::lines_of(&strings::chars_of(output));
    let ghost ls = strings::lines(output@);
    let mut seen: Vec<String> = Vec::new();
    let mut i: usize = 0;
    assert(strings::views(lines@).len() == lines.len());
    assert(strings::texts(seen@) =~= apps_of(ls.take(0)));
    while i < lines.len()
        invariant
            i <= lines.len(),
            strings::views(lines@) == ls,
            ls.len() == lines.len(),
            strings::texts(seen@) == apps_of(ls.take(i as int)),
        decreases lines.len() - i,
    {
        assert(lines@[i as int]@ == strings::views(lines@)[i as int]);
        assert(ls.take(i + 1).drop_last() =~= ls.take(i as int));
        assert(ls.take(i + 1).last() == ls[i as int]);
        if let Some(id) = app_of_line(&lines[i]) {
            if !listed_already(&seen, &id) {
                let ghost before = strings::texts(seen@);
                seen.push(strings::string_of(&id));
                assert(strings::texts(seen@) =~= before.push(id@));
            }
        }
        i = i + 1;
    }
    assert(ls.take(i as int) =~= ls);
    seen
}

/// The argument by which `wlrctl` looks for an application.
pub fn probe_argument(id: &str) -> (r: String)
    ensures
        r@ == "app_id:"@ + id@,
{
    strings::cat("app_id:", id)
}

/// The application that has the focus: the first one that `wlrctl` found active. `active` holds
/// what it said of the applications, in order; it may end after the first one found.
pub fn focused_app_id(ids: &Vec<String>, active: &Vec<bool>) -> (r: Option<String>)
    ensures
        ({
            let first = strings::first_true(active@);
            let found = first is Some && first.unwrap() < ids.len();
            &&& r is Some <==> found
            &&& r matches Some(id) ==> id@ == strings::texts(ids@)[first.unwrap()]
        }),
        forall|k: int|
            0 <= k < active@.len() && k < ids@.len() && #[trigger] active@[k] && (forall|j: int|
                0 <= j < k ==> !#[trigger] active@[j]) ==> (r matches Some(id) && id@
                == ids@[k]@),
        (forall|k: int| 0 <= k < active@.len() ==> !#[trigger] active@[k]) ==> r is None,
{
    let mut i: usize = 0;
    while i < active.len()
        invariant
            i <= active.len(),
            strings::first_true(active@.take(i as int)) is None,
            forall|j: int| 0 <= j < i ==> !#[trigger] active@[j],
        decreases active.len() - i,
    {
        assert(active@.take(i + 1).drop_last() =~= active@.take(i as int));
        if active[i] {
            proof {
                assert(strings::first_true(active@.take(i + 1)) == Some(i as int));
                strings::first_true_extends(active@, i + 1);
                assert(active@[i as int]);
            }
            if i < ids.len() {
                assert(strings::texts(ids@)[i as int] == ids@[i as int]@);
                return Some(ids[i].clone());
            } else {
                return None;
            }
        }
        i = i + 1;
    }
    assert(active@.take(i as int) =~= active@);
    None
}

/// No application is listed twice, and each one that is listed has a line.
pub proof fn apps_are_distinct(lines: Seq<Seq<char>>)
    ensures
        forall|i: int, j: int|
            0 <= i < j < apps_of(lines).len() ==> #[trigger] apps_of(lines)[i]
                != #[trigger] apps_of(lines)[j],
        forall|i: int|
            0 <= i < apps_of(lines).len() ==> (#[trigger] apps_of(lines)[i]).len() > 0 && exists|
                k: int,
            |
                0 <= k < lines.len() && app_of(#[trigger] lines[k]) == Some(apps_of(lines)[i]),
    decreases lines.len(),
{
    if lines.len() > 0 {
        let t = lines.drop_last();
        apps_are_distinct(t);
        let a = apps_of(lines);
        let b = apps_of(t);
        assert forall|i: int, j: int| 0 <= i < j < a.len() implies #[trigger] a[i]
            != #[trigger] a[j] by {
            if j < b.len() {
                assert(b[i] == a[i]);
                assert(b[j] == a[j]);
            } else {
                assert(b[i] == a[i]);
                assert(b.contains(b[i]));
            }
        }
        assert forall|i: int| 0 <= i < a.len() implies (#[trigger] a[i]).len() > 0 && exists|k: int|
            0 <= k < lines.len() && app_of(#[trigger] lines[k]) == Some(a[i]) by {
            if i < b.len() {
                assert(b[i] == a[i]);
                let k = choose|k: int|
                    0 <= k < t.len() && app_of(#[trigger] t[k]) == Some(b[i]);
                assert(lines[k] == t[k]);
            } else {
                assert(app_of(lines[lines.len() - 1]) == Some(a[i]));
            }
        }
    }
}

/// Every line with an application is represented.
pub proof fn every_app_is_listed(lines: Seq<Seq<char>>, k: int)
    requires
        0 <= k < lines.len(),
        app_of(lines[k]) is Some,
    ensures
        apps_of(lines).contains(app_of(lines[k]).unwrap()),
    decreases lines.len(),
{
    let t = lines.drop_last();
    let a = apps_of(lines);
    let b = apps_of(t);
    let id = app_of(lines[k]).unwrap();
    if k == lines.len() - 1 {
        if !b.contains(id) {
            assert(a[a.len() - 1] == id);
        }
    } else {
        assert(t[k] == lines[k]);
        every_app_is_listed(t, k);
        let j = choose|j: int| 0 <= j < b.len() && b[j] == id;
        assert(a[j] == id);
    }
}

/// The application of a line is what stands before the first colon, without white space around
/// it; a line has none where that is blank, or where there is no colon.
pub proof fn apps_stand_before_the_colon(id: Seq<char>, rest: Seq<char>)
    requires
        !id.contains(':'),
    ensures
        app_of(id) is None,
        strings::blank(id) ==> app_of(id.push(':') + rest) is None,
        !strings::blank(id) ==> app_of(id.push(':') + rest) == Some(strings::trim(id)),
{
    strings::run_without_is_first(id, ':');
    strings::run_up_to(id, ':', rest);
    strings::blank_iff_trim_empty(id);
}

/// Applications are listed in the order of their first lines: more lines only add to the end of
/// the list.
pub proof fn more_lines_only_add(a: Seq<Seq<char>>, b: Seq<Seq<char>>)
    ensures
        apps_of(a).is_prefix_of(apps_of(a + b)),
    decreases b.len(),
{
    if b.len() == 0 {
        assert(a + b =~= a);
    } else {
        more_lines_only_add(a, b.drop_last());
        assert((a + b).drop_last() =~= a + b.drop_last());
        let p = apps_of(a);
        let q = apps_of(a + b.drop_last());
        let r = apps_of(a + b);
        assert(q =~= r.take(q.len() as int));
        assert(p =~= r.take(p.len() as int)) by {
            assert forall|i: int| 0 <= i < p.len() implies p[i] == #[trigger] r[i] by {
                assert(q[i] == r[i]);
            }
        }
    }
}

} // verus!
