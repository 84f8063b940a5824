//! Paste shortcuts and the `wtype` arguments that press them.

use crate::strings;
use vstd::prelude::*;
use vstd::string::*;

verus! {

/// A modifier key.
pub open spec fn is_modifier(t: Seq<char>) -> bool {
    t == "ctrl"@ || t == "shift"@ || t == "alt"@ || t == "super"@
}

/// The parts of a shortcut between plus signs, without white space around them.
pub open spec fn parts(shortcut: Seq<char>) -> Seq<Seq<char>> {
    strings::split(shortcut, '+').map_values(|p: Seq<char>| strings::trim(p))
}

/// The modifiers among the parts, in order.
pub open spec fn modifiers(ps: Seq<Seq<char>>) -> Seq<Seq<char>>
    decreases ps.len(),
{
    if ps.len() == 0 {
        seq![]
    } else {
        let rest = modifiers(ps.drop_last());
        if is_modifier(ps.last()) {
            rest.push(ps.last())
        } else {
            rest
        }
    }
}

/// The key: the last part that is neither empty nor a modifier.
pub open spec fn key_part(ps: Seq<Seq<char>>) -> Option<Seq<char>>
    decreases ps.len(),
{
    if ps.len() == 0 {
        None
    } else if ps.last().len() > 0 && !is_modifier(ps.last()) {
        Some(ps.last())
    } else {
        key_part(ps.drop_last())
    }
}

/// A digit or a small letter of ASCII.
pub open spec fn small_alphanumeric(c: char) -> bool {
    'a' <= c <= 'z' || '0' <= c <= '9'
}

/// The number of a function key, for a key name in lower case: `f1` to `f24`, without a sign
/// or a leading zero.
pub open spec fn function_key(k: Seq<char>) -> Option<nat> {
    if 2 <= k.len() <= 3 && k[0] == 'f' && '1' <= k[1] <= '9' {
        match strings::parse_unsigned(k.drop_first(), u32::MAX as nat) {
            Some(n) => if 1 <= n <= 24 {
                Some(n)
            } else {
                None
            },
            None => None,
        }
    } else {
        None
    }
}

/// The canonical name of a key, for its name in lower case.
pub open spec fn canonical_key(k: Seq<char>) -> Option<Seq<char>> {
    if k == "insert"@ {
        Some("Insert"@)
    } else if k == "delete"@ || k == "del"@ {
        Some("Delete"@)
    } else if k == "home"@ {
        Some("Home"@)
    } else if k == "end"@ {
        Some("End"@)
    } else if k == "up"@ {
        Some("Up"@)
    } else if k == "down"@ {
        Some("Down"@)
    } else if k == "left"@ {
        Some("Left"@)
    } else if k == "right"@ {
        Some("Right"@)
    } else if k == "pageup"@ || k == "pgup"@ || k == "prior"@ {
        Some("Page_Up"@)
    } else if k == "pagedown"@ || k == "pgdn"@ || k == "next"@ {
        Some("Page_Down"@)
    } else if k == "return"@ || k == "enter"@ {
        Some("Return"@)
    } else if k == "tab"@ {
        Some("Tab"@)
    } else if k == "escape"@ || k == "esc"@ {
        Some("Escape"@)
    } else if k == "backspace"@ || k == "bs"@ {
        Some("BackSpace"@)
    } else if k == "space"@ {
        Some("space"@)
    } else if k.len() == 1 && small_alphanumeric(k[0]) {
        Some(k)
    } else {
        match function_key(k) {
            Some(n) => Some("F"@ + strings::decimal(n)),
            None => None,
        }
    }
}

/// The arguments that press the modifiers, in order.
pub open spec fn presses(ms: Seq<Seq<char>>) -> Seq<Seq<char>>
    decreases ms.len(),
{
    if ms.len() == 0 {
        seq![]
    } else {
        presses(ms.drop_last()) + seq!["-M"@, ms.last()]
    }
}

/// The arguments that release the modifiers, the last one first.
pub open spec fn releases(ms: Seq<Seq<char>>) -> Seq<Seq<char>>
    decreases ms.len(),
{
    if ms.len() == 0 {
        seq![]
    } else {
        seq!["-m"@, ms.last()] + releases(ms.drop_last())
    }
}

/// The arguments that press a key while modifiers are held.
pub open spec fn chord(ms: Seq<Seq<char>>, key: Seq<char>) -> Seq<Seq<char>> {
    presses(ms) + seq!["-k"@, key] + releases(ms)
}

/// The arguments for a shortcut; one without a known key counts as `ctrl+v`.
pub open spec fn arguments(shortcut: Seq<char>) -> Seq<Seq<char>> {
    let ps = parts(shortcut);
    let key = match key_part(ps) {
        Some(k) => canonical_key(strings::ascii_lowercase(k)),
        None => None,
    };
    match key {
        Some(k) => chord(modifiers(ps), k),
        None => chord(seq!["ctrl"@], "v"@),
    }
}

fn modifier(t: &Vec<char>) -> (r: bool)
    ensures
        r == is_modifier(t@),
{
    strings::chars_are(t, "ctrl") || strings::chars_are(t, "shift") || strings::chars_are(t, "alt")
        || strings::chars_are(t, "super")
}

/// Maps common key names to their canonical names, whatever the case of the letters. Letters,
/// digits and `F1` to `F24` stand for themselves; `None` for anything else.
pub fn normalize_key_name(name: &str) -> (r: Option<String>)
    ensures
        r matches Some(s) ==> canonical_key(strings::ascii_lowercase(name@)) == Some(s@),
        r is None ==> canonical_key(strings::ascii_lowercase(name@)) is None,
{
    let k: Vec<char> = strings::lower_chars(&strings::chars_of(name));
    if strings::chars_are(&k, "insert") {
        return Some("Insert".to_owned());
    }
    if strings::chars_are(&k, "delete") || strings::chars_are(&k, "del") {
        return Some("Delete".to_owned());
    }
    if strings::chars_are(&k, "home") {
        return Some("Home".to_owned());
    }
    if strings::chars_are(&k, "end") {
        return Some("End".to_owned());
    }
    if strings::chars_are(&k, "up") {
        return Some("Up".to_owned());
    }
    if strings::chars_are(&k, "down") {
        return Some("Down".to_owned());
    }
    if strings::chars_are(&k, "left") {
        return Some("Left".to_owned());
    }
    if strings::chars_are(&k, "right") {
        return Some("Right".to_owned());
    }
    if strings::chars_are(&k, "pageup") || strings::chars_are(&k, "pgup") || strings::chars_are(
        &k,
        "prior",
    ) {
        return Some("Page_Up".to_owned());
    }
    if strings::chars_are(&k, "pagedown") || strings::chars_are(&k, "pgdn") || strings::chars_are(
        &k,
        "next",
    ) {
        return Some("Page_Down".to_owned());
    }
    if strings::chars_are(&k, "return") || strings::chars_are(&k, "enter") {
        return Some("Return".to_owned());
    }
    if strings::chars_are(&k, "tab") {
        return Some("Tab".to_owned());
    }
    if strings::chars_are(&k, "escape") || strings::chars_are(&k, "esc") {
        return Some("Escape".to_owned());
    }
    if strings::chars_are(&k, "backspace") || strings::chars_are(&k, "bs") {
        return Some("BackSpace".to_owned());
    }
    if strings::chars_are(&k, "space") {
        return Some("space".to_owned());
    }
    if k.len() == 1 {
        let c: char = k[0];
        if ('a' <= c && c <= 'z') || ('0' <= c && c <= '9') {
            return Some(strings::string_of(&k));
        }
    }
    if 2 <= k.len() && k.len() <= 3 && k[0] == 'f' && '1' <= k[1] && k[1] <= '9' {
        let digits: Vec<char> = strings::sub_chars(&k, 1, k.len());
        assert(digits@ =~= k@.drop_first());
        if let Some(n) = strings::parse_u32(&digits) {
            if 1 <= n && n <= 24 {
                return Some(strings::cat("F", strings::decimal_of(n as u64).as_str()));
            }
        }
    }
    None
}

fn push_chord(mods: &Vec<String>, key: &str) -> (r: Vec<String>)
    ensures
        strings::texts(r@) == chord(strings::texts(mods@), key@),
{
    let mut out: Vec<String> = Vec::new();
    let ghost ms = strings::texts(mods@);
    let mut i: usize = 0;
    assert(ms.take(0) =~= seq![]);
    assert(strings::texts(out@) =~= presses(ms.take(0)));
    while i < mods.len()
        invariant
            i <= mods.len(),
            ms == strings::texts(mods@),
            ms.len() == mods.len(),
            strings::texts(out@) == presses(ms.take(i as int)),
        decreases mods.len() - i,
    {
        let ghost before = strings::texts(out@);
        out.push("-M".to_owned());
        out.push(mods[i].clone());
        assert(ms.take(i + 1).drop_last() =~= ms.take(i as int));
        assert(ms.take(i + 1).last() == mods@[i as int]@);
        assert(strings::texts(out@) =~= before + seq!["-M"@, ms[i as int]]);
        i = i + 1;
    }
    assert(ms.take(i as int) =~= ms);
    let ghost pressed = strings::texts(out@);
    out.push("-k".to_owned());
    out.push(key.to_owned());
    let ghost head = strings::texts(out@);
    assert(head =~= presses(ms) + seq!["-k"@, key@]);
    assert(head + releases(ms) =~= chord(ms, key@));
    while i > 0
        invariant
            i <= mods.len(),
            ms == strings::texts(mods@),
            ms.len() == mods.len(),
            strings::texts(out@) + releases(ms.take(i as int)) == chord(ms, key@),
        decreases i,
    {
        let ghost before = strings::texts(out@);
        out.push("-m".to_owned());
        out.push(mods[i - 1].clone());
        let ghost here = ms.take(i as int);
        assert(here.drop_last() =~= ms.take(i - 1));
        assert(here.last() == mods@[i - 1]@);
        assert(strings::texts(out@) =~= before + seq!["-m"@, here.last()]);
        assert(strings::texts(out@) + releases(ms.take(i - 1)) =~= before + releases(here));
        i = i - 1;
    }
    assert(ms.take(0) =~= seq![]);
    assert(strings::texts(out@) + releases(ms.take(0)) =~= strings::texts(out@));
    out
}

/// Converts a shortcut such as `ctrl+shift+v` into `wtype` arguments: the modifiers are
/// pressed in order, the key is pressed, and the modifiers are released in reverse order. A
/// shortcut without a known key counts as `ctrl+v`.
pub fn parse_shortcut(shortcut: &str) -> (r: Vec<String>)
    ensures
        strings::texts(r@) == arguments(shortcut@),
{
    let pieces: Vec<Vec<char>> = strings::split_chars(&strings::chars_of(shortcut), '+');
    let ghost ps = parts(shortcut@);
    let mut mods: Vec<String> = Vec::new();
    let mut key: Option<String> = None;
    let mut i: usize = 0;
    assert(strings::views(pieces@).len() == pieces.len());
    assert(ps.take(0) =~= seq![]);
    assert(strings::texts(mods@) =~= modifiers(ps.take(0)));
    while i < pieces.len()
        invariant
            i <= pieces.len(),
            ps == parts(shortcut@),
            strings::views(pieces@) == strings::split(shortcut@, '+'),
            strings::views(pieces@).len() == pieces.len(),
            strings::texts(mods@) == modifiers(ps.take(i as int)),
            key matches Some(k) ==> key_part(ps.take(i as int)) == Some(k@),
            key is None ==> key_part(ps.take(i as int)) is None,
        decreases pieces.len() - i,
    {
        let token: Vec<char> = strings::trim_chars(&pieces[i]);
        assert(pieces@[i as int]@ == strings::views(pieces@)[i as int]);
        assert(token@ == ps[i as int]);
        assert(ps.take(i + 1).drop_last() =~= ps.take(i as int));
        assert(ps.take(i + 1).last() == ps[i as int]);
        if modifier(&token) {
            let ghost before = strings::texts(mods@);
            mods.push(strings::string_of(&token));
            assert(strings::texts(mods@) =~= before.push(token@));
        } else if token.len() > 0 {
            key = Some(strings::string_of(&token));
        }
        i = i + 1;
    }
    assert(ps.take(i as int) =~= ps);
    let known: Option<String> = match key {
        Some(k) => normalize_key_name(k.as_str()),
        None => None,
    };
    match known {
        Some(k) => push_chord(&mods, k.as_str()),
        None => {
            let mut ctrl: Vec<String> = Vec::new();
            ctrl.push("ctrl".to_owned());
            assert(strings::texts(ctrl@) =~= seq!["ctrl"@]);
            push_chord(&ctrl, "v")
        },
    }
}

/// The arguments at position `i` press the `i`-th modifier.
pub open spec fn pressed_at(args: Seq<Seq<char>>, ms: Seq<Seq<char>>, i: int) -> bool {
    args[2 * i] == "-M"@ && args[2 * i + 1] == ms[i]
}

/// The arguments at position `i` from the end release the `i`-th modifier.
pub open spec fn released_at(args: Seq<Seq<char>>, ms: Seq<Seq<char>>, i: int) -> bool {
    args[args.len() - 2 - 2 * i] == "-m"@ && args[args.len() - 1 - 2 * i] == ms[i]
}

/// Every modifier that is pressed is released, in reverse order, around one key.
pub proof fn chords_are_balanced(ms: Seq<Seq<char>>, key: Seq<char>)
    ensures
        chord(ms, key).len() == 4 * ms.len() + 2,
        chord(ms, key)[2 * ms.len() as int] == "-k"@,
        chord(ms, key)[2 * ms.len() as int + 1] == key,
        forall|i: int| 0 <= i < ms.len() ==> #[trigger] pressed_at(chord(ms, key), ms, i),
        forall|i: int| 0 <= i < ms.len() ==> #[trigger] released_at(chord(ms, key), ms, i),
{
    presses_layout(ms);
    releases_layout(ms);
    let a = chord(ms, key);
    let p = presses(ms);
    let r = releases(ms);
    assert forall|i: int| 0 <= i < ms.len() implies #[trigger] pressed_at(a, ms, i) by {
        assert(pressed_at(p, ms, i));
        assert(a[2 * i] == p[2 * i]);
        assert(a[2 * i + 1] == p[2 * i + 1]);
    }
    assert forall|i: int| 0 <= i < ms.len() implies #[trigger] released_at(a, ms, i) by {
        assert(released_at(r, ms, i));
        assert(a[a.len() - 2 - 2 * i] == r[r.len() - 2 - 2 * i]);
        assert(a[a.len() - 1 - 2 * i] == r[r.len() - 1 - 2 * i]);
    }
}

proof fn presses_layout(ms: Seq<Seq<char>>)
    ensures
        presses(ms).len() == 2 * ms.len(),
        forall|i: int| 0 <= i < ms.len() ==> #[trigger] pressed_at(presses(ms), ms, i),
    decreases ms.len(),
{
    if ms.len() > 0 {
        let t = ms.drop_last();
        presses_layout(t);
        let a = presses(ms);
        let b = presses(t);
        assert(a == b + seq!["-M"@, ms.last()]);
        assert forall|i: int| 0 <= i < ms.len() implies #[trigger] pressed_at(a, ms, i) by {
            if i < t.len() {
                assert(pressed_at(b, t, i));
                assert(a[2 * i] == b[2 * i]);
                assert(a[2 * i + 1] == b[2 * i + 1]);
            } else {
                assert(a[b.len() as int] == "-M"@);
                assert(a[b.len() as int + 1] == ms.last());
            }
        }
    }
}

proof fn releases_layout(ms: Seq<Seq<char>>)
    ensures
        releases(ms).len() == 2 * ms.len(),
        forall|i: int| 0 <= i < ms.len() ==> #[trigger] released_at(releases(ms), ms, i),
    decreases ms.len(),
{
    if ms.len() > 0 {
        let t = ms.drop_last();
        releases_layout(t);
        let a = releases(ms);
        let b = releases(t);
        assert(a == seq!["-m"@, ms.last()] + b);
        assert forall|i: int| 0 <= i < ms.len() implies #[trigger] released_at(a, ms, i) by {
            if i < t.len() {
                assert(released_at(b, t, i));
                assert(a[a.len() - 2 - 2 * i] == b[b.len() - 2 - 2 * i]);
                assert(a[a.len() - 1 - 2 * i] == b[b.len() - 1 - 2 * i]);
            }
        }
    }
}

/// The key names with an alias or a capital of their own.
pub proof fn named_keys()
    ensures
        canonical_key("insert"@) == Some("Insert"@),
        canonical_key("delete"@) == Some("Delete"@),
        canonical_key("del"@) == Some("Delete"@),
        canonical_key("home"@) == Some("Home"@),
        canonical_key("end"@) == Some("End"@),
        canonical_key("up"@) == Some("Up"@),
        canonical_key("down"@) == Some("Down"@),
        canonical_key("left"@) == Some("Left"@),
        canonical_key("right"@) == Some("Right"@),
        canonical_key("pageup"@) == Some("Page_Up"@),
        canonical_key("pgup"@) == Some("Page_Up"@),
        canonical_key("prior"@) == Some("Page_Up"@),
        canonical_key("pagedown"@) == Some("Page_Down"@),
        canonical_key("pgdn"@) == Some("Page_Down"@),
        canonical_key("next"@) == Some("Page_Down"@),
        canonical_key("return"@) == Some("Return"@),
        canonical_key("enter"@) == Some("Return"@),
        canonical_key("tab"@) == Some("Tab"@),
        canonical_key("escape"@) == Some("Escape"@),
        canonical_key("esc"@) == Some("Escape"@),
        canonical_key("backspace"@) == Some("BackSpace"@),
        canonical_key("bs"@) == Some("BackSpace"@),
        canonical_key("space"@) == Some("space"@),
{
    reveal_strlit("insert");
    reveal_strlit("delete");
    reveal_strlit("del");
    reveal_strlit("home");
    reveal_strlit("end");
    reveal_strlit("up");
    reveal_strlit("down");
    reveal_strlit("left");
    reveal_strlit("right");
    reveal_strlit("pageup");
    reveal_strlit("pgup");
    reveal_strlit("prior");
    reveal_strlit("pagedown");
    reveal_strlit("pgdn");
    reveal_strlit("next");
    reveal_strlit("return");
    reveal_strlit("enter");
    reveal_strlit("tab");
    reveal_strlit("escape");
    reveal_strlit("esc");
    reveal_strlit("backspace");
    reveal_strlit("bs");
    reveal_strlit("space");
    assert("insert"@[0] == 'i');
    assert("delete"@[0] == 'd');
    assert("pageup"@[0] == 'p');
    assert("return"@[0] == 'r');
    assert("escape"@[0] == 'e');
    assert("del"@[0] == 'd');
    assert("end"@[0] == 'e' && "end"@[2] == 'd');
    assert("tab"@[0] == 't');
    assert("esc"@[0] == 'e' && "esc"@[2] == 'c');
    assert("home"@[0] == 'h');
    assert("down"@[0] == 'd');
    assert("left"@[0] == 'l');
    assert("pgup"@[0] == 'p' && "pgup"@[2] == 'u');
    assert("pgdn"@[0] == 'p' && "pgdn"@[2] == 'd');
    assert("next"@[0] == 'n');
    assert("up"@[0] == 'u');
    assert("bs"@[0] == 'b');
    assert("right"@[0] == 'r');
    assert("prior"@[0] == 'p');
    assert("enter"@[0] == 'e');
    assert("space"@[0] == 's');
}

/// Beyond the named keys, exactly the small letters, the digits and `f1` to `f24` are known.
/// Letters and digits stand for themselves; of a function key only the letter changes.
pub proof fn other_keys(k: Seq<char>)
    requires
        k != "insert"@,
        k != "delete"@,
        k != "del"@,
        k != "home"@,
        k != "end"@,
        k != "up"@,
        k != "down"@,
        k != "left"@,
        k != "right"@,
        k != "pageup"@,
        k != "pgup"@,
        k != "prior"@,
        k != "pagedown"@,
        k != "pgdn"@,
        k != "next"@,
        k != "return"@,
        k != "enter"@,
        k != "tab"@,
        k != "escape"@,
        k != "esc"@,
        k != "backspace"@,
        k != "bs"@,
        k != "space"@,
    ensures
        ({
            let single = k.len() == 1 && ('a' <= k[0] <= 'z' || '0' <= k[0] <= '9');
            let low = k.len() == 2 && k[0] == 'f' && '1' <= k[1] <= '9';
            let teens = k.len() == 3 && k[0] == 'f' && k[1] == '1' && '0' <= k[2] <= '9';
            let twenties = k.len() == 3 && k[0] == 'f' && k[1] == '2' && '0' <= k[2] <= '4';
            canonical_key(k) == (if single {
                Some(k)
            } else if low || teens || twenties {
                Some(seq!['F'] + k.drop_first())
            } else {
                None
            })
        }),
{
    reveal_strlit("F");
    let d = k.drop_first();
    if k.len() == 2 && k[0] == 'f' && '1' <= k[1] <= '9' {
        assert(d =~= seq![k[1]]);
        assert(strings::all_digits(d));
        assert(d.drop_last() =~= Seq::<char>::empty());
        assert(strings::decimal_value(d.drop_last()) == 0);
        let n = (k[1] as u32 - 48) as nat;
        assert(strings::decimal_value(d) == n);
        assert(strings::decimal(n) =~= d);
        assert("F"@ + d =~= seq!['F'] + d);
    } else if k.len() == 3 && k[0] == 'f' && '1' <= k[1] <= '9' {
        assert(d =~= seq![k[1], k[2]]);
        if '0' <= k[2] <= '9' {
            assert(strings::all_digits(d));
            let e = d.drop_last();
            assert(e =~= seq![k[1]]);
            assert(e.drop_last() =~= Seq::<char>::empty());
            assert(strings::decimal_value(e.drop_last()) == 0);
            let a = (k[1] as u32 - 48) as nat;
            let b = (k[2] as u32 - 48) as nat;
            assert(strings::decimal_value(e) == a);
            assert(strings::decimal_value(d) == 10 * a + b);
            let n = 10 * a + b;
            assert(n / 10 == a && n % 10 == b);
            assert(strings::numeral(a, 10) =~= e);
            assert(strings::decimal(n) =~= e.push(k[2]));
            assert(e.push(k[2]) =~= d);
            assert("F"@ + d =~= seq!['F'] + d);
        } else {
            assert(!strings::is_digit(d[1]));
        }
    }
}

proof fn key_and_modifiers(ps: Seq<Seq<char>>, j: int)
    requires
        0 <= j < ps.len(),
        ps[j].len() > 0,
        !is_modifier(ps[j]),
        forall|i: int| j < i < ps.len() ==> is_modifier(#[trigger] ps[i]) || ps[i].len() == 0,
    ensures
        key_part(ps) == Some(ps[j]),
    decreases ps.len(),
{
    if j < ps.len() - 1 {
        let t = ps.drop_last();
        assert(is_modifier(ps[ps.len() - 1]) || ps[ps.len() - 1].len() == 0);
        assert forall|i: int| j < i < t.len() implies is_modifier(#[trigger] t[i]) || t[i].len()
            == 0 by {
            assert(t[i] == ps[i]);
        }
        key_and_modifiers(t, j);
    }
}

proof fn no_key(ps: Seq<Seq<char>>)
    requires
        forall|i: int| 0 <= i < ps.len() ==> is_modifier(#[trigger] ps[i]) || ps[i].len() == 0,
    ensures
        key_part(ps) is None,
    decreases ps.len(),
{
    if ps.len() > 0 {
        let t = ps.drop_last();
        assert(is_modifier(ps[ps.len() - 1]) || ps[ps.len() - 1].len() == 0);
        assert forall|i: int| 0 <= i < t.len() implies is_modifier(#[trigger] t[i]) || t[i].len()
            == 0 by {
            assert(t[i] == ps[i]);
        }
        no_key(t);
    }
}

proof fn modifiers_of(ps: Seq<Seq<char>>)
    ensures
        modifiers(ps) == ps.filter(
            |p: Seq<char>| p == "ctrl"@ || p == "shift"@ || p == "alt"@ || p == "super"@,
        ),
    decreases ps.len(),
{
    reveal(Seq::filter);
    if ps.len() > 0 {
        modifiers_of(ps.drop_last());
    }
}

/// What a shortcut presses. Its pieces stand between plus signs, and white space around them
/// does not count. `ctrl`, `shift`, `alt` and `super` are held, in order, around one key: the
/// last piece that is something else.
pub proof fn modifiers_are_held_around_the_key(
    shortcut: Seq<char>,
    ps: Seq<Seq<char>>,
    j: int,
    key: Seq<char>,
)
    requires
        ps.len() == strings::split(shortcut, '+').len(),
        forall|i: int|
            0 <= i < ps.len() ==> #[trigger] ps[i] == strings::trim(
                strings::split(shortcut, '+')[i],
            ),
        0 <= j < ps.len(),
        ps[j].len() > 0,
        ps[j] != "ctrl"@ && ps[j] != "shift"@ && ps[j] != "alt"@ && ps[j] != "super"@,
        forall|i: int|
            j < i < ps.len() ==> #[trigger] ps[i] == "ctrl"@ || ps[i] == "shift"@ || ps[i]
                == "alt"@ || ps[i] == "super"@ || ps[i].len() == 0,
        canonical_key(strings::ascii_lowercase(ps[j])) == Some(key),
    ensures
        ({
            let ms = ps.filter(
                |p: Seq<char>| p == "ctrl"@ || p == "shift"@ || p == "alt"@ || p == "super"@,
            );
            let args = arguments(shortcut);
            &&& args.len() == 4 * ms.len() + 2
            &&& args[2 * ms.len() as int] == "-k"@
            &&& args[2 * ms.len() as int + 1] == key
            &&& forall|i: int| 0 <= i < ms.len() ==> #[trigger] pressed_at(args, ms, i)
            &&& forall|i: int| 0 <= i < ms.len() ==> #[trigger] released_at(args, ms, i)
        }),
{
    assert(parts(shortcut) =~= ps);
    key_and_modifiers(ps, j);
    modifiers_of(ps);
    chords_are_balanced(modifiers(ps), key);
}

/// A shortcut in which no piece is anything but a modifier presses `ctrl` and `v`, and so does
/// one whose last other piece is no known key.
pub proof fn unknown_shortcuts_paste(shortcut: Seq<char>, ps: Seq<Seq<char>>, j: int)
    requires
        ps.len() == strings::split(shortcut, '+').len(),
        forall|i: int|
            0 <= i < ps.len() ==> #[trigger] ps[i] == strings::trim(
                strings::split(shortcut, '+')[i],
            ),
        -1 <= j < ps.len(),
        j >= 0 ==> ps[j].len() > 0 && ps[j] != "ctrl"@ && ps[j] != "shift"@ && ps[j] != "alt"@
            && ps[j] != "super"@ && canonical_key(strings::ascii_lowercase(ps[j])) is None,
        forall|i: int|
            j < i < ps.len() ==> #[trigger] ps[i] == "ctrl"@ || ps[i] == "shift"@ || ps[i]
                == "alt"@ || ps[i] == "super"@ || ps[i].len() == 0,
    ensures
        arguments(shortcut) == seq!["-M"@, "ctrl"@, "-k"@, "v"@, "-m"@, "ctrl"@],
{
    assert(parts(shortcut) =~= ps);
    if j >= 0 {
        key_and_modifiers(ps, j);
    } else {
        no_key(ps);
    }
    one_modifier("ctrl"@, "v"@);
}

proof fn one_modifier(m: Seq<char>, key: Seq<char>)
    ensures
        chord(seq![m], key) == seq!["-M"@, m, "-k"@, key, "-m"@, m],
{
    let ms = seq![m];
    assert(ms.drop_last() =~= Seq::<Seq<char>>::empty());
    assert(presses(ms.drop_last()) =~= Seq::<Seq<char>>::empty());
    assert(releases(ms.drop_last()) =~= Seq::<Seq<char>>::empty());
    assert(chord(ms, key) =~= seq!["-M"@, m, "-k"@, key, "-m"@, m]);
}

proof fn two_pieces(m: Seq<char>, k: Seq<char>)
    requires
        !m.contains('+'),
        !k.contains('+'),
    ensures
        strings::split(m + "+"@ + k, '+') == seq![m, k],
{
    reveal_strlit("+");
    let s = m + "+"@ + k;
    let n = strings::run_without(s, '+');
    strings::run_without_is_first(s, '+');
    assert(s[m.len() as int] == '+');
    assert(s.contains('+'));
    if n < m.len() {
        assert(m[n] == s[n]);
        assert(m.contains('+'));
    }
    if n > m.len() {
        assert(s[m.len() as int] != '+');
    }
    assert(n == m.len());
    assert(s.take(n) =~= m);
    let t = s.skip(n + 1);
    assert(t =~= k);
    strings::run_without_is_first(t, '+');
    assert(strings::split(t, '+') =~= seq![k]);
    assert(strings::split(s, '+') =~= seq![m, k]);
}

/// Each of the four modifiers is held around the key that it is combined with: `ctrl`, `shift`,
/// `alt` and `super`, with any known key.
pub proof fn each_modifier_is_held(m: Seq<char>, k: Seq<char>, key: Seq<char>)
    requires
        m == "ctrl"@ || m == "shift"@ || m == "alt"@ || m == "super"@,
        k.len() > 0,
        !k.contains('+'),
        strings::trim(k) == k,
        k != "ctrl"@ && k != "shift"@ && k != "alt"@ && k != "super"@,
        canonical_key(strings::ascii_lowercase(k)) == Some(key),
    ensures
        arguments(m + "+"@ + k) == seq!["-M"@, m, "-k"@, key, "-m"@, m],
{
    reveal_strlit("ctrl");
    reveal_strlit("shift");
    reveal_strlit("alt");
    reveal_strlit("super");
    assert(!m.contains('+'));
    assert(strings::trim_start(m) == m);
    assert(strings::trim(m) == m);
    two_pieces(m, k);
    let s = m + "+"@ + k;
    let ps = seq![m, k];
    assert(parts(s) =~= ps);
    key_and_modifiers(ps, 1);
    assert(ps.drop_last() =~= seq![m]);
    assert(seq![m].drop_last() =~= Seq::<Seq<char>>::empty());
    assert(modifiers(seq![m].drop_last()) =~= Seq::<Seq<char>>::empty());
    assert(modifiers(seq![m]) =~= seq![m]);
    assert(modifiers(ps) =~= seq![m]);
    one_modifier(m, key);
}

} // verus!
