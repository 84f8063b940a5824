//! Cleaning up a transcription before it is typed or copied.

use crate::strings;
use crate::strings::white_space;
use vstd::prelude::*;
use vstd::string::*;

verus! {

/// A character of ASCII.
pub open spec fn ascii(c: char) -> bool {
    c <= '\u{7f}'
}

/// What `char::is_alphabetic` says of a character beyond ASCII.
pub uninterp spec fn unicode_alphabetic(c: char) -> bool;

/// What `char::to_uppercase` gives for a character beyond ASCII.
pub uninterp spec fn unicode_uppercase(c: char) -> Seq<char>;

/// What `char::to_lowercase` gives for a character beyond ASCII.
pub uninterp spec fn unicode_lowercase(c: char) -> Seq<char>;

/// A letter.
pub open spec fn letter(c: char) -> bool {
    if ascii(c) {
        'a' <= c <= 'z' || 'A' <= c <= 'Z'
    } else {
        unicode_alphabetic(c)
    }
}

/// The upper-case counterpart of an ASCII letter; every other character unchanged.
pub open spec fn ascii_upper(c: char) -> char {
    if 'a' <= c <= 'z' {
        (c as u32 - 32) as char
    } else {
        c
    }
}

/// A character in upper case.
pub open spec fn upper(c: char) -> Seq<char> {
    if ascii(c) {
        seq![ascii_upper(c)]
    } else {
        unicode_uppercase(c)
    }
}

/// A character in lower case.
pub open spec fn lower(c: char) -> Seq<char> {
    if ascii(c) {
        seq![strings::ascii_lower(c)]
    } else {
        unicode_lowercase(c)
    }
}

/// `char::is_alphabetic`: whether a character is a letter. Among ASCII these are the English
/// letters; what else is one is left to the name.
#[verifier::external_body]
fn is_letter(c: char) -> (r: bool)
    ensures
        ascii(c) ==> r == ('a' <= c <= 'z' || 'A' <= c <= 'Z'),
        !ascii(c) ==> r == unicode_alphabetic(c),
{
    c.is_alphabetic()
}

/// `char::to_uppercase`: a character in upper case, one or more characters. An ASCII letter
/// becomes its capital, other ASCII stays; the rest is left to the name.
#[verifier::external_body]
fn to_upper(c: char) -> (r: Vec<char>)
    ensures
        ascii(c) ==> r@ == seq![ascii_upper(c)],
        !ascii(c) ==> r@ == unicode_uppercase(c),
        r.len() > 0,
{
    c.to_uppercase().collect()
}

/// `char::to_lowercase`: a character in lower case, one or more characters. An ASCII capital
/// becomes its small letter, other ASCII stays; the rest is left to the name.
#[verifier::external_body]
fn to_lower(c: char) -> (r: Vec<char>)
    ensures
        ascii(c) ==> r@ == seq![strings::ascii_lower(c)],
        !ascii(c) ==> r@ == unicode_lowercase(c),
        r.len() > 0,
{
    c.to_lowercase().collect()
}

/// `s` in lower case, character by character.
pub open spec fn lower_all(s: Seq<char>) -> Seq<char>
    decreases s.len(),
{
    if s.len() == 0 {
        seq![]
    } else {
        lower_all(s.drop_last()) + lower(s.last())
    }
}

/// The first word of a sentence: a word that starts with a letter gets a capital there and is
/// in lower case from there on; any other word stays as it is.
pub open spec fn title(w: Seq<char>) -> Seq<char> {
    if w.len() > 0 && letter(w[0]) {
        upper(w[0]) + lower_all(w.drop_first())
    } else {
        w
    }
}

/// Words with one space in between.
pub open spec fn joined(ws: Seq<Seq<char>>) -> Seq<char>
    decreases ws.len(),
{
    if ws.len() == 0 {
        seq![]
    } else if ws.len() == 1 {
        ws[0]
    } else {
        joined(ws.drop_last()).push(' ') + ws.last()
    }
}

/// A character that ends a sentence.
pub open spec fn ends_sentence(c: char) -> bool {
    c == '.' || c == '?' || c == '!' || c == '…'
}

/// `s` with a period at the end, unless it is empty or ends a sentence already.
pub open spec fn closed_sentence(s: Seq<char>) -> Seq<char> {
    if s.len() > 0 && !ends_sentence(s.last()) {
        s.push('.')
    } else {
        s
    }
}

/// A cleaned transcription: its words with one space in between, the first one as the first
/// word of a sentence, and a period where the sentence lacks an end.
pub open spec fn cleaned(input: Seq<char>) -> Seq<char> {
    let ws = strings::words(input);
    if ws.len() == 0 {
        seq![]
    } else {
        closed_sentence(joined(ws.update(0, title(ws[0]))))
    }
}

fn append_chars(out: &mut Vec<char>, more: &Vec<char>)
    ensures
        final(out)@ == old(out)@ + more@,
{
    let ghost before = out@;
    let mut i: usize = 0;
    while i < more.len()
        invariant
            i <= more.len(),
            out@ == before + more@.take(i as int),
        decreases more.len() - i,
    {
        out.push(more[i]);
        assert(more@.take(i + 1) =~= more@.take(i as int).push(more@[i as int]));
        i = i + 1;
    }
    assert(more@.take(i as int) =~= more@);
}

fn title_of(w: &Vec<char>) -> (r: Vec<char>)
    ensures
        r@ == title(w@),
        w.len() > 0 ==> r.len() > 0,
{
    if w.len() == 0 || !is_letter(w[0]) {
        return strings::sub_chars(w, 0, w.len());
    }
    let mut out: Vec<char> = to_upper(w[0]);
    let ghost head = out@;
    let ghost tail = w@.drop_first();
    let mut i: usize = 1;
    assert(head + lower_all(tail.take(0)) =~= head);
    while i < w.len()
        invariant
            1 <= i <= w.len(),
            tail == w@.drop_first(),
            head.len() > 0,
            out@ == head + lower_all(tail.take(i - 1)),
        decreases w.len() - i,
    {
        let low: Vec<char> = to_lower(w[i]);
        let ghost before = out@;
        append_chars(&mut out, &low);
        assert(tail.take(i as int).drop_last() =~= tail.take(i - 1));
        assert(tail.take(i as int).last() == w@[i as int]);
        assert(out@ =~= head + lower_all(tail.take(i as int)));
        i = i + 1;
    }
    assert(tail.take(i - 1) =~= tail);
    out
}

/// Trims surrounding white space, collapses inner runs of white space to one space, and
/// title-cases the first word when it begins with a letter. Later words stay as they are. A
/// result that does not end a sentence gets a final period.
pub fn clean_transcription(input: &str) -> (r: String)
    ensures
        r@ == cleaned(input@),
        r@.len() == 0 <==> strings::blank(input@),
        !strings::blank(input@) ==> r@.last() == '.' || r@.last() == '?' || r@.last() == '!'
            || r@.last() == '…',
        !strings::blank(input@) ==> ({
            let ws = strings::words(input@);
            let cased = joined(ws.update(0, title(ws[0])));
            let c = cased.last();
            if c == '.' || c == '?' || c == '!' || c == '…' {
                r@ == cased
            } else {
                r@ == cased.push('.')
            }
        }),
{
    proof {
        blank_has_no_words(input@);
        words_are_words(input@);
    }
    let ws: Vec<Vec<char>> = strings::words_of(&strings::chars_of(input));
    let ghost all = strings::words(input@);
    assert(strings::views(ws@).len() == ws.len());
    if ws.len() == 0 {
        return String::new();
    }
    assert(ws@[0]@ == strings::views(ws@)[0]);
    assert(is_word(strings::views(ws@)[0]));
    let mut out: Vec<char> = title_of(&ws[0]);
    let ghost cased = all.update(0, title(all[0]));
    let mut i: usize = 1;
    assert(cased.take(1) =~= seq![title(all[0])]);
    while i < ws.len()
        invariant
            1 <= i <= ws.len(),
            strings::views(ws@) == all,
            all.len() == ws.len(),
            cased == all.update(0, title(all[0])),
            out@ == joined(cased.take(i as int)),
            out.len() > 0,
        decreases ws.len() - i,
    {
        assert(cased.take(i + 1).drop_last() =~= cased.take(i as int));
        assert(cased.take(i + 1).last() == all[i as int]);
        assert(ws@[i as int]@ == strings::views(ws@)[i as int]);
        out.push(' ');
        append_chars(&mut out, &ws[i]);
        i = i + 1;
    }
    assert(cased.take(i as int) =~= cased);
    if out.len() > 0 {
        let last: char = out[out.len() - 1];
        if !(last == '.' || last == '?' || last == '!' || last == '…') {
            out.push('.');
        }
    }
    strings::string_of(&out)
}

/// A word: not empty, without white space.
pub open spec fn is_word(w: Seq<char>) -> bool {
    w.len() > 0 && forall|i: int| 0 <= i < w.len() ==> !white_space(#[trigger] w[i])
}

/// A list of words.
pub open spec fn all_words(ws: Seq<Seq<char>>) -> bool {
    forall|k: int| 0 <= k < ws.len() ==> is_word(#[trigger] ws[k])
}

/// What is split off at white space are words.
pub proof fn words_are_words(s: Seq<char>)
    ensures
        all_words(strings::words(s)),
    decreases s.len(),
{
    if s.len() > 0 {
        if white_space(s[0]) {
            words_are_words(s.drop_first());
            assert(strings::words(s) == strings::words(s.drop_first()));
        } else {
            strings::word_len_is_first(s);
            let n = strings::word_len(s);
            words_are_words(s.skip(n));
            let rest = strings::words(s.skip(n));
            let w = s.take(n);
            assert forall|i: int| 0 <= i < w.len() implies !white_space(#[trigger] w[i]) by {
                assert(w[i] == s[i]);
            }
            let ws = strings::words(s);
            assert(ws == seq![w] + rest);
            assert forall|k: int| 0 <= k < ws.len() implies is_word(#[trigger] ws[k]) by {
                if k > 0 {
                    assert(ws[k] == rest[k - 1]);
                }
            }
        }
    }
}

proof fn word_len_append(s: Seq<char>, t: Seq<char>)
    requires
        t.len() > 0,
        white_space(t[0]),
    ensures
        strings::word_len(s + t) == strings::word_len(s),
    decreases s.len(),
{
    if s.len() == 0 {
        assert(s + t =~= t);
    } else if !white_space(s[0]) {
        assert((s + t).drop_first() =~= s.drop_first() + t);
        word_len_append(s.drop_first(), t);
    }
}

proof fn word_len_of_word(w: Seq<char>)
    requires
        forall|i: int| 0 <= i < w.len() ==> !white_space(#[trigger] w[i]),
    ensures
        strings::word_len(w) == w.len(),
    decreases w.len(),
{
    if w.len() > 0 {
        let t = w.drop_first();
        assert forall|i: int| 0 <= i < t.len() implies !white_space(#[trigger] t[i]) by {
            assert(t[i] == w[i + 1]);
        }
        word_len_of_word(t);
    }
}

proof fn words_of_word(w: Seq<char>)
    requires
        is_word(w),
    ensures
        strings::words(w) == seq![w],
{
    word_len_of_word(w);
    assert(w.take(w.len() as int) =~= w);
    assert(w.skip(w.len() as int) =~= seq![]);
    assert(!white_space(w[0]));
    assert(strings::words(w.skip(w.len() as int)) =~= seq![]);
    assert(strings::words(w) =~= seq![w]);
}

/// A space and a word at the end of a text add that word.
pub proof fn appended_word(s: Seq<char>, w: Seq<char>)
    requires
        is_word(w),
    ensures
        strings::words(s.push(' ') + w) == strings::words(s).push(w),
    decreases s.len(),
{
    let t = s.push(' ') + w;
    let tail = seq![' '] + w;
    assert(t =~= s + tail);
    if s.len() == 0 {
        assert(t.drop_first() =~= w);
        words_of_word(w);
        assert(strings::words(s).push(w) =~= seq![w]);
    } else if white_space(s[0]) {
        assert(t.drop_first() =~= s.drop_first().push(' ') + w);
        appended_word(s.drop_first(), w);
    } else {
        strings::word_len_is_first(s);
        word_len_append(s, tail);
        let n = strings::word_len(s);
        assert(t.take(n) =~= s.take(n));
        assert(t.skip(n) =~= s.skip(n).push(' ') + w);
        appended_word(s.skip(n), w);
        assert(strings::words(t) =~= strings::words(s).push(w));
    }
}

/// Joining words and splitting the result gives the words back.
pub proof fn words_of_joined(ws: Seq<Seq<char>>)
    requires
        forall|k: int| 0 <= k < ws.len() ==> is_word(#[trigger] ws[k]),
    ensures
        strings::words(joined(ws)) == ws,
    decreases ws.len(),
{
    if ws.len() == 0 {
        assert(strings::words(joined(ws)) =~= ws);
    } else if ws.len() == 1 {
        words_of_word(ws[0]);
        assert(ws =~= seq![ws[0]]);
    } else {
        let rest = ws.drop_last();
        assert forall|k: int| 0 <= k < rest.len() implies is_word(#[trigger] rest[k]) by {
            assert(rest[k] == ws[k]);
        }
        words_of_joined(rest);
        assert(is_word(ws[ws.len() - 1]));
        appended_word(joined(rest), ws.last());
        assert(rest.push(ws.last()) =~= ws);
    }
}

/// Words with a character added to the last one.
pub open spec fn last_word_plus(ws: Seq<Seq<char>>, c: char) -> Seq<Seq<char>> {
    ws.update(ws.len() - 1, ws.last().push(c))
}

proof fn joined_push(ws: Seq<Seq<char>>, c: char)
    requires
        ws.len() > 0,
    ensures
        joined(ws).push(c) == joined(last_word_plus(ws, c)),
{
    let vs = last_word_plus(ws, c);
    if ws.len() > 1 {
        assert(vs.drop_last() =~= ws.drop_last());
        assert(joined(vs) =~= joined(ws).push(c));
    }
}

proof fn joined_last(ws: Seq<Seq<char>>)
    requires
        ws.len() > 0,
        ws.last().len() > 0,
    ensures
        joined(ws).len() > 0,
        joined(ws).last() == ws.last().last(),
{
    if ws.len() > 1 {
        let head = joined(ws.drop_last()).push(' ');
        assert(joined(ws) == head + ws.last());
        assert((head + ws.last()).last() == ws.last().last());
    }
}

/// `s` holds ASCII only.
pub open spec fn all_ascii(s: Seq<char>) -> bool {
    forall|i: int| 0 <= i < s.len() ==> ascii(#[trigger] s[i])
}

proof fn lower_all_ascii(s: Seq<char>)
    requires
        all_ascii(s),
    ensures
        lower_all(s) == strings::ascii_lowercase(s),
    decreases s.len(),
{
    if s.len() > 0 {
        assert(all_ascii(s.drop_last())) by {
            assert forall|i: int| 0 <= i < s.len() - 1 implies ascii(
                #[trigger] s.drop_last()[i],
            ) by {
                assert(s.drop_last()[i] == s[i]);
            }
        }
        lower_all_ascii(s.drop_last());
        assert(ascii(s[s.len() - 1]));
        assert(lower_all(s) =~= strings::ascii_lowercase(s));
    } else {
        assert(lower_all(s) =~= strings::ascii_lowercase(s));
    }
}

/// The first word of a sentence, for a word of ASCII.
pub open spec fn ascii_title(w: Seq<char>) -> Seq<char> {
    seq![ascii_upper(w[0])] + strings::ascii_lowercase(w.drop_first())
}

proof fn title_ascii(w: Seq<char>)
    requires
        all_ascii(w),
        w.len() > 0,
        letter(w[0]),
    ensures
        title(w) == ascii_title(w),
        title(w).len() == w.len(),
        all_ascii(title(w)),
        letter(title(w)[0]),
{
    let t = w.drop_first();
    assert(all_ascii(t)) by {
        assert forall|i: int| 0 <= i < t.len() implies ascii(#[trigger] t[i]) by {
            assert(t[i] == w[i + 1]);
        }
    }
    lower_all_ascii(t);
    assert(ascii(w[0]));
    let r = title(w);
    assert(r =~= ascii_title(w));
    assert forall|i: int| 0 <= i < r.len() implies ascii(#[trigger] r[i]) by {
        if i > 0 {
            assert(r[i] == strings::ascii_lower(t[i - 1]));
            assert(ascii(t[i - 1]));
        }
    }
}

/// The words on which cleaning is predictable: the first one is ASCII, or starts with no letter.
pub open spec fn plain_first_word(input: Seq<char>) -> bool {
    let ws = strings::words(input);
    ws.len() > 0 ==> all_ascii(ws[0]) || !letter(ws[0][0])
}

proof fn title_is_word(w: Seq<char>)
    requires
        is_word(w),
        all_ascii(w) || !letter(w[0]),
    ensures
        is_word(title(w)),
        title(title(w)) == title(w),
        title(title(w).push('.')) == title(w).push('.'),
{
    if letter(w[0]) {
        title_ascii(w);
        let r = title(w);
        let t = w.drop_first();
        assert forall|i: int| 0 <= i < r.len() implies !white_space(#[trigger] r[i]) by {
            assert(!white_space(w[i]));
            assert(ascii(w[i]));
            if i > 0 {
                assert(t[i - 1] == w[i]);
                assert(r[i] == strings::ascii_lower(w[i]));
            }
        }
        title_ascii(r);
        assert(ascii_title(r) =~= r) by {
            assert forall|i: int| 0 < i < r.len() implies strings::ascii_lower(r[i]) == r[i] by {
                assert(r[i] == strings::ascii_lower(t[i - 1]));
            }
        }
        let p = r.push('.');
        assert(all_ascii(p)) by {
            assert forall|i: int| 0 <= i < p.len() implies ascii(#[trigger] p[i]) by {
                if i < r.len() {
                    assert(p[i] == r[i]);
                }
            }
        }
        title_ascii(p);
        assert(ascii_title(p) =~= p) by {
            assert forall|i: int| 0 < i < p.len() implies strings::ascii_lower(p[i]) == p[i] by {
                if i < r.len() {
                    assert(p[i] == r[i]);
                    assert(r[i] == strings::ascii_lower(t[i - 1]));
                }
            }
        }
    } else {
        assert(w.push('.')[0] == w[0]);
    }
}

/// The words of a cleaned transcription: the first one as the first word of a sentence, the
/// others as they were, and a period on the last one where the sentence lacked an end. The law
/// needs a first word that is ASCII or starts with no letter.
pub proof fn cleaning_keeps_the_words(input: Seq<char>)
    requires
        plain_first_word(input),
    ensures
        ({
            let ws = strings::words(input);
            let cased = ws.update(0, title(ws[0]));
            ws.len() > 0 ==> strings::words(cleaned(input)) == if ends_sentence(
                cased.last().last(),
            ) {
                cased
            } else {
                last_word_plus(cased, '.')
            }
        }),
{
    let ws = strings::words(input);
    if ws.len() > 0 {
        words_are_words(input);
        assert(is_word(ws[0]));
        title_is_word(ws[0]);
        let cased = ws.update(0, title(ws[0]));
        assert forall|k: int| 0 <= k < cased.len() implies is_word(#[trigger] cased[k]) by {
            if k > 0 {
                assert(cased[k] == ws[k]);
            }
        }
        assert(is_word(cased[cased.len() - 1]));
        joined_last(cased);
        if ends_sentence(cased.last().last()) {
            words_of_joined(cased);
        } else {
            let more = last_word_plus(cased, '.');
            joined_push(cased, '.');
            assert forall|k: int| 0 <= k < more.len() implies is_word(#[trigger] more[k]) by {
                if k == more.len() - 1 {
                    let w = cased.last();
                    assert forall|i: int| 0 <= i < w.push('.').len() implies !white_space(
                        #[trigger] w.push('.')[i],
                    ) by {
                        if i < w.len() {
                            assert(w.push('.')[i] == w[i]);
                        }
                    }
                } else {
                    assert(more[k] == cased[k]);
                }
            }
            words_of_joined(more);
        }
    }
}

/// Cleaning a cleaned transcription changes nothing. The law needs a first word that is ASCII
/// or starts with no letter: the capital of some letters is more than one character.
pub proof fn cleaning_is_idempotent(input: Seq<char>)
    requires
        plain_first_word(input),
    ensures
        cleaned(cleaned(input)) == cleaned(input),
{
    let ws = strings::words(input);
    if ws.len() == 0 {
        assert(strings::words(Seq::<char>::empty()).len() == 0);
    } else {
        words_are_words(input);
        assert(is_word(ws[0]));
        title_is_word(ws[0]);
        cleaning_keeps_the_words(input);
        let cased = ws.update(0, title(ws[0]));
        assert(is_word(cased.last())) by {
            if ws.len() > 1 {
                assert(cased.last() == ws[ws.len() - 1]);
            }
        }
        joined_last(cased);
        let out = strings::words(cleaned(input));
        if ends_sentence(cased.last().last()) {
            assert(out.update(0, title(out[0])) =~= out);
        } else {
            joined_push(cased, '.');
            let more = last_word_plus(cased, '.');
            assert(more.last().last() == '.');
            joined_last(more);
            assert(title(more[0]) == more[0]);
            assert(out.update(0, title(out[0])) =~= out);
        }
    }
}

/// A blank transcription is cleaned to nothing, and any other ends a sentence once it is
/// cleaned. That something is left of one with words is part of this law for a first word that
/// is ASCII or starts with no letter; [`clean_transcription`] promises it for every first word.
pub proof fn cleaned_text_ends_a_sentence(input: Seq<char>)
    ensures
        strings::blank(input) ==> cleaned(input).len() == 0,
        cleaned(input).len() > 0 ==> ends_sentence(cleaned(input).last()),
        plain_first_word(input) && !strings::blank(input) ==> cleaned(input).len() > 0,
{
    blank_has_no_words(input);
    let ws = strings::words(input);
    if ws.len() > 0 && plain_first_word(input) {
        words_are_words(input);
        assert(is_word(ws[0]));
        title_is_word(ws[0]);
        let cased = ws.update(0, title(ws[0]));
        assert(is_word(cased.last())) by {
            if ws.len() > 1 {
                assert(cased.last() == ws[ws.len() - 1]);
            }
        }
        joined_last(cased);
    }
}

/// A cleaned transcription ends in a period, a question mark, an exclamation mark or an
/// ellipsis. Where the last word ended in one of these, nothing follows it; otherwise exactly
/// one period does. A transcription of one word is covered where that word is ASCII: the case
/// of other words can change their last character.
pub proof fn sentences_are_closed_once(input: Seq<char>)
    requires
        strings::words(input).len() > 0,
        strings::words(input).len() > 1 || all_ascii(strings::words(input)[0]),
    ensures
        ({
            let out = cleaned(input);
            let w = strings::words(input).last();
            let c = w.last();
            let n = out.len() as int;
            if c == '.' || c == '?' || c == '!' || c == '…' {
                n >= w.len() && out[n - 1] == c && (strings::words(input).len() > 1
                    ==> out.subrange(n - w.len(), n) == w)
            } else {
                n > w.len() && out[n - 1] == '.' && (strings::words(input).len() > 1
                    ==> out.subrange(n - 1 - w.len(), n - 1) == w)
            }
        }),
        strings::words(input).len() == 1 ==> ({
            let w = strings::words(input)[0];
            let c = w.last();
            cleaned(input).len() == if c == '.' || c == '?' || c == '!' {
                w.len()
            } else {
                w.len() + 1
            }
        }),
{
    let ws = strings::words(input);
    words_are_words(input);
    assert(is_word(ws[0]));
    assert(is_word(ws[ws.len() - 1]));
    let cased = ws.update(0, title(ws[0]));
    let text = joined(cased);
    if ws.len() > 1 {
        assert(cased.last() == ws.last());
        joined_last(cased);
        let head = joined(cased.drop_last()).push(' ');
        assert(text == head + ws.last());
        let n = text.len() as int;
        assert(text.subrange(n - ws.last().len(), n) =~= ws.last());
        assert(text.push('.').subrange(n - ws.last().len(), n) =~= ws.last());
    } else {
        let w = ws[0];
        let t = title(w);
        assert(text == t);
        if letter(w[0]) {
            title_ascii(w);
            if w.len() > 1 {
                assert(ascii(w[w.len() - 1]));
                assert(t.last() == strings::ascii_lower(w.last()));
            } else {
                assert(t.last() == ascii_upper(w.last()));
            }
            assert(ascii(w[w.len() - 1]));
        }
    }
}

/// The first word of a cleaned transcription, where it is ASCII. If it starts with a letter,
/// that letter is a capital and every letter that follows in the word is small; everything else
/// in it, and a word that starts with no letter, stays as it is.
pub proof fn first_word_is_capitalised(input: Seq<char>, i: int)
    requires
        strings::words(input).len() > 0,
        all_ascii(strings::words(input)[0]),
        0 <= i < strings::words(input)[0].len(),
    ensures
        ({
            let w = strings::words(input)[0];
            let first = w[0];
            let c = w[i];
            let r = cleaned(input)[i];
            &&& cleaned(input).len() >= w.len()
            &&& if !('a' <= first <= 'z' || 'A' <= first <= 'Z') {
                r == c
            } else if i == 0 && 'a' <= c <= 'z' {
                r as int == c as int - 32
            } else if i > 0 && 'A' <= c <= 'Z' {
                r as int == c as int + 32
            } else {
                r == c
            }
        }),
{
    let ws = strings::words(input);
    let w = ws[0];
    words_are_words(input);
    assert(is_word(ws[0]));
    let cased = ws.update(0, title(w));
    assert(ascii(w[0]));
    if letter(w[0]) {
        title_ascii(w);
    }
    assert(title(w).len() == w.len());
    joined_starts(cased);
    assert(joined(cased)[i] == title(w)[i]);
    assert(cleaned(input)[i] == title(w)[i]);
    if letter(w[0]) && i > 0 {
        assert(title(w)[i] == strings::ascii_lowercase(w.drop_first())[i - 1]);
        assert(title(w)[i] == strings::ascii_lower(w[i]));
    }
}

proof fn joined_starts(ws: Seq<Seq<char>>)
    requires
        ws.len() > 0,
    ensures
        ws[0].len() <= joined(ws).len(),
        forall|i: int| 0 <= i < ws[0].len() ==> joined(ws)[i] == #[trigger] ws[0][i],
    decreases ws.len(),
{
    if ws.len() > 1 {
        joined_starts(ws.drop_last());
        assert(ws.drop_last()[0] == ws[0]);
    }
}

/// Every word between the first and the last comes through cleaning as it was, in its place,
/// and none is added or dropped. The law needs a first word that is ASCII or starts with no
/// letter.
pub proof fn later_words_stay(input: Seq<char>, k: int)
    requires
        plain_first_word(input),
        0 < k < strings::words(input).len() - 1,
    ensures
        strings::words(cleaned(input)).len() == strings::words(input).len(),
        strings::words(cleaned(input))[k] == strings::words(input)[k],
{
    cleaning_keeps_the_words(input);
}

/// The only white space in a cleaned transcription is the space, between two characters that
/// are no white space. The law needs a first word that is ASCII or starts with no letter.
pub proof fn words_are_one_space_apart(input: Seq<char>, i: int)
    requires
        plain_first_word(input),
        0 <= i < cleaned(input).len(),
        white_space(cleaned(input)[i]),
    ensures
        cleaned(input)[i] == ' ',
        0 < i < cleaned(input).len() - 1,
        !white_space(cleaned(input)[i - 1]),
        !white_space(cleaned(input)[i + 1]),
{
    let ws = strings::words(input);
    words_are_words(input);
    assert(is_word(ws[0]));
    title_is_word(ws[0]);
    let cased = ws.update(0, title(ws[0]));
    assert forall|k: int| 0 <= k < cased.len() implies is_word(#[trigger] cased[k]) by {
        if k > 0 {
            assert(cased[k] == ws[k]);
        }
    }
    joined_spaces(cased);
    let text = joined(cased);
    assert(spaced(text, i));
    if i + 1 < text.len() {
        assert(spaced(text, i + 1) || !white_space(text[i + 1]));
    }
}

/// At position `i` of `s` stands no white space, or one space between two characters that are
/// none.
pub open spec fn spaced(s: Seq<char>, i: int) -> bool {
    white_space(s[i]) ==> s[i] == ' ' && 0 < i < s.len() - 1 && !white_space(s[i - 1])
        && !white_space(s[i + 1])
}

proof fn joined_spaces(ws: Seq<Seq<char>>)
    requires
        forall|k: int| 0 <= k < ws.len() ==> is_word(#[trigger] ws[k]),
    ensures
        forall|i: int| 0 <= i < joined(ws).len() ==> #[trigger] spaced(joined(ws), i),
        ws.len() > 0 ==> joined(ws).len() > 0 && !white_space(joined(ws).last()),
    decreases ws.len(),
{
    if ws.len() == 1 {
        assert(is_word(ws[0]));
        assert(!white_space(ws[0][ws[0].len() - 1]));
    } else if ws.len() > 1 {
        let rest = ws.drop_last();
        assert forall|k: int| 0 <= k < rest.len() implies is_word(#[trigger] rest[k]) by {
            assert(rest[k] == ws[k]);
        }
        joined_spaces(rest);
        let a = joined(rest);
        let w = ws[ws.len() - 1];
        assert(is_word(w));
        let s = joined(ws);
        assert(s == a.push(' ') + w);
        assert(!white_space(w[w.len() - 1]));
        assert(!white_space(w[0]));
        assert forall|i: int| 0 <= i < s.len() implies #[trigger] spaced(s, i) by {
            if i < a.len() {
                assert(spaced(a, i));
                assert(s[i] == a[i]);
            } else if i > a.len() {
                assert(s[i] == w[i - a.len() - 1]);
            } else {
                assert(s[i - 1] == a.last());
                assert(s[i + 1] == w[0]);
            }
        }
    }
}

/// A text is blank exactly when it has no words.
pub proof fn blank_has_no_words(s: Seq<char>)
    ensures
        strings::blank(s) <==> strings::words(s).len() == 0,
    decreases s.len(),
{
    if s.len() > 0 {
        if white_space(s[0]) {
            let t = s.drop_first();
            blank_has_no_words(t);
            if strings::blank(t) {
                assert forall|i: int| 0 <= i < s.len() implies white_space(#[trigger] s[i]) by {
                    if i > 0 {
                        assert(s[i] == t[i - 1]);
                    }
                }
            }
            if strings::blank(s) {
                assert forall|i: int| 0 <= i < t.len() implies white_space(#[trigger] t[i]) by {
                    assert(t[i] == s[i + 1]);
                }
            }
        } else {
            strings::word_len_is_first(s);
        }
    }
}

/// Only the words count: two transcriptions that differ in white space are cleaned to the same
/// text.
pub proof fn white_space_does_not_matter(a: Seq<char>, b: Seq<char>)
    requires
        strings::words(a) == strings::words(b),
    ensures
        cleaned(a) == cleaned(b),
{
}

/// A first word that begins with a letter beyond ASCII begins with its capital once it is
/// cleaned, and one that begins with another character beyond ASCII stays as it is.
pub proof fn first_word_beyond_ascii(input: Seq<char>)
    requires
        strings::words(input).len() > 0,
        strings::words(input)[0][0] > '\u{7f}',
    ensures
        ({
            let w = strings::words(input)[0];
            &&& unicode_alphabetic(w[0]) ==> (unicode_uppercase(w[0]) + lower_all(
                w.drop_first(),
            )).is_prefix_of(cleaned(input))
            &&& !unicode_alphabetic(w[0]) ==> w.is_prefix_of(cleaned(input))
        }),
{
    let ws = strings::words(input);
    words_are_words(input);
    assert(is_word(ws[0]));
    let w = ws[0];
    let cased = ws.update(0, title(w));
    joined_starts(cased);
    let t = title(w);
    let out = cleaned(input);
    assert(t =~= out.take(t.len() as int)) by {
        assert forall|i: int| 0 <= i < t.len() implies t[i] == #[trigger] out[i] by {
            assert(cased[0][i] == joined(cased)[i]);
        }
    }
}

/// Lower case goes character by character: small letters replace the capitals of ASCII, and
/// beyond ASCII each character is replaced by its own lower case.
pub proof fn lower_case_by_character(a: Seq<char>, c: char)
    ensures
        lower_all(a.push(c)) == lower_all(a) + (if c > '\u{7f}' {
            unicode_lowercase(c)
        } else if 'A' <= c <= 'Z' {
            seq![(c as int + 32) as char]
        } else {
            seq![c]
        }),
        lower_all(seq![]).len() == 0,
{
    assert(a.push(c).drop_last() =~= a);
}

proof fn joined_front(w: Seq<char>, r: Seq<Seq<char>>)
    requires
        r.len() > 0,
    ensures
        joined(seq![w] + r) == w.push(' ') + joined(r),
    decreases r.len(),
{
    let all = seq![w] + r;
    assert(all.drop_last() =~= seq![w] + r.drop_last());
    assert(all.last() == r.last());
    if r.len() == 1 {
        assert(all.drop_last() =~= seq![w]);
        assert(joined(seq![w]) == w);
        assert(joined(r) == r[0]);
        assert(joined(all) =~= w.push(' ') + joined(r));
    } else {
        joined_front(w, r.drop_last());
        assert(joined(r) == joined(r.drop_last()).push(' ') + r.last());
        assert(joined(all) == joined(all.drop_last()).push(' ') + all.last());
        assert(joined(all) =~= w.push(' ') + joined(r));
    }
}

/// The first word does not touch the rest: whatever it is, what follows it is what would follow
/// a dash, with one space in between.
pub proof fn first_word_does_not_touch_the_rest(w: Seq<char>, b: Seq<char>)
    requires
        is_word(w),
        !strings::blank(b),
    ensures
        cleaned(w.push(' ') + b) == title(w) + cleaned(seq!['-', ' '] + b).skip(1),
        cleaned(seq!['-', ' '] + b).take(2) == seq!['-', ' '],
{
    let dash = seq!['-'];
    assert(white_space(' '));
    assert(is_word(dash));
    strings::words_end_at_white_space(w, ' ', b);
    strings::words_end_at_white_space(dash, ' ', b);
    assert(dash.push(' ') + b =~= seq!['-', ' '] + b);
    let r = strings::words(b);
    blank_has_no_words(b);
    words_are_words(b);
    assert(is_word(r[r.len() - 1]));
    let ws = seq![w] + r;
    let ds = seq![dash] + r;
    assert(ws.update(0, title(w)) =~= seq![title(w)] + r);
    assert(title(dash) == dash);
    assert(ds.update(0, title(dash)) =~= ds);
    joined_front(title(w), r);
    joined_front(dash, r);
    joined_last(r);
    let t = joined(r);
    let a = title(w).push(' ') + t;
    let d = dash.push(' ') + t;
    assert(a.last() == t.last() && d.last() == t.last());
    let x = cleaned(w.push(' ') + b);
    let y = cleaned(seq!['-', ' '] + b);
    assert(x =~= title(w) + y.skip(1));
    assert(y.take(2) =~= seq!['-', ' ']);
}

} // verus!
