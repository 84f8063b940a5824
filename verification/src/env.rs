//! Environment variables as configuration keys.
//!
//! `TELORA_PATHS__SOCKET_DIR` is the key `paths.socket_dir`: the prefix `TELORA_` is dropped,
//! the rest is in lower case, and two underscores separate the sections.

use crate::strings;
use vstd::prelude::*;
use vstd::string::*;

verus! {

/// How environment variables are turned into configuration keys.
#[derive(Debug)]
pub struct EnvSource {
    pub prefix: String,
    /// What stands between the prefix and the key.
    pub prefix_separator: String,
    /// What stands between the sections of a key.
    pub separator: String,
}

/// `s` with each occurrence of `sep`, from left to right, replaced by a dot.
pub open spec fn dotted(s: Seq<char>, sep: Seq<char>) -> Seq<char>
    decreases s.len(),
{
    if sep.len() == 0 || s.len() < sep.len() {
        s
    } else if s.take(sep.len() as int) == sep {
        seq!['.'] + dotted(s.skip(sep.len() as int), sep)
    } else {
        seq![s[0]] + dotted(s.drop_first(), sep)
    }
}

/// The key and value of a variable, where everything is ASCII: the prefix is looked for without
/// regard to case and dropped, and the rest is in lower case with dots for separators.
pub open spec fn ascii_entry(
    prefix: Seq<char>,
    prefix_separator: Seq<char>,
    separator: Seq<char>,
    name: Seq<char>,
    value: Seq<char>,
) -> Option<(Seq<char>, Seq<char>)> {
    let key = strings::ascii_lowercase(name);
    let pattern = strings::ascii_lowercase(prefix + prefix_separator);
    if pattern.is_prefix_of(key) {
        Some((dotted(key.skip(pattern.len() as int), separator), value))
    } else {
        None
    }
}

/// What `config::Environment` makes of one variable, where something is not ASCII.
pub uninterp spec fn unicode_entry(
    prefix: Seq<char>,
    prefix_separator: Seq<char>,
    separator: Seq<char>,
    name: Seq<char>,
    value: Seq<char>,
) -> Option<(Seq<char>, Seq<char>)>;

/// What decides whether a variable is matched by its ASCII rules.
pub open spec fn all_ascii(prefix: Seq<char>, prefix_separator: Seq<char>, name: Seq<char>) -> bool {
    vstd::utf8::is_ascii_chars(prefix) && vstd::utf8::is_ascii_chars(prefix_separator)
        && vstd::utf8::is_ascii_chars(name)
}

/// The key and value of a variable.
pub open spec fn entry(
    prefix: Seq<char>,
    prefix_separator: Seq<char>,
    separator: Seq<char>,
    name: Seq<char>,
    value: Seq<char>,
) -> Option<(Seq<char>, Seq<char>)> {
    if all_ascii(prefix, prefix_separator, name) {
        ascii_entry(prefix, prefix_separator, separator, name, value)
    } else {
        unicode_entry(prefix, prefix_separator, separator, name, value)
    }
}

/// The values of a key and its value.
pub open spec fn entry_view(r: Option<(String, String)>) -> Option<(Seq<char>, Seq<char>)> {
    match r {
        Some(e) => Some((e.0@, e.1@)),
        None => None,
    }
}

/// `config::Environment` with a prefix, a prefix separator and a separator, over an environment
/// of one variable: the key and value that it collects, if any. Lower-casing beyond ASCII is
/// left to the name.
#[verifier::external_body]
fn collect_one(prefix: &str, prefix_separator: &str, separator: &str, name: &str, value: &str) -> (r:
    Option<(String, String)>)
    ensures
        all_ascii(prefix@, prefix_separator@, name@) ==> entry_view(r) == ascii_entry(
            prefix@,
            prefix_separator@,
            separator@,
            name@,
            value@,
        ),
        !all_ascii(prefix@, prefix_separator@, name@) ==> entry_view(r) == unicode_entry(
            prefix@,
            prefix_separator@,
            separator@,
            name@,
            value@,
        ),
{
    let mut vars = config::Map::new();
    vars.insert(name.to_string(), value.to_string());
    let source = config::Environment::with_prefix(prefix).prefix_separator(prefix_separator)
        .separator(separator).source(Some(vars));
    let (key, found) = config::Source::collect(&source).ok()?.into_iter().next()?;
    Some((key, found.into_string().ok()?))
}

/// The source of `TELORA_*` variables: `TELORA`, then `_`, then the key with `__` between its
/// sections.
pub fn telora_env_source() -> (r: EnvSource)
    ensures
        r.prefix@ == "TELORA"@,
        r.prefix_separator@ == "_"@,
        r.separator@ == "__"@,
{
    EnvSource {
        prefix: "TELORA".to_owned(),
        prefix_separator: "_".to_owned(),
        separator: "__".to_owned(),
    }
}

impl EnvSource {
    /// The configuration key and value of a variable; `None` for one without the prefix.
    pub fn collect(&self, name: &str, value: &str) -> (r: Option<(String, String)>)
        ensures
            entry_view(r) == entry(
                self.prefix@,
                self.prefix_separator@,
                self.separator@,
                name@,
                value@,
            ),
    {
        collect_one(
            self.prefix.as_str(),
            self.prefix_separator.as_str(),
            self.separator.as_str(),
            name,
            value,
        )
    }
}

/// A `TELORA_` variable with an ASCII name always has a key, made of what follows the prefix,
/// and keeps its value.
pub proof fn telora_variables_have_keys(rest: Seq<char>, value: Seq<char>)
    requires
        vstd::utf8::is_ascii_chars(rest),
    ensures
        entry("TELORA"@, "_"@, "__"@, "TELORA_"@ + rest, value) == Some(
            (dotted(strings::ascii_lowercase(rest), "__"@), value),
        ),
{
    reveal_strlit("TELORA");
    reveal_strlit("_");
    reveal_strlit("TELORA_");
    let name = "TELORA_"@ + rest;
    assert(vstd::utf8::is_ascii_chars(name)) by {
        assert forall|i: int| 0 <= i < name.len() implies '\0' <= #[trigger] name[i] <= '\u{7f}' by {
            if i >= 7 {
                assert(name[i] == rest[i - 7]);
            }
        }
    }
    let key = strings::ascii_lowercase(name);
    let pattern = strings::ascii_lowercase("TELORA"@ + "_"@);
    assert("TELORA"@ + "_"@ =~= "TELORA_"@);
    assert(pattern =~= key.take(7));
    assert(key.skip(7) =~= strings::ascii_lowercase(rest));
}

/// A name without two underscores in a row is one section: a single underscore separates
/// nothing.
pub proof fn single_underscores_stay(s: Seq<char>)
    requires
        forall|i: int| 0 <= i < s.len() - 1 ==> !(#[trigger] s[i] == '_' && s[i + 1] == '_'),
    ensures
        dotted(s, "__"@) == s,
    decreases s.len(),
{
    reveal_strlit("__");
    if s.len() >= 2 {
        let head = s.take(2);
        assert(head[0] == s[0] && head[1] == s[1]);
        assert(!(s[0] == '_' && s[1] == '_'));
        let t = s.drop_first();
        assert forall|i: int| 0 <= i < t.len() - 1 implies !(#[trigger] t[i] == '_' && t[i + 1]
            == '_') by {
            assert(t[i] == s[i + 1]);
        }
        single_underscores_stay(t);
        assert(seq![s[0]] + t =~= s);
    }
}

} // verus!
