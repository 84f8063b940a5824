//! Where the key of the hosted engine is looked for.
//!
//! `.env` files are read first: the one that the command line names, or else the system-wide
//! one and then the user's. They only fill in variables that are not set, or blank, so that
//! what a service unit or a shell exports always wins. Then the variables are consulted.

use crate::daemon::transcriber;
use crate::strings;
use crate::unix_path;
use crate::unix_path::UnixPath;
use vstd::prelude::*;
use vstd::string::*;

verus! {

/// `telora/.env` below the user's configuration directory.
pub open spec fn user_dotenv(config_dir: Seq<u8>) -> Seq<u8> {
    crate::paths::under(crate::paths::under(config_dir, "telora"@), ".env"@)
}

/// The user's `.env` file, where the configuration directory is known. It need not exist.
pub fn user_telora_dotenv_path(config_dir: &Option<UnixPath>) -> (r: Option<UnixPath>)
    ensures
        r is Some <==> *config_dir is Some,
        r matches Some(p) ==> p@ == user_dotenv(config_dir.unwrap()@),
{
    match config_dir {
        Some(d) => Some(d.join_text("telora").join_text(".env")),
        None => None,
    }
}

/// The system-wide `.env` file. It need not exist.
pub fn system_telora_dotenv_path() -> (r: UnixPath)
    ensures
        r@ == vstd::utf8::encode_utf8("/etc/telora/.env"@),
{
    UnixPath::from_text("/etc/telora/.env")
}

/// The `.env` files to read, in order.
pub open spec fn searched(cli_env_file: Option<UnixPath>, config_dir: Option<UnixPath>) -> Seq<
    Seq<u8>,
> {
    match cli_env_file {
        Some(p) => seq![p@],
        None => {
            let system = seq![vstd::utf8::encode_utf8("/etc/telora/.env"@)];
            match config_dir {
                Some(d) => system.push(user_dotenv(d@)),
                None => system,
            }
        },
    }
}

/// The `.env` files to read, in order: the one that the command line names, or else the
/// system-wide one and the user's.
pub fn dotenv_files(cli_env_file: &Option<UnixPath>, config_dir: &Option<UnixPath>) -> (r: Vec<
    UnixPath,
>)
    ensures
        unix_path::path_views(r@) == searched(*cli_env_file, *config_dir),
        r.len() > 0,
{
    let mut out: Vec<UnixPath> = Vec::new();
    match cli_env_file {
        Some(p) => {
            out.push(p.clone());
            assert(unix_path::path_views(out@) =~= seq![p@]);
        },
        None => {
            out.push(system_telora_dotenv_path());
            assert(unix_path::path_views(out@) =~= seq![
                vstd::utf8::encode_utf8("/etc/telora/.env"@),
            ]);
            let ghost system = unix_path::path_views(out@);
            if let Some(user) = user_telora_dotenv_path(config_dir) {
                out.push(user);
                assert(unix_path::path_views(out@) =~= system.push(
                    user_dotenv(config_dir.unwrap()@),
                ));
            }
        },
    }
    out
}

/// Paths as a list appears in messages.
pub open spec fn quoted_list(paths: Seq<Seq<u8>>) -> Seq<char>
    decreases paths.len(),
{
    if paths.len() == 0 {
        seq![]
    } else {
        let last = unix_path::quoted_path(paths.last());
        if paths.len() == 1 {
            last
        } else {
            quoted_list(paths.drop_last()) + ", "@ + last
        }
    }
}

fn quoted_paths(paths: &Vec<UnixPath>) -> (r: String)
    ensures
        r@ == quoted_list(unix_path::path_views(paths@)),
{
    let ghost all = unix_path::path_views(paths@);
    let mut out: String = String::new();
    let mut i: usize = 0;
    assert(out@ =~= quoted_list(all.take(0)));
    while i < paths.len()
        invariant
            i <= paths.len(),
            all == unix_path::path_views(paths@),
            all.len() == paths.len(),
            out@ == quoted_list(all.take(i as int)),
        decreases paths.len() - i,
    {
        assert(all.take(i + 1).drop_last() =~= all.take(i as int));
        assert(all.take(i + 1).last() == paths@[i as int]@);
        let one: String = paths[i].quoted();
        if i > 0 {
            out.append(", ");
            out.append(one.as_str());
        } else {
            out = one;
        }
        i = i + 1;
    }
    assert(all.take(i as int) =~= all);
    out
}

/// The first value that counts: set, and not blank.
pub open spec fn first_usable(values: Seq<Option<String>>) -> Option<Seq<char>>
    decreases values.len(),
{
    if values.len() == 0 {
        None
    } else if transcriber::usable_key(values[0]) is Some {
        transcriber::usable_key(values[0])
    } else {
        first_usable(values.drop_first())
    }
}

/// What a variable stands for: its exported value where that counts, else that of the first
/// file with one that counts.
pub open spec fn effective(exported: Option<String>, in_files: Seq<Option<String>>) -> Option<
    Seq<char>,
> {
    if transcriber::usable_key(exported) is Some {
        transcriber::usable_key(exported)
    } else {
        first_usable(in_files)
    }
}

/// The value of a variable. `in_files` holds what each file that was read says of it, in order.
pub fn effective_value(exported: &Option<String>, in_files: &Vec<Option<String>>) -> (r: Option<
    String,
>)
    ensures
        r matches Some(s) ==> effective(*exported, in_files@) == Some(s@),
        r is None ==> effective(*exported, in_files@) is None,
{
    if let Some(s) = transcriber::usable(exported) {
        return Some(s);
    }
    let mut i: usize = 0;
    assert(in_files@.skip(0) =~= in_files@);
    while i < in_files.len()
        invariant
            i <= in_files.len(),
            transcriber::usable_key(*exported) is None,
            first_usable(in_files@) == first_usable(in_files@.skip(i as int)),
        decreases in_files.len() - i,
    {
        assert(in_files@.skip(i as int)[0] == in_files@[i as int]);
        if let Some(s) = transcriber::usable(&in_files[i]) {
            return Some(s);
        }
        assert(in_files@.skip(i as int).drop_first() =~= in_files@.skip(i + 1));
        i = i + 1;
    }
    None
}

/// A variable is without a value only when every source of it is missing or blank, and an
/// exported value that counts always wins.
pub proof fn only_blank_sources_give_nothing(exported: Option<String>, in_files: Seq<Option<String>>)
    ensures
        effective(exported, in_files) is None <==> transcriber::usable_key(exported) is None
            && forall|i: int|
            0 <= i < in_files.len() ==> transcriber::usable_key(#[trigger] in_files[i]) is None,
        transcriber::usable_key(exported) is Some ==> effective(exported, in_files)
            == transcriber::usable_key(exported),
    decreases in_files.len(),
{
    if in_files.len() > 0 {
        let rest = in_files.drop_first();
        only_blank_sources_give_nothing(exported, rest);
        assert forall|i: int| 0 <= i < in_files.len() && i > 0 implies rest[i - 1]
            == #[trigger] in_files[i] by {}
        assert forall|i: int| 0 <= i < rest.len() implies in_files[i + 1]
            == #[trigger] rest[i] by {}
        if effective(exported, in_files) is None {
            assert forall|i: int| 0 <= i < in_files.len() implies transcriber::usable_key(
                #[trigger] in_files[i],
            ) is None by {
                if i > 0 {
                    assert(in_files[i] == rest[i - 1]);
                }
            }
        } else if transcriber::usable_key(exported) is None && transcriber::usable_key(in_files[0])
            is None {
            let k = choose|k: int|
                0 <= k < rest.len() && transcriber::usable_key(#[trigger] rest[k]) is Some;
            assert(in_files[k + 1] == rest[k]);
        }
    }
}

/// The key for the hosted engine, from the two variables as they stand once the `.env` files
/// were read: `VOXORA_MINIMAX_API_KEY`, else `MINIMAX_API_KEY`. A blank one does not count.
pub fn resolve_minimax_api_key(
    searched_files: &Vec<UnixPath>,
    prefixed: &Option<String>,
    plain: &Option<String>,
) -> (r: Result<String, String>)
    ensures
        r matches Ok(k) ==> transcriber::chosen_key(None, *prefixed, *plain) == Some(k@),
        r matches Err(m) ==> transcriber::chosen_key(None, *prefixed, *plain) is None && m@
            == "MINIMAX_API_KEY not set. Searched: ["@ + quoted_list(
            unix_path::path_views(searched_files@),
        )
            + "]. Add `MINIMAX_API_KEY=sk-…` to ~/.config/telora/.env (mode 0600), /etc/telora/.env, or export it in the systemd unit."@,
{
    match transcriber::resolve_minimax_api_key(&None, prefixed, plain) {
        Some(k) => Ok(k),
        None => {
            let mut out: String = "MINIMAX_API_KEY not set. Searched: [".to_owned();
            out.append(quoted_paths(searched_files).as_str());
            out.append(
                "]. Add `MINIMAX_API_KEY=sk-…` to ~/.config/telora/.env (mode 0600), /etc/telora/.env, or export it in the systemd unit.",
            );
            Err(out)
        },
    }
}

/// A file that the command line names is the only one that is read.
pub proof fn named_file_is_the_only_one(p: UnixPath, a: Option<UnixPath>, b: Option<UnixPath>)
    ensures
        searched(Some(p), a) == searched(Some(p), b),
        searched(Some(p), a).len() == 1,
        searched(None, a).len() > 0,
{
}

/// Without a file on the command line the system-wide file is read first, then `telora/.env`
/// below the configuration directory, where that is known.
pub proof fn files_in_order(p: UnixPath, d: UnixPath, any: Option<UnixPath>)
    ensures
        searched(Some(p), any) == seq![p@],
        searched(None, None) == seq![vstd::utf8::encode_utf8("/etc/telora/.env"@)],
        searched(None, Some(d)) == seq![
            vstd::utf8::encode_utf8("/etc/telora/.env"@),
            unix_path::join(
                unix_path::join(d@, vstd::utf8::encode_utf8("telora"@)),
                vstd::utf8::encode_utf8(".env"@),
            ),
        ],
{
}

/// What a variable stands for: what is exported, unless that is missing or blank; else what the
/// first file says that does not leave it out or blank.
pub proof fn values_in_order(exported: Option<String>, in_files: Seq<Option<String>>, k: int)
    requires
        0 <= k < in_files.len(),
        in_files[k] matches Some(v) && !strings::blank(v@),
        forall|i: int|
            0 <= i < k ==> (#[trigger] in_files[i] matches Some(w) ==> strings::blank(w@)),
    ensures
        effective(exported, in_files) == (match exported {
            Some(v) => if strings::blank(v@) {
                Some(in_files[k]->0@)
            } else {
                Some(v@)
            },
            None => Some(in_files[k]->0@),
        }),
    decreases in_files.len(),
{
    if k > 0 {
        let rest = in_files.drop_first();
        assert(rest[k - 1] == in_files[k]);
        assert(in_files[0] matches Some(w) ==> strings::blank(w@));
        assert forall|i: int| 0 <= i < k - 1 implies (#[trigger] rest[i] matches Some(w)
            ==> strings::blank(w@)) by {
            assert(rest[i] == in_files[i + 1]);
        }
        values_in_order(exported, rest, k - 1);
    }
}

/// A list of paths in messages: the quoted paths with a comma and a space in between.
pub proof fn listed_paths(paths: Seq<Seq<u8>>, p: Seq<u8>)
    ensures
        quoted_list(seq![]).len() == 0,
        quoted_list(seq![p]) == unix_path::quoted_path(p),
        paths.len() > 0 ==> quoted_list(paths.push(p)) == quoted_list(paths) + ", "@
            + unix_path::quoted_path(p),
{
    assert(paths.push(p).drop_last() =~= paths);
    assert(quoted_list(seq![]) =~= seq![]);
}

} // verus!
