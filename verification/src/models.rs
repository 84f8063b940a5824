//! The model manager: what it shows.

use crate::cache;
use crate::cache::{CacheRoot, NoCacheDirectory, Override};
use crate::daemon::socket;
use crate::strings;
use crate::unix_path;
use crate::unix_path::UnixPath;
use vstd::prelude::*;
use vstd::string::*;

verus! {

/// A cached model.
#[derive(Debug)]
pub struct CachedModel {
    pub path: UnixPath,
    /// Its size, for people.
    pub size: String,
    /// Whether its download was completed.
    pub complete: bool,
}

/// `s` cut to at most `max` characters: of a longer one the end is kept, behind three dots.
pub open spec fn shortened(s: Seq<char>, max: nat) -> Seq<char> {
    if s.len() <= max {
        s
    } else if max < 3 {
        "..."@
    } else {
        "..."@ + s.skip(s.len() - (max - 3))
    }
}

/// Cuts a text to a column of `max` characters; of a longer one the end is kept.
pub fn truncate(s: &str, max: usize) -> (r: String)
    ensures
        r@ == shortened(s@, max as nat),
{
    let chars: Vec<char> = strings::chars_of(s);
    if chars.len() <= max {
        return strings::string_of(&chars);
    }
    if max < 3 {
        return "...".to_owned();
    }
    let keep: usize = max - 3;
    let tail: Vec<char> = strings::sub_chars(&chars, chars.len() - keep, chars.len());
    assert(tail@ =~= s@.skip(s@.len() - (max - 3)));
    strings::cat("...", strings::string_of(&tail).as_str())
}

/// The cache directory that models are listed in and downloaded to.
pub fn resolve_cache_root(
    cli_override: Option<&Override>,
    env_override: Option<&Override>,
    root: &CacheRoot,
) -> (r: Result<UnixPath, NoCacheDirectory>)
    ensures
        r matches Ok(p) ==> cache::resolved_cache(cli_override, env_override, *root) == Some(p@),
        r is Err ==> cache::resolved_cache(cli_override, env_override, *root) is None,
{
    cache::resolve_voxora_cache(cli_override, env_override, root)
}

/// The line of a model in the list.
pub open spec fn model_line(m: CachedModel) -> Seq<char> {
    socket::padded(shortened(unix_path::shown(m.path@), 70), ' ', 70) + " "@ + socket::padded(
        m.size@,
        ' ',
        10,
    ) + " "@ + (if m.complete {
        "yes"@
    } else {
        "no"@
    }) + "\n"@
}

/// The lines of some models.
pub open spec fn model_lines(ms: Seq<CachedModel>) -> Seq<char>
    decreases ms.len(),
{
    if ms.len() == 0 {
        seq![]
    } else {
        model_lines(ms.drop_last()) + model_line(ms.last())
    }
}

/// The list of the cached models.
pub open spec fn model_list(ms: Seq<CachedModel>) -> Seq<char> {
    if ms.len() == 0 {
        "No models cached yet.\nRun `telora-models download <hf-model-id>` to fetch one.\nRun `voxora list` for the same view (recommended).\n"@
    } else {
        "Models cached by voxora (source-of-truth cache):\n"@ + socket::padded("PATH"@, ' ', 70)
            + " "@ + socket::padded("BYTES"@, ' ', 10) + " COMPLETE\n"@ + socket::padded(
            seq![],
            '-',
            70,
        ) + " "@ + socket::padded(seq![], '-', 10) + " "@ + socket::padded(seq![], '-', 8) + "\n"@
            + model_lines(ms)
            + "\nNote: telora-models now uses voxora's cache. Run `voxora list` for the same view.\n"@
    }
}

fn line_of(m: &CachedModel) -> (r: String)
    ensures
        r@ == model_line(*m),
{
    let shown: String = truncate(m.path.to_text().as_str(), 70);
    let mut out: String = socket::pad(shown.as_str(), ' ', 70);
    out.append(" ");
    out.append(socket::pad(m.size.as_str(), ' ', 10).as_str());
    out.append(" ");
    if m.complete {
        out.append("yes");
    } else {
        out.append("no");
    }
    out.append("\n");
    out
}

/// The list of the cached models.
pub fn list_cmd(entries: &Vec<CachedModel>) -> (r: String)
    ensures
        r@ == model_list(entries@),
{
    if entries.len() == 0 {
        return "No models cached yet.\nRun `telora-models download <hf-model-id>` to fetch one.\nRun `voxora list` for the same view (recommended).\n".to_owned();
    }
    proof {
        reveal_strlit("");
        assert(""@ =~= seq![]);
    }
    let mut out: String = "Models cached by voxora (source-of-truth cache):\n".to_owned();
    out.append(socket::pad("PATH", ' ', 70).as_str());
    out.append(" ");
    out.append(socket::pad("BYTES", ' ', 10).as_str());
    out.append(" COMPLETE\n");
    out.append(socket::pad("", '-', 70).as_str());
    out.append(" ");
    out.append(socket::pad("", '-', 10).as_str());
    out.append(" ");
    out.append(socket::pad("", '-', 8).as_str());
    out.append("\n");
    let ghost head = out@;
    let mut i: usize = 0;
    assert(head + model_lines(entries@.take(0)) =~= head);
    while i < entries.len()
        invariant
            i <= entries.len(),
            out@ == head + model_lines(entries@.take(i as int)),
        decreases entries.len() - i,
    {
        let ghost before = out@;
        out.append(line_of(&entries[i]).as_str());
        assert(entries@.take(i + 1).drop_last() =~= entries@.take(i as int));
        assert(out@ =~= head + model_lines(entries@.take(i + 1)));
        i = i + 1;
    }
    assert(entries@.take(i as int) =~= entries@);
    out.append(
        "\nNote: telora-models now uses voxora's cache. Run `voxora list` for the same view.\n",
    );
    out
}

/// What is said of a model that was downloaded. `quantization` and `source` are as the model
/// source describes them.
pub fn download_report(model_id: &str, path: &UnixPath, quantization: &str, source: &str) -> (r:
    String)
    ensures
        r@ == "Model "@ + strings::debug_text(model_id@) + " is ready at "@ + unix_path::shown(
            path@,
        ) + ".\nQuantization: "@ + quantization@ + "\nSource:       "@ + source@
            + "\n\nNext: set `model_id = "@ + strings::debug_text(model_id@)
            + "` in telora.toml and start the daemon.\n"@,
{
    let id: String = strings::quoted(model_id);
    let mut out: String = "Model ".to_owned();
    out.append(id.as_str());
    out.append(" is ready at ");
    out.append(path.to_text().as_str());
    out.append(".\nQuantization: ");
    out.append(quantization);
    out.append("\nSource:       ");
    out.append(source);
    out.append("\n\nNext: set `model_id = ");
    out.append(id.as_str());
    out.append("` in telora.toml and start the daemon.\n");
    out
}

/// What is said of the cache directory.
pub fn path_cmd(cache_root: &UnixPath) -> (r: String)
    ensures
        r@ == "Telora (voxora) model cache: "@ + unix_path::shown(cache_root@) + "\n"@,
{
    let mut out: String = "Telora (voxora) model cache: ".to_owned();
    out.append(cache_root.to_text().as_str());
    out.append("\n");
    out
}

/// A cut text fits its column, and is the end of the text behind the dots.
pub proof fn shortened_fits(s: Seq<char>, max: nat)
    requires
        max >= 3,
    ensures
        shortened(s, max).len() <= max,
        s.len() > max ==> shortened(s, max).len() == max && shortened(s, max).skip(3)
            == s.skip(s.len() - (max - 3)),
{
    reveal_strlit("...");
    if s.len() > max {
        assert(shortened(s, max).skip(3) =~= s.skip(s.len() - (max - 3)));
    }
}

/// A text that fits its column is not cut, and of one that is cut nothing but dots stand before
/// the end that is kept; a column too narrow for the dots shows them alone.
pub proof fn what_is_cut(s: Seq<char>, max: nat)
    ensures
        s.len() <= max ==> shortened(s, max) == s,
        s.len() > max && max < 3 ==> shortened(s, max) == seq!['.', '.', '.'],
        s.len() > max && max >= 3 ==> shortened(s, max).take(3) == seq!['.', '.', '.'],
        s.len() > max && max >= 3 ==> shortened(s, max).skip(3).is_suffix_of(s),
{
    reveal_strlit("...");
    assert("..."@ =~= seq!['.', '.', '.']);
    if s.len() > max && max >= 3 {
        assert(shortened(s, max).take(3) =~= seq!['.', '.', '.']);
        assert(shortened(s, max).skip(3) =~= s.skip(s.len() - (max - 3)));
        assert(s.skip(s.len() - (max - 3)).is_suffix_of(s));
    }
}

/// The line of a model: its path in the first seventy columns, its size from the seventy-second
/// on in ten, then whether it is complete.
pub proof fn columns_of_a_model(m: CachedModel)
    requires
        m.size@.len() <= 10,
    ensures
        ({
            let text = model_line(m);
            let path = unix_path::shown(m.path@);
            &&& path.len() <= 70 ==> text.take(path.len() as int) == path && forall|i: int|
                path.len() <= i < 70 ==> #[trigger] text[i] == ' '
            &&& path.len() > 70 ==> text.subrange(3, 70) == path.skip(path.len() - 67)
            &&& text[70] == ' ' && text.subrange(71, 71 + m.size@.len() as int) == m.size@
            &&& text[81] == ' '
            &&& text.skip(82) == (if m.complete {
                seq!['y', 'e', 's', '\n']
            } else {
                seq!['n', 'o', '\n']
            })
        }),
{
    reveal_strlit(" ");
    reveal_strlit("yes");
    reveal_strlit("no");
    reveal_strlit("\n");
    let path = unix_path::shown(m.path@);
    shortened_fits(path, 70);
    what_is_cut(path, 70);
    let cut = shortened(path, 70);
    let a = socket::padded(cut, ' ', 70);
    let b = socket::padded(m.size@, ' ', 10);
    assert(a.len() == 70 && b.len() == 10);
    let text = model_line(m);
    if path.len() <= 70 {
        assert(text.take(path.len() as int) =~= path);
    } else {
        assert(text.subrange(3, 70) =~= cut.skip(3));
    }
    assert(text.subrange(71, 71 + m.size@.len() as int) =~= m.size@);
    assert(text.skip(82) =~= (if m.complete {
        seq!['y', 'e', 's', '\n']
    } else {
        seq!['n', 'o', '\n']
    }));
}

/// Each model has its line, in order.
pub proof fn lists_keep_the_order(a: Seq<CachedModel>, b: Seq<CachedModel>, m: CachedModel)
    ensures
        model_lines(a + b) == model_lines(a) + model_lines(b),
        model_lines(seq![m]) == model_line(m),
        model_lines(seq![]).len() == 0,
    decreases b.len(),
{
    assert(seq![m].drop_last() =~= Seq::<CachedModel>::empty());
    assert(model_lines(Seq::<CachedModel>::empty()) =~= Seq::<char>::empty());
    assert(model_lines(seq![m]) =~= model_line(m));
    if b.len() == 0 {
        assert(a + b =~= a);
        assert(model_lines(a) + model_lines(b) =~= model_lines(a));
    } else {
        lists_keep_the_order(a, b.drop_last(), m);
        assert((a + b).drop_last() =~= a + b.drop_last());
        assert(model_lines(a + b) =~= model_lines(a) + model_lines(b));
    }
}

/// A list with models in it holds their lines between a heading and a note; an empty one says
/// how to fetch a model.
pub proof fn what_lists_say(ms: Seq<CachedModel>)
    ensures
        ms.len() == 0 ==> model_list(ms)
            == "No models cached yet.\nRun `telora-models download <hf-model-id>` to fetch one.\nRun `voxora list` for the same view (recommended).\n"@,
        ms.len() > 0 ==> "Models cached by voxora (source-of-truth cache):\n"@.is_prefix_of(
            model_list(ms),
        ),
        ms.len() > 0 ==> (model_lines(ms)
            + "\nNote: telora-models now uses voxora's cache. Run `voxora list` for the same view.\n"@).is_suffix_of(
            model_list(ms),
        ),
{
    if ms.len() > 0 {
        let all = model_list(ms);
        let top = "Models cached by voxora (source-of-truth cache):\n"@;
        let note = "\nNote: telora-models now uses voxora's cache. Run `voxora list` for the same view.\n"@;
        let head = top + socket::padded("PATH"@, ' ', 70) + " "@ + socket::padded(
            "BYTES"@,
            ' ',
            10,
        ) + " COMPLETE\n"@ + socket::padded(seq![], '-', 70) + " "@ + socket::padded(
            seq![],
            '-',
            10,
        ) + " "@ + socket::padded(seq![], '-', 8) + "\n"@;
        assert(all =~= head + (model_lines(ms) + note));
        assert(top =~= all.take(top.len() as int));
        let tail = model_lines(ms) + note;
        assert(tail =~= all.subrange(all.len() - tail.len(), all.len() as int));
    }
}

} // verus!
