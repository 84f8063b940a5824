//! The front end's configuration.

use crate::gui::shortcut;
use crate::strings;
use crate::unix_path;
use crate::unix_path::UnixPath;
use vstd::prelude::*;
use vstd::string::*;

verus! {

/// Which shortcut pastes, by default and in particular applications.
#[derive(Debug)]
pub struct GuiConfig {
    pub paste_shortcut: String,
    /// Application and shortcut; no application occurs twice.
    pub paste_shortcut_by_app: Vec<(String, String)>,
}

/// What `gui.toml` holds.
#[derive(Debug)]
pub struct RawGuiConfig {
    pub paste_shortcut: Option<String>,
    pub paste_shortcut_by_app: Option<Vec<(String, String)>>,
}

/// What came of looking for `gui.toml`.
#[derive(Debug)]
pub enum ConfigFile {
    /// It is not known where to look.
    NoPath,
    Missing,
    Unreadable,
    /// It is not valid TOML.
    Malformed,
    Parsed(RawGuiConfig),
}

/// The values of a list of pairs.
pub open spec fn pair_views(v: Seq<(String, String)>) -> Seq<(Seq<char>, Seq<char>)> {
    v.map_values(|p: (String, String)| (p.0@, p.1@))
}

/// The value of `key`: that of the last pair with it.
pub open spec fn lookup(v: Seq<(Seq<char>, Seq<char>)>, key: Seq<char>) -> Option<Seq<char>>
    decreases v.len(),
{
    if v.len() == 0 {
        None
    } else if v.last().0 == key {
        Some(v.last().1)
    } else {
        lookup(v.drop_last(), key)
    }
}

/// No key occurs twice.
pub open spec fn distinct(v: Seq<(Seq<char>, Seq<char>)>) -> bool {
    forall|i: int, j: int| 0 <= i < j < v.len() ==> (#[trigger] v[i]).0 != (#[trigger] v[j]).0
}

/// The shortcuts of terminals that do not paste with `ctrl+v`.
pub open spec fn default_pairs() -> Seq<(Seq<char>, Seq<char>)> {
    seq![
        ("Alacritty"@, "shift+insert"@),
        ("kitty"@, "ctrl+shift+v"@),
        ("foot"@, "ctrl+shift+v"@),
        ("wezterm"@, "ctrl+shift+v"@),
        ("konsole"@, "ctrl+shift+v"@),
        ("org.gnome.Terminal"@, "ctrl+shift+v"@),
        ("xfce4-terminal"@, "ctrl+shift+v"@),
    ]
}

/// The keys and values of the second list win over those of the first.
pub open spec fn overlaid(
    base: Seq<(Seq<char>, Seq<char>)>,
    over: Seq<(Seq<char>, Seq<char>)>,
    key: Seq<char>,
) -> Option<Seq<char>> {
    if lookup(over, key) is Some {
        lookup(over, key)
    } else {
        lookup(base, key)
    }
}

impl GuiConfig {
    /// The values of the application shortcuts.
    pub open spec fn apps(self) -> Seq<(Seq<char>, Seq<char>)> {
        pair_views(self.paste_shortcut_by_app@)
    }

    /// No application occurs twice.
    pub open spec fn wf(self) -> bool {
        distinct(self.apps())
    }
}

fn push_pair(v: &mut Vec<(String, String)>, key: &str, value: &str)
    ensures
        pair_views(final(v)@) == pair_views(old(v)@).push((key@, value@)),
{
    let ghost before = pair_views(v@);
    v.push((key.to_owned(), value.to_owned()));
    assert(pair_views(v@) =~= before.push((key@, value@)));
}

proof fn default_pairs_distinct()
    ensures
        distinct(default_pairs()),
{
    reveal_strlit("Alacritty");
    reveal_strlit("kitty");
    reveal_strlit("foot");
    reveal_strlit("wezterm");
    reveal_strlit("konsole");
    reveal_strlit("org.gnome.Terminal");
    reveal_strlit("xfce4-terminal");
    assert("kitty"@[1] != "konsole"@[1]);
    assert("Alacritty"@[0] == 'A');
    assert("kitty"@[0] == 'k');
    assert("foot"@[0] == 'f');
    assert("wezterm"@[0] == 'w');
    assert("konsole"@[0] == 'k');
    assert("org.gnome.Terminal"@[0] == 'o');
    assert("xfce4-terminal"@[0] == 'x');
}

impl Default for GuiConfig {
    fn default() -> (r: Self)
        ensures
            r.wf(),
            r.paste_shortcut@ == "ctrl+v"@,
            r.apps() == default_pairs(),
    {
        let mut apps: Vec<(String, String)> = Vec::new();
        push_pair(&mut apps, "Alacritty", "shift+insert");
        push_pair(&mut apps, "kitty", "ctrl+shift+v");
        push_pair(&mut apps, "foot", "ctrl+shift+v");
        push_pair(&mut apps, "wezterm", "ctrl+shift+v");
        push_pair(&mut apps, "konsole", "ctrl+shift+v");
        push_pair(&mut apps, "org.gnome.Terminal", "ctrl+shift+v");
        push_pair(&mut apps, "xfce4-terminal", "ctrl+shift+v");
        assert(pair_views(apps@) =~= default_pairs());
        proof {
            default_pairs_distinct();
        }
        GuiConfig { paste_shortcut: "ctrl+v".to_owned(), paste_shortcut_by_app: apps }
    }
}

proof fn lookup_none(v: Seq<(Seq<char>, Seq<char>)>, key: Seq<char>)
    requires
        forall|i: int| 0 <= i < v.len() ==> (#[trigger] v[i]).0 != key,
    ensures
        lookup(v, key) is None,
    decreases v.len(),
{
    if v.len() > 0 {
        assert(v[v.len() - 1].0 != key);
        assert forall|i: int| 0 <= i < v.drop_last().len() implies (#[trigger] v.drop_last()[i]).0
            != key by {
            assert(v.drop_last()[i] == v[i]);
        }
        lookup_none(v.drop_last(), key);
    }
}

proof fn lookup_at(v: Seq<(Seq<char>, Seq<char>)>, i: int)
    requires
        distinct(v),
        0 <= i < v.len(),
    ensures
        lookup(v, v[i].0) == Some(v[i].1),
    decreases v.len(),
{
    if i < v.len() - 1 {
        let t = v.drop_last();
        assert(v[i].0 != v[v.len() - 1].0);
        assert forall|a: int, b: int| 0 <= a < b < t.len() implies (#[trigger] t[a]).0 != (
        #[trigger] t[b]).0 by {
            assert(t[a] == v[a]);
            assert(t[b] == v[b]);
        }
        lookup_at(t, i);
    }
}

proof fn lookup_update(v: Seq<(Seq<char>, Seq<char>)>, i: int, value: Seq<char>, key: Seq<char>)
    requires
        distinct(v),
        0 <= i < v.len(),
    ensures
        lookup(v.update(i, (v[i].0, value)), key) == if key == v[i].0 {
            Some(value)
        } else {
            lookup(v, key)
        },
    decreases v.len(),
{
    let w = v.update(i, (v[i].0, value));
    let t = v.drop_last();
    assert forall|a: int, b: int| 0 <= a < b < t.len() implies (#[trigger] t[a]).0 != (
    #[trigger] t[b]).0 by {
        assert(t[a] == v[a]);
        assert(t[b] == v[b]);
    }
    if i == v.len() - 1 {
        assert(w.drop_last() =~= t);
    } else {
        assert(w.drop_last() =~= t.update(i, (t[i].0, value)));
        assert(v[i].0 != v[v.len() - 1].0);
        lookup_update(t, i, value, key);
    }
}

/// Puts a pair into a list without doubles: the value of a key that is there is replaced.
fn insert_pair(v: &mut Vec<(String, String)>, key: &String, value: &String)
    requires
        distinct(pair_views(old(v)@)),
    ensures
        distinct(pair_views(final(v)@)),
        forall|k: Seq<char>| #[trigger] lookup(pair_views(final(v)@), k) == if k == key@ {
            Some(value@)
        } else {
            lookup(pair_views(old(v)@), k)
        },
{
    let ghost before = pair_views(v@);
    let mut i: usize = 0;
    while i < v.len()
        invariant
            i <= v.len(),
            pair_views(v@) == before,
            before == pair_views(old(v)@),
            distinct(before),
            before.len() == v.len(),
            forall|j: int| 0 <= j < i ==> (#[trigger] before[j]).0 != key@,
        decreases v.len() - i,
    {
        assert(before[i as int] == (v@[i as int].0@, v@[i as int].1@));
        if strings::same(v[i].0.as_str(), key.as_str()) {
            let name: String = v[i].0.clone();
            v.set(i, (name, value.clone()));
            let ghost after = pair_views(v@);
            proof {
                assert(after =~= before.update(i as int, (before[i as int].0, value@)));
                assert forall|a: int, b: int| 0 <= a < b < after.len() implies (
                #[trigger] after[a]).0 != (#[trigger] after[b]).0 by {
                    assert(before[a].0 != before[b].0);
                }
                assert forall|k: Seq<char>| #[trigger] lookup(after, k) == if k == key@ {
                    Some(value@)
                } else {
                    lookup(before, k)
                } by {
                    lookup_update(before, i as int, value@, k);
                }
            }
            return;
        }
        i = i + 1;
    }
    v.push((key.clone(), value.clone()));
    let ghost after = pair_views(v@);
    proof {
        assert(after =~= before.push((key@, value@)));
        assert forall|a: int, b: int| 0 <= a < b < after.len() implies (#[trigger] after[a]).0 != (
        #[trigger] after[b]).0 by {
            assert(after[a] == before[a]);
            if b < before.len() {
                assert(after[b] == before[b]);
            }
        }
        assert(after.drop_last() =~= before);
    }
}

impl GuiConfig {
    /// The configuration for what came of looking for `gui.toml`. Anything but a valid file
    /// means the defaults; a blank default shortcut does not count; application shortcuts are
    /// added to the built-in ones and win over them.
    pub fn load(file: &ConfigFile) -> (r: GuiConfig)
        ensures
            r.wf(),
            match *file {
                ConfigFile::Parsed(raw) => {
                    &&& r.paste_shortcut@ == if raw.paste_shortcut is Some && !strings::blank(
                        raw.paste_shortcut.unwrap()@,
                    ) {
                        raw.paste_shortcut.unwrap()@
                    } else {
                        "ctrl+v"@
                    }
                    &&& forall|k: Seq<char>| #[trigger] lookup(r.apps(), k) == overlaid(
                        default_pairs(),
                        match raw.paste_shortcut_by_app {
                            Some(v) => pair_views(v@),
                            None => seq![],
                        },
                        k,
                    )
                },
                _ => r.paste_shortcut@ == "ctrl+v"@ && r.apps() == default_pairs(),
            },
    {
        let mut cfg: GuiConfig = GuiConfig::default();
        match file {
            ConfigFile::Parsed(raw) => {
                if let Some(s) = &raw.paste_shortcut {
                    proof {
                        strings::blank_iff_trim_empty(s@);
                    }
                    if strings::trim_chars(&strings::chars_of(s.as_str())).len() > 0 {
                        cfg.paste_shortcut = s.clone();
                    }
                }
                if let Some(map) = &raw.paste_shortcut_by_app {
                    let ghost over = pair_views(map@);
                    let ghost shortcut = cfg.paste_shortcut@;
                    let mut i: usize = 0;
                    while i < map.len()
                        invariant
                            i <= map.len(),
                            over == pair_views(map@),
                            over.len() == map.len(),
                            cfg.wf(),
                            cfg.paste_shortcut@ == shortcut,
                            forall|k: Seq<char>| #[trigger] lookup(cfg.apps(), k) == overlaid(
                                default_pairs(),
                                over.take(i as int),
                                k,
                            ),
                        decreases map.len() - i,
                    {
                        let ghost before = cfg.apps();
                        insert_pair(&mut cfg.paste_shortcut_by_app, &map[i].0, &map[i].1);
                        proof {
                            let next = over.take(i + 1);
                            assert(next.drop_last() =~= over.take(i as int));
                            assert(next.last() == (map@[i as int].0@, map@[i as int].1@));
                            assert forall|k: Seq<char>|
                                #[trigger] lookup(cfg.apps(), k) == overlaid(
                                    default_pairs(),
                                    next,
                                    k,
                                ) by {
                                assert(lookup(before, k) == overlaid(
                                    default_pairs(),
                                    over.take(i as int),
                                    k,
                                ));
                            }
                        }
                        i = i + 1;
                    }
                    assert(over.take(i as int) =~= over);
                }
                cfg
            },
            _ => cfg,
        }
    }

    /// The shortcut that pastes in an application; the default one where it is unknown.
    pub open spec fn shortcut_in(self, app_id: Option<&str>) -> Seq<char> {
        match app_id {
            Some(id) => match lookup(self.apps(), id@) {
                Some(s) => s,
                None => self.paste_shortcut@,
            },
            None => self.paste_shortcut@,
        }
    }

    /// The `wtype` arguments that paste in an application.
    pub fn paste_arguments(&self, app_id: Option<&str>) -> (r: Vec<String>)
        requires
            self.wf(),
        ensures
            strings::texts(r@) == shortcut::arguments(self.shortcut_in(app_id)),
    {
        shortcut::parse_shortcut(self.resolve_paste_shortcut(app_id).as_str())
    }

    /// The shortcut that pastes in an application; the default one where it is unknown.
    pub fn resolve_paste_shortcut(&self, app_id: Option<&str>) -> (r: String)
        requires
            self.wf(),
        ensures
            r@ == self.shortcut_in(app_id),
    {
        if let Some(id) = app_id {
            let ghost apps = self.apps();
            let mut i: usize = 0;
            while i < self.paste_shortcut_by_app.len()
                invariant
                    self.wf(),
                    i <= self.paste_shortcut_by_app.len(),
                    apps == self.apps(),
                    apps.len() == self.paste_shortcut_by_app.len(),
                    app_id == Some(id),
                    forall|j: int| 0 <= j < i ==> (#[trigger] apps[j]).0 != id@,
                decreases self.paste_shortcut_by_app.len() - i,
            {
                assert(apps[i as int] == (
                    self.paste_shortcut_by_app@[i as int].0@,
                    self.paste_shortcut_by_app@[i as int].1@,
                ));
                if strings::same(self.paste_shortcut_by_app[i].0.as_str(), id) {
                    proof {
                        lookup_at(apps, i as int);
                    }
                    return self.paste_shortcut_by_app[i].1.clone();
                }
                i = i + 1;
            }
            proof {
                lookup_none(apps, id@);
            }
        }
        self.paste_shortcut.clone()
    }
}

/// `gui.toml` in `$XDG_CONFIG_HOME/telora`, or in `~/.config/telora`.
pub open spec fn gui_toml(xdg_config_home: Option<String>, home: Option<String>) -> Option<
    Seq<u8>,
> {
    match (crate::paths::given_text(xdg_config_home), crate::paths::given_text(home)) {
        (Some(x), _) => Some(crate::paths::under(crate::paths::under(x, "telora"@), "gui.toml"@)),
        (None, Some(h)) => Some(
            crate::paths::under(
                crate::paths::under(crate::paths::under(h, ".config"@), "telora"@),
                "gui.toml"@,
            ),
        ),
        _ => None,
    }
}

/// Where `gui.toml` is.
pub fn config_path(xdg_config_home: &Option<String>, home: &Option<String>) -> (r: Option<UnixPath>)
    ensures
        r matches Some(p) ==> gui_toml(*xdg_config_home, *home) == Some(p@),
        r is None ==> gui_toml(*xdg_config_home, *home) is None,
{
    if let Some(x) = crate::paths::given_text_of(xdg_config_home) {
        return Some(x.join_text("telora").join_text("gui.toml"));
    }
    if let Some(h) = crate::paths::given_text_of(home) {
        return Some(h.join_text(".config").join_text("telora").join_text("gui.toml"));
    }
    None
}

/// The files that the socket paths are read from, the one that counts least first. None of them
/// has to exist; environment variables count more.
pub fn path_config_files(home: &Option<String>) -> (r: Vec<String>)
    ensures
        strings::texts(r@) == (match *home {
            Some(h) => if h@.len() > 0 {
                seq!["/etc/telora.toml"@, h@ + "/.config/telora/config.toml"@]
            } else {
                seq!["/etc/telora.toml"@]
            },
            None => seq!["/etc/telora.toml"@],
        }),
{
    let mut out: Vec<String> = Vec::new();
    out.push("/etc/telora.toml".to_owned());
    assert(strings::texts(out@) =~= seq!["/etc/telora.toml"@]);
    if let Some(h) = home {
        let chars: Vec<char> = strings::chars_of(h.as_str());
        if chars.len() > 0 {
            out.push(strings::cat(h.as_str(), "/.config/telora/config.toml"));
            assert(strings::texts(out@) =~= seq![
                "/etc/telora.toml"@,
                h@ + "/.config/telora/config.toml"@,
            ]);
        }
    }
    out
}

/// An application that the file names gets the shortcut from the file; any other one keeps the
/// built-in shortcut, where it has one.
pub proof fn file_wins_over_defaults(over: Seq<(Seq<char>, Seq<char>)>, key: Seq<char>)
    ensures
        lookup(over, key) is Some ==> overlaid(default_pairs(), over, key) == lookup(over, key),
        lookup(over, key) is None ==> overlaid(default_pairs(), over, key) == lookup(
            default_pairs(),
            key,
        ),
{
}

/// The terminals that are known to paste with another shortcut than `ctrl+v`, and theirs.
pub proof fn built_in_shortcuts(key: Seq<char>)
    ensures
        key == "Alacritty"@ ==> lookup(default_pairs(), key) == Some("shift+insert"@),
        key == "kitty"@ || key == "foot"@ || key == "wezterm"@ || key == "konsole"@ || key
            == "org.gnome.Terminal"@ || key == "xfce4-terminal"@ ==> lookup(default_pairs(), key)
            == Some("ctrl+shift+v"@),
        key != "Alacritty"@ && key != "kitty"@ && key != "foot"@ && key != "wezterm"@ && key
            != "konsole"@ && key != "org.gnome.Terminal"@ && key != "xfce4-terminal"@ ==> lookup(
            default_pairs(),
            key,
        ) is None,
{
    default_pairs_distinct();
    let v = default_pairs();
    if key == "Alacritty"@ {
        lookup_at(v, 0);
    } else if key == "kitty"@ {
        lookup_at(v, 1);
    } else if key == "foot"@ {
        lookup_at(v, 2);
    } else if key == "wezterm"@ {
        lookup_at(v, 3);
    } else if key == "konsole"@ {
        lookup_at(v, 4);
    } else if key == "org.gnome.Terminal"@ {
        lookup_at(v, 5);
    } else if key == "xfce4-terminal"@ {
        lookup_at(v, 6);
    } else {
        lookup_none(v, key);
    }
}

/// The last pair with a key gives its value; a key without a pair has none.
pub proof fn last_pair_counts(v: Seq<(Seq<char>, Seq<char>)>, key: Seq<char>, k: int)
    requires
        0 <= k < v.len() ==> v[k].0 == key,
        -1 <= k < v.len(),
        forall|i: int| k < i < v.len() ==> (#[trigger] v[i]).0 != key,
    ensures
        k >= 0 ==> lookup(v, key) == Some(v[k].1),
        k < 0 ==> lookup(v, key) is None,
    decreases v.len(),
{
    if v.len() > 0 && k < v.len() - 1 {
        let t = v.drop_last();
        assert(v[v.len() - 1].0 != key);
        assert forall|i: int| k < i < t.len() implies (#[trigger] t[i]).0 != key by {
            assert(t[i] == v[i]);
        }
        last_pair_counts(t, key, k);
    }
}

/// Which shortcut pastes: that of the application where it has one, else the default one.
pub proof fn shortcuts_in_order(cfg: GuiConfig, id: &str, k: int)
    requires
        cfg.wf(),
    ensures
        cfg.shortcut_in(None) == cfg.paste_shortcut@,
        0 <= k < cfg.paste_shortcut_by_app@.len() && cfg.paste_shortcut_by_app@[k].0@ == id@
            ==> cfg.shortcut_in(Some(id)) == cfg.paste_shortcut_by_app@[k].1@,
        (forall|i: int|
            0 <= i < cfg.paste_shortcut_by_app@.len() ==> (
            #[trigger] cfg.paste_shortcut_by_app@[i]).0@ != id@) ==> cfg.shortcut_in(Some(id))
            == cfg.paste_shortcut@,
{
    let v = cfg.apps();
    assert(v.len() == cfg.paste_shortcut_by_app@.len());
    if 0 <= k < v.len() {
        assert(v[k] == (
            cfg.paste_shortcut_by_app@[k].0@,
            cfg.paste_shortcut_by_app@[k].1@,
        ));
        lookup_at(v, k);
    }
    if forall|i: int|
        0 <= i < cfg.paste_shortcut_by_app@.len() ==> (#[trigger] cfg.paste_shortcut_by_app@[i]).0@
            != id@ {
        assert forall|i: int| 0 <= i < v.len() implies (#[trigger] v[i]).0 != id@ by {
            assert(cfg.paste_shortcut_by_app@[i].0@ != id@);
        }
        lookup_none(v, id@);
    }
}

/// Where `gui.toml` is: in `telora` in the configuration directory, or in `.config/telora` in
/// the home directory where no configuration directory is named. An empty variable counts as
/// little as a missing one.
pub proof fn where_gui_toml_is(xdg_config_home: Option<String>, home: Option<String>)
    ensures
        ({
            let named = xdg_config_home matches Some(s) && s@.len() > 0;
            let housed = home matches Some(s) && s@.len() > 0;
            let telora = vstd::utf8::encode_utf8("telora"@);
            let file = vstd::utf8::encode_utf8("gui.toml"@);
            &&& named ==> gui_toml(xdg_config_home, home) == Some(
                unix_path::join(
                    unix_path::join(vstd::utf8::encode_utf8(xdg_config_home->0@), telora),
                    file,
                ),
            )
            &&& !named && housed ==> gui_toml(xdg_config_home, home) == Some(
                unix_path::join(
                    unix_path::join(
                        unix_path::join(
                            vstd::utf8::encode_utf8(home->0@),
                            vstd::utf8::encode_utf8(".config"@),
                        ),
                        telora,
                    ),
                    file,
                ),
            )
            &&& !named && !housed ==> gui_toml(xdg_config_home, home) is None
        }),
{
}

} // verus!
