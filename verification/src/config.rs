//! User configuration: which keymap preset to start from, bindings laid
//! over it, and where the configuration file is looked for.
use vstd::prelude::*;

use crate::keymap::{preset_map, Bindings, Command, KeyCombo, Keymap, PresetName};

verus! {

/// A configuration file's contents.
pub struct Config {
    pub preset: Option<PresetName>,
    pub bindings: Bindings,
}

/// The preset that applies: the command line's, else the configuration's,
/// else QWERTY.
pub open spec fn chosen_preset(config: Option<Config>, cli_keymap: Option<PresetName>) -> PresetName {
    match cli_keymap {
        Some(p) => p,
        None => match config {
            Some(c) => match c.preset {
                Some(p) => p,
                None => PresetName::Qwerty,
            },
            None => PresetName::Qwerty,
        },
    }
}

/// The bindings in effect: the chosen preset with the configuration's own
/// bindings laid over it.
pub open spec fn resolved_map(config: Option<Config>, cli_keymap: Option<PresetName>) -> Map<KeyCombo, Seq<Command>> {
    let base = preset_map(chosen_preset(config, cli_keymap));
    match config {
        Some(c) => base.union_prefer_right(c.bindings@),
        None => base,
    }
}

/// `base` and `part` joined as path components: `part` alone when `base`
/// is empty, else with one `/` between them unless `base` ends with one.
pub open spec fn join_spec(base: Seq<char>, part: Seq<char>) -> Seq<char> {
    if base.len() == 0 {
        part
    } else if base.last() == '/' {
        base + part
    } else {
        base + seq!['/'] + part
    }
}

/// Joins a relative component onto a directory path.
pub fn join_path(base: &str, part: &str) -> (r: String)
    ensures
        r@ == join_spec(base@, part@),
{
    let n = base.unicode_len();
    if n == 0 {
        String::from_str(part)
    } else {
        let mut s = String::from_str(base);
        if base.get_char(n - 1) != '/' {
            crate::keymap::push_char(&mut s, '/');
        }
        s.append(part);
        s
    }
}

/// The project-local and per-user places a configuration file is looked
/// for, in order of precedence, when none is given explicitly.
pub open spec fn candidates_spec(explicit: Option<Seq<char>>, config_dir: Option<Seq<char>>) -> Seq<Seq<char>> {
    match explicit {
        Some(p) => seq![p],
        None => {
            let local = seq![".config/nrc.json"@, "nrc.json"@];
            match config_dir {
                Some(d) => local.push(join_spec(join_spec(d, "nrc"@), "keymap.json"@)),
                None => local,
            }
        },
    }
}

/// Calls `dirs::config_dir`: the user's configuration directory, if the
/// platform has one, as text (`to_string_lossy`). Nothing is claimed of
/// the result: it comes from the environment.
#[verifier::external_body]
fn user_config_dir() -> (r: Option<String>) {
    match dirs::config_dir() {
        Some(p) => Some(p.to_string_lossy().into_owned()),
        None => None,
    }
}

impl Config {
    /// The paths a configuration file is looked for at, first match wins:
    /// the explicit one alone when given; else `.config/nrc.json`,
    /// `nrc.json`, and `nrc/keymap.json` under `config_dir` when there is
    /// one.
    pub fn candidates_in(explicit: Option<&str>, config_dir: Option<&str>) -> (r: Vec<String>)
        ensures
            r.deep_view() == candidates_spec(
                match explicit {
                    Some(p) => Some(p@),
                    None => None,
                },
                match config_dir {
                    Some(d) => Some(d@),
                    None => None,
                },
            ),
    {
        let mut v: Vec<String> = Vec::new();
        match explicit {
            Some(p) => {
                v.push(String::from_str(p));
                assert(v.deep_view() =~= seq![p@]);
            },
            None => {
                v.push(String::from_str(".config/nrc.json"));
                v.push(String::from_str("nrc.json"));
                let ghost local = v.deep_view();
                assert(local =~= seq![".config/nrc.json"@, "nrc.json"@]);
                match config_dir {
                    Some(d) => {
                        let dir = join_path(d, "nrc");
                        v.push(join_path(dir.as_str(), "keymap.json"));
                        assert(v.deep_view() =~= local.push(join_spec(join_spec(d@, "nrc"@), "keymap.json"@)));
                    },
                    None => {},
                }
            },
        }
        v
    }

    /// The paths a configuration file is looked for at, with the per-user
    /// one under the platform's configuration directory. What that
    /// directory is depends on the environment.
    pub fn candidates(explicit: Option<&str>) -> (r: Vec<String>)
        ensures
            explicit matches Some(p) ==> r.deep_view() == seq![p@],
            explicit is None ==> (r.deep_view() == candidates_spec(None, None) || exists|d: Seq<char>|
                r.deep_view() == #[trigger] candidates_spec(None, Some(d))),
    {
        match explicit {
            Some(p) => Config::candidates_in(Some(p), None),
            None => {
                let dir = user_config_dir();
                match dir {
                    Some(d) => {
                        let r = Config::candidates_in(None, Some(d.as_str()));
                        assert(r.deep_view() == candidates_spec(None, Some(d@)));
                        r
                    },
                    None => Config::candidates_in(None, None),
                }
            },
        }
    }

    /// The keymap in effect. The preset comes from the command line, else
    /// from the configuration, else QWERTY; the configuration's bindings
    /// are then laid over it.
    pub fn resolve(config: Option<Config>, cli_keymap: Option<PresetName>) -> (r: Keymap)
        ensures
            r@ == resolved_map(config, cli_keymap),
    {
        let preset = match cli_keymap {
            Some(p) => p,
            None => match &config {
                Some(c) => match c.preset {
                    Some(p) => p,
                    None => PresetName::Qwerty,
                },
                None => PresetName::Qwerty,
            },
        };
        let ghost chosen = chosen_preset(config, cli_keymap);
        let mut keymap = Keymap::preset(preset);
        match config {
            Some(c) => {
                let ghost b = c.bindings@;
                if !c.bindings.is_empty() {
                    keymap.merge(c.bindings);
                } else {
                    assert(preset_map(chosen).union_prefer_right(b) =~= preset_map(chosen));
                }
            },
            None => {},
        }
        keymap
    }
}

} // verus!
