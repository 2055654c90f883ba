//! Configuration: where projects live, which editor opens them, and where
//! the configuration itself is stored.

use vstd::prelude::*;
use crate::text::{chars_of, concat2, concat3, opt_view};

verus! {

broadcast use vstd::string::group_string_axioms;

/// The user's settings.
#[derive(Debug, Clone)]
pub struct Config {
    /// The directory that holds the projects.
    pub projects_dir: String,
    /// The command that opens a project in an editor.
    pub editor_cmd: String,
}

/// The home directory to use: `$HOME` where it is set, else `.`.
pub open spec fn home_or_current(home: Option<Seq<char>>) -> Seq<char> {
    match home {
        Some(h) => h,
        None => seq!['.'],
    }
}

/// `base` joined with `rel` the way `PathBuf::join` does it on Unix: an
/// absolute `rel` replaces `base`; otherwise a `/` separates them unless
/// `base` is empty or already ends with one.
pub open spec fn join_path(base: Seq<char>, rel: Seq<char>) -> Seq<char> {
    if rel.len() > 0 && rel[0] == '/' {
        rel
    } else if base.len() == 0 || base.last() == '/' {
        base + rel
    } else {
        base + seq!['/'] + rel
    }
}

/// Joins two paths as `PathBuf::join` does on Unix.
pub fn join(base: &str, rel: &str) -> (r: String)
    ensures
        r@ == join_path(base@, rel@),
{
    let vb = chars_of(base);
    let vr = chars_of(rel);
    if vr.len() > 0 && vr[0] == '/' {
        rel.to_owned()
    } else if vb.len() == 0 || vb[vb.len() - 1] == '/' {
        concat2(base, rel)
    } else {
        let r = concat3(base, "/", rel);
        proof {
            reveal_strlit("/");
        }
        r
    }
}

/// The default projects directory: `<home>/nannou-projects`.
pub open spec fn default_projects_dir(home: Option<Seq<char>>) -> Seq<char> {
    home_or_current(home) + "/nannou-projects"@
}

/// The default editor command, `code`.
pub open spec fn default_editor() -> Seq<char> {
    "code"@
}

impl Config {
    /// The default settings for a user whose home directory is `home`
    /// (`None` where `$HOME` is unset): projects in `<home>/nannou-projects`,
    /// opened with `code`.
    pub fn for_home(home: Option<String>) -> (c: Config)
        ensures
            c.projects_dir@ == default_projects_dir(opt_view(home)),
            c.editor_cmd@ == default_editor(),
    {
        let base = match home {
            Some(h) => h,
            None => {
                let d = ".".to_owned();
                proof {
                    reveal_strlit(".");
                }
                d
            },
        };
        Config { projects_dir: concat2(base.as_str(), "/nannou-projects"), editor_cmd: "code".to_owned() }
    }
}

/// Where the configuration file lives: the path in `$NANNOU_MANAGER_CONFIG`
/// where that is set, else `<home>/.config/nannou-manager/config.json`.
pub open spec fn config_file_path(override_path: Option<Seq<char>>, home: Option<Seq<char>>) -> Seq<char> {
    match override_path {
        Some(p) => p,
        None => join_path(home_or_current(home), ".config/nannou-manager/config.json"@),
    }
}

/// The configuration file's path, given `$NANNOU_MANAGER_CONFIG` and `$HOME`
/// (each `None` where unset).
pub fn config_path(override_path: Option<String>, home: Option<String>) -> (p: String)
    ensures
        p@ == config_file_path(opt_view(override_path), opt_view(home)),
{
    match override_path {
        Some(o) => o,
        None => {
            let base = match home {
                Some(h) => h,
                None => {
                    let d = ".".to_owned();
                    proof {
                        reveal_strlit(".");
                    }
                    d
                },
            };
            join(base.as_str(), ".config/nannou-manager/config.json")
        },
    }
}

/// The settings in effect: those read from the configuration file where it
/// could be read and parsed, else the defaults for `home`.
pub fn effective_config(loaded: Option<Config>, home: Option<String>) -> (c: Config)
    ensures
        loaded matches Some(l) ==> c == l,
        loaded is None ==> c.projects_dir@ == default_projects_dir(opt_view(home))
            && c.editor_cmd@ == default_editor(),
{
    match loaded {
        Some(l) => l,
        None => Config::for_home(home),
    }
}

} // verus!
