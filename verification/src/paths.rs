//! Where files live.
//!
//! How components are joined depends on the platform, so a path is handed out as
//! a base and the components to join to it, one after another.

use vstd::prelude::*;

use crate::text;

verus! {

/// `base`, joined with each of `rest` in turn.
#[derive(Debug)]
pub struct PathParts {
    pub base: String,
    pub rest: Vec<String>,
}

/// What a [`PathParts`] says.
#[verifier::ext_equal]
pub struct PathView {
    pub base: Seq<char>,
    pub rest: Seq<Seq<char>>,
}

impl View for PathParts {
    type V = PathView;

    open spec fn view(&self) -> PathView {
        PathView { base: self.base@, rest: text::list_view(self.rest@) }
    }
}

impl PathParts {
    pub fn bare(base: String) -> (r: Self)
        ensures
            r@ == (PathView { base: base@, rest: Seq::empty() }),
    {
        let r = PathParts { base, rest: Vec::new() };
        assert(text::list_view(r.rest@) =~= Seq::<Seq<char>>::empty());
        r
    }

    pub fn join(&mut self, component: &str)
        ensures
            final(self)@ == (PathView {
                base: old(self)@.base,
                rest: old(self)@.rest.push(component@),
            }),
    {
        let ghost before = self.rest@;
        self.rest.push(component.to_owned());
        assert(text::list_view(self.rest@) =~= text::list_view(before).push(component@));
    }
}

/// The environment variables that can say where the home directory is.
#[derive(Debug)]
pub struct HomeVars {
    pub home: Option<String>,
    pub user_profile: Option<String>,
    pub home_drive: Option<String>,
    pub home_path: Option<String>,
}

/// The variable's value, unless it is empty.
pub open spec fn nonempty(value: Option<String>) -> Option<Seq<char>> {
    match value {
        Some(v) if v@.len() > 0 => Some(v@),
        _ => None,
    }
}

/// `HOME`, else `USERPROFILE`, else `HOMEDRIVE` and `HOMEPATH` together; empty
/// values do not count.
pub open spec fn home_of(vars: HomeVars) -> Option<Seq<char>> {
    if nonempty(vars.home) is Some {
        nonempty(vars.home)
    } else if nonempty(vars.user_profile) is Some {
        nonempty(vars.user_profile)
    } else if nonempty(vars.home_drive) is Some && nonempty(vars.home_path) is Some {
        Some(nonempty(vars.home_drive)->0 + nonempty(vars.home_path)->0)
    } else {
        None
    }
}

fn env_path(value: &Option<String>) -> (r: Option<&str>)
    ensures
        r is Some <==> nonempty(*value) is Some,
        r matches Some(v) ==> v@ == nonempty(*value)->0,
{
    match value {
        Some(v) => if text::is_empty(v.as_str()) {
            None
        } else {
            Some(v.as_str())
        },
        None => None,
    }
}

pub fn home_dir(vars: &HomeVars) -> (r: Option<String>)
    ensures
        text::opt_view(r) == home_of(*vars),
{
    if let Some(path) = env_path(&vars.home) {
        return Some(path.to_owned());
    }
    if let Some(path) = env_path(&vars.user_profile) {
        return Some(path.to_owned());
    }
    match (env_path(&vars.home_drive), env_path(&vars.home_path)) {
        (Some(drive), Some(path)) => Some(text::concat(drive, path)),
        _ => None,
    }
}

/// A leading `~/` becomes the home directory, where one is known.
pub open spec fn expanded(path: Seq<char>, home: Option<Seq<char>>) -> PathView {
    if text::has_prefix(path, "~/"@) && home is Some {
        PathView { base: home->0, rest: seq![path.skip("~/"@.len() as int)] }
    } else {
        PathView { base: path, rest: Seq::empty() }
    }
}

/// Expand tilde (~) to home directory in a path
pub fn expand_tilde(path: &str, home: Option<&str>) -> (r: PathParts)
    ensures
        r@ == expanded(
            path@,
            match home {
                Some(h) => Some(h@),
                None => None,
            },
        ),
{
    if let Some(stripped) = text::strip_prefix(path, "~/") {
        if let Some(home) = home {
            let mut r = PathParts::bare(home.to_owned());
            r.join(stripped);
            assert(r@.rest =~= seq![path@.skip("~/"@.len() as int)]);
            return r;
        }
    }
    PathParts::bare(path.to_owned())
}

/// `.config/larmindon` below the home directory, or below the working directory
/// where no home directory is known.
pub open spec fn config_dir_of(home: Option<Seq<char>>) -> PathView {
    match home {
        Some(h) => PathView { base: h, rest: seq![".config"@, "larmindon"@] },
        None => PathView { base: ".config"@, rest: seq!["larmindon"@] },
    }
}

/// Returns the config directory: ~/.config/larmindon/
pub fn config_dir(home: Option<&str>) -> (r: PathParts)
    ensures
        r@ == config_dir_of(
            match home {
                Some(h) => Some(h@),
                None => None,
            },
        ),
{
    match home {
        Some(h) => {
            let mut r = PathParts::bare(h.to_owned());
            r.join(".config");
            r.join("larmindon");
            assert(r@.rest =~= seq![".config"@, "larmindon"@]);
            r
        },
        None => {
            let mut r = PathParts::bare(".config".to_owned());
            r.join("larmindon");
            assert(r@.rest =~= seq!["larmindon"@]);
            r
        },
    }
}

/// A file in the config directory.
pub open spec fn config_file_of(home: Option<Seq<char>>, name: Seq<char>) -> PathView {
    let dir = config_dir_of(home);
    PathView { base: dir.base, rest: dir.rest.push(name) }
}

/// The settings file: `settings.json` in the config directory.
pub fn settings_path(home: Option<&str>) -> (r: PathParts)
    ensures
        r@ == config_file_of(
            match home {
                Some(h) => Some(h@),
                None => None,
            },
            "settings.json"@,
        ),
{
    let mut r = config_dir(home);
    r.join("settings.json");
    r
}

/// Default location for the diagnostics SQLite DB: alongside settings.json.
pub fn default_diag_db_path(home: Option<&str>) -> (r: PathParts)
    ensures
        r@ == config_file_of(
            match home {
                Some(h) => Some(h@),
                None => None,
            },
            "larmindon_diag.sqlite"@,
        ),
{
    let mut r = config_dir(home);
    r.join("larmindon_diag.sqlite");
    r
}

} // verus!
