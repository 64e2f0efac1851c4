//! Where wikid keeps its configuration and its caches. The directories are
//! chosen from environment variables, which the caller reads and hands over
//! in a `DirEnv`.
use vstd::prelude::*;
use crate::text::{all_ws, is_all_whitespace, push_char, push_str, string_of, to_chars};

verus! {

/// The environment variables that decide the directories; `None` where a
/// variable is unset or not valid Unicode.
#[derive(Debug, Clone)]
pub struct DirEnv {
    pub wikid_cache_dir: Option<String>,
    pub xdg_cache_home: Option<String>,
    pub xdg_config_home: Option<String>,
    pub home: Option<String>,
}

/// A variable counts only when it holds something besides whitespace.
pub open spec fn usable_var(v: Option<String>) -> Option<Seq<char>> {
    match v {
        Some(s) => if all_ws(s@) { None } else { Some(s@) },
        None => None,
    }
}

/// `PathBuf::push` of a relative component: a separator goes between the two
/// unless `base` is empty or already ends in one.
pub open spec fn path_join(base: Seq<char>, rel: Seq<char>) -> Seq<char> {
    if base.len() == 0 || base.last() == '/' {
        base + rel
    } else {
        base + seq!['/'] + rel
    }
}

/// `$XDG_CONFIG_HOME/wikid`, else `$HOME/.config/wikid`, else `.`.
pub open spec fn config_dir_of(env: DirEnv) -> Seq<char> {
    match usable_var(env.xdg_config_home) {
        Some(x) => path_join(x, "wikid"@),
        None => match usable_var(env.home) {
            Some(h) => path_join(path_join(h, ".config"@), "wikid"@),
            None => "."@,
        },
    }
}

/// `$WIKID_CACHE_DIR`, else `$XDG_CACHE_HOME/wikid`, else `$HOME/.cache/wikid`,
/// else `cache`.
pub open spec fn cache_dir_of(env: DirEnv) -> Seq<char> {
    match usable_var(env.wikid_cache_dir) {
        Some(w) => w,
        None => match usable_var(env.xdg_cache_home) {
            Some(x) => path_join(x, "wikid"@),
            None => match usable_var(env.home) {
                Some(h) => path_join(path_join(h, ".cache"@), "wikid"@),
                None => "cache"@,
            },
        },
    }
}

/// The value of a variable if it is set and not blank.
pub fn env_path(value: &Option<String>) -> (r: Option<String>)
    ensures
        match r {
            Some(s) => usable_var(*value) == Some(s@),
            None => usable_var(*value) is None,
        },
{
    match value {
        Some(s) => {
            let cs = to_chars(s.as_str());
            if is_all_whitespace(&cs) {
                None
            } else {
                Some(string_of(s.as_str()))
            }
        },
        None => None,
    }
}

/// `base` joined with the relative path `rel`.
pub fn join_path(base: &str, rel: &str) -> (r: String)
    ensures
        r@ == path_join(base@, rel@),
{
    let b = to_chars(base);
    let mut out = string_of(base);
    if b.len() > 0 && b[b.len() - 1] != '/' {
        push_char(&mut out, '/');
    }
    push_str(&mut out, rel);
    proof {
        if b@.len() > 0 {
            assert(b@.last() == b@[b@.len() - 1]);
        }
    }
    out
}

/// The configuration directory.
pub fn config_dir(env: &DirEnv) -> (r: String)
    ensures
        r@ == config_dir_of(*env),
{
    match env_path(&env.xdg_config_home) {
        Some(x) => join_path(x.as_str(), "wikid"),
        None => match env_path(&env.home) {
            Some(h) => {
                let c = join_path(h.as_str(), ".config");
                join_path(c.as_str(), "wikid")
            },
            None => string_of("."),
        },
    }
}

/// The cache directory.
pub fn cache_dir(env: &DirEnv) -> (r: String)
    ensures
        r@ == cache_dir_of(*env),
{
    match env_path(&env.wikid_cache_dir) {
        Some(w) => w,
        None => match env_path(&env.xdg_cache_home) {
            Some(x) => join_path(x.as_str(), "wikid"),
            None => match env_path(&env.home) {
                Some(h) => {
                    let c = join_path(h.as_str(), ".cache");
                    join_path(c.as_str(), "wikid")
                },
                None => string_of("cache"),
            },
        },
    }
}

/// The directory of downloaded audio: `audio` under the cache directory.
pub fn audio_cache_dir(env: &DirEnv) -> (r: String)
    ensures
        r@ == path_join(cache_dir_of(*env), "audio"@),
{
    let c = cache_dir(env);
    join_path(c.as_str(), "audio")
}

} // verus!
