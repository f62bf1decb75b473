//! Settings: defaults, `~` expansion, and merging what a settings file declares.
use vstd::prelude::*;
use crate::composer::join_path;
use crate::executor::trim_of;
use crate::resolver::{clone_all, opt_str_view};

verus! {

/// Effective settings.
#[derive(Debug)]
pub struct Config {
    pub cache_dir: String,
    /// Seconds after their last use that cache entries expire.
    pub cache_ttl: u64,
    pub max_cache_size: u64,
    pub skip_verify: bool,
    pub default_php_path: Option<String>,
    pub download_mirrors: Vec<String>,
}

/// What a settings file declares; absent fields take their defaults.
#[derive(Debug)]
pub struct ConfigFile {
    pub cache_dir: Option<String>,
    pub cache_ttl: Option<u64>,
    pub max_cache_size: Option<u64>,
    pub skip_verify: Option<bool>,
    pub default_php_path: Option<String>,
    pub download_mirrors: Option<Vec<String>>,
}

pub const DEFAULT_CACHE_TTL: u64 = 604800;

pub const DEFAULT_MAX_CACHE_SIZE: u64 = 1073741824;

/// A path with a leading `~` standing for the home directory, after trimming.
pub open spec fn expand_spec(path: Seq<char>, home: Option<Seq<char>>) -> Seq<char> {
    let p = trim_of(path);
    if p == "~"@ {
        match home {
            Some(h) => h,
            None => "."@,
        }
    } else if ("~/"@.is_prefix_of(p) || "~\\"@.is_prefix_of(p)) && home is Some {
        join_path(home->0, p.skip(2))
    } else {
        p
    }
}

/// The default cache directory: `<home>/.cache/phpx`, or `.cache/phpx` without a home.
pub open spec fn default_cache_dir(home: Option<Seq<char>>) -> Seq<char> {
    match home {
        Some(h) => join_path(h, ".cache/phpx"@),
        None => ".cache/phpx"@,
    }
}

/// Expands a leading `~` of `path` with `home`.
pub fn expand_tilde(path: &str, home: Option<&str>) -> (r: String)
    ensures
        r@ == expand_spec(path@, crate::versions::opt_view(home)),
{
    let p = crate::executor::trimmed(path);
    if crate::text::str_eq(p, "~") {
        return match home {
            Some(h) => String::from_str(h),
            None => String::from_str("."),
        };
    }
    let prefixed = crate::text::starts_with(p, "~/") || crate::text::starts_with(p, "~\\");
    match home {
        Some(h) => if prefixed {
            proof {
                reveal_strlit("~/");
                reveal_strlit("~\\");
            }
            let n = p.unicode_len();
            let rest = p.substring_char(2, n);
            proof {
                assert(rest@ =~= p@.skip(2));
            }
            crate::composer::join_paths(h, rest)
        } else {
            String::from_str(p)
        },
        None => String::from_str(p),
    }
}

fn expand_opt(o: &Option<String>, home: Option<&str>) -> (r: Option<String>)
    ensures
        opt_str_view(r) == (match o {
            Some(p) => Some(expand_spec(p@, crate::versions::opt_view(home))),
            None => None,
        }),
{
    match o {
        Some(p) => Some(expand_tilde(p.as_str(), home)),
        None => None,
    }
}

impl Config {
    /// The defaults for a user whose home directory is `home`.
    pub fn with_home(home: Option<&str>) -> (r: Config)
        ensures
            r.cache_dir@ == default_cache_dir(crate::versions::opt_view(home)),
            r.cache_ttl == DEFAULT_CACHE_TTL,
            r.max_cache_size == DEFAULT_MAX_CACHE_SIZE,
            !r.skip_verify,
            r.default_php_path is None,
            crate::text::views(r.download_mirrors@) == seq!["https://packagist.org"@, "https://github.com"@],
    {
        let cache_dir = match home {
            Some(h) => crate::composer::join_paths(h, ".cache/phpx"),
            None => String::from_str(".cache/phpx"),
        };
        let mirrors = vec![String::from_str("https://packagist.org"), String::from_str("https://github.com")];
        proof {
            assert(crate::text::views(mirrors@) =~= seq!["https://packagist.org"@, "https://github.com"@]);
        }
        Config {
            cache_dir,
            cache_ttl: DEFAULT_CACHE_TTL,
            max_cache_size: DEFAULT_MAX_CACHE_SIZE,
            skip_verify: false,
            default_php_path: None,
            download_mirrors: mirrors,
        }
    }

    /// The settings file of a user: `<home>/.config/phpx/config.toml`.
    pub fn default_config_path(home: Option<&str>) -> (r: Option<String>)
        ensures
            opt_str_view(r) == (match home {
                Some(h) => Some(join_path(h@, ".config/phpx/config.toml"@)),
                None => None,
            }),
    {
        match home {
            Some(h) => Some(crate::composer::join_paths(h, ".config/phpx/config.toml")),
            None => None,
        }
    }

    /// The settings a file declares, over the defaults; paths have `~` expanded.
    pub fn from_file(file: &ConfigFile, home: Option<&str>) -> (r: Config)
        ensures
            r.cache_dir@ == (match file.cache_dir {
                Some(p) => expand_spec(p@, crate::versions::opt_view(home)),
                None => default_cache_dir(crate::versions::opt_view(home)),
            }),
            r.cache_ttl == (match file.cache_ttl { Some(t) => t, None => DEFAULT_CACHE_TTL }),
            r.max_cache_size == (match file.max_cache_size { Some(m) => m, None => DEFAULT_MAX_CACHE_SIZE }),
            r.skip_verify == (match file.skip_verify { Some(b) => b, None => false }),
            opt_str_view(r.default_php_path) == (match file.default_php_path {
                Some(p) => Some(expand_spec(p@, crate::versions::opt_view(home))),
                None => None,
            }),
            crate::text::views(r.download_mirrors@) == (match file.download_mirrors {
                Some(m) => crate::text::views(m@),
                None => seq!["https://packagist.org"@, "https://github.com"@],
            }),
    {
        let defaults = Config::with_home(home);
        let cache_dir = match &file.cache_dir {
            Some(p) => expand_tilde(p.as_str(), home),
            None => defaults.cache_dir,
        };
        let mirrors = match &file.download_mirrors {
            Some(m) => clone_all(m),
            None => defaults.download_mirrors,
        };
        Config {
            cache_dir,
            cache_ttl: match file.cache_ttl { Some(t) => t, None => defaults.cache_ttl },
            max_cache_size: match file.max_cache_size { Some(m) => m, None => defaults.max_cache_size },
            skip_verify: match file.skip_verify { Some(b) => b, None => defaults.skip_verify },
            default_php_path: expand_opt(&file.default_php_path, home),
            download_mirrors: mirrors,
        }
    }

    /// The settings as a file declares them, every field present.
    pub fn to_file(&self) -> (r: ConfigFile)
        ensures
            opt_str_view(r.cache_dir) == Some(self.cache_dir@),
            r.cache_ttl == Some(self.cache_ttl),
            r.max_cache_size == Some(self.max_cache_size),
            r.skip_verify == Some(self.skip_verify),
            opt_str_view(r.default_php_path) == opt_str_view(self.default_php_path),
            r.download_mirrors is Some && r.download_mirrors->0@ == self.download_mirrors@,
    {
        ConfigFile {
            cache_dir: Some(self.cache_dir.clone()),
            cache_ttl: Some(self.cache_ttl),
            max_cache_size: Some(self.max_cache_size),
            skip_verify: Some(self.skip_verify),
            default_php_path: match &self.default_php_path {
                Some(p) => Some(p.clone()),
                None => None,
            },
            download_mirrors: Some(clone_all(&self.download_mirrors)),
        }
    }
}

} // verus!
