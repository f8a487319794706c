//! Where the tracker's API key comes from: the environment first, then the
//! configuration file.

use vstd::prelude::*;

verus! {

/// Contents of the configuration file.
#[derive(Debug)]
pub struct Config {
    pub api_key: Option<String>,
}

impl Default for Config {
    fn default() -> (r: Self)
        ensures
            r.api_key is None,
    {
        Config { api_key: None }
    }
}

/// The key to use, given the environment variable's value and the key of
/// the configuration file (each absent when not set): the first of them
/// that is present and not empty.
pub open spec fn chosen_key(env: Option<Seq<char>>, file: Option<Seq<char>>) -> Option<Seq<char>> {
    match env {
        Some(k) if k.len() > 0 => Some(k),
        _ => match file {
            Some(k) if k.len() > 0 => Some(k),
            _ => None,
        },
    }
}

/// The key to use, given the environment variable's value and the
/// configuration file's contents (each absent when not there); `None`
/// when neither holds a non-empty key.
pub fn choose_api_key(env: Option<&str>, file: Option<&Config>) -> (r: Option<String>)
    ensures
        r matches Some(k) ==> Some(k@) == chosen_key(
            match env {
                Some(e) => Some(e@),
                None => None,
            },
            match file {
                Some(c) => match c.api_key {
                    Some(k) => Some(k@),
                    None => None,
                },
                None => None,
            },
        ),
        r is None ==> chosen_key(
            match env {
                Some(e) => Some(e@),
                None => None,
            },
            match file {
                Some(c) => match c.api_key {
                    Some(k) => Some(k@),
                    None => None,
                },
                None => None,
            },
        ) is None,
{
    if let Some(e) = env {
        if e.unicode_len() > 0 {
            return Some(crate::text::owned(e));
        }
    }
    if let Some(c) = file {
        if let Some(k) = &c.api_key {
            if k.as_str().unicode_len() > 0 {
                return Some(k.clone());
            }
        }
    }
    None
}

/// The error text shown when no key was found; `path` is the
/// configuration file's path.
pub fn missing_key_message(path: &str) -> (r: String)
    ensures
        r@ == "No Linear API key found.\nSet LINEAR_API_KEY or add api_key to "@ + path@,
{
    let mut s = crate::text::owned("No Linear API key found.\nSet LINEAR_API_KEY or add api_key to ");
    s.push_str(path);
    s
}

/// The configuration that stores `key`.
pub fn config_with_key(key: &str) -> (r: Config)
    ensures
        r.api_key matches Some(k) && k@ == key@,
{
    Config { api_key: Some(crate::text::owned(key)) }
}

} // verus!
