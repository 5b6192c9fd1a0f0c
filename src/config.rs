//! Where the assistant keeps its local state.
use vstd::prelude::*;
use vstd::string::{StrSliceExecFns, StringExecFns};

verus! {

/// The home directory named by the environment: `HOME`, else `USERPROFILE`,
/// else `HOMEDRIVE` followed by `HOMEPATH` where both are set.
pub open spec fn home_of(
    home: Option<Seq<char>>,
    profile: Option<Seq<char>>,
    drive: Option<Seq<char>>,
    path: Option<Seq<char>>,
) -> Option<Seq<char>> {
    if home is Some {
        home
    } else if profile is Some {
        profile
    } else if drive is Some && path is Some {
        Some(drive->0 + path->0)
    } else {
        None
    }
}

/// The view of an optional string.
pub open spec fn opt_view(s: Option<String>) -> Option<Seq<char>> {
    match s {
        Some(v) => Some(v@),
        None => None,
    }
}

/// Picks the home directory from the values of `HOME`, `USERPROFILE`,
/// `HOMEDRIVE` and `HOMEPATH`, each `None` where it is unset.
pub fn home_dir_from(
    home: Option<String>,
    profile: Option<String>,
    drive: Option<String>,
    path: Option<String>,
) -> (r: Option<String>)
    ensures
        opt_view(r) == home_of(opt_view(home), opt_view(profile), opt_view(drive), opt_view(path)),
{
    match home {
        Some(h) => Some(h),
        None => match profile {
            Some(p) => Some(p),
            None => match (drive, path) {
                (Some(d), Some(p)) => Some(d.concat(p.as_str())),
                _ => None,
            },
        },
    }
}

/// The local state directory under a home directory: `.local/bernard`
/// joined to it, with a `/` between where the home does not end in one.
pub open spec fn local_dir_of(home: Seq<char>) -> Seq<char> {
    if home.len() == 0 || home.last() == '/' {
        home + ".local/bernard"@
    } else {
        home + "/"@ + ".local/bernard"@
    }
}

/// Joins `.local/bernard` to the home directory.
pub fn get_local_dir(home: &str) -> (r: String)
    ensures
        r@ == local_dir_of(home@),
{
    let mut r = home.to_owned();
    let n = home.unicode_len();
    if n > 0 && home.get_char(n - 1) != '/' {
        r.append("/");
    }
    r.append(".local/bernard");
    r
}

} // verus!
