//! Paths as the user types and reads them.
use vstd::prelude::*;

use crate::text;
use crate::text::{after_prefix, begins, cat2, cat3};

verus! {

/// The home directory at the start of a path as `~`.
pub open spec fn shortened(path: Seq<char>, home: Option<Seq<char>>) -> Seq<char> {
    match home {
        Some(h) => if text::starts_with(path, h) {
            "~"@ + path.skip(h.len() as int)
        } else {
            path
        },
        None => path,
    }
}

/// Where `cd` without a path goes.
pub open spec fn home_or_tilde(home: Option<Seq<char>>) -> Seq<char> {
    match home {
        Some(h) => h,
        None => "~"@,
    }
}

/// A path is relative unless it starts at the root.
pub open spec fn is_relative(path: Seq<char>) -> bool {
    !text::starts_with(path, "/"@)
}

/// The path that is meant: `~` is the home directory, and a relative path starts at `base`.
pub open spec fn expanded(raw: Seq<char>, home: Option<Seq<char>>, base: Seq<char>) -> Seq<char> {
    if text::starts_with(raw, "~"@) {
        match home {
            Some(h) => h + raw.skip(1),
            None => raw,
        }
    } else if is_relative(raw) {
        base + "/"@ + raw
    } else {
        raw
    }
}

/// The home directory at the start of a path as `~`.
pub fn shorten_path_with(path: &str, home: Option<&str>) -> (r: String)
    ensures
        r@ == shortened(
            path@,
            match home {
                Some(h) => Some(h@),
                None => None,
            },
        ),
{
    if let Some(h) = home {
        if let Some(rest) = after_prefix(path, h) {
            return cat2("~", rest);
        }
    }
    path.to_string()
}

/// `dirs::home_dir`, written out as a text. Where the home directory lies, and whether there is
/// one, is up to the machine: nothing is claimed of it.
#[verifier::external_body]
pub(crate) fn home_dir() -> Option<String> {
    dirs::home_dir().map(|p| p.display().to_string())
}

/// The home directory at the start of a path as `~`.
pub fn shorten_path(path: &str) -> (r: String)
    ensures
        exists|home: Option<Seq<char>>| r@ == #[trigger] shortened(path@, home),
{
    let home = home_dir();
    let r = match &home {
        Some(h) => shorten_path_with(path, Some(h.as_str())),
        None => shorten_path_with(path, None),
    };
    assert(r@ == shortened(path@, home.deep_view()));
    r
}

/// The path that is meant: `~` is the home directory, and a relative path starts at `base`.
pub fn expand_path(raw: &str, home: Option<&str>, base: &str) -> (r: String)
    ensures
        r@ == expanded(
            raw@,
            match home {
                Some(h) => Some(h@),
                None => None,
            },
            base@,
        ),
{
    proof {
        reveal_strlit("~");
    }
    if let Some(rest) = after_prefix(raw, "~") {
        match home {
            Some(h) => cat2(h, rest),
            None => raw.to_string(),
        }
    } else if !begins(raw, "/") {
        cat3(base, "/", raw)
    } else {
        raw.to_string()
    }
}

// ── Laws ──

/// Shortening a path that starts with the home directory, and expanding it again, gives it back.
pub proof fn law_shorten_then_expand(path: Seq<char>, home: Seq<char>, base: Seq<char>)
    requires
        text::starts_with(path, home),
    ensures
        expanded(shortened(path, Some(home)), Some(home), base) == path,
{
    reveal_strlit("~");
    let s = shortened(path, Some(home));
    assert(s.take(1) == "~"@);
    assert(s.skip(1) == path.skip(home.len() as int));
    assert(home + path.skip(home.len() as int) == path);
}

/// An absolute path is left as it is.
pub proof fn law_absolute_path_stands(path: Seq<char>, home: Option<Seq<char>>, base: Seq<char>)
    requires
        !is_relative(path),
    ensures
        expanded(path, home, base) == path,
{
    reveal_strlit("~");
    reveal_strlit("/");
    if text::starts_with(path, "~"@) {
        assert(path.take(1)[0] == "~"@[0]);
        assert(path.take(1)[0] == "/"@[0]);
    }
}

/// A path that starts at the root means itself, one that starts with `~` lies in the home
/// directory, and any other lies in the directory that it is meant from.
pub proof fn law_what_a_path_means(raw: Seq<char>, home: Option<Seq<char>>, base: Seq<char>)
    ensures
        text::starts_with(raw, "/"@) ==> expanded(raw, home, base) == raw,
        text::starts_with(raw, "~"@) ==> (home matches Some(h) ==> expanded(raw, home, base) == h
            + raw.skip(1)),
        text::starts_with(raw, "~"@) && home is None ==> expanded(raw, home, base) == raw,
        !text::starts_with(raw, "/"@) && !text::starts_with(raw, "~"@) ==> expanded(raw, home, base)
            == base + "/"@ + raw,
        home matches Some(h) ==> home_or_tilde(home) == h,
        home is None ==> home_or_tilde(home) == "~"@,
{
    if text::starts_with(raw, "/"@) {
        law_absolute_path_stands(raw, home, base);
    }
}

/// A path in the home directory is shown from `~` on, and any other as it is.
pub proof fn law_how_a_path_is_shown(home: Seq<char>, rest: Seq<char>, path: Seq<char>)
    ensures
        shortened(home + rest, Some(home)) == "~"@ + rest,
        !text::starts_with(path, home) ==> shortened(path, Some(home)) == path,
        shortened(path, None) == path,
{
    text::law_starts_with(home + rest, home, rest);
    assert((home + rest).skip(home.len() as int) == rest);
}

}
