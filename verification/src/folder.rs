//! Building the child process that reveals a path in the platform's file
//! manager: one program with platform-specific arguments per supported
//! operating system.
//!
//! Windows and macOS file managers take a select flag and the path itself;
//! the Linux opener takes the path's parent directory instead, so the parent
//! is computed here, with proof that it is a prefix of the given path.

use vstd::prelude::*;

verus! {

/// The operating systems the reveal command distinguishes.
#[derive(Clone, Copy, Debug, PartialEq, Eq)]
pub enum Platform {
    Windows,
    MacOs,
    Linux,
}

/// A child process to spawn: a program name and its arguments, in order.
#[derive(Clone, Debug, PartialEq, Eq)]
pub struct SpawnRequest {
    pub program: String,
    pub args: Vec<String>,
}

/// Why no reveal command could be built.
#[derive(Clone, Copy, Debug, PartialEq, Eq)]
pub enum RevealError {
    /// The path holds no separator, so there is no parent directory to open.
    NoParent,
}

/// Index of the last path separator in `s`, if any.
pub open spec fn last_separator(s: Seq<char>) -> Option<int>
    decreases s.len(),
{
    if s.len() == 0 {
        None
    } else if s[s.len() - 1] == '/' {
        Some(s.len() - 1)
    } else {
        last_separator(s.drop_last())
    }
}

/// The parent directory of a path: the part before the last separator, or
/// the leading separator itself when it is the only one and leads the path.
/// A path without a separator has no parent.
pub open spec fn parent_of(s: Seq<char>) -> Option<Seq<char>> {
    match last_separator(s) {
        None => None,
        Some(j) => if j == 0 {
            Some(s.subrange(0, 1))
        } else {
            Some(s.subrange(0, j))
        },
    }
}

/// Where the last separator stands, spelt out: the returned index carries a
/// separator and nothing after it does; `None` means the path holds none.
pub proof fn lemma_last_separator_char(s: Seq<char>)
    ensures
        (match last_separator(s) {
            Option::None => forall|k: int| 0 <= k < s.len() ==> s[k] != '/',
            Option::Some(j) => 0 <= j < s.len() && s[j] == '/' && (forall|k: int|
                j < k < s.len() ==> s[k] != '/'),
        }),
    decreases s.len(),
{
    if s.len() > 0 && s[s.len() - 1] != '/' {
        let rest = s.drop_last();
        lemma_last_separator_char(rest);
        assert(forall|k: int| 0 <= k < rest.len() ==> rest[k] == s[k]);
    }
}

/// Index of the last path separator in `s`, if any.
fn last_separator_index(s: &str) -> (r: Option<usize>)
    ensures
        (match r {
            Option::None => last_separator(s@) is None,
            Option::Some(i) => i < s@.len() && last_separator(s@) == Some(i as int),
        }),
{
    let n = s.unicode_len();
    let mut i: usize = n;
    while i > 0
        invariant
            n == s@.len(),
            i <= n,
            forall|k: int| i <= k < n ==> s@[k] != '/',
        decreases i,
    {
        i -= 1;
        if s.get_char(i) == '/' {
            proof {
                assert(last_separator(s@) == Option::Some(i as int)) by {
                    lemma_last_separator_char(s@);
                    assert(s@[i as int] == '/');
                }
            }
            return Some(i);
        }
    }
    proof {
        assert(last_separator(s@) is None) by {
            lemma_last_separator_char(s@);
        }
    }
    None
}

/// The parent directory of `path`, if it has one.
pub fn parent_dir(path: &str) -> (r: Option<String>)
    ensures
        (match r {
            Option::None => parent_of(path@) is None,
            Option::Some(p) => (match parent_of(path@) {
                Option::Some(q) => p@ == q,
                Option::None => false,
            }),
        }),
{
    match last_separator_index(path) {
        Option::None => Option::None,
        Option::Some(j) => {
            if j == 0 {
                Option::Some(path.substring_char(0, 1).to_owned())
            } else {
                Option::Some(path.substring_char(0, j).to_owned())
            }
        },
    }
}

/// Builds the child process that reveals `path` on the given platform.
///
/// On Windows the file manager selects the path itself; on macOS the opener
/// gets its reveal flag and the path; on Linux the opener is handed the
/// path's parent directory, and a path without one is rejected.
pub fn reveal_request(platform: Platform, path: &str) -> (r: Result<SpawnRequest, RevealError>)
    ensures
        (match platform {
            Platform::Windows => (match r {
                Result::Ok(c) => c.program@ == "explorer"@ && c.args@.len() == 2 && c.args@[0]@
                    == "/select,"@ && c.args@[1]@ == path@,
                Result::Err(_) => false,
            }),
            Platform::MacOs => (match r {
                Result::Ok(c) => c.program@ == "open"@ && c.args@.len() == 2 && c.args@[0]@
                    == "-R"@ && c.args@[1]@ == path@,
                Result::Err(_) => false,
            }),
            Platform::Linux => (match (r, parent_of(path@)) {
                (Result::Ok(c), Option::Some(par)) => c.program@ == "xdg-open"@ && c.args@.len()
                    == 1 && c.args@[0]@ == par,
                (Result::Err(e), Option::None) => e == RevealError::NoParent,
                _ => false,
            }),
        }),
{
    match platform {
        Platform::Windows => Result::Ok(
            SpawnRequest {
                program: "explorer".to_owned(),
                args: vec!["/select,".to_owned(), path.to_owned()],
            },
        ),
        Platform::MacOs => Result::Ok(
            SpawnRequest {
                program: "open".to_owned(),
                args: vec!["-R".to_owned(), path.to_owned()],
            },
        ),
        Platform::Linux => match parent_dir(path) {
            Option::Some(p) => Result::Ok(
                SpawnRequest { program: "xdg-open".to_owned(), args: vec![p] },
            ),
            Option::None => Result::Err(RevealError::NoParent),
        },
    }
}

/// Law: the directory handed to the opener is a leading part of the given
/// path itself: revealing a path never points outside it.
pub proof fn lemma_parent_is_prefix(s: Seq<char>)
    ensures
        (match parent_of(s) {
            Option::Some(p) => 0 < p.len() <= s.len() && p == s.subrange(0, p.len() as int),
            Option::None => true,
        }),
{
    lemma_last_separator_char(s);
}

} // verus!
