//! The manifest model: the description of a package, and the framing of
//! its frontmatter block inside a manifest file.
use vstd::prelude::*;
use vstd::string::*;

use crate::error::TalonError;
use crate::text::{trim_of, trim_str};

verus! {

/// The full description of a package.
#[derive(Debug, Clone, PartialEq, Eq)]
pub struct TalonManifest {
    pub name: String,
    pub version: String,
    pub description: String,
    pub author: Option<String>,
    pub license: Option<String>,
    pub tags: Vec<String>,
    pub repository: Option<String>,
    pub homepage: Option<String>,
    pub runtime: Option<TalonRuntime>,
    pub permissions: Vec<String>,
    pub environment: Vec<EnvVar>,
    pub commands: Vec<TalonCommand>,
}

/// The runtime a package declares it needs.
#[derive(Debug, Clone, PartialEq, Eq)]
pub struct TalonRuntime {
    pub kind: String,
    pub version: Option<String>,
}

/// An environment variable a package declares.
#[derive(Debug, Clone, PartialEq, Eq)]
pub struct EnvVar {
    pub name: String,
    pub required: bool,
    pub description: Option<String>,
    pub default: Option<String>,
}

/// A command a package exposes.
#[derive(Debug, Clone, PartialEq, Eq)]
pub struct TalonCommand {
    pub name: String,
    pub description: String,
    pub args: Vec<CommandArg>,
}

/// One argument of a command.
#[derive(Debug, Clone, PartialEq, Eq)]
pub struct CommandArg {
    pub name: String,
    pub arg_type: String,
    pub required: bool,
    pub description: Option<String>,
}

/// A parsed manifest together with the directory it was found in.
#[derive(Debug, Clone, PartialEq, Eq)]
pub struct TalonInfo {
    pub manifest: TalonManifest,
    pub path: String,
    pub installed: bool,
}

/// The text of a delimiter line, which separates the parts of a manifest
/// file.
pub open spec fn delimiter() -> Seq<char> {
    seq!['-', '-', '-']
}

/// Whether a delimiter line starts at position `i` of `s`: the delimiter
/// text, starting at the beginning of `s` or after a line break, and ending
/// at a line break or at the end of `s`.
pub open spec fn delimiter_at(s: Seq<char>, i: int) -> bool {
    &&& 0 <= i && i + 3 <= s.len()
    &&& s.subrange(i, i + 3) == delimiter()
    &&& i == 0 || s[i - 1] == '\n'
    &&& i + 3 == s.len() || s[i + 3] == '\n'
}

/// The first position at or after `from` where a delimiter line starts.
pub open spec fn find_delimiter(s: Seq<char>, from: int) -> Option<int>
    decreases s.len() - from,
{
    if from < 0 || from + 3 > s.len() {
        None
    } else if delimiter_at(s, from) {
        Some(from)
    } else {
        find_delimiter(s, from + 1)
    }
}

/// The second of the (at most three) parts that delimiter lines split `s`
/// into, before trimming: from the end of the first delimiter to the start
/// of the next delimiter line, or to the end; `None` when `s` holds no
/// delimiter line at all.
pub open spec fn second_part(s: Seq<char>) -> Option<Seq<char>> {
    match find_delimiter(s, 0) {
        None => None,
        Some(a) => match find_delimiter(s, a + 3) {
            None => Some(s.subrange(a + 3, s.len() as int)),
            Some(b) => Some(s.subrange(a + 3, b)),
        },
    }
}

/// The frontmatter block of a manifest text: its second part, trimmed, when
/// that exists and is not blank.
pub open spec fn frontmatter_of(s: Seq<char>) -> Option<Seq<char>> {
    match second_part(s) {
        None => None,
        Some(p) => if trim_of(p).len() == 0 {
            None
        } else {
            Some(trim_of(p))
        },
    }
}

/// The first position at or after `from` where a delimiter line starts.
fn find_delimiter_exec(s: &str, from: usize) -> (r: Option<usize>)
    requires
        from <= s@.len(),
    ensures
        match r {
            None => find_delimiter(s@, from as int) is None,
            Some(i) => find_delimiter(s@, from as int) == Some(i as int) && from <= i && i + 3 <= s@.len(),
        },
{
    let n = s.unicode_len();
    let mut i: usize = from;
    while n >= 3 && i <= n - 3
        invariant
            n == s@.len(),
            from <= i <= n,
            find_delimiter(s@, from as int) == find_delimiter(s@, i as int),
        decreases n - i,
    {
        let line_start = i == 0 || s.get_char(i - 1) == '\n';
        let line_end = i + 3 == n || s.get_char(i + 3) == '\n';
        if line_start && line_end && s.get_char(i) == '-' && s.get_char(i + 1) == '-'
            && s.get_char(i + 2) == '-' {
            assert(s@.subrange(i as int, i + 3) =~= delimiter());
            return Some(i);
        }
        assert(!delimiter_at(s@, i as int)) by {
            if delimiter_at(s@, i as int) {
                assert(s@.subrange(i as int, i + 3)[0] == s@[i as int]);
                assert(s@.subrange(i as int, i + 3)[1] == s@[i + 1]);
                assert(s@.subrange(i as int, i + 3)[2] == s@[i + 2]);
            }
        }
        i += 1;
    }
    None
}

impl TalonManifest {
    /// Extracts the frontmatter block of a manifest text: the text between
    /// the first and the second delimiter line (or the end), trimmed. Fails
    /// with `MissingFrontmatter` when there is no delimiter line or the block
    /// is blank.
    pub fn frontmatter(content: &str) -> (r: Result<String, TalonError>)
        ensures
            match frontmatter_of(content@) {
                None => r == Err::<String, TalonError>(TalonError::MissingFrontmatter),
                Some(f) => r is Ok && r->Ok_0@ == f,
            },
    {
        let n = content.unicode_len();
        let first = find_delimiter_exec(content, 0);
        match first {
            None => Err(TalonError::MissingFrontmatter),
            Some(a) => {
                let end = match find_delimiter_exec(content, a + 3) {
                    None => n,
                    Some(b) => b,
                };
                let part = content.substring_char(a + 3, end);
                let trimmed = trim_str(part);
                if trimmed.unicode_len() == 0 {
                    Err(TalonError::MissingFrontmatter)
                } else {
                    Ok(trimmed.to_owned())
                }
            },
        }
    }
}

} // verus!
