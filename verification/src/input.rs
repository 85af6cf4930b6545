//! What an environment is to be created from: package specs given on the
//! command line, an environment file, or explicit lock files.

use crate::executables::{has_file_name, last_dot};
use crate::ordering::texts;
use vstd::prelude::*;
use vstd::string::*;

verus! {

/// The kind of an input file.
#[derive(Debug, Clone, Copy, PartialEq, Eq, Structural)]
pub enum InputFileKind {
    /// An environment file in YAML.
    EnvironmentYaml,
    /// An explicit list of package archives.
    ExplicitFile,
}

/// The lowercase form of an ASCII capital, and any other character as it is.
pub open spec fn ascii_lower(c: char) -> char {
    if 'A' <= c <= 'Z' {
        ((c as u8) + 32) as char
    } else {
        c
    }
}

/// Whether `a` and `b` are the same text up to the case of ASCII letters.
pub open spec fn same_ignoring_ascii_case(a: Seq<char>, b: Seq<char>) -> bool {
    a.len() == b.len() && forall|i: int| 0 <= i < a.len() ==> ascii_lower(#[trigger] a[i])
        == ascii_lower(b[i])
}

/// The extension of a file name: what follows its last `.`, where that is
/// not its first character.
pub open spec fn extension(file_name: Seq<char>) -> Option<Seq<char>> {
    if last_dot(file_name) > 0 {
        Some(file_name.subrange(last_dot(file_name) + 1, file_name.len() as int))
    } else {
        None
    }
}

/// The kind that the extension of a path's file name stands for, if any:
/// `yaml` for an environment file and `txt` for an explicit file, in upper
/// or lower case.
pub open spec fn kind_of(path: Seq<Seq<char>>) -> Option<InputFileKind> {
    if !has_file_name(path) {
        None
    } else {
        match extension(path.last()) {
            None => None,
            Some(ext) => if same_ignoring_ascii_case(ext, "yaml"@) {
                Some(InputFileKind::EnvironmentYaml)
            } else if same_ignoring_ascii_case(ext, "txt"@) {
                Some(InputFileKind::ExplicitFile)
            } else {
                None
            },
        }
    }
}

/// Lowers an ASCII capital.
pub fn lower_ascii(c: char) -> (r: char)
    ensures
        r == ascii_lower(c),
{
    if 'A' <= c && c <= 'Z' {
        ((c as u8) + 32) as char
    } else {
        c
    }
}

/// Tells whether what follows position `from` in `text` is `wanted`, up to
/// the case of ASCII letters.
fn tail_is(text: &str, from: usize, wanted: &str) -> (r: bool)
    requires
        from <= text@.len(),
    ensures
        r == same_ignoring_ascii_case(text@.subrange(from as int, text@.len() as int), wanted@),
{
    let n = text.unicode_len();
    let m = wanted.unicode_len();
    let ghost tail = text@.subrange(from as int, n as int);
    if n - from != m {
        return false;
    }
    let mut i: usize = 0;
    while i < m
        invariant
            0 <= i <= m,
            n == text@.len(),
            m == wanted@.len(),
            from + m == n,
            tail == text@.subrange(from as int, n as int),
            forall|k: int| 0 <= k < i ==> ascii_lower(#[trigger] tail[k]) == ascii_lower(wanted@[k]),
        decreases m - i,
    {
        assert(tail[i as int] == text@[from + i]);
        if lower_ascii(text.get_char(from + i)) != lower_ascii(wanted.get_char(i)) {
            return false;
        }
        i += 1;
    }
    true
}

/// Finds where the extension of a file name starts: behind its last `.`,
/// where that is not its first character.
fn extension_start(file_name: &str) -> (r: Option<usize>)
    ensures
        r is Some <==> last_dot(file_name@) > 0,
        r matches Some(start) ==> start == last_dot(file_name@) + 1 && start <= file_name@.len(),
{
    let n = file_name.unicode_len();
    let mut i: usize = n;
    assert(file_name@.subrange(0, n as int) =~= file_name@);
    while i > 0
        invariant
            0 <= i <= n,
            n == file_name@.len(),
            last_dot(file_name@) == last_dot(file_name@.subrange(0, i as int)),
        decreases i,
    {
        let ghost head = file_name@.subrange(0, i as int);
        assert(head.last() == file_name@[i - 1]);
        assert(head.drop_last() =~= file_name@.subrange(0, i - 1));
        if file_name.get_char(i - 1) == '.' {
            if i - 1 > 0 {
                return Some(i);
            } else {
                return None;
            }
        }
        i -= 1;
    }
    None
}

impl InputFileKind {
    /// Guesses the kind of an input file from the extension of its name.
    /// The path is given by its components.
    pub fn from_path(path: &Vec<String>) -> (r: Option<InputFileKind>)
        ensures
            r == kind_of(texts(path@)),
    {
        if path.len() == 0 {
            return None;
        }
        let name = path[path.len() - 1].as_str();
        assert(texts(path@).last() == name@);
        proof {
            reveal_strlit("..");
        }
        let parent = String::from_str("..");
        if path[path.len() - 1] == parent {
            return None;
        }
        match extension_start(name) {
            None => None,
            Some(start) => {
                if tail_is(name, start, "yaml") {
                    Some(InputFileKind::EnvironmentYaml)
                } else if tail_is(name, start, "txt") {
                    Some(InputFileKind::ExplicitFile)
                } else {
                    None
                }
            },
        }
    }
}

/// What an environment is created from. The files are named, not read:
/// reading them is the caller's.
#[derive(Debug, Clone, PartialEq, Eq)]
pub enum EnvironmentInput {
    /// A set of package specs.
    Specs(Vec<String>),
    /// The environment file at this path.
    EnvironmentYaml(Vec<String>),
    /// The explicit files at these paths.
    Files(Vec<Vec<String>>),
}

/// Why the input cannot be used.
#[derive(Debug, Clone, PartialEq, Eq)]
pub enum InputError {
    /// The kind of the file at this path cannot be told from its name.
    InvalidInputFile(Vec<String>),
    /// More than one file was given along with an environment file.
    MultipleEnvironmentYamlFiles,
}

impl EnvironmentInput {
    /// Decides what the environment is created from. Specs win over files;
    /// among files the first decides the kind: an environment file must be
    /// the only file, explicit files are all taken.
    pub fn from_files_or_specs(files: Vec<Vec<String>>, specs: Vec<String>) -> (r: Result<
        EnvironmentInput,
        InputError,
    >)
        requires
            files@.len() > 0 || specs@.len() > 0,
        ensures
            specs@.len() > 0 ==> r == Ok::<EnvironmentInput, InputError>(
                EnvironmentInput::Specs(specs),
            ),
            specs@.len() == 0 ==> match kind_of(texts(files@[0]@)) {
                None => r == Err::<EnvironmentInput, InputError>(
                    InputError::InvalidInputFile(files@[0]),
                ),
                Some(InputFileKind::EnvironmentYaml) => if files@.len() == 1 {
                    r == Ok::<EnvironmentInput, InputError>(
                        EnvironmentInput::EnvironmentYaml(files@[0]),
                    )
                } else {
                    r == Err::<EnvironmentInput, InputError>(
                        InputError::MultipleEnvironmentYamlFiles,
                    )
                },
                Some(InputFileKind::ExplicitFile) => r == Ok::<EnvironmentInput, InputError>(
                    EnvironmentInput::Files(files),
                ),
            },
    {
        if specs.len() > 0 {
            return Ok(EnvironmentInput::Specs(specs));
        }
        let mut files = files;
        match InputFileKind::from_path(&files[0]) {
            None => Err(InputError::InvalidInputFile(files.swap_remove(0))),
            Some(InputFileKind::EnvironmentYaml) => {
                if files.len() == 1 {
                    Ok(EnvironmentInput::EnvironmentYaml(files.swap_remove(0)))
                } else {
                    Err(InputError::MultipleEnvironmentYamlFiles)
                }
            },
            Some(InputFileKind::ExplicitFile) => Ok(EnvironmentInput::Files(files)),
        }
    }
}

} // verus!
