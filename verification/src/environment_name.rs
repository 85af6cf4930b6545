//! Validated names of environments.

use vstd::prelude::*;
use vstd::string::*;

verus! {

/// Whether `c` carries the Unicode `White_Space` property.
pub open spec fn is_whitespace(c: char) -> bool {
    let n = c as u32;
    ||| 0x09 <= n <= 0x0D
    ||| n == 0x20
    ||| n == 0x85
    ||| n == 0xA0
    ||| n == 0x1680
    ||| 0x2000 <= n <= 0x200A
    ||| n == 0x2028
    ||| n == 0x2029
    ||| n == 0x202F
    ||| n == 0x205F
    ||| n == 0x3000
}

/// Whether `c` may not occur in an environment name: a path separator, `:`,
/// `,`, or any whitespace.
pub open spec fn is_invalid_character(c: char) -> bool {
    c == '/' || c == '\\' || c == ':' || c == ',' || is_whitespace(c)
}

/// Whether every character of `s` may occur in an environment name.
pub open spec fn is_valid_name(s: Seq<char>) -> bool {
    forall|i: int| 0 <= i < s.len() ==> !is_invalid_character(#[trigger] s[i])
}

/// The position of the first character of `s` that a name may not hold, or
/// the length of `s` when there is none.
pub open spec fn first_invalid(s: Seq<char>) -> int
    decreases s.len(),
{
    if s.len() == 0 {
        0
    } else if is_invalid_character(s[0]) {
        0
    } else {
        1 + first_invalid(s.subrange(1, s.len() as int))
    }
}

/// `first_invalid` names the least position of a forbidden character.
pub proof fn lemma_first_invalid(s: Seq<char>)
    ensures
        0 <= first_invalid(s) <= s.len(),
        forall|i: int| 0 <= i < first_invalid(s) ==> !is_invalid_character(#[trigger] s[i]),
        first_invalid(s) < s.len() ==> is_invalid_character(s[first_invalid(s)]),
        first_invalid(s) == s.len() <==> is_valid_name(s),
    decreases s.len(),
{
    if s.len() == 0 {
    } else if is_invalid_character(s[0]) {
    } else {
        let rest = s.subrange(1, s.len() as int);
        lemma_first_invalid(rest);
        assert forall|i: int| 0 <= i < first_invalid(s) implies !is_invalid_character(
            #[trigger] s[i],
        ) by {
            if i > 0 {
                assert(s[i] == rest[i - 1]);
            }
        }
        if first_invalid(s) < s.len() {
            assert(s[first_invalid(s)] == rest[first_invalid(rest)]);
        }
        if is_valid_name(s) {
            assert forall|i: int| 0 <= i < rest.len() implies !is_invalid_character(
                #[trigger] rest[i],
            ) by {
                assert(rest[i] == s[i + 1]);
            }
        }
    }
}

/// Tells whether `c` is whitespace.
pub fn is_whitespace_char(c: char) -> (r: bool)
    ensures
        r == is_whitespace(c),
{
    let n: u32 = c as u32;
    (0x09 <= n && n <= 0x0D) || n == 0x20 || n == 0x85 || n == 0xA0 || n == 0x1680 || (0x2000 <= n
        && n <= 0x200A) || n == 0x2028 || n == 0x2029 || n == 0x202F || n == 0x205F || n == 0x3000
}

/// Tells whether `c` is forbidden in an environment name.
pub fn is_invalid_char(c: char) -> (r: bool)
    ensures
        r == is_invalid_character(c),
{
    c == '/' || c == '\\' || c == ':' || c == ',' || is_whitespace_char(c)
}

/// The name of an environment. A name made by [`EnvironmentName::from_str`]
/// holds no path separator, no `:` or `,` and no whitespace.
#[derive(Debug, Clone, PartialEq, Eq, Hash, PartialOrd, Ord)]
pub struct EnvironmentName(String);

/// Why a string is not an environment name.
#[derive(Debug, Clone, PartialEq, Eq)]
pub enum ParseEnvironmentNameError {
    /// The string holds this character, which a name may not hold.
    InvalidCharacter(String),
}

impl View for EnvironmentName {
    type V = Seq<char>;

    closed spec fn view(&self) -> Seq<char> {
        self.0@
    }
}

impl ParseEnvironmentNameError {
    /// The message shown for this error.
    pub open spec fn message_spec(&self) -> Seq<char> {
        match self {
            ParseEnvironmentNameError::InvalidCharacter(c) => {
                "invalid character in environment name: "@ + c@
            },
        }
    }

    /// Renders the error for the user.
    pub fn message(&self) -> (r: String)
        ensures
            r@ == self.message_spec(),
    {
        match self {
            ParseEnvironmentNameError::InvalidCharacter(c) => {
                String::from_str("invalid character in environment name: ").concat(c.as_str())
            },
        }
    }
}

impl EnvironmentName {
    /// Whether the name obeys the naming rule.
    pub open spec fn is_valid(&self) -> bool {
        is_valid_name(self@)
    }

    /// Parses a name, refusing the first forbidden character it holds.
    pub fn from_str(s: &str) -> (r: Result<EnvironmentName, ParseEnvironmentNameError>)
        ensures
            is_valid_name(s@) <==> r is Ok,
            r matches Ok(name) ==> name@ == s@ && name.is_valid(),
            r matches Err(e) ==> e == ParseEnvironmentNameError::InvalidCharacter(
                e->InvalidCharacter_0,
            ) && e->InvalidCharacter_0@ == seq![s@[first_invalid(s@)]],
    {
        let n = s.unicode_len();
        let mut i: usize = 0;
        proof {
            lemma_first_invalid(s@);
        }
        while i < n
            invariant
                n == s@.len(),
                0 <= i <= n,
                i <= first_invalid(s@) <= n,
                forall|k: int| 0 <= k < first_invalid(s@) ==> !is_invalid_character(#[trigger] s@[k]),
                first_invalid(s@) < n ==> is_invalid_character(s@[first_invalid(s@)]),
                first_invalid(s@) == n <==> is_valid_name(s@),
            decreases n - i,
        {
            let c = s.get_char(i);
            if is_invalid_char(c) {
                let offending = s.substring_char(i, i + 1);
                assert(offending@ =~= seq![s@[i as int]]);
                return Err(
                    ParseEnvironmentNameError::InvalidCharacter(String::from_str(offending)),
                );
            }
            i += 1;
        }
        Ok(EnvironmentName(String::from_str(s)))
    }

    /// Makes a name of `name` as it is, valid or not.
    pub fn new_unchecked(name: String) -> (r: EnvironmentName)
        ensures
            r@ == name@,
    {
        EnvironmentName(name)
    }

    /// The name as text.
    pub fn as_str(&self) -> (r: &str)
        ensures
            r@ == self@,
    {
        self.0.as_str()
    }

    /// Gives the text up.
    pub fn into_string(self) -> (r: String)
        ensures
            r@ == self@,
    {
        self.0
    }
}

} // verus!
