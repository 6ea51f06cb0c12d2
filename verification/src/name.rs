//! The rules for the name given to `pact new`.

use vstd::prelude::*;
use crate::manifest::is_valid_package_name;
use crate::text::{all_name_chars, char_is_lower, contains_char, has_char, is_lower, only_name_chars};

verus! {

/// Two hyphens stand next to each other somewhere in `s`.
pub open spec fn has_double_hyphen(s: Seq<char>) -> bool {
    exists|i: int| #![trigger s[i]] 0 <= i && i + 1 < s.len() && s[i] == '-' && s[i + 1] == '-'
}

/// A legal project name: non-empty, made of `[a-z0-9-]`, starting with a
/// letter, not ending with a hyphen and holding no two hyphens in a row.
/// (Such a name holds no path separator and is neither `.` nor `..`.)
pub open spec fn is_valid_project_name(s: Seq<char>) -> bool {
    &&& s.len() > 0
    &&& all_name_chars(s)
    &&& is_lower(s[0])
    &&& s.last() != '-'
    &&& !has_double_hyphen(s)
}

/// The rules a non-empty project name must keep, in the order they are
/// checked.
#[derive(Debug, Clone, Copy, PartialEq, Eq, Structural)]
pub enum NameRule {
    /// No path separator (`/` or `\`).
    NoSeparator,
    /// Not `.` or `..`.
    NotDotName,
    /// Only lowercase ASCII letters, digits and hyphens.
    AllowedChars,
    /// Starts with a lowercase letter.
    LetterFirst,
    /// Does not end with a hyphen.
    NoTrailingHyphen,
    /// Holds no two hyphens in a row.
    NoDoubleHyphen,
}

/// The first rule that the non-empty name `s` breaks, if any.
pub open spec fn first_broken_rule(s: Seq<char>) -> Option<NameRule> {
    if has_char(s, '/') || has_char(s, '\\') {
        Some(NameRule::NoSeparator)
    } else if s == seq!['.'] || s == seq!['.', '.'] {
        Some(NameRule::NotDotName)
    } else if !all_name_chars(s) {
        Some(NameRule::AllowedChars)
    } else if !is_lower(s[0]) {
        Some(NameRule::LetterFirst)
    } else if s.last() == '-' {
        Some(NameRule::NoTrailingHyphen)
    } else if has_double_hyphen(s) {
        Some(NameRule::NoDoubleHyphen)
    } else {
        None
    }
}

/// What the message says a rule asks for.
pub open spec fn rule_text(rule: NameRule) -> Seq<char> {
    match rule {
        NameRule::NoSeparator => "must not contain a path separator ('/' or '\\')"@,
        NameRule::NotDotName => "must not be '.' or '..'"@,
        NameRule::AllowedChars => "must contain only lowercase letters, digits, and hyphens"@,
        NameRule::LetterFirst => "must start with a lowercase letter"@,
        NameRule::NoTrailingHyphen => "must not end with a hyphen"@,
        NameRule::NoDoubleHyphen => "must not contain consecutive hyphens"@,
    }
}

impl NameRule {
    /// What the rule asks for, as the error message words it.
    pub fn text(&self) -> (r: &'static str)
        ensures
            r@ == rule_text(*self),
    {
        match self {
            NameRule::NoSeparator => "must not contain a path separator ('/' or '\\')",
            NameRule::NotDotName => "must not be '.' or '..'",
            NameRule::AllowedChars => "must contain only lowercase letters, digits, and hyphens",
            NameRule::LetterFirst => "must start with a lowercase letter",
            NameRule::NoTrailingHyphen => "must not end with a hyphen",
            NameRule::NoDoubleHyphen => "must not contain consecutive hyphens",
        }
    }
}

/// Why a project name was refused.
#[derive(Debug, Clone, PartialEq, Eq)]
pub enum NameError {
    /// The name is the empty string.
    Empty,
    /// The name breaks `rule`, the first rule it breaks.
    Invalid { name: String, rule: NameRule },
}

impl NameError {
    /// The text shown to the user for this error: it names the rule broken.
    pub open spec fn message_spec(&self) -> Seq<char> {
        match self {
            NameError::Empty => "invalid project name '': name must not be empty"@,
            NameError::Invalid { name, rule } => "invalid project name '"@ + name@ + "': "@
                + rule_text(*rule),
        }
    }

    /// The text shown to the user for this error.
    pub fn message(&self) -> (r: String)
        ensures
            r@ == self.message_spec(),
    {
        match self {
            NameError::Empty => String::from_str("invalid project name '': name must not be empty"),
            NameError::Invalid { name, rule } => {
                let mut r = String::from_str("invalid project name '");
                r.append(name.as_str());
                r.append("': ");
                r.append(rule.text());
                r
            },
        }
    }
}

fn has_two_hyphens(s: &str) -> (r: bool)
    ensures
        r == has_double_hyphen(s@),
{
    let n = s.unicode_len();
    let mut i: usize = 0;
    while i < n
        invariant
            n == s@.len(),
            i <= n,
            forall|k: int| 0 <= k < i && k + 1 < n ==> !(#[trigger] s@[k] == '-' && s@[k + 1] == '-'),
        decreases n - i,
    {
        if i + 1 < n && s.get_char(i) == '-' && s.get_char(i + 1) == '-' {
            return true;
        }
        i = i + 1;
    }
    false
}

/// The rules of a legal project name are exactly the rules checked.
pub proof fn lemma_rules_define_validity(s: Seq<char>)
    requires
        s.len() > 0,
    ensures
        first_broken_rule(s) is None <==> is_valid_project_name(s),
{
    if is_valid_project_name(s) {
        lemma_project_name_is_one_component(s);
    }
}

/// Check that `name` is a legal Pact project name: non-empty, no path
/// separators, not `.` or `..`, made of `[a-z0-9-]`, starting with a letter,
/// with no leading, trailing or consecutive hyphens. The error names the first
/// rule broken.
pub fn validate_name(name: &str) -> (r: Result<(), NameError>)
    ensures
        name@.len() == 0 ==> r == Err::<(), NameError>(NameError::Empty),
        name@.len() > 0 ==> match first_broken_rule(name@) {
            None => r is Ok,
            Some(rule) => r matches Err(NameError::Invalid { name: n, rule: q }) && n@ == name@
                && q == rule,
        },
        is_valid_project_name(name@) <==> r is Ok,
{
    let n = name.unicode_len();
    if n == 0 {
        return Err(NameError::Empty);
    }
    proof {
        lemma_rules_define_validity(name@);
    }
    let rule = if contains_char(name, '/') || contains_char(name, '\\') {
        Some(NameRule::NoSeparator)
    } else if (n == 1 && name.get_char(0) == '.') || (n == 2 && name.get_char(0) == '.'
        && name.get_char(1) == '.') {
        proof {
            if n == 1 {
                assert(name@ =~= seq!['.']);
            } else {
                assert(name@ =~= seq!['.', '.']);
            }
        }
        Some(NameRule::NotDotName)
    } else if !only_name_chars(name) {
        proof {
            if name@ == seq!['.'] || name@ == seq!['.', '.'] {
                assert(name@[0] == '.');
            }
        }
        Some(NameRule::AllowedChars)
    } else if !char_is_lower(name.get_char(0)) {
        proof {
            if name@ == seq!['.'] || name@ == seq!['.', '.'] {
                assert(name@[0] == '.');
            }
        }
        Some(NameRule::LetterFirst)
    } else if name.get_char(n - 1) == '-' {
        Some(NameRule::NoTrailingHyphen)
    } else if has_two_hyphens(name) {
        Some(NameRule::NoDoubleHyphen)
    } else {
        None
    };
    proof {
        if name@ == seq!['.'] || name@ == seq!['.', '.'] {
            assert(name@[0] == '.');
        }
    }
    match rule {
        Some(rule) => Err(NameError::Invalid { name: String::from_str(name), rule }),
        None => Ok(()),
    }
}

/// A legal project name is a single path component: it holds no `/` or `\\`
/// and is neither `.` nor `..`.
pub proof fn lemma_project_name_is_one_component(s: Seq<char>)
    requires
        is_valid_project_name(s),
    ensures
        !has_char(s, '/'),
        !has_char(s, '\\'),
        s != seq!['.'],
        s != seq!['.', '.'],
{
    if has_char(s, '/') {
        let i = choose|i: int| 0 <= i < s.len() && s[i] == '/';
        assert(all_name_chars(s) ==> crate::text::is_name_char(s[i]));
    }
    if has_char(s, '\\') {
        let i = choose|i: int| 0 <= i < s.len() && s[i] == '\\';
        assert(all_name_chars(s) ==> crate::text::is_name_char(s[i]));
    }
    assert(s[0] != '.');
}

/// Every name that `pact new` accepts is also a valid package name, so the
/// manifest it writes names the package validly.
pub proof fn lemma_project_name_is_package_name(s: Seq<char>)
    requires
        is_valid_project_name(s),
    ensures
        is_valid_package_name(s),
{
}

/// The character classes, stated for the ranges themselves: `a`..=`z` are the
/// lowercase letters, `0`..=`9` the digits, and a name character is one of
/// those or `-`, nothing else.
pub proof fn lemma_char_classes(c: char)
    ensures
        ('a' <= c && c <= 'z') ==> is_lower(c) && crate::text::is_name_char(c),
        ('0' <= c && c <= '9') ==> crate::text::is_digit(c) && crate::text::is_name_char(c),
        crate::text::is_name_char('-'),
        crate::text::is_name_char(c) ==> ('a' <= c && c <= 'z') || ('0' <= c && c <= '9') || c
            == '-',
        is_lower(c) ==> 'a' <= c && c <= 'z',
{
}

/// Any non-empty run of the letters `a`..=`z` is a legal project name and a
/// valid package name.
pub proof fn lemma_letters_make_a_name(s: Seq<char>)
    requires
        s.len() > 0,
        forall|i: int| 0 <= i < s.len() ==> 'a' <= #[trigger] s[i] && s[i] <= 'z',
    ensures
        is_valid_project_name(s),
        is_valid_package_name(s),
        validate_name_accepts(s),
{
    assert(s[s.len() - 1] == s.last());
    if has_double_hyphen(s) {
        let i = choose|i: int| #![trigger s[i]] 0 <= i && i + 1 < s.len() && s[i] == '-' && s[i + 1] == '-';
        assert('a' <= s[i]);
    }
    lemma_rules_define_validity(s);
}

/// The name passes every rule that `validate_name` checks.
pub open spec fn validate_name_accepts(s: Seq<char>) -> bool {
    s.len() > 0 && first_broken_rule(s) is None
}

/// What each rule refuses, stated on the name itself: a name with `/` or `\`
/// breaks the separator rule first; one ending in `-` (and otherwise made of
/// name characters, starting with a letter) breaks the trailing-hyphen rule; a
/// name starting with something other than `a`..=`z` is never legal, nor one
/// ending in `-`, nor one with two hyphens in a row, nor one holding a
/// character outside `a`..=`z`, `0`..=`9` and `-`.
pub proof fn lemma_name_rules(s: Seq<char>)
    requires
        s.len() > 0,
    ensures
        (exists|i: int| 0 <= i < s.len() && (s[i] == '/' || s[i] == '\\')) ==> first_broken_rule(s)
            == Some(NameRule::NoSeparator),
        !('a' <= s[0] && s[0] <= 'z') ==> !is_valid_project_name(s),
        s[s.len() - 1] == '-' ==> !is_valid_project_name(s),
        (exists|i: int| #![trigger s[i]] 0 <= i && i + 1 < s.len() && s[i] == '-' && s[i + 1] == '-')
            ==> !is_valid_project_name(s),
        (exists|i: int|
            0 <= i < s.len() && !(('a' <= s[i] && s[i] <= 'z') || ('0' <= s[i] && s[i] <= '9')
                || s[i] == '-')) ==> !is_valid_project_name(s),
        ('a' <= s[0] && s[0] <= 'z') && (forall|i: int|
            0 <= i < s.len() ==> ('a' <= #[trigger] s[i] && s[i] <= 'z') || ('0' <= s[i] && s[i]
                <= '9') || s[i] == '-') && s[s.len() - 1] == '-' ==> first_broken_rule(s) == Some(
            NameRule::NoTrailingHyphen),
{
    if exists|i: int| 0 <= i < s.len() && (s[i] == '/' || s[i] == '\\') {
        let i = choose|i: int| 0 <= i < s.len() && (s[i] == '/' || s[i] == '\\');
        if s[i] == '/' {
            assert(has_char(s, '/'));
        } else {
            assert(has_char(s, '\\'));
        }
    }
    if exists|i: int| #![trigger s[i]] 0 <= i && i + 1 < s.len() && s[i] == '-' && s[i + 1] == '-' {
        let i = choose|i: int| #![trigger s[i]] 0 <= i && i + 1 < s.len() && s[i] == '-' && s[i + 1] == '-';
        assert(has_double_hyphen(s));
    }
    if exists|i: int|
        0 <= i < s.len() && !(('a' <= s[i] && s[i] <= 'z') || ('0' <= s[i] && s[i] <= '9') || s[i]
            == '-') {
        let i = choose|i: int|
            0 <= i < s.len() && !(('a' <= s[i] && s[i] <= 'z') || ('0' <= s[i] && s[i] <= '9')
                || s[i] == '-');
        assert(!crate::text::is_name_char(s[i]));
    }
    assert(s.last() == s[s.len() - 1]);
    if ('a' <= s[0] && s[0] <= 'z') && (forall|i: int|
        0 <= i < s.len() ==> ('a' <= #[trigger] s[i] && s[i] <= 'z') || ('0' <= s[i] && s[i] <= '9')
            || s[i] == '-') {
        assert(all_name_chars(s));
        if has_char(s, '/') {
            let i = choose|i: int| 0 <= i < s.len() && s[i] == '/';
            assert(crate::text::is_name_char(s[i]));
        }
        if has_char(s, '\\') {
            let i = choose|i: int| 0 <= i < s.len() && s[i] == '\\';
            assert(crate::text::is_name_char(s[i]));
        }
    }
}

} // verus!
