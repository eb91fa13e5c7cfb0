//! Checks on single input values: e-mail addresses, passwords, country
//! codes, display names and identifiers.
use vstd::prelude::*;
use vstd::string::StringSliceAdditionalSpecFns;

verus! {

pub open spec fn is_ascii_lower(c: char) -> bool {
    'a' <= c <= 'z'
}

pub open spec fn is_ascii_upper(c: char) -> bool {
    'A' <= c <= 'Z'
}

pub open spec fn is_ascii_digit(c: char) -> bool {
    '0' <= c <= '9'
}

pub open spec fn is_ascii_alpha(c: char) -> bool {
    is_ascii_lower(c) || is_ascii_upper(c)
}

pub open spec fn is_ascii_alnum(c: char) -> bool {
    is_ascii_alpha(c) || is_ascii_digit(c)
}

/// A character allowed before the `@` of an address.
pub open spec fn is_local_char(c: char) -> bool {
    is_ascii_alnum(c) || c == '.' || c == '_' || c == '%' || c == '+' || c == '-'
}

/// A character allowed in the domain of an address.
pub open spec fn is_domain_char(c: char) -> bool {
    is_ascii_alnum(c) || c == '.' || c == '-'
}

/// The shape of an e-mail address: a non-empty local part, `@`, a non-empty
/// domain, a dot, and at least two letters.
pub open spec fn email_shape(s: Seq<char>) -> bool {
    exists|at: int, dot: int|
        1 <= at && at + 2 <= dot && dot + 3 <= s.len() && s[at] == '@' && s[dot] == '.' && (forall|i: int|
            0 <= i < at ==> is_local_char(#[trigger] s[i])) && (forall|i: int|
            at < i < dot ==> is_domain_char(#[trigger] s[i])) && (forall|i: int|
            dot < i < s.len() ==> is_ascii_alpha(#[trigger] s[i]))
}

/// Relies on regex::Regex::is_match, with a pattern that anchors both ends
/// and spells out the shape of `email_shape`.
#[verifier::external_body]
fn matches_email_pattern(email: &str) -> (r: bool)
    ensures
        r == email_shape(email@),
{
    let re = regex::Regex::new(r"^[a-zA-Z0-9._%+-]+@[a-zA-Z0-9.-]+\.[a-zA-Z]{2,}$").unwrap();
    re.is_match(email)
}

/// Whether `email` has the shape of an e-mail address.
pub fn is_valid_email(email: &str) -> (r: bool)
    ensures
        r == email_shape(email@),
{
    matches_email_pattern(email)
}

/// The length in bytes of the UTF-8 encoding of `s`, as `str::len` gives it.
pub open spec fn byte_len(s: Seq<char>) -> int {
    (vstd::utf8::encode_utf8(s).len() as usize) as int
}

/// The characters that count as special in a password.
pub open spec fn is_password_special(c: char) -> bool {
    c == '@' || c == '$' || c == '!' || c == '%' || c == '*' || c == '?' || c == '#' || c == '('
        || c == ')' || c == '/' || c == '[' || c == ']' || c == '{' || c == '}' || c == '&'
}

/// A class of characters that a password may be asked to hold.
#[derive(Clone, Copy, Debug, PartialEq, Eq, Structural)]
enum CharClass {
    Lower,
    Upper,
    Digit,
    Special,
}

spec fn in_class(c: char, class: CharClass) -> bool {
    match class {
        CharClass::Lower => is_ascii_lower(c),
        CharClass::Upper => is_ascii_upper(c),
        CharClass::Digit => is_ascii_digit(c),
        CharClass::Special => is_password_special(c),
    }
}

fn char_in_class(c: char, class: CharClass) -> (r: bool)
    ensures
        r == in_class(c, class),
{
    match class {
        CharClass::Lower => 'a' <= c && c <= 'z',
        CharClass::Upper => 'A' <= c && c <= 'Z',
        CharClass::Digit => '0' <= c && c <= '9',
        CharClass::Special => c == '@' || c == '$' || c == '!' || c == '%' || c == '*' || c == '?'
            || c == '#' || c == '(' || c == ')' || c == '/' || c == '[' || c == ']' || c == '{'
            || c == '}' || c == '&',
    }
}

spec fn has_class(s: Seq<char>, class: CharClass) -> bool {
    exists|i: int| 0 <= i < s.len() && in_class(#[trigger] s[i], class)
}

fn any_in_class(s: &str, class: CharClass) -> (r: bool)
    ensures
        r == has_class(s@, class),
{
    let n = s.unicode_len();
    let mut i: usize = 0;
    while i < n
        invariant
            n == s@.len(),
            0 <= i <= n,
            forall|j: int| 0 <= j < i ==> !in_class(#[trigger] s@[j], class),
        decreases n - i,
    {
        if char_in_class(s.get_char(i), class) {
            return true;
        }
        i = i + 1;
    }
    false
}

/// How demanding a password check is.
#[derive(Clone, Copy, Debug, PartialEq, Eq, Structural)]
pub enum PasswordComplexity {
    Flexible,
    Normal,
    Strict,
}

/// Whether a password with characters `pw` and UTF-8 length `byte_len`
/// passes the check of `complexity`: `Normal` asks for more than eight
/// bytes, a lower-case and an upper-case letter; `Strict` and `Flexible`
/// ask for a digit and a special character besides.
pub open spec fn password_meets(pw: Seq<char>, byte_len: int, complexity: PasswordComplexity) -> bool {
    let long = byte_len > 8;
    let lower = exists|i: int| 0 <= i < pw.len() && is_ascii_lower(#[trigger] pw[i]);
    let upper = exists|i: int| 0 <= i < pw.len() && is_ascii_upper(#[trigger] pw[i]);
    let digit = exists|i: int| 0 <= i < pw.len() && is_ascii_digit(#[trigger] pw[i]);
    let special = exists|i: int| 0 <= i < pw.len() && is_password_special(#[trigger] pw[i]);
    match complexity {
        PasswordComplexity::Normal => long && lower && upper,
        _ => byte_len >= 6 && long && lower && upper && digit && special,
    }
}

/// Checks password complexity against `complexity`.
pub fn meets_password_complexity(password: &str, complexity: PasswordComplexity) -> (r: bool)
    ensures
        r == password_meets(password@, byte_len(password@), complexity),
{
    let byte_len = password.len();
    if complexity == PasswordComplexity::Flexible {
        if byte_len < 6 {
            return false;
        }
    }
    let length = byte_len > 8;
    let has_lowercase = any_in_class(password, CharClass::Lower);
    let has_uppercase = any_in_class(password, CharClass::Upper);
    if complexity == PasswordComplexity::Normal {
        return length && has_lowercase && has_uppercase;
    }
    let has_digit = any_in_class(password, CharClass::Digit);
    let has_special = any_in_class(password, CharClass::Special);
    length && has_lowercase && has_uppercase && has_digit && has_special
}

/// Whether `code` is two upper-case ASCII letters.
pub open spec fn country_code_shape(code: Seq<char>) -> bool {
    code.len() == 2 && is_ascii_upper(code[0]) && is_ascii_upper(code[1])
}

/// Checks that `country_code` is exactly two upper-case letters.
pub fn is_valid_country_code(country_code: &str) -> (r: bool)
    ensures
        r == country_code_shape(country_code@),
{
    let n = country_code.unicode_len();
    if n != 2 {
        return false;
    }
    let a = country_code.get_char(0);
    let b = country_code.get_char(1);
    'A' <= a && a <= 'Z' && 'A' <= b && b <= 'Z'
}

/// Unicode's White_Space property, the set that `char::is_whitespace` and
/// `str::trim` go by: tab, line feed, vertical tab, form feed, carriage
/// return, space, next line, no-break space, ogham space mark, the spaces
/// from en quad to hair space, line and paragraph separators, narrow
/// no-break space, medium mathematical space and ideographic space.
pub open spec fn unicode_white_space(c: char) -> bool {
    ('\u{9}' <= c <= '\u{d}') || c == ' ' || c == '\u{85}' || c == '\u{a0}' || c == '\u{1680}'
        || ('\u{2000}' <= c <= '\u{200a}') || c == '\u{2028}' || c == '\u{2029}' || c == '\u{202f}'
        || c == '\u{205f}' || c == '\u{3000}'
}

/// Whether `c` is white space.
pub fn is_white_space(c: char) -> (r: bool)
    ensures
        r == unicode_white_space(c),
{
    ('\u{9}' <= c && c <= '\u{d}') || c == ' ' || c == '\u{85}' || c == '\u{a0}' || c == '\u{1680}'
        || ('\u{2000}' <= c && c <= '\u{200a}') || c == '\u{2028}' || c == '\u{2029}' || c
        == '\u{202f}' || c == '\u{205f}' || c == '\u{3000}'
}

/// Whether every character of `s` is white space, as trimming would see it.
pub open spec fn all_white_space(s: Seq<char>) -> bool {
    forall|i: int| 0 <= i < s.len() ==> unicode_white_space(#[trigger] s[i])
}

/// Whether `s` is blank: nothing but white space, or empty.
pub fn is_blank(s: &str) -> (r: bool)
    ensures
        r == all_white_space(s@),
{
    let n = s.unicode_len();
    let mut i: usize = 0;
    while i < n
        invariant
            n == s@.len(),
            0 <= i <= n,
            forall|j: int| 0 <= j < i ==> unicode_white_space(#[trigger] s@[j]),
        decreases n - i,
    {
        if !is_white_space(s.get_char(i)) {
            return false;
        }
        i = i + 1;
    }
    true
}

/// Checks that `name` is not blank and takes at most fifty bytes.
pub fn is_valid_name(name: &str) -> (r: bool)
    ensures
        r == (!all_white_space(name@) && byte_len(name@) <= 50),
{
    !is_blank(name) && name.len() <= 50
}

/// The 128-bit value of the UUID that `s` spells, in any form that the
/// `uuid` crate's parser accepts, or none.
pub uninterp spec fn uuid_text_value(s: Seq<char>) -> Option<u128>;

/// Relies on uuid::Uuid::parse_str, which reads simple, hyphenated, braced
/// and URN forms and refuses any text whose UTF-8 length is not 32, 36, 38
/// or 45 bytes.
#[verifier::external_body]
fn parse_uuid_text(s: &str) -> (r: Option<u128>)
    ensures
        r == uuid_text_value(s@),
        !(s.spec_bytes().len() == 32 || s.spec_bytes().len() == 36 || s.spec_bytes().len() == 38
            || s.spec_bytes().len() == 45) ==> r is None,
{
    match uuid::Uuid::parse_str(s) {
        Ok(u) => Some(u.as_u128()),
        Err(_) => None,
    }
}

/// The value of the UUID spelled by `uuid_str`, if it spells one.
pub fn string_to_uuid(uuid_str: &str) -> (r: Option<u128>)
    ensures
        r == uuid_text_value(uuid_str@),
        r is Some ==> uuid_str.spec_bytes().len() == 32 || uuid_str.spec_bytes().len() == 36
            || uuid_str.spec_bytes().len() == 38 || uuid_str.spec_bytes().len() == 45,
{
    parse_uuid_text(uuid_str)
}

} // verus!
