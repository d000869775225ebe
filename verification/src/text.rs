//! Comparing and rewriting text.

use crate::error::BudgetError;
use crate::platform::lowercase;
use crate::platform::string_from_chars;
use crate::platform::to_lowercase;
use crate::proposal::Resolution;
use crate::team::TeamStatus;
use crate::team::TeamStatusView;
use vstd::prelude::*;
use vstd::string::*;
use vstd::utf8::*;

verus! {

/// Whether two strings hold the same characters.
pub fn str_eq(a: &str, b: &str) -> (same: bool)
    ensures
        same == (a@ == b@),
{
    let x = a.as_bytes();
    let y = b.as_bytes();
    proof {
        encode_utf8_decode_utf8(a@);
        encode_utf8_decode_utf8(b@);
    }
    if x.len() != y.len() {
        return false;
    }
    let mut i: usize = 0;
    while i < x.len()
        invariant
            i <= x@.len(),
            x@.len() == y@.len(),
            forall|j: int| 0 <= j < i ==> x@[j] == y@[j],
            x@ == encode_utf8(a@),
            y@ == encode_utf8(b@),
            decode_utf8(encode_utf8(a@)) == a@,
            decode_utf8(encode_utf8(b@)) == b@,
        decreases x@.len() - i,
    {
        if x[i] != y[i] {
            return false;
        }
        i += 1;
    }
    assert(x@ =~= y@);
    true
}

/// Whether `needle` occurs in `haystack`.
pub fn contains_id(haystack: &Vec<u128>, needle: u128) -> (found: bool)
    ensures
        found == haystack@.contains(needle),
{
    let mut i: usize = 0;
    while i < haystack.len()
        invariant
            i <= haystack@.len(),
            forall|j: int| 0 <= j < i ==> haystack@[j] != needle,
        decreases haystack@.len() - i,
    {
        if haystack[i] == needle {
            return true;
        }
        i += 1;
    }
    false
}

/// Whether the character has a meaning in the markup of messages and must be escaped.
pub open spec fn is_markup(c: char) -> bool {
    c == '_' || c == '*' || c == '[' || c == ']' || c == '(' || c == ')' || c == '~' || c == '`'
        || c == '>' || c == '#' || c == '+' || c == '-' || c == '=' || c == '|' || c == '{' || c
        == '}' || c == '.' || c == '!'
}

/// The text with a backslash before each character of the markup.
pub open spec fn escaped(text: Seq<char>) -> Seq<char>
    decreases text.len(),
{
    if text.len() == 0 {
        Seq::empty()
    } else if is_markup(text.last()) {
        escaped(text.drop_last()).push('\\').push(text.last())
    } else {
        escaped(text.drop_last()).push(text.last())
    }
}

fn check_markup(c: char) -> (yes: bool)
    ensures
        yes == is_markup(c),
{
    c == '_' || c == '*' || c == '[' || c == ']' || c == '(' || c == ')' || c == '~' || c == '`'
        || c == '>' || c == '#' || c == '+' || c == '-' || c == '=' || c == '|' || c == '{' || c
        == '}' || c == '.' || c == '!'
}

/// The text with a backslash before each character of the markup.
pub fn escape_markdown(text: &str) -> (out: String)
    ensures
        out@ == escaped(text@),
{
    let n = text.unicode_len();
    let mut chars: Vec<char> = Vec::new();
    let mut i: usize = 0;
    while i < n
        invariant
            i <= n,
            n == text@.len(),
            chars@ == escaped(text@.take(i as int)),
        decreases n - i,
    {
        assert(text@.take(i + 1).drop_last() =~= text@.take(i as int));
        let c = text.get_char(i);
        if check_markup(c) {
            chars.push('\\');
        }
        chars.push(c);
        i += 1;
    }
    assert(text@.take(i as int) =~= text@);
    string_from_chars(chars)
}

/// The character as it may stand in a file name: an underscore for each of
/// the characters that a file system reserves.
pub open spec fn clean_char(c: char) -> char {
    if c == '/' || c == '\\' || c == ':' || c == '*' || c == '?' || c == '"' || c == '<' || c
        == '>' || c == '|' {
        '_'
    } else {
        c
    }
}

/// The character if it is an ASCII letter, a digit, a hyphen or an
/// underscore, and an underscore otherwise.
pub open spec fn plain_char(c: char) -> char {
    if ('A' <= c && c <= 'Z') || ('a' <= c && c <= 'z') || ('0' <= c && c <= '9') || c == '-' || c
        == '_' {
        c
    } else {
        '_'
    }
}

/// The name with an underscore for each character that a file system reserves.
pub fn clean_file_name(name: &str) -> (out: String)
    ensures
        out@ == Seq::new(name@.len(), |i: int| clean_char(name@[i])),
{
    let n = name.unicode_len();
    let mut chars: Vec<char> = Vec::new();
    let mut i: usize = 0;
    while i < n
        invariant
            i <= n,
            n == name@.len(),
            chars@ == Seq::new(i as nat, |k: int| clean_char(name@[k])),
        decreases n - i,
    {
        let c = name.get_char(i);
        let cleaned = if c == '/' || c == '\\' || c == ':' || c == '*' || c == '?' || c == '"' || c
            == '<' || c == '>' || c == '|' {
            '_'
        } else {
            c
        };
        chars.push(cleaned);
        assert(chars@ =~= Seq::new((i + 1) as nat, |k: int| clean_char(name@[k])));
        i += 1;
    }
    string_from_chars(chars)
}

/// The name with an underscore for each character that is no ASCII letter,
/// digit, hyphen or underscore.
pub fn sanitize_filename(name: &str) -> (out: String)
    ensures
        out@ == Seq::new(name@.len(), |i: int| plain_char(name@[i])),
{
    let n = name.unicode_len();
    let mut chars: Vec<char> = Vec::new();
    let mut i: usize = 0;
    while i < n
        invariant
            i <= n,
            n == name@.len(),
            chars@ == Seq::new(i as nat, |k: int| plain_char(name@[k])),
        decreases n - i,
    {
        let c = name.get_char(i);
        let kept = if ('A' <= c && c <= 'Z') || ('a' <= c && c <= 'z') || ('0' <= c && c <= '9')
            || c == '-' || c == '_' {
            c
        } else {
            '_'
        };
        chars.push(kept);
        assert(chars@ =~= Seq::new((i + 1) as nat, |k: int| plain_char(name@[k])));
        i += 1;
    }
    string_from_chars(chars)
}

/// The resolution that the word names, in lower case.
pub open spec fn resolution_named(word: Seq<char>) -> Option<Resolution> {
    if word == "approved"@ {
        Some(Resolution::Approved)
    } else if word == "rejected"@ {
        Some(Resolution::Rejected)
    } else if word == "invalid"@ {
        Some(Resolution::Invalid)
    } else if word == "duplicate"@ {
        Some(Resolution::Duplicate)
    } else if word == "retracted"@ {
        Some(Resolution::Retracted)
    } else {
        None
    }
}

/// The resolution that the word names; the word is taken as it stands, in lower case.
pub fn resolution_from_word(word: &str) -> (made: Result<Resolution, BudgetError>)
    ensures
        match resolution_named(word@) {
            Some(resolution) => made == Ok::<Resolution, BudgetError>(resolution),
            None => made == Err::<Resolution, BudgetError>(BudgetError::UnknownResolution),
        },
{
    if str_eq(word, "approved") {
        Ok(Resolution::Approved)
    } else if str_eq(word, "rejected") {
        Ok(Resolution::Rejected)
    } else if str_eq(word, "invalid") {
        Ok(Resolution::Invalid)
    } else if str_eq(word, "duplicate") {
        Ok(Resolution::Duplicate)
    } else if str_eq(word, "retracted") {
        Ok(Resolution::Retracted)
    } else {
        Err(BudgetError::UnknownResolution)
    }
}

/// The resolution that the name names, in whatever case it is written.
pub fn parse_resolution(name: &str) -> (made: Result<Resolution, BudgetError>)
    ensures
        match resolution_named(lowercase(name@)) {
            Some(resolution) => made == Ok::<Resolution, BudgetError>(resolution),
            None => made == Err::<Resolution, BudgetError>(BudgetError::UnknownResolution),
        },
{
    let lower = to_lowercase(name);
    resolution_from_word(lower.as_str())
}

/// The status that the word names, in lower case, with the revenue that an
/// earner reports; or why there is none.
pub open spec fn status_named(word: Seq<char>, revenue: Option<Seq<u64>>) -> Result<
    TeamStatusView,
    BudgetError,
> {
    if word == "earner"@ {
        match revenue {
            Some(samples) => Ok(TeamStatusView::Earner { trailing_monthly_revenue: samples }),
            None => Err(BudgetError::EmptyRevenue),
        }
    } else if word == "supporter"@ {
        Ok(TeamStatusView::Supporter)
    } else if word == "inactive"@ {
        Ok(TeamStatusView::Inactive)
    } else {
        Err(BudgetError::UnknownStatus)
    }
}

/// The status that the word names; the word is taken as it stands, in
/// lower case. An earner needs its revenue.
pub fn status_from_word(word: &str, trailing_monthly_revenue: Option<Vec<u64>>) -> (made: Result<
    TeamStatus,
    BudgetError,
>)
    ensures
        match status_named(
            word@,
            match trailing_monthly_revenue {
                Some(samples) => Some(samples@),
                None => None,
            },
        ) {
            Ok(status) => made matches Ok(s) && s@ == status,
            Err(why) => made matches Err(e) && e == why,
        },
{
    if str_eq(word, "earner") {
        match trailing_monthly_revenue {
            Some(samples) => Ok(TeamStatus::Earner { trailing_monthly_revenue: samples }),
            None => Err(BudgetError::EmptyRevenue),
        }
    } else if str_eq(word, "supporter") {
        Ok(TeamStatus::Supporter)
    } else if str_eq(word, "inactive") {
        Ok(TeamStatus::Inactive)
    } else {
        Err(BudgetError::UnknownStatus)
    }
}

/// The status that the name names, in whatever case it is written.
pub fn parse_team_status(name: &str, trailing_monthly_revenue: Option<Vec<u64>>) -> (made: Result<
    TeamStatus,
    BudgetError,
>)
    ensures
        match status_named(
            lowercase(name@),
            match trailing_monthly_revenue {
                Some(samples) => Some(samples@),
                None => None,
            },
        ) {
            Ok(status) => made matches Ok(s) && s@ == status,
            Err(why) => made matches Err(e) && e == why,
        },
{
    let lower = to_lowercase(name);
    status_from_word(lower.as_str(), trailing_monthly_revenue)
}

} // verus!
