use vstd::prelude::*;
use crate::consts::{MAX_NAME_LEN, MIN_NAME_LEN};

verus! {

/// How many rules a user name is held against.
pub const BANNED_NAME_RULES: usize = 4;

/// Makes `regex::Regex` known: a compiled pattern. Nothing is said of what it holds.
#[verifier::external_type_specification]
#[verifier::external_body]
pub struct ExRegex(regex::Regex);

/// Makes `regex::Error` known: the error that `regex::Regex::new` reports. Nothing is said
/// of what it holds.
#[verifier::external_type_specification]
#[verifier::external_body]
pub struct ExRegexError(regex::Error);

/// What `regex::Regex::new` gives for a pattern: the compiled pattern, or nothing where it
/// reports an error.
pub uninterp spec fn regex_compiled(pattern: Seq<char>) -> Option<regex::Regex>;

/// What `regex::Regex::is_match` gives for a compiled pattern and a text: whether the
/// pattern matches somewhere in the text.
pub uninterp spec fn regex_is_match(compiled: regex::Regex, text: Seq<char>) -> bool;

/// Calls `regex::Regex::new`. Trusted: what it gives depends on the pattern alone.
#[verifier::external_body]
fn compile(pattern: &str) -> (result: Result<regex::Regex, regex::Error>)
    ensures
        match result {
            Ok(compiled) => regex_compiled(pattern@) == Some(compiled),
            Err(_) => regex_compiled(pattern@) is None,
        },
{
    regex::Regex::new(pattern)
}

/// Calls `regex::Regex::is_match`. Trusted: the answer depends on the compiled pattern and
/// the text alone.
#[verifier::external_body]
fn is_match(compiled: &regex::Regex, text: &str) -> (found: bool)
    ensures
        found == regex_is_match(*compiled, text@),
{
    compiled.is_match(text)
}

/// Whether a pattern matches somewhere in a text, or nothing where the pattern cannot be
/// compiled.
pub open spec fn regex_search(pattern: Seq<char>, text: Seq<char>) -> Option<bool> {
    match regex_compiled(pattern) {
        Some(compiled) => Some(regex_is_match(compiled, text)),
        None => None,
    }
}

/// Searches a text for a pattern: compiles the pattern and asks whether it matches
/// somewhere in the text. Nothing is returned where the pattern cannot be compiled.
fn pattern_matches(pattern: &str, text: &str) -> (found: Option<bool>)
    ensures
        found == regex_search(pattern@, text@),
{
    match compile(pattern) {
        Ok(compiled) => Some(is_match(&compiled, text)),
        Err(_) => None,
    }
}

/// The pattern of the rule number `rule`: a name that the pattern matches is banned.
pub open spec fn banned_pattern(rule: int) -> Seq<char> {
    if rule == 0 {
        "[^\\x20-\\x7E]"@
    } else if rule == 1 {
        "^\\s*$"@
    } else if rule == 2 {
        "(^\\s+)|(\\s+$)"@
    } else {
        "\\[.*\\]"@
    }
}

/// Why the rule number `rule` bans a name.
pub open spec fn banned_reason(rule: int) -> Seq<char> {
    if rule == 0 {
        "Username contains Non-ASCII characters"@
    } else if rule == 1 {
        "Empty username"@
    } else if rule == 2 {
        "Usernames can't start/end with spaces"@
    } else {
        "Usernames wrapped in square brackets are not allowed"@
    }
}

/// The rule number `rule`: its pattern and the reason it gives.
pub fn banned_name(rule: usize) -> (entry: (&'static str, &'static str))
    requires
        rule < BANNED_NAME_RULES,
    ensures
        entry.0@ == banned_pattern(rule as int),
        entry.1@ == banned_reason(rule as int),
{
    if rule == 0 {
        ("[^\\x20-\\x7E]", "Username contains Non-ASCII characters")
    } else if rule == 1 {
        ("^\\s*$", "Empty username")
    } else if rule == 2 {
        ("(^\\s+)|(\\s+$)", "Usernames can't start/end with spaces")
    } else {
        ("\\[.*\\]", "Usernames wrapped in square brackets are not allowed")
    }
}

/// The first of the first `n` rules that does not clear a name: `hits` holds for each
/// rule what the search for its pattern gave. A rule clears a name only where its pattern
/// was searched for and not found.
pub open spec fn first_hit(hits: Seq<Option<bool>>, n: int) -> Option<int>
    decreases n,
{
    if n <= 0 {
        None
    } else {
        match first_hit(hits, n - 1) {
            Some(rule) => Some(rule),
            None => if hits[n - 1] == Some(false) {
                None
            } else {
                Some(n - 1)
            },
        }
    }
}

/// What is said of a user name of `len` bytes for which the rules gave `hits`: nothing
/// where the name is accepted, else the reason why it is refused.
pub open spec fn username_verdict(len: nat, hits: Seq<Option<bool>>) -> Option<Seq<char>> {
    if len < MIN_NAME_LEN {
        Some("Username is too short"@)
    } else if len > MAX_NAME_LEN {
        Some("Username is too long"@)
    } else {
        match first_hit(hits, BANNED_NAME_RULES as int) {
            Some(rule) => Some(banned_reason(rule)),
            None => None,
        }
    }
}

/// What the rules give for a name: for each rule, the search for its pattern in the name.
pub open spec fn rule_hits(name: Seq<char>) -> Seq<Option<bool>> {
    Seq::new(BANNED_NAME_RULES as nat, |rule: int| regex_search(banned_pattern(rule), name))
}

/// Judges a user name of `len` bytes from what the search for each rule's pattern gave.
/// The name is accepted where it has 3 to 24 bytes and every rule clears it.
pub fn judge_username(len: usize, hits: &[Option<bool>; 4]) -> (verdict: Result<
    (),
    &'static str,
>)
    ensures
        match verdict {
            Ok(()) => username_verdict(len as nat, hits@) is None,
            Err(reason) => username_verdict(len as nat, hits@) == Some(reason@),
        },
{
    if len < MIN_NAME_LEN {
        return Err("Username is too short");
    }
    if len > MAX_NAME_LEN {
        return Err("Username is too long");
    }
    let mut rule: usize = 0;
    while rule < BANNED_NAME_RULES
        invariant
            rule <= BANNED_NAME_RULES,
            MIN_NAME_LEN <= len <= MAX_NAME_LEN,
            first_hit(hits@, rule as int) is None,
        decreases BANNED_NAME_RULES - rule,
    {
        let cleared = match hits[rule] {
            Some(found) => !found,
            None => false,
        };
        if !cleared {
            proof {
                lemma_first_hit_found(hits@, rule as int, BANNED_NAME_RULES as int);
            }
            return Err(banned_name(rule).1);
        }
        rule = rule + 1;
    }
    Ok(())
}

/// Once a rule does not clear a name, it stays the first one that does not.
pub proof fn lemma_first_hit_found(hits: Seq<Option<bool>>, rule: int, n: int)
    requires
        0 <= rule < n,
        first_hit(hits, rule) is None,
        hits[rule] != Some(false),
    ensures
        first_hit(hits, n) == Some(rule),
    decreases n - rule,
{
    if n > rule + 1 {
        lemma_first_hit_found(hits, rule, n - 1);
    }
}

/// Checks a user name: it has 3 to 24 bytes, and none of the rules bans it. Where it is
/// refused, the reason is returned.
pub fn check_username(name: &str) -> (verdict: Result<(), &'static str>)
    ensures
        match verdict {
            Ok(()) => username_verdict(name.len() as nat, rule_hits(name@)) is None,
            Err(reason) => username_verdict(name.len() as nat, rule_hits(name@)) == Some(
                reason@,
            ),
        },
{
    let hits: [Option<bool>; 4] = [
        pattern_matches(banned_name(0).0, name),
        pattern_matches(banned_name(1).0, name),
        pattern_matches(banned_name(2).0, name),
        pattern_matches(banned_name(3).0, name),
    ];
    assert(hits@ =~= rule_hits(name@));
    judge_username(name.len(), &hits)
}

/// Checks a password: it has 6 to 128 bytes.
pub fn check_password(pwd: &str) -> (verdict: Result<(), &'static str>)
    ensures
        verdict is Ok <==> 6 <= pwd.len() <= 128,
        verdict matches Err(reason) ==> reason@ == "invalid password"@,
{
    if pwd.len() >= 6 && pwd.len() <= 128 {
        Ok(())
    } else {
        Err("invalid password")
    }
}

} // verus!
