//! The texts in which failures and notices are reported. Callers match on
//! them, so each is fixed to the character.

use crate::decimal::{int_text, int_to_string};
use vstd::prelude::*;
use vstd::string::StringExecFns;

verus! {

/// What a lookup reports of a name that is not bound.
pub open spec fn not_found_message(key: Seq<char>) -> Seq<char> {
    "No such environment "@ + key
}

/// What is reported of a value that is no decimal literal of the wanted type.
pub open spec fn parse_failed_message(text: Seq<char>) -> Seq<char> {
    "Failed to parse "@ + text
}

/// What is reported of a number `i` outside `min ..= max`.
pub open spec fn range_error_message(i: int, min: int, max: int) -> Seq<char> {
    int_text(i) + " is not in the range ["@ + int_text(min) + ", "@ + int_text(max) + "]"@
}

/// What is reported of a port that cannot be read: with the offending text
/// where the name is bound, with `UNKNOWN` in its place where it is not.
pub open spec fn invalid_port_message(raw: Option<Seq<char>>) -> Seq<char> {
    match raw {
        Some(text) => "invalid port: "@ + text,
        None => "invalid port: UNKNOWN"@,
    }
}

/// The notice that a default stands in for a value: the failure, then the default.
pub open spec fn fallback_notice(failure: Seq<char>, default: Seq<char>) -> Seq<char> {
    failure + " ... using default "@ + default
}

/// The last words of a program that cannot go on without the value of `key`.
pub open spec fn required_env_message(key: Seq<char>) -> Seq<char> {
    "Could not find required env: "@ + key
}

/// The last words of a program that cannot go on without a port under `key`.
pub open spec fn required_port_message(key: Seq<char>) -> Seq<char> {
    "Invalid or missing port for: "@ + key
}

/// `prefix` followed by `rest`.
fn join(prefix: &str, rest: &str) -> (m: String)
    ensures
        m@ == prefix@ + rest@,
{
    let mut m = String::from_str(prefix);
    m.append(rest);
    m
}

/// The report that `key` is not bound.
pub fn not_found(key: &str) -> (m: String)
    ensures
        m@ == not_found_message(key@),
{
    join("No such environment ", key)
}

/// The report that `text` is no decimal literal of the wanted type.
pub fn parse_failed(text: &str) -> (m: String)
    ensures
        m@ == parse_failed_message(text@),
{
    join("Failed to parse ", text)
}

/// The report that `i` lies outside `min ..= max`.
pub fn range_error(i: i64, min: i64, max: i64) -> (m: String)
    ensures
        m@ == range_error_message(i as int, min as int, max as int),
{
    let mut m = int_to_string(i);
    m.append(" is not in the range [");
    m.append(int_to_string(min).as_str());
    m.append(", ");
    m.append(int_to_string(max).as_str());
    m.append("]");
    m
}

/// The report that no port can be read: from the text `raw`, or from nothing
/// where the name is not bound.
pub fn invalid_port(raw: Option<&str>) -> (m: String)
    ensures
        m@ == invalid_port_message(
            match raw {
                Some(text) => Some(text@),
                None => None,
            },
        ),
{
    match raw {
        Some(text) => join("invalid port: ", text),
        None => String::from_str("invalid port: UNKNOWN"),
    }
}

/// The notice that `default` stands in after `failure`.
pub fn fallback(failure: &str, default: &str) -> (m: String)
    ensures
        m@ == fallback_notice(failure@, default@),
{
    let mut m = String::from_str(failure);
    m.append(" ... using default ");
    m.append(default);
    m
}

/// What a program says last when it cannot go on without the value of `key`.
pub fn required_env(key: &str) -> (m: String)
    ensures
        m@ == required_env_message(key@),
{
    join("Could not find required env: ", key)
}

/// What a program says last when it cannot go on without a port under `key`.
pub fn required_port(key: &str) -> (m: String)
    ensures
        m@ == required_port_message(key@),
{
    join("Invalid or missing port for: ", key)
}

} // verus!
