//! Typed access to the values of an environment: lookup by name, reading a
//! value as an integer or as a port number, bounds on an integer, and
//! defaults for what is missing or malformed.
//!
//! The functions here read an [`Environment`] and never change it. What each
//! returns is a function of the table that the environment stands for, given
//! by the spec functions of this module.

pub mod decimal;
pub mod environment;
pub mod message;

pub use crate::decimal::Decimal;
pub use crate::environment::Environment;

use crate::decimal::{int_text, int_to_string, typed_value};
use crate::environment::Table;
use crate::message::{
    fallback, fallback_notice, invalid_port, invalid_port_message, not_found, not_found_message,
    parse_failed, parse_failed_message, range_error, range_error_message,
};
use vstd::prelude::*;

verus! {

/// What a lookup of `key` yields: the value bound to it, or the report that
/// nothing is.
pub open spec fn lookup(env: Table, key: Seq<char>) -> Result<Seq<char>, Seq<char>> {
    if env.contains_key(key) {
        Ok(env[key])
    } else {
        Err(not_found_message(key))
    }
}

/// Whether a lookup of `key` would succeed.
pub open spec fn present(env: Table, key: Seq<char>) -> bool {
    lookup(env, key) is Ok
}

/// What reading the value of `key` as a `T` yields: the number that its text
/// denotes, the report of the failed lookup, or the report that the text is no
/// decimal literal that `T` holds.
pub open spec fn parsed<T: Decimal>(env: Table, key: Seq<char>) -> Result<int, Seq<char>> {
    match lookup(env, key) {
        Ok(text) => match typed_value::<T>(text) {
            Some(number) => Ok(number),
            None => Err(parse_failed_message(text)),
        },
        Err(failure) => Err(failure),
    }
}

/// What reading the value of `key` as an integer within `min ..= max` yields.
/// Both bounds belong to the range.
pub open spec fn in_range(env: Table, key: Seq<char>, min: int, max: int) -> Result<
    int,
    Seq<char>,
> {
    match parsed::<i64>(env, key) {
        Ok(i) => if min <= i <= max {
            Ok(i)
        } else {
            Err(range_error_message(i, min, max))
        },
        Err(failure) => Err(failure),
    }
}

/// What reading the value of `key` as a port number yields. A failure names
/// the offending text where `key` is bound, and says `UNKNOWN` where it is not.
pub open spec fn port(env: Table, key: Seq<char>) -> Result<int, Seq<char>> {
    match parsed::<u16>(env, key) {
        Ok(number) => Ok(number),
        Err(_) => if present(env, key) {
            Err(invalid_port_message(Some(env[key])))
        } else {
            Err(invalid_port_message(None))
        },
    }
}

/// The model of a textual result: each side by its characters.
pub open spec fn text_outcome(r: Result<String, String>) -> Result<Seq<char>, Seq<char>> {
    match r {
        Ok(value) => Ok(value@),
        Err(failure) => Err(failure@),
    }
}

/// The model of a numeric result: the number, or the failure by its characters.
pub open spec fn number_outcome<T: Decimal>(r: Result<T, String>) -> Result<int, Seq<char>> {
    match r {
        Ok(value) => Ok(value.number()),
        Err(failure) => Err(failure@),
    }
}

/// Looks `key` up in `env`.
pub fn get_env(env: &Environment, key: &str) -> (r: Result<String, String>)
    ensures
        text_outcome(r) == lookup(env@, key@),
{
    match env.get(key) {
        Some(value) => Ok(value.clone()),
        None => Err(not_found(key)),
    }
}

/// The value of `key`, which the caller knows to be bound. A program that
/// cannot know it asks `has_env` first, and where the answer is no, stops with
/// the text of `message::required_env`.
pub fn get_env_or_die(env: &Environment, key: &str) -> (value: String)
    requires
        present(env@, key@),
    ensures
        lookup(env@, key@) == Ok::<Seq<char>, Seq<char>>(value@),
{
    get_env(env, key).unwrap()
}

/// Whether `key` is bound in `env`.
pub fn has_env(env: &Environment, key: &str) -> (b: bool)
    ensures
        b == present(env@, key@),
{
    env.contains(key)
}

/// The value of `key`, or `default` where `key` is not bound.
pub fn get_env_with_default(env: &Environment, key: &str, default: &str) -> (value: String)
    ensures
        value@ == match lookup(env@, key@) {
            Ok(found) => found,
            Err(_) => default@,
        },
{
    match get_env(env, key) {
        Ok(found) => found,
        Err(_) => default.to_owned(),
    }
}

/// The notice that goes with `get_env_with_default`: `None` where the value
/// was found, else the failure and the default that stands in.
pub fn env_default_notice(env: &Environment, key: &str, default: &str) -> (notice: Option<String>)
    ensures
        match lookup(env@, key@) {
            Ok(_) => notice is None,
            Err(failure) => notice matches Some(text) && text@ == fallback_notice(
                failure,
                default@,
            ),
        },
{
    match get_env(env, key) {
        Ok(_) => None,
        Err(failure) => Some(fallback(failure.as_str(), default)),
    }
}

/// Reads the value of `key` as a `T`.
pub fn get_parsed<T: Decimal>(env: &Environment, key: &str) -> (r: Result<T, String>)
    ensures
        number_outcome(r) == parsed::<T>(env@, key@),
{
    match get_env(env, key) {
        Err(failure) => Err(failure),
        Ok(text) => match T::from_decimal(text.as_str()) {
            Some(value) => Ok(value),
            None => Err(parse_failed(text.as_str())),
        },
    }
}

/// Reads the value of `key` as a 64-bit signed integer.
pub fn get_int(env: &Environment, key: &str) -> (r: Result<i64, String>)
    ensures
        number_outcome(r) == parsed::<i64>(env@, key@),
{
    get_parsed::<i64>(env, key)
}

/// The integer under `key`, or `default` where there is none to be read.
pub fn get_int_with_default(env: &Environment, key: &str, default: i64) -> (value: i64)
    ensures
        value as int == match parsed::<i64>(env@, key@) {
            Ok(found) => found,
            Err(_) => default as int,
        },
{
    match get_int(env, key) {
        Ok(found) => found,
        Err(_) => default,
    }
}

/// The notice that goes with `get_int_with_default`: `None` where an integer
/// was read, else the failure and the default that stands in.
pub fn int_default_notice(env: &Environment, key: &str, default: i64) -> (notice: Option<String>)
    ensures
        match parsed::<i64>(env@, key@) {
            Ok(_) => notice is None,
            Err(failure) => notice matches Some(text) && text@ == fallback_notice(
                failure,
                int_text(default as int),
            ),
        },
{
    match get_int(env, key) {
        Ok(_) => None,
        Err(failure) => Some(fallback(failure.as_str(), int_to_string(default).as_str())),
    }
}

/// Reads the value of `key` as an integer and holds it to `min ..= max`.
pub fn get_int_in_range(env: &Environment, key: &str, min: i64, max: i64) -> (r: Result<
    i64,
    String,
>)
    ensures
        number_outcome(r) == in_range(env@, key@, min as int, max as int),
{
    match get_int(env, key) {
        Err(failure) => Err(failure),
        Ok(i) => {
            if min <= i && i <= max {
                Ok(i)
            } else {
                Err(range_error(i, min, max))
            }
        },
    }
}

/// Reads the value of `key` as a port number.
pub fn get_port(env: &Environment, key: &str) -> (r: Result<u16, String>)
    ensures
        number_outcome(r) == port(env@, key@),
{
    match get_parsed::<u16>(env, key) {
        Ok(number) => Ok(number),
        Err(_) => {
            if has_env(env, key) {
                let raw = get_env(env, key).unwrap();
                Err(invalid_port(Some(raw.as_str())))
            } else {
                Err(invalid_port(None))
            }
        },
    }
}

/// The port under `key`, or `default` where there is none to be read. No
/// notice goes with this one.
pub fn get_port_with_default(env: &Environment, key: &str, default: u16) -> (value: u16)
    ensures
        value as int == match port(env@, key@) {
            Ok(found) => found,
            Err(_) => default as int,
        },
{
    match get_port(env, key) {
        Ok(found) => found,
        Err(_) => default,
    }
}

/// The port under `key`, which the caller knows to be readable. A program
/// that cannot know it asks `get_port` first, and where that fails, stops with
/// the text of `message::required_port`.
pub fn get_port_or_die(env: &Environment, key: &str) -> (value: u16)
    requires
        port(env@, key@) is Ok,
    ensures
        port(env@, key@) == Ok::<int, Seq<char>>(value as int),
{
    get_port(env, key).unwrap()
}

/// Of a name that is not bound, a lookup fails and the name is not present. Of a bound
/// name, whatever its value, the empty text included, a lookup yields exactly
/// that value, and the name is present.
pub proof fn lemma_lookup_and_has(env: Table, key: Seq<char>)
    ensures
        !env.contains_key(key) ==> lookup(env, key) == Err::<Seq<char>, Seq<char>>(
            not_found_message(key),
        ) && !present(env, key),
        env.contains_key(key) ==> lookup(env, key) == Ok::<Seq<char>, Seq<char>>(env[key]) && present(
            env,
            key,
        ),
{
}

/// Once `key` is bound to `value`, a lookup of `key` yields exactly `value`,
/// and the lookup of any other name yields what it did before.
pub proof fn lemma_lookup_after_set(env: Table, key: Seq<char>, value: Seq<char>, other: Seq<char>)
    ensures
        lookup(env.insert(key, value), key) == Ok::<Seq<char>, Seq<char>>(value),
        present(env.insert(key, value), key),
        other != key ==> lookup(env.insert(key, value), other) == lookup(env, other),
{
}

/// Once `key` is unbound, a lookup of `key` fails, and the lookup of any
/// other name yields what it did before.
pub proof fn lemma_lookup_after_remove(env: Table, key: Seq<char>, other: Seq<char>)
    ensures
        lookup(env.remove(key), key) == Err::<Seq<char>, Seq<char>>(not_found_message(key)),
        !present(env.remove(key), key),
        other != key ==> lookup(env.remove(key), other) == lookup(env, other),
{
}

/// What the accessors answer for `key` follows from the binding of `key`
/// alone: two environments that agree on it give the same answers. So an
/// accessor called again on an environment that has not changed answers as it
/// did before.
pub proof fn lemma_answers_follow_binding<T: Decimal>(
    a: Table,
    b: Table,
    key: Seq<char>,
    min: int,
    max: int,
)
    requires
        a.contains_key(key) == b.contains_key(key),
        a.contains_key(key) ==> a[key] == b[key],
    ensures
        lookup(a, key) == lookup(b, key),
        present(a, key) == present(b, key),
        parsed::<T>(a, key) == parsed::<T>(b, key),
        in_range(a, key, min, max) == in_range(b, key, min, max),
        port(a, key) == port(b, key),
{
}

/// A port is read exactly where the value of `key` is a decimal literal
/// without a `-` that denotes a number up to 65535; every failure, of the
/// lookup or of the reading, is reported as an invalid port.
pub proof fn lemma_port_or_invalid(env: Table, key: Seq<char>)
    ensures
        match parsed::<u16>(env, key) {
            Ok(number) => port(env, key) == Ok::<int, Seq<char>>(number) && 0 <= number <= 65535,
            Err(_) => port(env, key) == Err::<int, Seq<char>>(
                invalid_port_message(
                    if env.contains_key(key) {
                        Some(env[key])
                    } else {
                        None
                    },
                ),
            ),
        },
{
}

/// A number within `min ..= max`, the two bounds included, is returned as it
/// was read; a number outside is reported with the number and both bounds.
pub proof fn lemma_range_is_inclusive(env: Table, key: Seq<char>, min: int, max: int, i: int)
    requires
        parsed::<i64>(env, key) == Ok::<int, Seq<char>>(i),
    ensures
        min <= i <= max ==> in_range(env, key, min, max) == Ok::<int, Seq<char>>(i),
        (i == min || i == max) && min <= max ==> in_range(env, key, min, max) == Ok::<
            int,
            Seq<char>,
        >(i),
        i < min || max < i ==> in_range(env, key, min, max) == Err::<int, Seq<char>>(
            range_error_message(i, min, max),
        ),
{
}

} // verus!
