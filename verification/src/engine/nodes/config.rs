//! Reading of node configurations.
use crate::engine::node::{NodeError, NodeErrorView};
use crate::ieee::Real64;
use crate::json::{JsonTree, JsonValue};
use crate::text::{blank, concat, concat3, is_blank, parse_u64, parsed_u64, trim, trimmed};
use vstd::prelude::*;

verus! {

/// Whether a result is the given error.
pub open spec fn failed<T>(r: Result<T, NodeError>, error: NodeErrorView) -> bool {
    r is Err && r->Err_0@ == error
}

/// The member `key` as text, or a fallback where it is missing or no text.
pub open spec fn text_or(config: JsonTree, key: Seq<char>, fallback: Seq<char>) -> Seq<char> {
    match config.member_text(key) {
        Some(s) => s,
        None => fallback,
    }
}

pub fn config_text<'a>(config: &'a JsonValue, key: &str, fallback: &'a str) -> (r: &'a str)
    ensures
        r@ == text_or(config@, key@, fallback@),
{
    match config.get_str(key) {
        Some(s) => s,
        None => fallback,
    }
}

/// The member `key` as text that is not blank; nothing otherwise.
pub open spec fn filled_text(config: JsonTree, key: Seq<char>) -> Option<Seq<char>> {
    match config.member_text(key) {
        Some(s) => if blank(s) {
            None
        } else {
            Some(s)
        },
        None => None,
    }
}

pub fn config_filled<'a>(config: &'a JsonValue, key: &str) -> (r: Option<&'a str>)
    ensures
        match r {
            Some(s) => filled_text(config@, key@) == Some(s@),
            None => filled_text(config@, key@) is None,
        },
{
    match config.get_str(key) {
        Some(s) => if is_blank(s) {
            None
        } else {
            Some(s)
        },
        None => None,
    }
}

/// The member `key` as text without outer white space, where that leaves any; nothing otherwise.
pub open spec fn trimmed_text(config: JsonTree, key: Seq<char>) -> Option<Seq<char>> {
    match filled_text(config, key) {
        Some(s) => Some(trimmed(s)),
        None => None,
    }
}

pub fn config_trimmed<'a>(config: &'a JsonValue, key: &str) -> (r: Option<&'a str>)
    ensures
        match r {
            Some(s) => trimmed_text(config@, key@) == Some(s@),
            None => trimmed_text(config@, key@) is None,
        },
{
    match config_filled(config, key) {
        Some(s) => Some(trim(s)),
        None => None,
    }
}

/// The member `key` as a number of at most `most`, or a fallback.
pub open spec fn uint_or(config: JsonTree, key: Seq<char>, most: u64, fallback: u64) -> u64 {
    match config.member_uint(key) {
        Some(n) => if n <= most {
            n
        } else {
            fallback
        },
        None => fallback,
    }
}

pub fn config_uint(config: &JsonValue, key: &str, most: u64, fallback: u64) -> (r: u64)
    ensures
        r == uint_or(config@, key@, most, fallback),
{
    match config.get_u64(key) {
        Some(n) => if n <= most {
            n
        } else {
            fallback
        },
        None => fallback,
    }
}

/// The member `key` as a 16-bit number, or a fallback.
pub open spec fn u16_or(config: JsonTree, key: Seq<char>, fallback: u16) -> u16 {
    uint_or(config, key, 0xffff, fallback as u64) as u16
}

pub fn config_u16(config: &JsonValue, key: &str, fallback: u16) -> (r: u16)
    ensures
        r == u16_or(config@, key@, fallback),
{
    config_uint(config, key, 0xffff, fallback as u64) as u16
}

/// The member `key` as a 32-bit number, or a fallback.
pub open spec fn u32_or(config: JsonTree, key: Seq<char>, fallback: u32) -> u32 {
    uint_or(config, key, 0xffff_ffff, fallback as u64) as u32
}

pub fn config_u32(config: &JsonValue, key: &str, fallback: u32) -> (r: u32)
    ensures
        r == u32_or(config@, key@, fallback),
{
    config_uint(config, key, 0xffff_ffff, fallback as u64) as u32
}

/// The member `key` as a number, or a fallback.
pub open spec fn real_or(config: JsonTree, key: Seq<char>, fallback: u64) -> Real64 {
    match config.member_number(key) {
        Some(x) => x,
        None => Real64 { bits: fallback },
    }
}

pub fn config_real(config: &JsonValue, key: &str, fallback: u64) -> (r: Real64)
    ensures
        r == real_or(config@, key@, fallback),
{
    match config.get_real(key) {
        Some(x) => x,
        None => Real64::from_bits(fallback),
    }
}

/// The member `key` as a boolean, or a fallback.
pub open spec fn bool_or(config: JsonTree, key: Seq<char>, fallback: bool) -> bool {
    match config.member_boolean(key) {
        Some(b) => b,
        None => fallback,
    }
}

pub fn config_bool(config: &JsonValue, key: &str, fallback: bool) -> (r: bool)
    ensures
        r == bool_or(config@, key@, fallback),
{
    match config.get_bool(key) {
        Some(b) => b,
        None => fallback,
    }
}

/// The member `key` as a number; a fallback where it is missing, an error where it is none.
pub open spec fn strict_u64(config: JsonTree, key: Seq<char>, fallback: u64) -> Result<
    u64,
    NodeErrorView,
> {
    match config.member(key) {
        None => Ok(fallback),
        Some(value) => match value.uint() {
            Some(n) => Ok(n),
            None => Err(NodeErrorView::Config(key + " must be an unsigned integer"@)),
        },
    }
}

pub fn config_strict_u64(config: &JsonValue, key: &str, fallback: u64) -> (r: Result<
    u64,
    NodeError,
>)
    ensures
        match strict_u64(config@, key@, fallback) {
            Ok(n) => r == Ok::<u64, NodeError>(n),
            Err(error) => failed(r, error),
        },
{
    match config.get(key) {
        None => Ok(fallback),
        Some(value) => match value.as_u64() {
            Some(n) => Ok(n),
            None => Err(NodeError::Config(concat(key, " must be an unsigned integer"))),
        },
    }
}

/// The member `key` as a 16-bit number; a fallback where it is missing, else an error.
pub open spec fn strict_u16(config: JsonTree, key: Seq<char>, fallback: u16) -> Result<
    u16,
    NodeErrorView,
> {
    match strict_u64(config, key, fallback as u64) {
        Ok(n) => if n <= 0xffff {
            Ok(n as u16)
        } else {
            Err(NodeErrorView::Config(key + " must be a valid u16"@))
        },
        Err(error) => Err(error),
    }
}

pub fn config_strict_u16(config: &JsonValue, key: &str, fallback: u16) -> (r: Result<
    u16,
    NodeError,
>)
    ensures
        match strict_u16(config@, key@, fallback) {
            Ok(n) => r == Ok::<u16, NodeError>(n),
            Err(error) => failed(r, error),
        },
{
    match config_strict_u64(config, key, fallback as u64) {
        Ok(n) => if n <= 0xffff {
            Ok(n as u16)
        } else {
            Err(NodeError::Config(concat(key, " must be a valid u16")))
        },
        Err(error) => Err(error),
    }
}

/// The member `key` as a number; a fallback where it is missing, an error where it is none.
pub open spec fn strict_real(config: JsonTree, key: Seq<char>, fallback: u64) -> Result<
    Real64,
    NodeErrorView,
> {
    match config.member(key) {
        None => Ok(Real64 { bits: fallback }),
        Some(value) => match value.number() {
            Some(x) => Ok(x),
            None => Err(NodeErrorView::Config(key + " must be a number"@)),
        },
    }
}

pub fn config_strict_real(config: &JsonValue, key: &str, fallback: u64) -> (r: Result<
    Real64,
    NodeError,
>)
    ensures
        match strict_real(config@, key@, fallback) {
            Ok(x) => r == Ok::<Real64, NodeError>(x),
            Err(error) => failed(r, error),
        },
{
    match config.get(key) {
        None => Ok(Real64::from_bits(fallback)),
        Some(value) => match value.as_real() {
            Some(x) => Ok(x),
            None => Err(NodeError::Config(concat(key, " must be a number"))),
        },
    }
}

/// The member `key` as a number, written as one or as a numeral with outer white space.
pub open spec fn loose_u64(config: JsonTree, key: Seq<char>) -> Option<u64> {
    match config.member(key) {
        Some(value) => match value.uint() {
            Some(n) => Some(n),
            None => match value.text() {
                Some(s) => parsed_u64(trimmed(s)),
                None => None,
            },
        },
        None => None,
    }
}

pub fn config_loose_u64(config: &JsonValue, key: &str) -> (r: Option<u64>)
    ensures
        r == loose_u64(config@, key@),
{
    match config.get(key) {
        Some(value) => match value.as_u64() {
            Some(n) => Some(n),
            None => match value.as_str() {
                Some(s) => parse_u64(trim(s)),
                None => None,
            },
        },
        None => None,
    }
}

/// The largest value of a timeout.
pub const MAX_TIMEOUT_MS: u64 = 120_000;

/// A timeout in milliseconds: the member `key`, or a fallback where it is no number.
pub open spec fn timeout_or(
    config: JsonTree,
    key: Seq<char>,
    fallback: u64,
    owner: Seq<char>,
) -> Result<u64, NodeErrorView> {
    let value = match config.member_uint_or_numeral(key) {
        Some(n) => n,
        None => fallback,
    };
    if value == 0 || value > MAX_TIMEOUT_MS {
        Err(NodeErrorView::Config(owner + key + " must be in 1..=120000 ms"@))
    } else {
        Ok(value)
    }
}

pub fn config_timeout(config: &JsonValue, key: &str, fallback: u64, owner: &str) -> (r: Result<
    u64,
    NodeError,
>)
    ensures
        match timeout_or(config@, key@, fallback, owner@) {
            Ok(n) => r == Ok::<u64, NodeError>(n),
            Err(error) => failed(r, error),
        },
{
    let value: u64 = match config.get_u64_or_numeral(key) {
        Some(n) => n,
        None => fallback,
    };
    if value == 0 || value > MAX_TIMEOUT_MS {
        Err(NodeError::Config(concat3(owner, key, " must be in 1..=120000 ms")))
    } else {
        Ok(value)
    }
}

/// The binary64 value one.
pub const ONE: u64 = 0x3ff0_0000_0000_0000;

/// Whether a number is finite and lies between zero and one.
pub open spec fn unit_interval(x: Real64) -> bool {
    x.finite() && (Real64 { bits: 0 }).at_most(x) && x.at_most(Real64 { bits: ONE })
}

pub fn in_unit_interval(x: Real64) -> (r: bool)
    ensures
        r == unit_interval(x),
{
    x.is_finite() && Real64::from_bits(0).le(x) && x.le(Real64::from_bits(ONE))
}

} // verus!
