//! Reading the configured log level.

use vstd::prelude::*;
use vstd::string::*;
use crate::common::error::SnifferError;
use crate::common::text::str_eq;

verus! {

/// The severity levels a log can be filtered at, from most to least verbose.
#[derive(Debug, Clone, Copy, PartialEq, Eq)]
pub enum LogLevel {
    Trace,
    Debug,
    Info,
    Warn,
    Error,
}

/// What std's `str::to_lowercase` returns for a string: its characters
/// mapped by the Unicode lowercase tables that std carries.
pub uninterp spec fn lowercase_of(s: Seq<char>) -> Seq<char>;

/// Text made of ASCII characters only.
pub open spec fn is_ascii_text(s: Seq<char>) -> bool {
    forall|i: int| 0 <= i < s.len() ==> (#[trigger] s[i] as u32) < 128
}

/// The ASCII lower case of a character: `A`-`Z` become `a`-`z`, any other
/// character stays.
pub open spec fn ascii_lower_char(c: char) -> char {
    if 'A' <= c <= 'Z' {
        ((c as u32) + 32) as char
    } else {
        c
    }
}

/// ASCII text in lower case, character by character.
pub open spec fn ascii_lowered(s: Seq<char>) -> Seq<char> {
    s.map_values(|c: char| ascii_lower_char(c))
}

/// Calls `str::to_lowercase` of std. The contract names its result, and
/// states its one documented shape: on ASCII text it maps `A`-`Z` to
/// `a`-`z` and keeps every other character (as `to_ascii_lowercase` does,
/// whose documentation sends non-ASCII needs to `to_lowercase`). The Unicode
/// case mapping of other characters is not written out here.
#[verifier::external_body]
pub(crate) fn to_lowercase(s: &str) -> (r: String)
    ensures
        r@ == lowercase_of(s@),
        is_ascii_text(s@) ==> r@ == ascii_lowered(s@),
{
    s.to_lowercase()
}

/// The level a lower-case level name stands for, if it is one of the
/// accepted names ("warning" is taken for "warn").
pub open spec fn level_named(s: Seq<char>) -> Option<LogLevel> {
    if s == "trace"@ {
        Some(LogLevel::Trace)
    } else if s == "debug"@ {
        Some(LogLevel::Debug)
    } else if s == "info"@ {
        Some(LogLevel::Info)
    } else if s == "warn"@ || s == "warning"@ {
        Some(LogLevel::Warn)
    } else if s == "error"@ {
        Some(LogLevel::Error)
    } else {
        None
    }
}

/// The message of the error for a level name that names no level.
pub open spec fn invalid_level_message(level: Seq<char>) -> Seq<char> {
    "无效的日志级别: "@ + level + "，有效值为: trace, debug, info, warn, error"@
}

/// The level that an already lower-cased name stands for.
pub fn match_level(lower: &str) -> (r: Option<LogLevel>)
    ensures
        r == level_named(lower@),
{
    if str_eq(lower, "trace") {
        Some(LogLevel::Trace)
    } else if str_eq(lower, "debug") {
        Some(LogLevel::Debug)
    } else if str_eq(lower, "info") {
        Some(LogLevel::Info)
    } else if str_eq(lower, "warn") || str_eq(lower, "warning") {
        Some(LogLevel::Warn)
    } else if str_eq(lower, "error") {
        Some(LogLevel::Error)
    } else {
        None
    }
}

/// Reads a configured level name, ignoring case: the name is lower-cased
/// as `str::to_lowercase` does and then matched. A name that matches no
/// level is a configuration error that quotes it.
pub fn parse_level(level: &str) -> (r: Result<LogLevel, SnifferError>)
    ensures
        match level_named(lowercase_of(level@)) {
            Some(l) => r == Ok::<LogLevel, SnifferError>(l),
            None => r matches Err(SnifferError::ConfigError(m)) && m@ == invalid_level_message(
                level@,
            ),
        },
{
    let lower = to_lowercase(level);
    match match_level(lower.as_str()) {
        Some(l) => Ok(l),
        None => {
            let mut msg = String::from_str("无效的日志级别: ");
            msg.append(level);
            msg.append("，有效值为: trace, debug, info, warn, error");
            Err(SnifferError::ConfigError(msg))
        },
    }
}

} // verus!
