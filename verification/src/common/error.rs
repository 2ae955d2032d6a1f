//! The library's error type.

use vstd::prelude::*;
use vstd::string::*;

verus! {

/// Errors of the library's operations, each with its message.
#[derive(Debug, Clone, PartialEq, Eq)]
pub enum SnifferError {
    /// Capture errors.
    CaptureError(String),
    /// Protocol parsing errors.
    ProtocolError(String),
    /// Deep packet inspection errors.
    DpiError(String),
    /// Storage errors.
    StorageError(String),
    /// Configuration errors.
    ConfigError(String),
    /// Anything else.
    Other(String),
}

/// The text that introduces each kind of error in its display form.
pub open spec fn error_prefix(e: SnifferError) -> Seq<char> {
    match e {
        SnifferError::CaptureError(_) => "抓包错误: "@,
        SnifferError::ProtocolError(_) => "协议解析错误: "@,
        SnifferError::DpiError(_) => "DPI 检测错误: "@,
        SnifferError::StorageError(_) => "存储错误: "@,
        SnifferError::ConfigError(_) => "配置错误: "@,
        SnifferError::Other(_) => "未分类错误: "@,
    }
}

/// The message an error carries.
pub open spec fn error_message(e: SnifferError) -> Seq<char> {
    match e {
        SnifferError::CaptureError(m) => m@,
        SnifferError::ProtocolError(m) => m@,
        SnifferError::DpiError(m) => m@,
        SnifferError::StorageError(m) => m@,
        SnifferError::ConfigError(m) => m@,
        SnifferError::Other(m) => m@,
    }
}

impl SnifferError {
    /// A capture error with message `msg`.
    pub fn capture(msg: &str) -> (e: Self)
        ensures
            e matches SnifferError::CaptureError(m) && m@ == msg@,
    {
        SnifferError::CaptureError(String::from_str(msg))
    }

    /// A protocol parsing error with message `msg`.
    pub fn protocol(msg: &str) -> (e: Self)
        ensures
            e matches SnifferError::ProtocolError(m) && m@ == msg@,
    {
        SnifferError::ProtocolError(String::from_str(msg))
    }

    /// A DPI error with message `msg`.
    pub fn dpi(msg: &str) -> (e: Self)
        ensures
            e matches SnifferError::DpiError(m) && m@ == msg@,
    {
        SnifferError::DpiError(String::from_str(msg))
    }

    /// A storage error with message `msg`.
    pub fn storage(msg: &str) -> (e: Self)
        ensures
            e matches SnifferError::StorageError(m) && m@ == msg@,
    {
        SnifferError::StorageError(String::from_str(msg))
    }

    /// A configuration error with message `msg`.
    pub fn config(msg: &str) -> (e: Self)
        ensures
            e matches SnifferError::ConfigError(m) && m@ == msg@,
    {
        SnifferError::ConfigError(String::from_str(msg))
    }

    /// The display form: the kind's prefix followed by the message.
    pub fn to_string(&self) -> (s: String)
        ensures
            s@ == error_prefix(*self) + error_message(*self),
    {
        let (prefix, msg) = match self {
            SnifferError::CaptureError(m) => ("抓包错误: ", m),
            SnifferError::ProtocolError(m) => ("协议解析错误: ", m),
            SnifferError::DpiError(m) => ("DPI 检测错误: ", m),
            SnifferError::StorageError(m) => ("存储错误: ", m),
            SnifferError::ConfigError(m) => ("配置错误: ", m),
            SnifferError::Other(m) => ("未分类错误: ", m),
        };
        let mut s = String::from_str(prefix);
        s.append(msg.as_str());
        s
    }
}

} // verus!
