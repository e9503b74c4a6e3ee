//! Client-side output wrapping and log-level selection. The JSON-RPC
//! transport around these values is the embedding's concern.

use vstd::prelude::*;

use vstd::string::StringSliceAdditionalSpecFns;

use crate::error::Error;

verus! {

/// A verbosity level for the embedding's logger.
#[derive(Clone, Copy, Debug, PartialEq, Eq, Structural)]
pub enum LogLevel {
    /// Everything.
    Trace,
    /// Development detail.
    Debug,
    /// Ordinary operation.
    Info,
    /// Something looks wrong.
    Warn,
    /// Something is wrong.
    Error,
}

/// The level selected by the debug switch: everything in debug mode,
/// errors only otherwise.
pub fn debug(value: bool) -> (r: LogLevel)
    ensures
        value ==> r == LogLevel::Debug,
        !value ==> r == LogLevel::Error,
{
    if value {
        LogLevel::Debug
    } else {
        LogLevel::Error
    }
}

/// The level a name denotes.
pub open spec fn spec_level_of(s: Seq<u8>) -> Option<LogLevel> {
    if s == seq![116u8, 114, 97, 99, 101] {
        Some(LogLevel::Trace)
    } else if s == seq![100u8, 101, 98, 117, 103] {
        Some(LogLevel::Debug)
    } else if s == seq![105u8, 110, 102, 111] {
        Some(LogLevel::Info)
    } else if s == seq![119u8, 97, 114, 110] {
        Some(LogLevel::Warn)
    } else if s == seq![101u8, 114, 114, 111, 114] {
        Some(LogLevel::Error)
    } else {
        Option::<LogLevel>::None
    }
}

/// Parses a log-level name: trace, debug, info, warn or error.
pub fn log_level(level: &str) -> (r: Option<LogLevel>)
    ensures
        r == spec_level_of(level.spec_bytes()),
{
    let b = level.as_bytes_vec();
    let r = match b.len() {
        4 => {
            if b[0] == 105 && b[1] == 110 && b[2] == 102 && b[3] == 111 {
                Some(LogLevel::Info)
            } else if b[0] == 119 && b[1] == 97 && b[2] == 114 && b[3] == 110 {
                Some(LogLevel::Warn)
            } else {
                None
            }
        },
        5 => {
            if b[0] == 116 && b[1] == 114 && b[2] == 97 && b[3] == 99 && b[4] == 101 {
                Some(LogLevel::Trace)
            } else if b[0] == 100 && b[1] == 101 && b[2] == 98 && b[3] == 117 && b[4] == 103 {
                Some(LogLevel::Debug)
            } else if b[0] == 101 && b[1] == 114 && b[2] == 114 && b[3] == 111 && b[4] == 114 {
                Some(LogLevel::Error)
            } else {
                None
            }
        },
        _ => None,
    };
    proof {
        let s = level.spec_bytes();
        assert(b@ == s);
        if s.len() == 4 && s[0] == 105 && s[1] == 110 && s[2] == 102 && s[3] == 111 {
            assert(s =~= seq![105u8, 110, 102, 111]);
        }
        if s.len() == 4 && s[0] == 119 && s[1] == 97 && s[2] == 114 && s[3] == 110 {
            assert(s =~= seq![119u8, 97, 114, 110]);
        }
        if s.len() == 5 && s[0] == 116 && s[1] == 114 && s[2] == 97 && s[3] == 99 && s[4] == 101 {
            assert(s =~= seq![116u8, 114, 97, 99, 101]);
        }
        if s.len() == 5 && s[0] == 100 && s[1] == 101 && s[2] == 98 && s[3] == 117 && s[4]
            == 103 {
            assert(s =~= seq![100u8, 101, 98, 117, 103]);
        }
        if s.len() == 5 && s[0] == 101 && s[1] == 114 && s[2] == 114 && s[3] == 111 && s[4]
            == 114 {
            assert(s =~= seq![101u8, 114, 114, 111, 114]);
        }
        if s == seq![116u8, 114, 97, 99, 101] {
            assert(s.len() == 5 && s[0] == 116 && s[1] == 114 && s[2] == 97 && s[3] == 99 && s[4]
                == 101);
        }
        if s == seq![100u8, 101, 98, 117, 103] {
            assert(s.len() == 5);
        }
        if s == seq![105u8, 110, 102, 111] {
            assert(s.len() == 4);
        }
        if s == seq![119u8, 97, 114, 110] {
            assert(s.len() == 4);
        }
        if s == seq![101u8, 114, 114, 111, 114] {
            assert(s.len() == 5);
        }
    }
    r
}

/// A client call's result together with its human-readable rendering.
pub struct ClientOutput<T> {
    /// The raw result.
    pub result: T,
    /// The human-readable rendering.
    pub display: String,
}

impl<T> ClientOutput<T> {
    /// Wraps a result and its rendering.
    pub fn ok(display: String, result: T) -> (r: Result<ClientOutput<T>, Error>)
        ensures
            r matches Ok(o) && o.result == result && o.display@ == display@,
    {
        Ok(ClientOutput { result, display })
    }

    /// The human-readable rendering, for the embedding to print.
    pub fn display_text(&self) -> (r: &String)
        ensures
            r@ == self.display@,
    {
        &self.display
    }
}

} // verus!
