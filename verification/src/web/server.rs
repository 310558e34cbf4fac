//! What the web server serves.
use vstd::prelude::*;

verus! {

/// What the web server serves: a runtime, or the IDE alone.
#[derive(Debug, Clone, Copy, PartialEq, Eq, Structural)]
pub enum WebServerMode {
    Runtime,
    StandaloneIde,
}

impl WebServerMode {
    pub fn as_str(self) -> (r: &'static str)
        ensures
            r@ == (match self {
                WebServerMode::Runtime => "runtime"@,
                WebServerMode::StandaloneIde => "standalone-ide"@,
            }),
    {
        match self {
            WebServerMode::Runtime => "runtime",
            WebServerMode::StandaloneIde => "standalone-ide",
        }
    }
}

/// Largest JSON request body the server reads.
pub const MAX_JSON_REQUEST_BYTES: usize = 1_048_576;

} // verus!
