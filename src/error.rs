//! The library's error taxonomy.
use vstd::prelude::*;

verus! {

/// Why an invocation failed. Texts carry the detail shown to the user.
#[derive(Debug)]
pub enum Error {
    Io(String),
    Network(String),
    Config(String),
    ToolNotFound(String),
    VersionConstraint(String),
    Security(String),
    Cache(String),
    Execution(String),
    /// The launched tool ended with this non-zero status: passed through, not reported.
    ExecutionFailed(i32),
    InvalidToolIdentifier(String),
    ComposerNotFound,
    ComposerInstallFailed(String),
    UnsupportedPlatform(String),
    Serialization(String),
}

} // verus!
