use vstd::prelude::*;

verus! {

#[verifier::external_type_specification]
#[verifier::external_body]
pub struct ExIoError(std::io::Error);

/// The failures of the deployment core.
#[derive(Debug)]
pub enum Error {
    /// A filesystem or process failure, with the underlying error.
    IoError(std::io::Error),
    /// A violated precondition or domain rule.
    RuntimeError(String),
    /// A missing or unreadable configuration.
    ConfigError(String),
}

pub type Result<T> = core::result::Result<T, Error>;

/// `e` is a `RuntimeError` carrying the message `msg`.
pub open spec fn is_runtime_error(e: Error, msg: Seq<char>) -> bool {
    e is RuntimeError && e->RuntimeError_0@ == msg
}

/// `e` is a `ConfigError` carrying the message `msg`.
pub open spec fn is_config_error(e: Error, msg: Seq<char>) -> bool {
    e is ConfigError && e->ConfigError_0@ == msg
}

/// A `RuntimeError` with the given message.
pub fn runtime_error(msg: &str) -> (e: Error)
    ensures
        is_runtime_error(e, msg@),
{
    Error::RuntimeError(msg.to_owned())
}

/// A `ConfigError` with the given message.
pub fn config_error(msg: &str) -> (e: Error)
    ensures
        is_config_error(e, msg@),
{
    Error::ConfigError(msg.to_owned())
}

/// The error of a failed read of the configuration file: a missing file
/// means the project is not initialised, any other failure is kept as it is.
pub fn config_read_error(err: std::io::Error, not_found: bool) -> (e: Error)
    ensures
        not_found ==> is_config_error(e, "deployer.toml not found"@),
        !not_found ==> e == Error::IoError(err),
{
    if not_found {
        config_error("deployer.toml not found")
    } else {
        Error::IoError(err)
    }
}

/// The error of a configuration file that does not parse.
pub fn config_parse_error() -> (e: Error)
    ensures
        is_config_error(e, "Error while parsing config"@),
{
    config_error("Error while parsing config")
}

} // verus!
