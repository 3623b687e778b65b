//! What the program decides at startup, before anything is read.

use crate::secret::{duplicate, secret_text};
use crate::text::same_text;
use sec::Secret;
use vstd::prelude::*;

verus! {

/// Where the configuration comes from.
#[derive(Clone, Copy, Debug, PartialEq, Eq, Structural)]
pub enum ConfigSource {
    /// No file was named: the defaults apply.
    Defaults,
    /// The file named by the first argument.
    File,
    /// More than one argument was given, which is an error.
    TooManyArguments,
}

/// Where the configuration comes from when the program was started with
/// `argument_count` arguments, its own name counted as one.
pub fn config_source(argument_count: usize) -> (source: ConfigSource)
    ensures
        source == if argument_count <= 1 {
            ConfigSource::Defaults
        } else if argument_count == 2 {
            ConfigSource::File
        } else {
            ConfigSource::TooManyArguments
        },
{
    if argument_count <= 1 {
        ConfigSource::Defaults
    } else if argument_count == 2 {
        ConfigSource::File
    } else {
        ConfigSource::TooManyArguments
    }
}

/// Whether the container engine runs on another host, going by the value
/// of the environment variable `PODMAN_IS_REMOTE`: only if it is `true`.
pub fn podman_is_remote(value: Option<&str>) -> (remote: bool)
    ensures
        remote == (value matches Some(text) && text@ == "true"@),
{
    match value {
        Some(text) => same_text(text, "true"),
        None => false,
    }
}

/// The name under which the container engine logs in to the registry.
pub open spec fn engine_username() -> Seq<char> {
    "rockslide-podman"@
}

/// The credentials with which the container engine logs in to the
/// registry: a fixed username and the master key.
pub fn engine_credentials(master_key: &Secret<String>) -> (credentials: (String, Secret<String>))
    ensures
        credentials.0@ == engine_username(),
        secret_text(credentials.1) == secret_text(*master_key),
{
    ("rockslide-podman".to_owned(), duplicate(master_key))
}

} // verus!
