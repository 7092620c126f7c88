//! Where the configuration is kept and how it is brought in at start-up:
//! read where the file exists, made anew where it does not. Reading and
//! writing the file are the caller's; what is decided here is which of the
//! two is due, and what each failure is called.

use vstd::prelude::*;
use vstd::string::*;

pub mod structs;

verus! {

/// What start-up does about the configuration file.
#[derive(Clone, Copy, Debug, PartialEq, Eq, Structural)]
pub enum ConfigAction {
    /// Write the default configuration to a new file and use it.
    Create,
    /// Read the configuration from the file.
    Read,
}

/// A failure to bring the configuration in.
#[derive(Clone, Debug)]
pub enum ConfigError {
    /// The default configuration could not be put into text.
    Serialize(String),
    /// The new file could not be created.
    CreateFile(String),
    /// The new file could not be written to.
    WriteFile,
    /// The file could not be read.
    ReadFile,
    /// What was read is no configuration.
    Parse(String),
}

impl ConfigError {
    /// The message of the failure.
    pub open spec fn text(self) -> Seq<char> {
        match self {
            ConfigError::Serialize(detail) => "Error reading config: "@ + detail@,
            ConfigError::CreateFile(detail) => "Error creating config file: "@ + detail@,
            ConfigError::WriteFile => "Could not write to config file."@,
            ConfigError::ReadFile => "Failed to read config"@,
            ConfigError::Parse(detail) => "Error reading config: "@ + detail@,
        }
    }

    pub fn message(&self) -> (message: String)
        ensures
            message@ == self.text(),
    {
        match self {
            ConfigError::Serialize(detail) => String::from_str("Error reading config: ").concat(
                detail.as_str(),
            ),
            ConfigError::CreateFile(detail) => String::from_str(
                "Error creating config file: ",
            ).concat(detail.as_str()),
            ConfigError::WriteFile => String::from_str("Could not write to config file."),
            ConfigError::ReadFile => String::from_str("Failed to read config"),
            ConfigError::Parse(detail) => String::from_str("Error reading config: ").concat(
                detail.as_str(),
            ),
        }
    }
}

/// The action that start-up takes, from the answer to the question whether
/// the configuration file exists; `None` stands for a question that could
/// not be answered, and counts as a file that does not exist.
pub fn init(found: Option<bool>) -> (action: ConfigAction)
    ensures
        action == (if found == Some(true) {
            ConfigAction::Read
        } else {
            ConfigAction::Create
        }),
{
    match found {
        Some(true) => ConfigAction::Read,
        _ => ConfigAction::Create,
    }
}

/// The path of the configuration file, relative to the directory that holds
/// the executable.
pub fn get_config_path() -> (path: &'static str)
    ensures
        path@ == "config.toml"@,
{
    "config.toml"
}

} // verus!
