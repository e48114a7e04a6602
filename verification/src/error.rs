//! The ways in which a vault operation can fail.

use vstd::prelude::*;

verus! {

/// Why a vault operation stopped. Every failure ends the operation that met it;
/// nothing is retried.
#[derive(Debug, Clone, Copy, PartialEq, Eq, Structural)]
pub enum VaultError {
    /// The registry document could not be found.
    MissingFile,
    /// The registry document is not a JSON object of the expected shape.
    MalformedRegistry,
    /// The registry document has no master password, or a null one.
    NoMasterPassword,
    /// The supplied master password does not match, or the vault is still locked.
    AuthenticationFailed,
    /// No entry of the registry goes by the requested platform name.
    PlatformNotFound,
    /// An entry of the registry already goes by the platform name.
    DuplicatePlatform,
    /// The secret has more bytes than the carrier image has pixels.
    CapacityExceeded { required: usize, available: usize },
    /// The bytes taken out of an image are not valid UTF-8 text.
    DecodeError,
    /// The registry document could not be written back.
    PersistError,
    /// A carrier image could not be read or written.
    ImageIOError,
}

impl VaultError {
    /// The exit status that a program reports for the error: 1 where no master
    /// password is set, 2 where the master password is wrong, and a number of
    /// its own from 3 on for each other kind.
    pub open spec fn spec_exit_status(self) -> u8 {
        match self {
            VaultError::NoMasterPassword => 1,
            VaultError::AuthenticationFailed => 2,
            VaultError::MissingFile => 3,
            VaultError::MalformedRegistry => 4,
            VaultError::PlatformNotFound => 5,
            VaultError::DuplicatePlatform => 6,
            VaultError::CapacityExceeded { .. } => 7,
            VaultError::DecodeError => 8,
            VaultError::PersistError => 9,
            VaultError::ImageIOError => 10,
        }
    }

    /// What to tell the user about the error.
    pub open spec fn spec_message(self) -> Seq<char> {
        match self {
            VaultError::NoMasterPassword => "You need to set your main password"@,
            VaultError::AuthenticationFailed => "Wrong password"@,
            VaultError::MissingFile => "Failed to open settings file"@,
            VaultError::MalformedRegistry => "Failed to parse JSON"@,
            VaultError::PlatformNotFound => "Couldnt find platform"@,
            VaultError::DuplicatePlatform => "You already have a password for this platform"@,
            VaultError::CapacityExceeded { .. } => "Input is too large for image size"@,
            VaultError::DecodeError => "The picture holds no readable text"@,
            VaultError::PersistError => "Failed to write to output file"@,
            VaultError::ImageIOError => "Failed to read or write the picture"@,
        }
    }

    /// The exit status that a program reports for the error. It is never 0.
    pub fn exit_status(&self) -> (code: u8)
        ensures
            code == self.spec_exit_status(),
            code != 0,
    {
        match self {
            VaultError::NoMasterPassword => 1,
            VaultError::AuthenticationFailed => 2,
            VaultError::MissingFile => 3,
            VaultError::MalformedRegistry => 4,
            VaultError::PlatformNotFound => 5,
            VaultError::DuplicatePlatform => 6,
            VaultError::CapacityExceeded { .. } => 7,
            VaultError::DecodeError => 8,
            VaultError::PersistError => 9,
            VaultError::ImageIOError => 10,
        }
    }

    /// What to tell the user about the error.
    pub fn message(&self) -> (text: &'static str)
        ensures
            text@ == self.spec_message(),
    {
        match self {
            VaultError::NoMasterPassword => "You need to set your main password",
            VaultError::AuthenticationFailed => "Wrong password",
            VaultError::MissingFile => "Failed to open settings file",
            VaultError::MalformedRegistry => "Failed to parse JSON",
            VaultError::PlatformNotFound => "Couldnt find platform",
            VaultError::DuplicatePlatform => "You already have a password for this platform",
            VaultError::CapacityExceeded { .. } => "Input is too large for image size",
            VaultError::DecodeError => "The picture holds no readable text",
            VaultError::PersistError => "Failed to write to output file",
            VaultError::ImageIOError => "Failed to read or write the picture",
        }
    }
}

} // verus!
