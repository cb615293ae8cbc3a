//! Errors handed back to the firmware.

use vstd::prelude::*;

verus! {

/// Why a candidate pair of network name and password was rejected. Both come from
/// untrusted sources, so the checks return this.
#[derive(Copy, Clone, Debug, PartialEq, Eq, Structural)]
pub enum CredentialsError {
    /// A network to join has a name.
    SsidEmpty,
    /// Longer than the radio takes.
    SsidTooLong,
    /// Outside the pass-phrase range, and not the empty string that means "open".
    PasswordLength,
}

impl CredentialsError {
    /// The text of `message`.
    pub open spec fn message_text(self) -> Seq<char> {
        match self {
            CredentialsError::SsidEmpty => "SSID must not be empty"@,
            CredentialsError::SsidTooLong => "SSID must be at most 32 characters"@,
            CredentialsError::PasswordLength => "password must be empty or 8-63 characters"@,
        }
    }

    /// Human-readable cause, safe to hand to a client.
    pub fn message(self) -> (text: &'static str)
        ensures
            text@ == self.message_text(),
    {
        match self {
            CredentialsError::SsidEmpty => "SSID must not be empty",
            CredentialsError::SsidTooLong => "SSID must be at most 32 characters",
            CredentialsError::PasswordLength => "password must be empty or 8-63 characters",
        }
    }
}

} // verus!
