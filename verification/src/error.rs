use vstd::prelude::*;

verus! {

/// Every failure reported by the protocol layers.
#[derive(Debug, Clone, Copy, PartialEq, Eq, Structural)]
pub enum Error {
    InvalidLength,
    InvalidField,
    InvalidCrc,
    InvalidAddressForm,
    InvalidSizeClass,
    Unsupported,
    NonCanonical,
    BufferFull,
    NoCredit,
    CreditViolation,
    LinkDown,
    Desynchronized,
    UnknownService,
    UnknownTunnel,
    UnknownStream,
    InvalidState,
    DirectionViolation,
    ProfileViolation,
    MessageTooLarge,
    WouldBlock,
    NoRoute,
}

pub type Result<T> = core::result::Result<T, Error>;

impl Error {
    /// The name of `self`, as printed by `Debug`.
    pub open spec fn spec_name(self) -> Seq<char> {
        match self {
            Error::InvalidLength => "InvalidLength"@,
            Error::InvalidField => "InvalidField"@,
            Error::InvalidCrc => "InvalidCrc"@,
            Error::InvalidAddressForm => "InvalidAddressForm"@,
            Error::InvalidSizeClass => "InvalidSizeClass"@,
            Error::Unsupported => "Unsupported"@,
            Error::NonCanonical => "NonCanonical"@,
            Error::BufferFull => "BufferFull"@,
            Error::NoCredit => "NoCredit"@,
            Error::CreditViolation => "CreditViolation"@,
            Error::LinkDown => "LinkDown"@,
            Error::Desynchronized => "Desynchronized"@,
            Error::UnknownService => "UnknownService"@,
            Error::UnknownTunnel => "UnknownTunnel"@,
            Error::UnknownStream => "UnknownStream"@,
            Error::InvalidState => "InvalidState"@,
            Error::DirectionViolation => "DirectionViolation"@,
            Error::ProfileViolation => "ProfileViolation"@,
            Error::MessageTooLarge => "MessageTooLarge"@,
            Error::WouldBlock => "WouldBlock"@,
            Error::NoRoute => "NoRoute"@,
        }
    }

    /// Human-readable name of the error, as printed by `Debug`.
    pub fn name(&self) -> (s: &'static str)
        ensures
            s@ == self.spec_name(),
    {
        match self {
            Error::InvalidLength => "InvalidLength",
            Error::InvalidField => "InvalidField",
            Error::InvalidCrc => "InvalidCrc",
            Error::InvalidAddressForm => "InvalidAddressForm",
            Error::InvalidSizeClass => "InvalidSizeClass",
            Error::Unsupported => "Unsupported",
            Error::NonCanonical => "NonCanonical",
            Error::BufferFull => "BufferFull",
            Error::NoCredit => "NoCredit",
            Error::CreditViolation => "CreditViolation",
            Error::LinkDown => "LinkDown",
            Error::Desynchronized => "Desynchronized",
            Error::UnknownService => "UnknownService",
            Error::UnknownTunnel => "UnknownTunnel",
            Error::UnknownStream => "UnknownStream",
            Error::InvalidState => "InvalidState",
            Error::DirectionViolation => "DirectionViolation",
            Error::ProfileViolation => "ProfileViolation",
            Error::MessageTooLarge => "MessageTooLarge",
            Error::WouldBlock => "WouldBlock",
            Error::NoRoute => "NoRoute",
        }
    }
}

} // verus!
