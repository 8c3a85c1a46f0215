//! The ways in which building a circuit or running a proving session fails.

use vstd::prelude::*;

verus! {

/// The families into which the failures fall.
#[derive(Clone, Copy, Debug, PartialEq, Eq, Structural)]
pub enum ErrorKind {
    /// The description does not have the expected form.
    MalformedInput,
    /// The description contradicts itself.
    SchemaInconsistency,
    /// A wire is marked secret where only a public value can stand.
    SecrecyPolicy,
    /// The setup is too small for the circuit.
    SetupInsufficiency,
    /// The shared proof could not be opened.
    RevealFailure,
    /// The outside work reported back what it cannot have been asked for.
    ProtocolViolation,
}

/// A failure that ends the building of a circuit or a proving session. That a
/// proof does not verify is no failure: it is the session's result.
#[derive(Clone, Copy, Debug, PartialEq, Eq, Structural)]
pub enum Error {
    /// A constraint token is not of the form `(A|B|C)`.
    MalformedConstraint,
    /// A wire value is not a decimal numeral in canonical form.
    MalformedValue,
    /// The wire count differs from the number of wire values.
    WireCountMismatch,
    /// A constraint names a wire that does not exist.
    WireOutOfRange,
    /// A public wire that the constraints use is marked as a secret share.
    SecretPublicWire,
    /// A wire is marked as a secret share in a plaintext witness.
    SecretWireInPlaintext,
    /// The setup holds fewer gates than the padded circuit, or no setup of
    /// the needed size can be asked for.
    SetupTooSmall,
    /// The parties could not open the shared proof.
    RevealFailed,
    /// An event reached a session that was not waiting for it.
    UnexpectedEvent,
    /// A circuit that was handed back as padded is not the padding of the
    /// circuit that was handed out.
    BadPadding,
}

impl Error {
    /// The family of this failure.
    pub open spec fn spec_kind(self) -> ErrorKind {
        match self {
            Error::MalformedConstraint => ErrorKind::MalformedInput,
            Error::MalformedValue => ErrorKind::MalformedInput,
            Error::WireCountMismatch => ErrorKind::SchemaInconsistency,
            Error::WireOutOfRange => ErrorKind::SchemaInconsistency,
            Error::SecretPublicWire => ErrorKind::SecrecyPolicy,
            Error::SecretWireInPlaintext => ErrorKind::SecrecyPolicy,
            Error::SetupTooSmall => ErrorKind::SetupInsufficiency,
            Error::RevealFailed => ErrorKind::RevealFailure,
            Error::UnexpectedEvent => ErrorKind::ProtocolViolation,
            Error::BadPadding => ErrorKind::ProtocolViolation,
        }
    }

    /// The family of this failure.
    #[verifier::when_used_as_spec(spec_kind)]
    pub fn kind(self) -> (k: ErrorKind)
        ensures
            k == self.spec_kind(),
    {
        match self {
            Error::MalformedConstraint => ErrorKind::MalformedInput,
            Error::MalformedValue => ErrorKind::MalformedInput,
            Error::WireCountMismatch => ErrorKind::SchemaInconsistency,
            Error::WireOutOfRange => ErrorKind::SchemaInconsistency,
            Error::SecretPublicWire => ErrorKind::SecrecyPolicy,
            Error::SecretWireInPlaintext => ErrorKind::SecrecyPolicy,
            Error::SetupTooSmall => ErrorKind::SetupInsufficiency,
            Error::RevealFailed => ErrorKind::RevealFailure,
            Error::UnexpectedEvent => ErrorKind::ProtocolViolation,
            Error::BadPadding => ErrorKind::ProtocolViolation,
        }
    }
}

} // verus!
