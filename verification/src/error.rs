//! The failures that the operations of this crate report.

use vstd::prelude::*;

verus! {

/// A value handed in by the caller that no retry can make acceptable.
#[derive(Clone, Copy, Debug, PartialEq, Eq, Structural)]
pub enum ConfigurationError {
    /// The text is not the base58 form of an address.
    MalformedAddress,
    /// Too many seeds, or a seed that is too long, for deriving an address.
    SeedTooLong,
    /// No bump seed yields an address off the curve.
    NoViableAddress,
    /// The bytes are not a keypair: wrong length, or halves that do not match.
    MalformedKey,
    /// The text is not base58, or not a list of bytes.
    MalformedWallet,
    /// An argument field is too long for its length prefix.
    FieldTooLong,
    /// The transaction exceeds what the message format can number.
    TransactionTooLarge,
    /// The fee was estimated for a message of another shape.
    FeeForOtherMessage,
}

/// The classified outcome of an operation that did not succeed.
#[derive(Clone, Copy, Debug, PartialEq, Eq, Structural)]
pub enum ClientError {
    /// Fails fast; never retried.
    Configuration(ConfigurationError),
    /// An address that has to sign has no key holder among those supplied.
    MissingSigner,
    /// The account cannot cover what is asked of it; `shortfall` is what is lacking.
    InsufficientFunds { shortfall: u64 },
    /// The validity anchor was too old when the network processed the transaction.
    AnchorExpired,
    /// The network call itself failed.
    Transport,
}

} // verus!
