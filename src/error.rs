use vstd::prelude::*;

verus! {

/// An error that possibly needs to be handled by the user.
#[derive(Debug, Clone, Copy, PartialEq, Eq, Structural)]
pub enum Error {
    /// Returned when trying to start the node while it is already running.
    AlreadyRunning,
    /// Returned when trying to stop the node while it is not running.
    NotRunning,
    /// The funding transaction could not be created.
    FundingTxCreationFailed,
    /// A network connection has been closed.
    ConnectionFailed,
    /// The given address is invalid.
    AddressInvalid,
    /// The given public key is invalid.
    PublicKeyInvalid,
    /// The given payment hash is invalid.
    PaymentHashInvalid,
    /// Payment of the given invoice has already been initiated.
    NonUniquePaymentHash,
    /// The given invoice is invalid.
    InvoiceInvalid,
    /// Invoice creation failed.
    InvoiceCreationFailed,
    /// The given channel ID is invalid.
    ChannelIdInvalid,
    /// The given network is invalid.
    NetworkInvalid,
    /// No route for the given target could be found.
    RoutingFailed,
    /// A given peer info could not be parsed.
    PeerInfoParseFailed,
    /// A channel could not be opened.
    ChannelCreationFailed,
    /// A channel could not be closed.
    ChannelClosingFailed,
    /// Persistence failed.
    PersistenceFailed,
    /// A wallet operation failed.
    WalletOperationFailed,
    /// A signing operation failed.
    WalletSigningFailed,
    /// A transaction sync operation failed.
    TxSyncFailed,
}

/// The human-readable description of each error.
pub open spec fn message_of(e: Error) -> Seq<char> {
    match e {
        Error::AlreadyRunning => "Node is already running."@,
        Error::NotRunning => "Node is not running."@,
        Error::FundingTxCreationFailed => "Funding transaction could not be created."@,
        Error::ConnectionFailed => "Network connection closed."@,
        Error::AddressInvalid => "The given address is invalid."@,
        Error::PublicKeyInvalid => "The given public key is invalid."@,
        Error::PaymentHashInvalid => "The given payment hash is invalid."@,
        Error::NonUniquePaymentHash => "An invoice must not get payed twice."@,
        Error::InvoiceInvalid => "The given invoice is invalid."@,
        Error::InvoiceCreationFailed => "Failed to create invoice."@,
        Error::ChannelIdInvalid => "The given channel ID is invalid."@,
        Error::NetworkInvalid => "The given network is invalid."@,
        Error::RoutingFailed => "Failed to find route."@,
        Error::PeerInfoParseFailed => "Failed to parse the given peer information."@,
        Error::ChannelCreationFailed => "Failed to create channel."@,
        Error::ChannelClosingFailed => "Failed to close channel."@,
        Error::PersistenceFailed => "Failed to persist data."@,
        Error::WalletOperationFailed => "Failed to conduct wallet operation."@,
        Error::WalletSigningFailed => "Failed to sign given transaction."@,
        Error::TxSyncFailed => "Failed to sync transactions."@,
    }
}

impl Error {
    /// Describes the error in one sentence.
    pub fn message(&self) -> (r: String)
        ensures
            r@ == message_of(*self),
    {
        let s: &str = match *self {
            Error::AlreadyRunning => "Node is already running.",
            Error::NotRunning => "Node is not running.",
            Error::FundingTxCreationFailed => "Funding transaction could not be created.",
            Error::ConnectionFailed => "Network connection closed.",
            Error::AddressInvalid => "The given address is invalid.",
            Error::PublicKeyInvalid => "The given public key is invalid.",
            Error::PaymentHashInvalid => "The given payment hash is invalid.",
            Error::NonUniquePaymentHash => "An invoice must not get payed twice.",
            Error::InvoiceInvalid => "The given invoice is invalid.",
            Error::InvoiceCreationFailed => "Failed to create invoice.",
            Error::ChannelIdInvalid => "The given channel ID is invalid.",
            Error::NetworkInvalid => "The given network is invalid.",
            Error::RoutingFailed => "Failed to find route.",
            Error::PeerInfoParseFailed => "Failed to parse the given peer information.",
            Error::ChannelCreationFailed => "Failed to create channel.",
            Error::ChannelClosingFailed => "Failed to close channel.",
            Error::PersistenceFailed => "Failed to persist data.",
            Error::WalletOperationFailed => "Failed to conduct wallet operation.",
            Error::WalletSigningFailed => "Failed to sign given transaction.",
            Error::TxSyncFailed => "Failed to sync transactions.",
        };
        String::from_str(s)
    }

    /// The error for a failed wallet operation: a failure of the signer is reported as
    /// `WalletSigningFailed`, any other as `WalletOperationFailed`.
    pub fn from_wallet_failure(signer_failed: bool) -> (r: Error)
        ensures
            signer_failed ==> r == Error::WalletSigningFailed,
            !signer_failed ==> r == Error::WalletOperationFailed,
    {
        if signer_failed {
            Error::WalletSigningFailed
        } else {
            Error::WalletOperationFailed
        }
    }
}

} // verus!
