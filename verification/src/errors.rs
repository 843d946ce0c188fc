//! Error kinds of the connection, transfer and discovery layers.
use vstd::prelude::*;

verus! {

/// Errors of an outgoing connection or transfer attempt.
#[derive(Debug)]
pub enum ConnectErrors {
    InvalidProtocolVersion,
    Unreachable,
    NoTextProvided,
    NoFilesProvided,
    FailedToGetConnectionDetails,
    Declined,
    FailedToGetTcpDetails,
    FailedToGetSocketAddress,
    FailedToOpenTcpStream { error: String },
    FailedToGetBleDetails,
    InternalBleHandlerNotAvailable,
    FailedToEstablishBleConnection,
    FailedToEncryptStream { error: String },
    FailedToDetermineFileSize { error: String },
    FailedToGetTransferRequestResponse { error: String },
}

/// Errors of a convenience-share request.
#[derive(Debug)]
pub enum RequestConvenienceShareErrors {
    NotAValidLink,
    IncompatibleProtocolVersion,
    FailedToConnect { error: String },
}

/// Errors of the incoming (receiver) side of a connection.
#[derive(Debug)]
pub enum IncomingErrors {
    UnknownReadError,
    StringConversionError,
    MissingProtocolVersion,
    InvalidVersion,
    InvalidUUID,
    InvalidForeignPublicKey,
    ErrorSendingPublicKey,
    InvalidNonce,
    EncryptionError,
    InvalidSenderId,
    InvalidSenderName,
    Rejected,
}

/// Errors while setting up peer discovery.
#[derive(Debug)]
pub enum DiscoverySetupError {
    UnableToSetupUdp,
    UnableToSetupMdns,
}

} // verus!
