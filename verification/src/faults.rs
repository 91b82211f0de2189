//! The validators of the in-process test network and the faults that can
//! be injected into them: what a faulty validator does with a request and
//! what it answers.

use vstd::pervasive::unreached;
use vstd::prelude::*;
use vstd::string::*;

use crate::chain::{Amount, BlobId, CryptoHash};

verus! {

/// How a test validator misbehaves.
#[derive(Debug, PartialEq, Clone, Copy, Eq, Structural)]
pub enum FaultType {
    /// Not at all.
    Honest,
    /// It answers no request.
    Offline,
    /// It answers queries about chains, and nothing else.
    OfflineWithInfo,
    /// It ignores proposals, answers them with an error, and holds wrong
    /// balances.
    Malicious,
    /// It processes validated certificates but does not answer with its
    /// confirming vote.
    DontSendConfirmVote,
    /// It does not process validated certificates.
    DontProcessValidated,
    /// It processes proposals but does not answer with its validating
    /// vote.
    DontSendValidateVote,
}

/// What a certificate certifies.
#[derive(Debug, PartialEq, Clone, Copy, Eq, Structural)]
pub enum CertificateKind {
    Timeout,
    Validated,
    Confirmed,
}

/// An arithmetic failure.
#[derive(Debug, PartialEq, Clone, Copy, Eq, Structural)]
pub enum ArithmeticError {
    Overflow,
    Underflow,
}

/// The errors with which a validator answers a request.
#[derive(Debug, PartialEq, Eq)]
pub enum NodeError {
    /// The validator lacks these blobs; the request can be repeated once
    /// they are uploaded.
    BlobsNotFound(Vec<BlobId>),
    /// The validator could not be reached.
    ClientIoError { error: String },
    /// An arithmetic failure.
    ArithmeticError(ArithmeticError),
    /// The validator's storage lacks what was asked for.
    ViewError { error: String },
    /// No validator is known under this address.
    CannotResolveValidatorAddress { address: String },
    /// Any other failure of the validator's worker.
    WorkerError { error: String },
}

/// `error` is the failure to reach a validator, for the reason `reason`.
pub open spec fn is_io_error(error: NodeError, reason: Seq<char>) -> bool {
    error matches NodeError::ClientIoError { error: text } && text@ == reason
}

/// The outcome `handled` of the worker is a report of missing blobs.
pub open spec fn reports_missing_blobs<T>(handled: Option<Result<T, NodeError>>) -> bool {
    handled matches Some(Err(NodeError::BlobsNotFound(_)))
}

impl FaultType {
    /// Whether a validator with this fault hands a block proposal to its
    /// worker: all do but the offline and the malicious ones.
    pub open spec fn processes_proposal_spec(self) -> bool {
        !(self is Offline || self is OfflineWithInfo || self is Malicious)
    }

    /// Whether a validator with this fault hands a block proposal to its
    /// worker.
    pub fn processes_proposal(self) -> (processes: bool)
        ensures
            processes == self.processes_proposal_spec(),
    {
        match self {
            FaultType::Offline | FaultType::OfflineWithInfo | FaultType::Malicious => false,
            FaultType::Honest
            | FaultType::DontSendConfirmVote
            | FaultType::DontProcessValidated
            | FaultType::DontSendValidateVote => true,
        }
    }

    /// Whether a validator with this fault hands a certificate of the
    /// given kind to its worker: the offline ones hand on none, and one
    /// that does not process validated certificates hands on all others.
    pub open spec fn processes_certificate_spec(self, kind: CertificateKind) -> bool {
        &&& !(self is Offline || self is OfflineWithInfo)
        &&& !(self is DontProcessValidated && kind is Validated)
    }

    /// Whether a validator with this fault hands a certificate of the
    /// given kind to its worker.
    pub fn processes_certificate(self, kind: CertificateKind) -> (processes: bool)
        ensures
            processes == self.processes_certificate_spec(kind),
    {
        match self {
            FaultType::DontProcessValidated => match kind {
                CertificateKind::Validated => false,
                _ => true,
            },
            FaultType::Honest
            | FaultType::DontSendConfirmVote
            | FaultType::Malicious
            | FaultType::DontSendValidateVote => true,
            FaultType::Offline | FaultType::OfflineWithInfo => false,
        }
    }

    /// Whether a validator with this fault answers queries about chains:
    /// all do but the offline one.
    pub fn answers_chain_info_query(self) -> (answers: bool)
        ensures
            answers == !(self is Offline),
    {
        match self {
            FaultType::Offline => false,
            _ => true,
        }
    }

    /// The balance with which a validator with this fault creates a chain
    /// whose true initial balance is `balance`: a malicious validator
    /// creates every chain empty.
    pub fn initial_balance(self, balance: Amount) -> (held: Amount)
        ensures
            held == if self is Malicious {
                Amount(0)
            } else {
                balance
            },
    {
        match self {
            FaultType::Malicious => Amount(0),
            _ => balance,
        }
    }

    /// The fault of the validator at position `index` of a new test
    /// network in which the first `with_faulty_validators` validators are
    /// malicious.
    pub fn of_new_validator(index: usize, with_faulty_validators: usize) -> (fault: FaultType)
        ensures
            fault == if index < with_faulty_validators {
                FaultType::Malicious
            } else {
                FaultType::Honest
            },
    {
        if index < with_faulty_validators {
            FaultType::Malicious
        } else {
            FaultType::Honest
        }
    }
}

/// What a validator with the fault `fault` answers to a block proposal
/// whose handling by its worker, if it came to that, ended in `handled`.
///
/// A report of missing blobs is always passed on. Otherwise offline
/// validators cannot be reached, a malicious one answers with an
/// arithmetic overflow, one that withholds its validating vote refuses,
/// and the others pass on what the worker said.
pub open spec fn is_proposal_response<T>(
    fault: FaultType,
    handled: Option<Result<T, NodeError>>,
    response: Result<T, NodeError>,
) -> bool {
    if reports_missing_blobs(handled) {
        response == handled->Some_0
    } else {
        match fault {
            FaultType::Offline | FaultType::OfflineWithInfo => response matches Err(error)
                && is_io_error(error, "offline"@),
            FaultType::Malicious => response == Err::<T, NodeError>(
                NodeError::ArithmeticError(ArithmeticError::Overflow),
            ),
            FaultType::DontSendValidateVote => response matches Err(error) && is_io_error(
                error,
                "refusing to validate"@,
            ),
            FaultType::Honest | FaultType::DontSendConfirmVote | FaultType::DontProcessValidated =>
                handled is Some && response == handled->Some_0,
        }
    }
}

/// What a validator with the fault `fault` answers to a certificate of the
/// kind `kind` whose handling by its worker, if it came to that, ended in
/// `handled`.
///
/// A report of missing blobs is always passed on. Otherwise a validator
/// that withholds its confirming vote, or does not process validated
/// certificates, refuses to confirm a validated certificate; offline
/// validators cannot be reached; and the others pass on what the worker
/// said.
pub open spec fn is_certificate_response<T>(
    fault: FaultType,
    kind: CertificateKind,
    handled: Option<Result<T, NodeError>>,
    response: Result<T, NodeError>,
) -> bool {
    if reports_missing_blobs(handled) {
        response == handled->Some_0
    } else if (fault is DontSendConfirmVote || fault is DontProcessValidated) && kind is Validated {
        response matches Err(error) && is_io_error(error, "refusing to confirm"@)
    } else if fault is Offline || fault is OfflineWithInfo {
        response matches Err(error) && is_io_error(error, "offline"@)
    } else {
        handled is Some && response == handled->Some_0
    }
}

/// The failure to reach a validator, for the reason `reason`.
fn io_error(reason: &str) -> (error: NodeError)
    ensures
        is_io_error(error, reason@),
{
    NodeError::ClientIoError { error: String::from_str(reason) }
}

/// Answers a block proposal as a validator with the fault `fault` does,
/// given what its worker made of the proposal: `None` if the worker was
/// not asked.
///
/// A validator that passes on its worker's answer must have asked it.
pub fn proposal_response<T>(fault: FaultType, handled: Option<Result<T, NodeError>>) -> (response:
    Result<T, NodeError>)
    requires
        fault.processes_proposal_spec() ==> handled is Some,
    ensures
        is_proposal_response(fault, handled, response),
{
    match handled {
        Some(Err(NodeError::BlobsNotFound(blob_ids))) => Err(NodeError::BlobsNotFound(blob_ids)),
        handled => match fault {
            FaultType::Offline | FaultType::OfflineWithInfo => Err(io_error("offline")),
            FaultType::Malicious => Err(NodeError::ArithmeticError(ArithmeticError::Overflow)),
            FaultType::DontSendValidateVote => Err(io_error("refusing to validate")),
            FaultType::Honest | FaultType::DontSendConfirmVote | FaultType::DontProcessValidated =>
                match handled {
                Some(result) => result,
                None => unreached(),
            },
        },
    }
}

/// Answers a certificate of the kind `kind` as a validator with the fault
/// `fault` does, given what its worker made of the certificate: `None` if
/// the worker was not asked.
///
/// A validator that passes on its worker's answer must have asked it.
pub fn certificate_response<T>(
    fault: FaultType,
    kind: CertificateKind,
    handled: Option<Result<T, NodeError>>,
) -> (response: Result<T, NodeError>)
    requires
        fault.processes_certificate_spec(kind) ==> handled is Some,
    ensures
        is_certificate_response(fault, kind, handled, response),
{
    match handled {
        Some(Err(NodeError::BlobsNotFound(blob_ids))) => Err(NodeError::BlobsNotFound(blob_ids)),
        handled => {
            let validated = match kind {
                CertificateKind::Validated => true,
                _ => false,
            };
            match fault {
                FaultType::DontSendConfirmVote | FaultType::DontProcessValidated => {
                    if validated {
                        Err(io_error("refusing to confirm"))
                    } else {
                        match handled {
                            Some(result) => result,
                            None => unreached(),
                        }
                    }
                },
                FaultType::Honest | FaultType::Malicious | FaultType::DontSendValidateVote => {
                    match handled {
                        Some(result) => result,
                        None => unreached(),
                    }
                },
                FaultType::Offline | FaultType::OfflineWithInfo => Err(io_error("offline")),
            }
        },
    }
}

/// Answers a query about a chain as a validator with the fault `fault`
/// does: an offline validator cannot be reached, every other passes on
/// what its worker said.
pub fn chain_info_response<T>(fault: FaultType, handled: Option<Result<T, NodeError>>) -> (response:
    Result<T, NodeError>)
    requires
        !(fault is Offline) ==> handled is Some,
    ensures
        if fault is Offline {
            response matches Err(error) && is_io_error(error, "offline"@)
        } else {
            response == handled->Some_0
        },
{
    match fault {
        FaultType::Offline => Err(io_error("offline")),
        _ => match handled {
            Some(result) => result,
            None => unreached(),
        },
    }
}

/// The list that holds `blob_id` alone.
fn only(blob_id: BlobId) -> (blob_ids: Vec<BlobId>)
    ensures
        blob_ids@ == seq![blob_id],
{
    let mut blob_ids: Vec<BlobId> = Vec::new();
    blob_ids.push(blob_id);
    blob_ids
}

/// `error` reports that the blob `blob_id`, and no other, was not found.
pub open spec fn is_not_found(error: NodeError, blob_id: BlobId) -> bool {
    error matches NodeError::BlobsNotFound(blob_ids) && blob_ids@ == seq![blob_id]
}

/// Answers the upload of the blob `blob_id`, given what the storage said
/// when it was asked to write it: for each blob offered, whether it was
/// written. A blob that the storage did not take is reported as not
/// found.
pub fn upload_blob_response(blob_id: BlobId, written: Result<Vec<bool>, NodeError>) -> (response:
    Result<BlobId, NodeError>)
    ensures
        match written {
            Ok(has_state) => if has_state@.len() > 0 && has_state@[0] {
                response == Ok::<BlobId, NodeError>(blob_id)
            } else {
                response matches Err(error) && is_not_found(error, blob_id)
            },
            Err(failure) => response == Err::<BlobId, NodeError>(failure),
        },
{
    match written {
        Ok(has_state) => {
            if has_state.len() > 0 && has_state[0] {
                Ok(blob_id)
            } else {
                Err(NodeError::BlobsNotFound(only(blob_id)))
            }
        },
        Err(error) => Err(error),
    }
}

/// Answers the download of the blob `blob_id`, given what the storage
/// holds under it. A blob that the storage lacks is reported as not
/// found.
pub fn download_blob_response<B>(blob_id: BlobId, read: Result<Option<B>, NodeError>) -> (response:
    Result<B, NodeError>)
    ensures
        match read {
            Ok(Some(blob)) => response == Ok::<B, NodeError>(blob),
            Ok(None) => response matches Err(error) && is_not_found(error, blob_id),
            Err(failure) => response == Err::<B, NodeError>(failure),
        },
{
    match read {
        Ok(Some(blob)) => Ok(blob),
        Ok(None) => Err(NodeError::BlobsNotFound(only(blob_id))),
        Err(error) => Err(error),
    }
}

/// What the storage knows of a blob.
#[derive(Debug, PartialEq, Clone, Copy, Eq)]
pub struct BlobState {
    /// The certificate that last used the blob, if any did.
    pub last_used_by: Option<CryptoHash>,
}

/// Answers the question which certificate last used the blob `blob_id`,
/// given what the storage knows of the blob. A blob that the storage does
/// not know, or that no certificate used, is reported as not found.
pub fn blob_last_used_by_response(
    blob_id: BlobId,
    read: Result<Option<BlobState>, NodeError>,
) -> (response: Result<CryptoHash, NodeError>)
    ensures
        match read {
            Ok(Some(BlobState { last_used_by: Some(hash) })) => response == Ok::<
                CryptoHash,
                NodeError,
            >(hash),
            Ok(_) => response matches Err(error) && is_not_found(error, blob_id),
            Err(failure) => response == Err::<CryptoHash, NodeError>(failure),
        },
{
    match read {
        Err(error) => Err(error),
        Ok(None) => Err(NodeError::BlobsNotFound(only(blob_id))),
        Ok(Some(blob_state)) => match blob_state.last_used_by {
            Some(hash) => Ok(hash),
            None => Err(NodeError::BlobsNotFound(only(blob_id))),
        },
    }
}

/// Answers the question for the network's description, given what the
/// storage holds: a storage without one is an error.
pub fn network_description_response<D>(read: Result<Option<D>, NodeError>) -> (response: Result<
    D,
    NodeError,
>)
    ensures
        match read {
            Ok(Some(description)) => response == Ok::<D, NodeError>(description),
            Ok(None) => response matches Err(NodeError::ViewError { error }) && error@
                == "missing NetworkDescription"@,
            Err(failure) => response == Err::<D, NodeError>(failure),
        },
{
    match read {
        Ok(Some(description)) => Ok(description),
        Ok(None) => Err(
            NodeError::ViewError { error: String::from_str("missing NetworkDescription") },
        ),
        Err(error) => Err(error),
    }
}

} // verus!
