//! Version negotiation on connection: two sides play only when their rule
//! versions and protocol versions are both equal. Timing and transport are
//! the caller's; this module only judges the answer.
use vstd::prelude::*;

verus! {

/// The versions of one side: rules (major, minor) and protocol.
#[derive(Debug, Clone, Copy, PartialEq, Eq)]
pub struct VersionTuple {
    pub rule: (u32, u32),
    pub protocol: u32,
}

/// The mark that negotiation succeeded; only `negotiate_versions` gives one.
#[derive(Debug)]
pub struct VersionCleared;

/// What came back from the other side, as the caller classified it.
#[derive(Debug, Clone, Copy, PartialEq, Eq)]
pub enum PeerVersionResponse {
    /// A version tuple was received.
    Version(VersionTuple),
    /// The answer could not be read as a version tuple.
    Invalid,
    /// No answer came in time.
    Timeout,
}

/// Why negotiation failed.
#[derive(Debug, Clone, Copy, PartialEq, Eq)]
pub enum NegotiationOutcome {
    Incompatible {
        mine: VersionTuple,
        theirs: VersionTuple,
        rule_mismatch: bool,
        protocol_mismatch: bool,
    },
    InvalidResponse,
    Timeout,
}

/// The protocol version of this crate.
pub const PROTOCOL_VERSION: u32 = 3;

/// The versions of this crate: its rules and its protocol.
pub open spec fn spec_my_version() -> VersionTuple {
    VersionTuple { rule: crate::RULE_VERSION, protocol: PROTOCOL_VERSION }
}

/// The versions of this crate: its rules and its protocol.
pub fn my_version() -> (v: VersionTuple)
    ensures
        v == spec_my_version(),
{
    VersionTuple { rule: crate::RULE_VERSION, protocol: PROTOCOL_VERSION }
}

/// The judgement of negotiation: compatible exactly when a version tuple came
/// back equal to `mine`; otherwise the reason, with both tuples and which
/// parts differ.
pub open spec fn negotiation(mine: VersionTuple, peer: PeerVersionResponse) -> Result<(), NegotiationOutcome> {
    match peer {
        PeerVersionResponse::Version(theirs) => {
            let rule_mismatch = mine.rule != theirs.rule;
            let protocol_mismatch = mine.protocol != theirs.protocol;
            if rule_mismatch || protocol_mismatch {
                Err(NegotiationOutcome::Incompatible { mine, theirs, rule_mismatch, protocol_mismatch })
            } else {
                Ok(())
            }
        },
        PeerVersionResponse::Invalid => Err(NegotiationOutcome::InvalidResponse),
        PeerVersionResponse::Timeout => Err(NegotiationOutcome::Timeout),
    }
}

/// Judges the other side's answer (see `negotiation`).
pub fn negotiate_versions(mine: &VersionTuple, peer: PeerVersionResponse) -> (r: Result<VersionCleared, NegotiationOutcome>)
    ensures
        match negotiation(*mine, peer) {
            Ok(()) => r is Ok,
            Err(e) => r == Err::<VersionCleared, NegotiationOutcome>(e),
        },
{
    match peer {
        PeerVersionResponse::Version(theirs) => {
            let rule_mismatch = mine.rule.0 != theirs.rule.0 || mine.rule.1 != theirs.rule.1;
            let protocol_mismatch = mine.protocol != theirs.protocol;
            if rule_mismatch || protocol_mismatch {
                Err(NegotiationOutcome::Incompatible { mine: *mine, theirs, rule_mismatch, protocol_mismatch })
            } else {
                Ok(VersionCleared)
            }
        },
        PeerVersionResponse::Invalid => Err(NegotiationOutcome::InvalidResponse),
        PeerVersionResponse::Timeout => Err(NegotiationOutcome::Timeout),
    }
}

/// Law: negotiation succeeds exactly when the other side answered with the
/// same versions.
pub proof fn lemma_negotiation_compatible(mine: VersionTuple, peer: PeerVersionResponse)
    ensures
        (negotiation(mine, peer) is Ok) <==> (peer == PeerVersionResponse::Version(mine)),
{
}

} // verus!
