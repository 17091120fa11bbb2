//! The texts by which failures of the protocol are reported: each failure
//! written as its name with its fields, in the form of Rust's derived debug
//! text (`Protocol(CommitMismatch)`, `VersionMismatch(Incompatible { .. })`).
use vstd::prelude::*;

use crate::protocol::client::SessionError;
use crate::protocol::negotiate::{NegotiationOutcome, VersionTuple};
use crate::protocol::session::ProtocolError;
use crate::text::{decimal, push_char, push_decimal, push_str};

verus! {

/// The name of a failure of one turn.
pub open spec fn protocol_error_name(e: ProtocolError) -> Seq<char> {
    match e {
        ProtocolError::RevealBeforeBothCommitted => "RevealBeforeBothCommitted"@,
        ProtocolError::AckBeforePeerReveal => "AckBeforePeerReveal"@,
        ProtocolError::CommitMismatch => "CommitMismatch"@,
        ProtocolError::BoardHashMismatch => "BoardHashMismatch"@,
        ProtocolError::NotCommittedYet => "NotCommittedYet"@,
        ProtocolError::AlreadyCommitted => "AlreadyCommitted"@,
        ProtocolError::DuplicatePeerCommit => "DuplicatePeerCommit"@,
        ProtocolError::DuplicatePeerReveal => "DuplicatePeerReveal"@,
    }
}

/// `true` or `false`.
pub open spec fn bool_text(b: bool) -> Seq<char> {
    if b {
        "true"@
    } else {
        "false"@
    }
}

/// A version tuple: `VersionTuple { rule: (a, b), protocol: p }`.
pub open spec fn version_text(v: VersionTuple) -> Seq<char> {
    "VersionTuple { rule: ("@ + decimal(v.rule.0 as nat) + ", "@ + decimal(v.rule.1 as nat)
        + "), protocol: "@ + decimal(v.protocol as nat) + " }"@
}

/// A failed negotiation, with its fields.
pub open spec fn outcome_text(o: NegotiationOutcome) -> Seq<char> {
    match o {
        NegotiationOutcome::Incompatible { mine, theirs, rule_mismatch, protocol_mismatch } =>
            "Incompatible { mine: "@ + version_text(mine) + ", theirs: "@ + version_text(theirs)
            + ", rule_mismatch: "@ + bool_text(rule_mismatch) + ", protocol_mismatch: "@
            + bool_text(protocol_mismatch) + " }"@,
        NegotiationOutcome::InvalidResponse => "InvalidResponse"@,
        NegotiationOutcome::Timeout => "Timeout"@,
    }
}

/// A failed step of a session, with its fields.
pub open spec fn session_error_text(e: SessionError) -> Seq<char> {
    match e {
        SessionError::VersionMismatch(o) => "VersionMismatch("@ + outcome_text(o) + seq![')'],
        SessionError::DuplicateHello => "DuplicateHello"@,
        SessionError::HandshakeNotDone => "HandshakeNotDone"@,
        SessionError::NoActiveTurn => "NoActiveTurn"@,
        SessionError::Protocol(p) => "Protocol("@ + protocol_error_name(p) + seq![')'],
        SessionError::IdentityMismatch => "IdentityMismatch"@,
        SessionError::BadHex => "BadHex"@,
        SessionError::InvalidUsi => "InvalidUsi"@,
    }
}

/// The name of a failure of one turn (see `protocol_error_name`).
pub fn protocol_error_str(e: &ProtocolError) -> (s: &'static str)
    ensures
        s@ == protocol_error_name(*e),
{
    match e {
        ProtocolError::RevealBeforeBothCommitted => "RevealBeforeBothCommitted",
        ProtocolError::AckBeforePeerReveal => "AckBeforePeerReveal",
        ProtocolError::CommitMismatch => "CommitMismatch",
        ProtocolError::BoardHashMismatch => "BoardHashMismatch",
        ProtocolError::NotCommittedYet => "NotCommittedYet",
        ProtocolError::AlreadyCommitted => "AlreadyCommitted",
        ProtocolError::DuplicatePeerCommit => "DuplicatePeerCommit",
        ProtocolError::DuplicatePeerReveal => "DuplicatePeerReveal",
    }
}

fn push_bool(s: &mut String, b: bool)
    ensures
        final(s)@ == old(s)@ + bool_text(b),
{
    if b {
        push_str(s, "true");
    } else {
        push_str(s, "false");
    }
}

fn push_version(s: &mut String, v: &VersionTuple)
    ensures
        final(s)@ == old(s)@ + version_text(*v),
{
    let ghost start = s@;
    push_str(s, "VersionTuple { rule: (");
    push_decimal(s, v.rule.0);
    push_str(s, ", ");
    push_decimal(s, v.rule.1);
    push_str(s, "), protocol: ");
    push_decimal(s, v.protocol);
    push_str(s, " }");
    assert(s@ =~= start + version_text(*v));
}

/// Appends the text of a failed negotiation (see `outcome_text`).
pub fn push_outcome(s: &mut String, o: &NegotiationOutcome)
    ensures
        final(s)@ == old(s)@ + outcome_text(*o),
{
    let ghost start = s@;
    match o {
        NegotiationOutcome::Incompatible { mine, theirs, rule_mismatch, protocol_mismatch } => {
            push_str(s, "Incompatible { mine: ");
            push_version(s, mine);
            push_str(s, ", theirs: ");
            push_version(s, theirs);
            push_str(s, ", rule_mismatch: ");
            push_bool(s, *rule_mismatch);
            push_str(s, ", protocol_mismatch: ");
            push_bool(s, *protocol_mismatch);
            push_str(s, " }");
        },
        NegotiationOutcome::InvalidResponse => push_str(s, "InvalidResponse"),
        NegotiationOutcome::Timeout => push_str(s, "Timeout"),
    }
    assert(s@ =~= start + outcome_text(*o));
}

/// Appends the text of a failed step of a session (see `session_error_text`).
pub fn push_session_error(s: &mut String, e: &SessionError)
    ensures
        final(s)@ == old(s)@ + session_error_text(*e),
{
    let ghost start = s@;
    match e {
        SessionError::VersionMismatch(o) => {
            push_str(s, "VersionMismatch(");
            push_outcome(s, o);
            push_char(s, ')');
        },
        SessionError::DuplicateHello => push_str(s, "DuplicateHello"),
        SessionError::HandshakeNotDone => push_str(s, "HandshakeNotDone"),
        SessionError::NoActiveTurn => push_str(s, "NoActiveTurn"),
        SessionError::Protocol(p) => {
            push_str(s, "Protocol(");
            push_str(s, protocol_error_str(p));
            push_char(s, ')');
        },
        SessionError::IdentityMismatch => push_str(s, "IdentityMismatch"),
        SessionError::BadHex => push_str(s, "BadHex"),
        SessionError::InvalidUsi => push_str(s, "InvalidUsi"),
    }
    assert(s@ =~= start + session_error_text(*e));
}

/// The text of a failed negotiation (see `outcome_text`).
pub fn describe_outcome(o: &NegotiationOutcome) -> (s: String)
    ensures
        s@ == outcome_text(*o),
{
    let mut s = String::new();
    push_outcome(&mut s, o);
    s
}

/// The text of a failed step of a session (see `session_error_text`).
pub fn describe_session_error(e: &SessionError) -> (s: String)
    ensures
        s@ == session_error_text(*e),
{
    let mut s = String::new();
    push_session_error(&mut s, e);
    s
}

} // verus!
