//! The decisions of an online game that do not need the network: whether the
//! revealed actions of a turn may be resolved, the phase of the protocol loop,
//! and the message shown when the versions of the two sides differ.
use vstd::prelude::*;

use crate::board::Position;
use crate::movegen::{is_legal, legal_actions};
use crate::protocol::negotiate::NegotiationOutcome;
use crate::text::{decimal, push_decimal, push_str};
use crate::types::{Action, Side};

pub mod game;

verus! {

/// Where the protocol loop of an online game stands.
#[derive(Debug, Clone, PartialEq, Eq)]
pub enum OnlinePhase {
    WaitingMyMove,
    WaitingPeerCommit,
    WaitingPeerReveal,
    WaitingPeerAck,
    Disconnected,
    Aborted(String),
}

fn contains_action(v: &Vec<Action>, a: Action) -> (b: bool)
    ensures
        b == v@.contains(a),
{
    let mut i: usize = 0;
    while i < v.len()
        invariant
            i <= v.len(),
            forall|j: int| 0 <= j < i ==> v@[j] != a,
        decreases v.len() - i,
    {
        if v[i] == a {
            assert(v@[i as int] == a);
            return true;
        }
        i += 1;
    }
    false
}

/// Whether both revealed actions of a turn are legal on `pos`, each for its
/// own camp. The other side's reveal is checked here before it is resolved: an
/// action from an empty square, with a piece of the wrong camp, or with an
/// impossible promotion is refused.
pub fn turn_actions_are_legal(pos: &Position, sente: Action, gote: Action) -> (b: bool)
    requires
        pos.has_room(),
    ensures
        b == (is_legal(*pos, Side::Sente, sente) && is_legal(*pos, Side::Gote, gote)),
{
    let s = legal_actions(pos, Side::Sente);
    if !contains_action(&s, sente) {
        return false;
    }
    let g = legal_actions(pos, Side::Gote);
    contains_action(&g, gote)
}

/// Ends the game locally, on the other side's abort or on a failure that it
/// need not be told of.
pub fn abort_to(online_phase: &mut OnlinePhase, reason: String)
    ensures
        *final(online_phase) == OnlinePhase::Aborted(reason),
{
    *online_phase = OnlinePhase::Aborted(reason);
}

/// The part of the mismatch message that names the rule versions.
pub open spec fn rule_part(mine: (u32, u32), theirs: (u32, u32)) -> Seq<char> {
    "ルール版: 自分 "@ + decimal(mine.0 as nat) + "."@ + decimal(mine.1 as nat) + " ≠ 相手 "@
        + decimal(theirs.0 as nat) + "."@ + decimal(theirs.1 as nat)
}

/// The part of the mismatch message that names the protocol versions.
pub open spec fn protocol_part(mine: u32, theirs: u32) -> Seq<char> {
    "プロトコル版: 自分 "@ + decimal(mine as nat) + " ≠ 相手 "@ + decimal(theirs as nat)
}

/// The message shown when negotiation fails: for incompatible versions, the
/// mismatching ones (rules, then protocol, joined by `、`); for a bad answer
/// or none, what it may mean.
pub open spec fn mismatch_text(outcome: NegotiationOutcome) -> Seq<char> {
    match outcome {
        NegotiationOutcome::Incompatible { mine, theirs, rule_mismatch, protocol_mismatch } => {
            let r = if rule_mismatch {
                rule_part(mine.rule, theirs.rule)
            } else {
                Seq::empty()
            };
            let sep = if rule_mismatch && protocol_mismatch {
                "、"@
            } else {
                Seq::empty()
            };
            let p = if protocol_mismatch {
                protocol_part(mine.protocol, theirs.protocol)
            } else {
                Seq::empty()
            };
            "版が異なるため対戦できません。"@ + r + sep + p
        },
        NegotiationOutcome::InvalidResponse => "版交渉: 相手の応答が不正です。互換性のない版の可能性があります。"@,
        NegotiationOutcome::Timeout => "版交渉: 相手が応答しませんでした。版交渉に対応していない版（v0.5.0 以前）の可能性があります。"@,
    }
}

/// The message shown when negotiation fails (see `mismatch_text`).
pub fn format_version_mismatch(outcome: &NegotiationOutcome) -> (s: String)
    ensures
        s@ == mismatch_text(*outcome),
{
    let mut s = String::new();
    match *outcome {
        NegotiationOutcome::Incompatible { mine, theirs, rule_mismatch, protocol_mismatch } => {
            push_str(&mut s, "版が異なるため対戦できません。");
            if rule_mismatch {
                push_str(&mut s, "ルール版: 自分 ");
                push_decimal(&mut s, mine.rule.0);
                push_str(&mut s, ".");
                push_decimal(&mut s, mine.rule.1);
                push_str(&mut s, " ≠ 相手 ");
                push_decimal(&mut s, theirs.rule.0);
                push_str(&mut s, ".");
                push_decimal(&mut s, theirs.rule.1);
            }
            if rule_mismatch && protocol_mismatch {
                push_str(&mut s, "、");
            }
            if protocol_mismatch {
                push_str(&mut s, "プロトコル版: 自分 ");
                push_decimal(&mut s, mine.protocol);
                push_str(&mut s, " ≠ 相手 ");
                push_decimal(&mut s, theirs.protocol);
            }
            proof {
                let r = if rule_mismatch {
                    rule_part(mine.rule, theirs.rule)
                } else {
                    Seq::empty()
                };
                let sep = if rule_mismatch && protocol_mismatch {
                    "、"@
                } else {
                    Seq::<char>::empty()
                };
                let p = if protocol_mismatch {
                    protocol_part(mine.protocol, theirs.protocol)
                } else {
                    Seq::empty()
                };
                assert(s@ =~= "版が異なるため対戦できません。"@ + r + sep + p);
            }
        },
        NegotiationOutcome::InvalidResponse => {
            push_str(&mut s, "版交渉: 相手の応答が不正です。互換性のない版の可能性があります。");
            assert(s@ =~= mismatch_text(*outcome));
        },
        NegotiationOutcome::Timeout => {
            push_str(
                &mut s,
                "版交渉: 相手が応答しませんでした。版交渉に対応していない版（v0.5.0 以前）の可能性があります。",
            );
            assert(s@ =~= mismatch_text(*outcome));
        },
    }
    s
}

} // verus!
