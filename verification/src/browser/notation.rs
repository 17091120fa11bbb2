//! Japanese notation for a browser front end: the action in USI, the legal
//! actions as the JSON array that `browser::engine::legal_actions` writes.
use vstd::prelude::*;

use crate::notation::notation;
use crate::serialize::{parse_sfen, sfen_to_position};
use crate::text::{chars_eq, chars_of, split_all, split_on, sub_vec, trim, trim_vec};
use crate::types::{action_from_chars, parse_action, Action, Side};

verus! {

/// `s` without the quotes at its front.
pub open spec fn unquote_front(s: Seq<char>) -> Seq<char>
    decreases s.len(),
{
    if s.len() > 0 && s[0] == '"' {
        unquote_front(s.drop_first())
    } else {
        s
    }
}

/// `s` without the quotes at its back.
pub open spec fn unquote_back(s: Seq<char>) -> Seq<char>
    decreases s.len(),
{
    if s.len() > 0 && s.last() == '"' {
        unquote_back(s.drop_last())
    } else {
        s
    }
}

/// `s` without the quotes at either end (`str::trim_matches('"')`).
pub open spec fn unquote(s: Seq<char>) -> Seq<char> {
    unquote_back(unquote_front(s))
}

/// The inside of an array text, or `None` for an empty one (`[]` or blank):
/// the trimmed text without a leading `[` and a trailing `]`. When there is
/// no trailing `]`, the whole trimmed text is taken.
pub open spec fn array_inside(json: Seq<char>) -> Option<Seq<char>> {
    let t = trim(json);
    if t == seq!['[', ']'] || t.len() == 0 {
        None
    } else {
        let a = if t[0] == '[' {
            t.drop_first()
        } else {
            t
        };
        Some(
            if a.len() > 0 && a.last() == ']' {
                a.drop_last()
            } else {
                t
            },
        )
    }
}

/// The actions that the first `n` items name, in order, leaving out the
/// items that are not USI once trimmed and unquoted.
pub open spec fn actions_of_items(items: Seq<Seq<char>>, n: int) -> Seq<Action>
    decreases n,
{
    if n <= 0 {
        Seq::empty()
    } else {
        let prev = actions_of_items(items, n - 1);
        match parse_action(unquote(trim(items[n - 1]))) {
            Some(a) => prev.push(a),
            None => prev,
        }
    }
}

/// The actions of an array text: its inside split at every comma.
pub open spec fn legal_list(json: Seq<char>) -> Seq<Action> {
    match array_inside(json) {
        None => Seq::empty(),
        Some(inside) => {
            let items = split_all(inside, ',');
            actions_of_items(items, items.len() as int)
        },
    }
}

fn unquoted(v: &[char]) -> (r: Vec<char>)
    ensures
        r@ == unquote(v@),
{
    let mut lo: usize = 0;
    assert(v@.skip(0) =~= v@);
    while lo < v.len() && v[lo] == '"'
        invariant
            lo <= v.len(),
            unquote_front(v@.skip(lo as int)) == unquote_front(v@),
        decreases v.len() - lo,
    {
        assert(v@.skip(lo as int).drop_first() =~= v@.skip(lo + 1));
        lo += 1;
    }
    let ghost front = unquote_front(v@);
    assert(front == v@.skip(lo as int));
    let mut hi: usize = v.len();
    while hi > lo && v[hi - 1] == '"'
        invariant
            lo <= hi <= v.len(),
            front == v@.skip(lo as int),
            unquote_back(v@.subrange(lo as int, hi as int)) == unquote_back(front),
        decreases hi,
    {
        assert(v@.subrange(lo as int, hi as int).drop_last() =~= v@.subrange(lo as int, hi - 1));
        hi -= 1;
    }
    proof {
        assert(v@.subrange(lo as int, v.len() as int) =~= front);
    }
    sub_vec(v, lo, hi)
}

/// Reads the JSON array of USI texts that `browser::engine::legal_actions`
/// writes, leaving out the items that are not USI (see `legal_list`).
pub fn parse_legal_json(json: &str) -> (v: Vec<Action>)
    ensures
        v@ == legal_list(json@),
        forall|i: int| 0 <= i < v@.len() ==> (#[trigger] v@[i]).wf(),
{
    let all = chars_of(json);
    let t = trim_vec(&all);
    let empty_pair = ['[', ']'];
    if t.len() == 0 || chars_eq(&t, &empty_pair) {
        return Vec::new();
    }
    let a = if t[0] == '[' {
        sub_vec(&t, 1, t.len())
    } else {
        sub_vec(&t, 0, t.len())
    };
    let inside = if a.len() > 0 && a[a.len() - 1] == ']' {
        sub_vec(&a, 0, a.len() - 1)
    } else {
        sub_vec(&t, 0, t.len())
    };
    proof {
        let tt = t@;
        assert(t@.subrange(1, t@.len() as int) =~= tt.drop_first());
        assert(t@.subrange(0, t@.len() as int) =~= tt);
        assert(a@.len() > 0 ==> a@.subrange(0, a@.len() - 1) =~= a@.drop_last());
        assert(array_inside(json@) == Some(inside@));
    }
    let items = split_on(&inside, ',');
    let ghost gi = split_all(inside@, ',');
    let mut out: Vec<Action> = Vec::new();
    let mut i: usize = 0;
    while i < items.len()
        invariant
            i <= items@.len(),
            items@.len() == gi.len(),
            forall|k: int| 0 <= k < items@.len() ==> (#[trigger] items@[k])@ == gi[k],
            out@ == actions_of_items(gi, i as int),
            forall|k: int| 0 <= k < out@.len() ==> (#[trigger] out@[k]).wf(),
        decreases items.len() - i,
    {
        let tok = trim_vec(items[i].as_slice());
        let u = unquoted(&tok);
        assert(u@ == unquote(trim(gi[i as int])));
        match action_from_chars(&u) {
            Some(a) => out.push(a),
            None => {},
        }
        i += 1;
    }
    out
}

/// The notation that a browser asks for: empty when the action or the
/// position does not read; the camp is gote when named `gote`, sente
/// otherwise.
pub open spec fn ja_reply(usi: Seq<char>, side: Seq<char>, legal_json: Seq<char>, sfen: Seq<char>) -> Seq<char> {
    match parse_action(usi) {
        None => Seq::empty(),
        Some(a) => match parse_sfen(sfen) {
            None => Seq::empty(),
            Some(pos) => notation(
                a,
                if side == "gote"@ {
                    Side::Gote
                } else {
                    Side::Sente
                },
                legal_list(legal_json),
                pos,
            ),
        },
    }
}

/// The Japanese notation of an action given as text (see `ja_reply`).
pub fn ja_notation(usi: &str, side: &str, legal_json: &str, sfen: &str) -> (r: String)
    ensures
        r@ == ja_reply(usi@, side@, legal_json@, sfen@),
{
    let action = match Action::from_usi(usi) {
        Some(a) => a,
        None => {
            return String::new();
        },
    };
    let sv = chars_of(side);
    let gote = ['g', 'o', 't', 'e'];
    proof {
        reveal_strlit("gote");
        assert(gote@ =~= "gote"@);
    }
    let s = if chars_eq(&sv, &gote) {
        Side::Gote
    } else {
        Side::Sente
    };
    let pos = match sfen_to_position(sfen) {
        Some(p) => p,
        None => {
            return String::new();
        },
    };
    let legal = parse_legal_json(legal_json);
    crate::notation::ja_notation(&action, s, legal.as_slice(), &pos)
}

} // verus!
