//! Grouping of related messages by the message part they point to.
use vstd::prelude::*;

use std::collections::HashMap;

use crate::message::Message;
use crate::message_types::{Variant, VariantView};

verus! {

broadcast use vstd::std_specs::hash::group_hash_axioms;

/// The positions `i` of `keys` whose key is `k`, in ascending order.
pub open spec fn positions_of(keys: Seq<Option<usize>>, k: usize) -> Seq<usize>
    decreases keys.len(),
{
    if keys.len() == 0 {
        seq![]
    } else {
        let rest = positions_of(keys.drop_last(), k);
        if keys.last() == Some(k) {
            rest.push((keys.len() - 1) as usize)
        } else {
            rest
        }
    }
}

/// Groups positions by key, keeping their order and skipping those without a key.
pub fn group_positions(keys: &Vec<Option<usize>>) -> (r: HashMap<usize, Vec<usize>>)
    ensures
        forall|k: usize| #[trigger] r@.contains_key(k) <==> positions_of(keys@, k).len() > 0,
        forall|k: usize| r@.contains_key(k) ==> (#[trigger] r@[k])@ == positions_of(keys@, k),
{
    let mut map: HashMap<usize, Vec<usize>> = HashMap::new();
    let mut i: usize = 0;
    proof {
        assert(map@ =~= Map::empty());
    }
    while i < keys.len()
        invariant
            i <= keys@.len(),
            forall|k: usize|
                #[trigger] map@.contains_key(k) <==> positions_of(keys@.subrange(0, i as int), k).len()
                    > 0,
            forall|k: usize|
                map@.contains_key(k) ==> (#[trigger] map@[k])@ == positions_of(
                    keys@.subrange(0, i as int),
                    k,
                ),
        decreases keys@.len() - i,
    {
        let ghost pre = keys@.subrange(0, i as int);
        let ghost next = keys@.subrange(0, i + 1);
        proof {
            assert(next.drop_last() =~= pre);
            assert(next.last() == keys@[i as int]);
        }
        if let Some(k) = keys[i] {
            let ghost before = map@;
            match map.remove(&k) {
                Some(mut v) => {
                    v.push(i);
                    map.insert(k, v);
                },
                None => {
                    let mut v: Vec<usize> = Vec::new();
                    v.push(i);
                    map.insert(k, v);
                    proof {
                        assert(positions_of(pre, k).len() == 0);
                        assert(v@ =~= positions_of(pre, k).push(i));
                    }
                },
            }
            proof {
                assert forall|j: usize| j != k implies positions_of(next, j) == positions_of(pre, j) by {}
            }
        } else {
            proof {
                assert forall|j: usize| positions_of(next, j) == positions_of(pre, j) by {}
            }
        }
        i = i + 1;
    }
    proof {
        assert(keys@.subrange(0, i as int) =~= keys@);
    }
    map
}

impl Message {
    /// The message part a reaction or sticker points to, for reactions and
    /// stickers only.
    pub fn tapback_target(&self) -> (r: Option<usize>)
        ensures
            r == match self.spec_variant() {
                VariantView::Tapback(i, _, _) => Some(i),
                VariantView::Sticker(i) => Some(i),
                _ => None,
            },
    {
        match self.variant() {
            Variant::Tapback(idx, _, _) => Some(idx),
            Variant::Sticker(idx) => Some(idx),
            _ => None,
        }
    }
}

/// The part each message replies to, for grouping replies.
pub fn reply_keys(messages: &Vec<Message>) -> (r: Vec<Option<usize>>)
    ensures
        r@.len() == messages@.len(),
        forall|i: int| 0 <= i < r@.len() ==> #[trigger] r@[i] is Some,
{
    let mut out: Vec<Option<usize>> = Vec::new();
    let mut i: usize = 0;
    while i < messages.len()
        invariant
            i <= messages@.len(),
            out@.len() == i,
            forall|j: int| 0 <= j < i ==> #[trigger] out@[j] is Some,
        decreases messages@.len() - i,
    {
        out.push(Some(messages[i].get_reply_index()));
        i = i + 1;
    }
    out
}

/// The part each message reacts to, or `None` for messages that do not react.
pub fn tapback_keys(messages: &Vec<Message>) -> (r: Vec<Option<usize>>)
    ensures
        r@.len() == messages@.len(),
        forall|i: int|
            0 <= i < r@.len() ==> #[trigger] r@[i] == match messages@[i].spec_variant() {
                VariantView::Tapback(k, _, _) => Some(k),
                VariantView::Sticker(k) => Some(k),
                _ => None,
            },
{
    let mut out: Vec<Option<usize>> = Vec::new();
    let mut i: usize = 0;
    while i < messages.len()
        invariant
            i <= messages@.len(),
            out@.len() == i,
            forall|j: int|
                0 <= j < i ==> #[trigger] out@[j] == match messages@[j].spec_variant() {
                    VariantView::Tapback(k, _, _) => Some(k),
                    VariantView::Sticker(k) => Some(k),
                    _ => None,
                },
        decreases messages@.len() - i,
    {
        out.push(messages[i].tapback_target());
        i = i + 1;
    }
    out
}

} // verus!
