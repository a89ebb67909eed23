//! What a decoder makes of an archive that was cut short.
use vstd::prelude::*;

use crate::archive::{ClassView, LeafView, NodeView};
use crate::error::DecodeError;
use crate::reader::{spec_blob, spec_signed, spec_unsigned};
use crate::typedstream::{
    spec_events_end, stream_end, spec_chain, spec_children, spec_decode, spec_event, spec_events, spec_leaf,
    spec_leaves, spec_object, spec_string, TablesView, HEADER_LEN,
};

verus! {

/// The result a read over the first `n` bytes gives, for a read that ended
/// at `q` over the whole buffer.
pub open spec fn within<T>(v: T, q: int, n: int) -> Result<(T, int), DecodeError> {
    if q <= n {
        Ok((v, q))
    } else {
        Err(DecodeError::TruncatedInput)
    }
}

proof fn lemma_unsigned_cut(b: Seq<u8>, n: int, p: int)
    requires
        0 <= n <= b.len(),
    ensures
        spec_unsigned(b, p) matches Ok((v, q)) ==> spec_unsigned(b.subrange(0, n), p) == within(
            v,
            q,
            n,
        ),
        spec_unsigned(b, p) matches Ok((_, q)) ==> p < q,
{
    let c = b.subrange(0, n);
    if 0 <= p < n {
        assert(c[p] == b[p]);
        if p + 1 + 8 <= n {
            assert(c.subrange(p + 1, p + 1 + 8) =~= b.subrange(p + 1, p + 1 + 8));
        }
        if p + 1 + 4 <= n {
            assert(c.subrange(p + 1, p + 1 + 4) =~= b.subrange(p + 1, p + 1 + 4));
        }
        if p + 1 + 2 <= n {
            assert(c.subrange(p + 1, p + 1 + 2) =~= b.subrange(p + 1, p + 1 + 2));
        }
    }
}

proof fn lemma_signed_cut(b: Seq<u8>, n: int, p: int)
    requires
        0 <= n <= b.len(),
    ensures
        spec_signed(b, p) matches Ok((v, q)) ==> spec_signed(b.subrange(0, n), p) == within(
            v,
            q,
            n,
        ),
        spec_signed(b, p) matches Ok((_, q)) ==> p < q,
{
    let c = b.subrange(0, n);
    if 0 <= p < n {
        assert(c[p] == b[p]);
        if p + 1 + 8 <= n {
            assert(c.subrange(p + 1, p + 1 + 8) =~= b.subrange(p + 1, p + 1 + 8));
        }
        if p + 1 + 4 <= n {
            assert(c.subrange(p + 1, p + 1 + 4) =~= b.subrange(p + 1, p + 1 + 4));
        }
        if p + 1 + 2 <= n {
            assert(c.subrange(p + 1, p + 1 + 2) =~= b.subrange(p + 1, p + 1 + 2));
        }
    }
}

proof fn lemma_blob_cut(b: Seq<u8>, n: int, p: int)
    requires
        0 <= n <= b.len(),
    ensures
        spec_blob(b, p) matches Ok((v, q)) ==> spec_blob(b.subrange(0, n), p) == within(v, q, n),
        spec_blob(b, p) matches Ok((_, q)) ==> p < q,
{
    lemma_unsigned_cut(b, n, p);
    if let Ok((len, q)) = spec_unsigned(b, p) {
        if q + len <= n {
            assert(b.subrange(0, n).subrange(q, q + len) =~= b.subrange(q, q + len));
        }
    }
}

proof fn lemma_string_cut(b: Seq<u8>, n: int, p: int)
    requires
        0 <= n <= b.len(),
    ensures
        spec_string(b, p) matches Ok((v, q)) ==> spec_string(b.subrange(0, n), p) == within(
            v,
            q,
            n,
        ),
        spec_string(b, p) matches Ok((_, q)) ==> p < q,
{
    lemma_blob_cut(b, n, p);
}

proof fn lemma_leaf_cut(b: Seq<u8>, n: int, p: int, t: u8)
    requires
        0 <= n <= b.len(),
    ensures
        spec_leaf(b, p, t) matches Ok((v, q)) ==> spec_leaf(b.subrange(0, n), p, t) == within(
            v,
            q,
            n,
        ),
        spec_leaf(b, p, t) matches Ok((_, q)) ==> p < q,
{
    lemma_signed_cut(b, n, p);
    lemma_unsigned_cut(b, n, p);
    lemma_string_cut(b, n, p);
    lemma_blob_cut(b, n, p);
}

proof fn lemma_leaves_cut(b: Seq<u8>, n: int, p: int, types: Seq<u8>, acc: Seq<LeafView>)
    requires
        0 <= n <= b.len(),
        p <= n,
    ensures
        spec_leaves(b, p, types, acc) matches Ok((v, q)) ==> spec_leaves(
            b.subrange(0, n),
            p,
            types,
            acc,
        ) == within(v, q, n),
    decreases types.len(),
{
    let c = b.subrange(0, n);
    if types.len() > 0 {
        lemma_leaf_cut(b, n, p, types[0]);
        if let Ok((l, q)) = spec_leaf(b, p, types[0]) {
            lemma_leaves_advance(b, q, types.drop_first(), acc.push(l));
            if q <= n {
                lemma_leaves_cut(b, n, q, types.drop_first(), acc.push(l));
                assert(spec_leaf(c, p, types[0]) == Ok::<_, DecodeError>((l, q)));
            } else {
                assert(spec_leaf(c, p, types[0]) == Err::<(LeafView, int), _>(
                    DecodeError::TruncatedInput,
                ));
            }
        }
    }
}

proof fn lemma_leaves_advance(b: Seq<u8>, p: int, types: Seq<u8>, acc: Seq<LeafView>)
    ensures
        spec_leaves(b, p, types, acc) matches Ok((_, q)) ==> p <= q,
    decreases types.len(),
{
    if types.len() > 0 {
        lemma_leaf_cut(b, 0, p, types[0]);
        if let Ok((l, q)) = spec_leaf(b, p, types[0]) {
            lemma_leaves_advance(b, q, types.drop_first(), acc.push(l));
        }
    }
}

proof fn lemma_object_advance(b: Seq<u8>, p: int, t: TablesView, out: Seq<NodeView>)
    ensures
        spec_object(b, p, t, out) matches Ok((_, q, _)) ==> p < q,
    decreases b.len() - p, 0nat,
{
    if 0 <= p < b.len() && b[p] < crate::reader::REFERENCE_TAG && b[p] == crate::reader::START {
        if let Ok((chain, q, classes)) = spec_chain(b, p + 1, t.classes) {
            if let Ok((types, r)) = spec_blob(b, q) {
                if let Ok((leaves, s)) = spec_leaves(b, r, types, seq![]) {
                    if let Ok((cnt, u)) = spec_unsigned(b, s) {
                        if p < u && u <= b.len() {
                            lemma_children_advance(
                                b,
                                u,
                                TablesView { classes, values: t.values },
                                seq![NodeView::Object(chain, leaves)],
                                cnt as nat,
                            );
                        }
                    }
                }
            }
        }
    }
}

proof fn lemma_children_advance(b: Seq<u8>, p: int, t: TablesView, acc: Seq<NodeView>, cnt: nat)
    ensures
        spec_children(b, p, t, acc, cnt) matches Ok((_, q, _)) ==> p <= q,
    decreases b.len() - p, cnt,
{
    if cnt > 0 {
        lemma_object_advance(b, p, t, acc);
        if let Ok((acc2, q, t2)) = spec_object(b, p, t, acc) {
            if p < q && q <= b.len() {
                lemma_children_advance(b, q, t2, acc2, (cnt - 1) as nat);
            }
        }
    }
}

proof fn lemma_chain_cut(b: Seq<u8>, n: int, p: int, classes: Seq<Seq<ClassView>>)
    requires
        0 <= n <= b.len(),
    ensures
        spec_chain(b, p, classes) matches Ok((v, q, cl)) ==> spec_chain(
            b.subrange(0, n),
            p,
            classes,
        ) == if q <= n {
            Ok::<_, DecodeError>((v, q, cl))
        } else {
            Err(DecodeError::TruncatedInput)
        },
        spec_chain(b, p, classes) matches Ok((_, q, _)) ==> p < q,
    decreases b.len() - p,
{
    let c = b.subrange(0, n);
    if 0 <= p < b.len() {
        if p < n {
            assert(c[p] == b[p]);
        }
        if b[p] == crate::reader::START {
            lemma_string_cut(b, n, p + 1);
            if let Ok((name, q)) = spec_string(b, p + 1) {
                lemma_unsigned_cut(b, n, q);
                if let Ok((version, r)) = spec_unsigned(b, q) {
                    if p < r && r <= b.len() {
                        lemma_chain_cut(b, n, r, classes);
                    }
                }
            }
        }
    }
}

proof fn lemma_object_cut(b: Seq<u8>, n: int, p: int, t: TablesView, out: Seq<NodeView>)
    requires
        0 <= n <= b.len(),
    ensures
        spec_object(b, p, t, out) matches Ok((v, q, t2)) ==> spec_object(
            b.subrange(0, n),
            p,
            t,
            out,
        ) == if q <= n {
            Ok::<_, DecodeError>((v, q, t2))
        } else {
            Err(DecodeError::TruncatedInput)
        },
    decreases b.len() - p, 0nat,
{
    let c = b.subrange(0, n);
    if 0 <= p < b.len() {
        if p < n {
            assert(c[p] == b[p]);
        }
        if b[p] < crate::reader::REFERENCE_TAG && b[p] == crate::reader::START {
            lemma_chain_cut(b, n, p + 1, t.classes);
            if let Ok((chain, q, classes)) = spec_chain(b, p + 1, t.classes) {
                lemma_blob_cut(b, n, q);
                if let Ok((types, r)) = spec_blob(b, q) {
                    lemma_leaves_advance(b, r, types, seq![]);
                    if r <= n {
                        lemma_leaves_cut(b, n, r, types, seq![]);
                    }
                    if let Ok((leaves, s)) = spec_leaves(b, r, types, seq![]) {
                        lemma_unsigned_cut(b, n, s);
                        if let Ok((cnt, u)) = spec_unsigned(b, s) {
                            if p < u && u <= b.len() {
                                lemma_children_advance(
                                    b,
                                    u,
                                    TablesView { classes, values: t.values },
                                    seq![NodeView::Object(chain, leaves)],
                                    cnt as nat,
                                );
                            }
                            if p < u && u <= n {
                                lemma_children_cut(
                                    b,
                                    n,
                                    u,
                                    TablesView { classes, values: t.values },
                                    seq![NodeView::Object(chain, leaves)],
                                    cnt as nat,
                                );
                            }
                        }
                    }
                }
            }
        }
    }
}

proof fn lemma_children_cut(
    b: Seq<u8>,
    n: int,
    p: int,
    t: TablesView,
    acc: Seq<NodeView>,
    cnt: nat,
)
    requires
        0 <= n <= b.len(),
        p <= n,
    ensures
        spec_children(b, p, t, acc, cnt) matches Ok((v, q, t2)) ==> spec_children(
            b.subrange(0, n),
            p,
            t,
            acc,
            cnt,
        ) == if q <= n {
            Ok::<_, DecodeError>((v, q, t2))
        } else {
            Err(DecodeError::TruncatedInput)
        },
    decreases b.len() - p, cnt,
{
    let c = b.subrange(0, n);
    if cnt > 0 {
        lemma_object_cut(b, n, p, t, acc);
        if let Ok((acc2, q, t2)) = spec_object(b, p, t, acc) {
            if p < q && q <= b.len() {
                lemma_children_advance(b, q, t2, acc2, (cnt - 1) as nat);
                if q <= n {
                    lemma_children_cut(b, n, q, t2, acc2, (cnt - 1) as nat);
                    assert(spec_object(c, p, t, acc) == Ok::<_, DecodeError>((acc2, q, t2)));
                } else {
                    assert(spec_object(c, p, t, acc) == Err::<
                        (Seq<NodeView>, int, TablesView),
                        _,
                    >(DecodeError::TruncatedInput));
                }
            }
        }
    }
}

proof fn lemma_event_cut(b: Seq<u8>, n: int, p: int, t: TablesView, out: Seq<NodeView>)
    requires
        0 <= n <= b.len(),
    ensures
        spec_event(b, p, t, out) matches Ok((v, q, t2)) ==> spec_event(
            b.subrange(0, n),
            p,
            t,
            out,
        ) == if q <= n {
            Ok::<_, DecodeError>((v, q, t2))
        } else {
            Err(DecodeError::TruncatedInput)
        },
{
    lemma_blob_cut(b, n, p + 1);
    if let Ok((types, q)) = spec_blob(b, p + 1) {
        lemma_object_cut(b, n, q, t, out);
        lemma_leaves_advance(b, q, types, seq![]);
        if q <= n {
            lemma_leaves_cut(b, n, q, types, seq![]);
        }
    }
}

proof fn lemma_events_cut(b: Seq<u8>, n: int, p: int, t: TablesView, out: Seq<NodeView>)
    requires
        0 <= n <= b.len(),
        0 <= p,
    ensures
        spec_events(b, p, t, out) is Ok ==> spec_events_end(b, p, t, out) >= p,
        spec_events(b, p, t, out) is Ok ==> spec_events(b.subrange(0, n), p, t, out) == if n
            <= spec_events_end(b, p, t, out) {
            Err::<Seq<NodeView>, _>(DecodeError::TruncatedInput)
        } else {
            spec_events(b, p, t, out)
        },
    decreases b.len() - p,
{
    let c = b.subrange(0, n);
    if p < b.len() {
        if p < n {
            assert(c[p] == b[p]);
        }
        if b[p] == crate::reader::START {
            lemma_event_cut(b, n, p, t, out);
            if let Ok((out2, r, t2)) = spec_event(b, p, t, out) {
                if p < r && r <= b.len() {
                    lemma_events_cut(b, n, r, t2, out2);
                }
            }
        }
    }
}

/// An archive cut short fails with `TruncatedInput` when the cut falls at or
/// before its end marker, and decodes exactly as the whole archive when the
/// cut falls after it; once the header is whole, no cut yields other nodes
/// or another error.
pub proof fn lemma_cut_archive(b: Seq<u8>, n: int)
    requires
        HEADER_LEN <= n <= b.len(),
        spec_decode(b) is Ok,
    ensures
        n <= stream_end(b) ==> spec_decode(b.subrange(0, n)) == Err::<Seq<NodeView>, _>(
            DecodeError::TruncatedInput,
        ),
        n > stream_end(b) ==> spec_decode(b.subrange(0, n)) == spec_decode(b),
{
    let c = b.subrange(0, n);
    assert(c.subrange(0, HEADER_LEN as int) =~= b.subrange(0, HEADER_LEN as int));
    lemma_events_cut(b, n, HEADER_LEN as int, crate::typedstream::empty_tables(), seq![]);
}

} // verus!
