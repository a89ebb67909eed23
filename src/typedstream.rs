//! The typed-archive decoder.
//!
//! A stream is a fixed header followed by events and an end marker:
//!
//! ```text
//! stream  := HEADER event* END
//! event   := START types values          (types other than "@")
//!          | START "@" object
//! object  := REF                         (a value declared earlier)
//!          | START chain types values count object{count}
//! chain   := EMPTY                       (root of the chain)
//!          | REF                         (a class chain declared earlier)
//!          | START string unsigned chain (a new class, then its superclass)
//! types   := length-prefixed type codes, one per value
//! ```
//!
//! Each new class chain and each completed object is appended to its table;
//! a reference byte `REF >= REFERENCE_TAG` names entry `REF - REFERENCE_TAG`.
//! An object is emitted followed by the objects nested in it.
use vstd::prelude::*;
use vstd::utf8::{decode_utf8, valid_utf8};

use crate::archive::{
    append_copies, classes_view, copy_classes, lemma_map_push, nodes_view, leaves_view,
    Archivable, Class, ClassView, Leaf, LeafView, NodeView,
};
use crate::error::DecodeError;
use crate::reader::{
    read_blob, read_signed, read_unsigned, spec_blob, spec_signed, spec_unsigned, EMPTY, END,
    REFERENCE_TAG, START,
};
use crate::strings::utf8_to_string;

verus! {

/// Type code of a signed integer value.
pub const TYPE_SIGNED: u8 = 0x69;
/// Type code of an unsigned integer value.
pub const TYPE_UNSIGNED: u8 = 0x49;
/// Type code of a UTF-8 string value.
pub const TYPE_STRING: u8 = 0x2B;
/// Type code of a raw byte array value.
pub const TYPE_BYTES: u8 = 0x2A;
/// Type code of an object.
pub const TYPE_OBJECT: u8 = 0x40;
/// Length of the stream header.
pub const HEADER_LEN: usize = 16;

/// The stream header: version 4, the signature `streamtyped`, system version 1000.
pub open spec fn header() -> Seq<u8> {
    seq![
        0x04u8, 0x0B, 0x73, 0x74, 0x72, 0x65, 0x61, 0x6d, 0x74, 0x79, 0x70, 0x65, 0x64, 0x81,
        0xE8, 0x03,
    ]
}

/// The two reference tables of one decode call.
pub struct TablesView {
    /// Class chains, oldest ancestor first.
    pub classes: Seq<Seq<ClassView>>,
    /// Objects, each with the objects nested in it.
    pub values: Seq<Seq<NodeView>>,
}

pub open spec fn empty_tables() -> TablesView {
    TablesView { classes: seq![], values: seq![] }
}

/// A length-prefixed UTF-8 string at `p`.
pub open spec fn spec_string(b: Seq<u8>, p: int) -> Result<(Seq<char>, int), DecodeError> {
    match spec_blob(b, p) {
        Err(e) => Err(e),
        Ok((raw, q)) => if valid_utf8(raw) {
            Ok((decode_utf8(raw), q))
        } else {
            Err(DecodeError::InvalidUtf8)
        },
    }
}

/// One value of type code `t` at `p`.
pub open spec fn spec_leaf(b: Seq<u8>, p: int, t: u8) -> Result<(LeafView, int), DecodeError> {
    if t == TYPE_SIGNED {
        match spec_signed(b, p) {
            Err(e) => Err(e),
            Ok((v, q)) => Ok((LeafView::Signed(v), q)),
        }
    } else if t == TYPE_UNSIGNED {
        match spec_unsigned(b, p) {
            Err(e) => Err(e),
            Ok((v, q)) => Ok((LeafView::Unsigned(v), q)),
        }
    } else if t == TYPE_STRING {
        match spec_string(b, p) {
            Err(e) => Err(e),
            Ok((v, q)) => Ok((LeafView::Text(v), q)),
        }
    } else if t == TYPE_BYTES {
        match spec_blob(b, p) {
            Err(e) => Err(e),
            Ok((v, q)) => Ok((LeafView::Bytes(v), q)),
        }
    } else {
        Err(DecodeError::UnexpectedMarker)
    }
}

/// The values of the type codes `types` at `p`, appended to `acc`.
pub open spec fn spec_leaves(b: Seq<u8>, p: int, types: Seq<u8>, acc: Seq<LeafView>) -> Result<
    (Seq<LeafView>, int),
    DecodeError,
>
    decreases types.len(),
{
    if types.len() == 0 {
        Ok((acc, p))
    } else {
        match spec_leaf(b, p, types[0]) {
            Err(e) => Err(e),
            Ok((l, q)) => spec_leaves(b, q, types.drop_first(), acc.push(l)),
        }
    }
}

/// Whether `q` lies after `p` and within the buffer: every item takes at
/// least one byte, which keeps the recursion well-founded.
pub open spec fn advances(b: Seq<u8>, p: int, q: int) -> bool {
    p < q && q <= b.len()
}

/// A class chain at `p`, oldest ancestor first, with the class table after it.
pub open spec fn spec_chain(b: Seq<u8>, p: int, classes: Seq<Seq<ClassView>>) -> Result<
    (Seq<ClassView>, int, Seq<Seq<ClassView>>),
    DecodeError,
>
    decreases b.len() - p,
{
    if p < 0 || p >= b.len() {
        Err(DecodeError::TruncatedInput)
    } else if b[p] >= REFERENCE_TAG {
        let i = b[p] - REFERENCE_TAG;
        if i < classes.len() {
            Ok((classes[i], p + 1, classes))
        } else {
            Err(DecodeError::BadBackreference)
        }
    } else if b[p] == EMPTY {
        Ok((seq![], p + 1, classes))
    } else if b[p] == START {
        match spec_string(b, p + 1) {
            Err(e) => Err(e),
            Ok((name, q)) => match spec_unsigned(b, q) {
                Err(e) => Err(e),
                Ok((version, r)) => if !advances(b, p, r) {
                    Err(DecodeError::UnexpectedMarker)
                } else {
                    match spec_chain(b, r, classes) {
                        Err(e) => Err(e),
                        Ok((sup, s, cl)) => {
                            let chain = sup.push(ClassView { name, version });
                            Ok((chain, s, cl.push(chain)))
                        },
                    }
                },
            },
        }
    } else {
        Err(DecodeError::UnexpectedMarker)
    }
}

/// An object at `p`: its nodes are appended to `out`.
pub open spec fn spec_object(b: Seq<u8>, p: int, t: TablesView, out: Seq<NodeView>) -> Result<
    (Seq<NodeView>, int, TablesView),
    DecodeError,
>
    decreases b.len() - p, 0nat,
{
    if p < 0 || p >= b.len() {
        Err(DecodeError::TruncatedInput)
    } else if b[p] >= REFERENCE_TAG {
        let i = b[p] - REFERENCE_TAG;
        if i < t.values.len() {
            Ok((out + t.values[i], p + 1, t))
        } else {
            Err(DecodeError::BadBackreference)
        }
    } else if b[p] == START {
        match spec_chain(b, p + 1, t.classes) {
            Err(e) => Err(e),
            Ok((chain, q, classes)) => match spec_blob(b, q) {
                Err(e) => Err(e),
                Ok((types, r)) => match spec_leaves(b, r, types, seq![]) {
                    Err(e) => Err(e),
                    Ok((leaves, s)) => match spec_unsigned(b, s) {
                        Err(e) => Err(e),
                        Ok((n, u)) => if !advances(b, p, u) {
                            Err(DecodeError::UnexpectedMarker)
                        } else {
                            match spec_children(
                                b,
                                u,
                                TablesView { classes, values: t.values },
                                seq![NodeView::Object(chain, leaves)],
                                n as nat,
                            ) {
                                Err(e) => Err(e),
                                Ok((nodes, v, t2)) => Ok(
                                    (
                                        out + nodes,
                                        v,
                                        TablesView { classes: t2.classes, values: t2.values.push(nodes) },
                                    ),
                                ),
                            }
                        },
                    },
                },
            },
        }
    } else {
        Err(DecodeError::UnexpectedMarker)
    }
}

/// `n` nested objects at `p`, appended to `acc`.
pub open spec fn spec_children(
    b: Seq<u8>,
    p: int,
    t: TablesView,
    acc: Seq<NodeView>,
    n: nat,
) -> Result<(Seq<NodeView>, int, TablesView), DecodeError>
    decreases b.len() - p, n,
{
    if n == 0 {
        Ok((acc, p, t))
    } else {
        match spec_object(b, p, t, acc) {
            Err(e) => Err(e),
            Ok((acc2, q, t2)) => if !advances(b, p, q) {
                Err(DecodeError::UnexpectedMarker)
            } else {
                spec_children(b, q, t2, acc2, (n - 1) as nat)
            },
        }
    }
}

/// One event at `p`: the nodes it adds to `out`, the position after it and the tables.
pub open spec fn spec_event(b: Seq<u8>, p: int, t: TablesView, out: Seq<NodeView>) -> Result<
    (Seq<NodeView>, int, TablesView),
    DecodeError,
> {
    match spec_blob(b, p + 1) {
        Err(e) => Err(e),
        Ok((types, q)) => if types == seq![TYPE_OBJECT] {
            spec_object(b, q, t, out)
        } else {
            match spec_leaves(b, q, types, seq![]) {
                Err(e) => Err(e),
                Ok((l, r)) => Ok((out.push(NodeView::Data(l)), r, t)),
            }
        },
    }
}

/// The events from `p` up to the end marker, appended to `out`.
pub open spec fn spec_events(b: Seq<u8>, p: int, t: TablesView, out: Seq<NodeView>) -> Result<
    Seq<NodeView>,
    DecodeError,
>
    decreases b.len() - p,
{
    if p < 0 || p >= b.len() {
        Err(DecodeError::TruncatedInput)
    } else if b[p] == END {
        Ok(out)
    } else if b[p] == START {
        match spec_event(b, p, t, out) {
            Err(e) => Err(e),
            Ok((out2, r, t2)) => if !advances(b, p, r) {
                Err(DecodeError::UnexpectedMarker)
            } else {
                spec_events(b, r, t2, out2)
            },
        }
    } else {
        Err(DecodeError::UnexpectedMarker)
    }
}

/// The position of the end marker that the events from `p` on stop at, or
/// -1 when they do not decode.
pub open spec fn spec_events_end(b: Seq<u8>, p: int, t: TablesView, out: Seq<NodeView>) -> int
    decreases b.len() - p,
{
    if p < 0 || p >= b.len() {
        -1
    } else if b[p] == END {
        p
    } else if b[p] == START {
        match spec_event(b, p, t, out) {
            Err(_) => -1,
            Ok((out2, r, t2)) => if !advances(b, p, r) {
                -1
            } else {
                spec_events_end(b, r, t2, out2)
            },
        }
    } else {
        -1
    }
}

/// The position of the end marker of an archive.
pub open spec fn stream_end(b: Seq<u8>) -> int {
    spec_events_end(b, HEADER_LEN as int, empty_tables(), seq![])
}

/// The nodes that a whole archive decodes to.
pub open spec fn spec_decode(b: Seq<u8>) -> Result<Seq<NodeView>, DecodeError> {
    if b.len() >= HEADER_LEN && b.subrange(0, HEADER_LEN as int) == header() {
        spec_events(b, HEADER_LEN as int, empty_tables(), seq![])
    } else {
        Err(DecodeError::NotThisFormat)
    }
}

/// Decoding depends on the bytes alone: equal buffers decode to equal node
/// sequences, because every call starts from empty tables.
pub proof fn lemma_decode_deterministic(a: Seq<u8>, b: Seq<u8>)
    requires
        a == b,
    ensures
        spec_decode(a) == spec_decode(b),
{
}

/// A reference to a value or a class that was never declared fails with
/// `BadBackreference`, whatever follows it.
pub proof fn lemma_unknown_reference_rejected(k: u8, rest: Seq<u8>)
    requires
        k >= REFERENCE_TAG,
    ensures
        spec_decode(header() + seq![START, 1u8, TYPE_OBJECT, k] + rest) == Err::<
            Seq<NodeView>,
            DecodeError,
        >(DecodeError::BadBackreference),
        spec_decode(header() + seq![START, 1u8, TYPE_OBJECT, START, k] + rest) == Err::<
            Seq<NodeView>,
            DecodeError,
        >(DecodeError::BadBackreference),
{
    let b1 = header() + seq![START, 1u8, TYPE_OBJECT, k] + rest;
    let b2 = header() + seq![START, 1u8, TYPE_OBJECT, START, k] + rest;
    assert(b1.subrange(0, 16) =~= header());
    assert(b2.subrange(0, 16) =~= header());
    assert(b1[16] == START && b1[17] == 1 && b1[18] == TYPE_OBJECT && b1[19] == k);
    assert(b2[16] == START && b2[17] == 1 && b2[18] == TYPE_OBJECT && b2[19] == START && b2[20]
        == k);
    assert(b1.subrange(18, 19) =~= seq![TYPE_OBJECT]);
    assert(b2.subrange(18, 19) =~= seq![TYPE_OBJECT]);
    assert(spec_blob(b1, 17) == Ok::<(Seq<u8>, int), DecodeError>((seq![TYPE_OBJECT], 19)));
    assert(spec_blob(b2, 17) == Ok::<(Seq<u8>, int), DecodeError>((seq![TYPE_OBJECT], 19)));
    assert(spec_object(b1, 19, empty_tables(), seq![]) is Err);
    assert(spec_chain(b2, 20, seq![]) is Err);
    assert(spec_object(b2, 19, empty_tables(), seq![]) is Err);
}

/// At any point of a decode, an object or class chain that refers past the
/// end of its table fails with `BadBackreference`, whatever the tables hold.
pub proof fn lemma_reference_past_table(b: Seq<u8>, p: int, t: TablesView, out: Seq<NodeView>)
    requires
        0 <= p < b.len(),
        b[p] >= REFERENCE_TAG,
    ensures
        b[p] - REFERENCE_TAG >= t.values.len() ==> spec_object(b, p, t, out) == Err::<
            (Seq<NodeView>, int, TablesView),
            DecodeError,
        >(DecodeError::BadBackreference),
        b[p] - REFERENCE_TAG >= t.classes.len() ==> spec_chain(b, p, t.classes) == Err::<
            (Seq<ClassView>, int, Seq<Seq<ClassView>>),
            DecodeError,
        >(DecodeError::BadBackreference),
{
}

/// The class and value tables of one decode call.
pub struct Tables {
    classes: Vec<Vec<Class>>,
    values: Vec<Vec<Archivable>>,
}

impl View for Tables {
    type V = TablesView;

    closed spec fn view(&self) -> TablesView {
        TablesView {
            classes: self.classes@.map_values(|c: Vec<Class>| classes_view(c@)),
            values: self.values@.map_values(|v: Vec<Archivable>| nodes_view(v@)),
        }
    }
}

impl Tables {
    /// Empty tables.
    pub fn new() -> (r: Tables)
        ensures
            r@ == empty_tables(),
    {
        let r = Tables { classes: Vec::new(), values: Vec::new() };
        proof {
            assert(r@.classes =~= seq![]);
            assert(r@.values =~= seq![]);
        }
        r
    }

    /// Appends a class chain; returns its index.
    pub fn declare_class(&mut self, chain: Vec<Class>) -> (r: usize)
        ensures
            r == old(self)@.classes.len(),
            final(self)@.classes == old(self)@.classes.push(classes_view(chain@)),
            final(self)@.values == old(self)@.values,
    {
        let r = self.classes.len();
        let ghost prev = self.classes@;
        self.classes.push(chain);
        proof {
            lemma_map_push(prev, chain, |c: Vec<Class>| classes_view(c@));
        }
        r
    }

    /// A copy of the class chain at index `i`.
    pub fn resolve_class(&self, i: usize) -> (r: Result<Vec<Class>, DecodeError>)
        ensures
            match r {
                Ok(c) => i < self@.classes.len() && classes_view(c@) == self@.classes[i as int],
                Err(e) => i >= self@.classes.len() && e == DecodeError::BadBackreference,
            },
    {
        if i < self.classes.len() {
            Ok(copy_classes(&self.classes[i]))
        } else {
            Err(DecodeError::BadBackreference)
        }
    }

    /// Appends an object with its nested objects; returns its index.
    pub fn declare_value(&mut self, nodes: Vec<Archivable>) -> (r: usize)
        ensures
            r == old(self)@.values.len(),
            final(self)@.values == old(self)@.values.push(nodes_view(nodes@)),
            final(self)@.classes == old(self)@.classes,
    {
        let r = self.values.len();
        let ghost prev = self.values@;
        self.values.push(nodes);
        proof {
            lemma_map_push(prev, nodes, |v: Vec<Archivable>| nodes_view(v@));
        }
        r
    }

    /// Appends copies of the value at index `i` to `out`.
    pub fn resolve_value(&self, i: usize, out: &mut Vec<Archivable>) -> (r: Result<(), DecodeError>)
        ensures
            match r {
                Ok(_) => i < self@.values.len() && nodes_view(final(out)@) == nodes_view(old(out)@)
                    + self@.values[i as int],
                Err(e) => i >= self@.values.len() && e == DecodeError::BadBackreference
                    && final(out)@ == old(out)@,
            },
    {
        if i < self.values.len() {
            append_copies(out, &self.values[i]);
            Ok(())
        } else {
            Err(DecodeError::BadBackreference)
        }
    }
}

/// Reads the length-prefixed UTF-8 string at `p`.
pub fn read_string(b: &[u8], p: usize) -> (r: Result<(String, usize), DecodeError>)
    ensures
        match r {
            Ok((s, q)) => spec_string(b@, p as int) == Ok::<_, DecodeError>((s@, q as int)),
            Err(e) => spec_string(b@, p as int) == Err::<(Seq<char>, int), _>(e),
        },
{
    let (raw, q) = match read_blob(b, p) {
        Ok(x) => x,
        Err(e) => return Err(e),
    };
    match utf8_to_string(raw) {
        Some(s) => Ok((s, q)),
        None => Err(DecodeError::InvalidUtf8),
    }
}

fn read_leaf(b: &[u8], p: usize, t: u8) -> (r: Result<(Leaf, usize), DecodeError>)
    ensures
        match r {
            Ok((l, q)) => spec_leaf(b@, p as int, t) == Ok::<_, DecodeError>((l@, q as int)),
            Err(e) => spec_leaf(b@, p as int, t) == Err::<(LeafView, int), _>(e),
        },
{
    if t == TYPE_SIGNED {
        match read_signed(b, p) {
            Ok((v, q)) => Ok((Leaf::Signed(v), q)),
            Err(e) => Err(e),
        }
    } else if t == TYPE_UNSIGNED {
        match read_unsigned(b, p) {
            Ok((v, q)) => Ok((Leaf::Unsigned(v), q)),
            Err(e) => Err(e),
        }
    } else if t == TYPE_STRING {
        match read_string(b, p) {
            Ok((v, q)) => Ok((Leaf::Text(v), q)),
            Err(e) => Err(e),
        }
    } else if t == TYPE_BYTES {
        match read_blob(b, p) {
            Ok((v, q)) => Ok((Leaf::Bytes(v), q)),
            Err(e) => Err(e),
        }
    } else {
        Err(DecodeError::UnexpectedMarker)
    }
}

/// Reads the values of the type codes `types` at `p`.
fn read_leaves(b: &[u8], p: usize, types: &Vec<u8>) -> (r: Result<(Vec<Leaf>, usize), DecodeError>)
    ensures
        match r {
            Ok((l, q)) => spec_leaves(b@, p as int, types@, seq![]) == Ok::<_, DecodeError>(
                (leaves_view(l@), q as int),
            ),
            Err(e) => spec_leaves(b@, p as int, types@, seq![]) == Err::<(Seq<LeafView>, int), _>(
                e,
            ),
        },
{
    let mut acc: Vec<Leaf> = Vec::new();
    let mut pos = p;
    let mut k: usize = 0;
    proof {
        assert(types@.skip(0) =~= types@);
        assert(leaves_view(acc@) =~= seq![]);
    }
    while k < types.len()
        invariant
            k <= types@.len(),
            spec_leaves(b@, p as int, types@, seq![]) == spec_leaves(
                b@,
                pos as int,
                types@.skip(k as int),
                leaves_view(acc@),
            ),
        decreases types@.len() - k,
    {
        proof {
            assert(types@.skip(k as int)[0] == types@[k as int]);
            assert(types@.skip(k as int).drop_first() =~= types@.skip(k + 1));
        }
        let (l, q) = match read_leaf(b, pos, types[k]) {
            Ok(x) => x,
            Err(e) => return Err(e),
        };
        let ghost prev = acc@;
        acc.push(l);
        proof {
            lemma_map_push(prev, l, |y: Leaf| y@);
        }
        pos = q;
        k = k + 1;
    }
    proof {
        assert(types@.skip(k as int).len() == 0);
    }
    Ok((acc, pos))
}

/// Reads the class chain at `p`, declaring each new class.
fn read_chain(b: &[u8], p: usize, t: &mut Tables) -> (r: Result<(Vec<Class>, usize), DecodeError>)
    ensures
        match r {
            Ok((c, q)) => spec_chain(b@, p as int, old(t)@.classes) == Ok::<_, DecodeError>(
                (classes_view(c@), q as int, final(t)@.classes),
            ) && final(t)@.values == old(t)@.values,
            Err(e) => spec_chain(b@, p as int, old(t)@.classes) == Err::<
                (Seq<ClassView>, int, Seq<Seq<ClassView>>),
                _,
            >(e),
        },
    decreases b@.len() - p,
{
    if p >= b.len() {
        return Err(DecodeError::TruncatedInput);
    }
    let m = b[p];
    if m >= REFERENCE_TAG {
        return match t.resolve_class((m - REFERENCE_TAG) as usize) {
            Ok(c) => Ok((c, p + 1)),
            Err(e) => Err(e),
        };
    }
    if m == EMPTY {
        let c: Vec<Class> = Vec::new();
        proof {
            assert(classes_view(c@) =~= seq![]);
        }
        return Ok((c, p + 1));
    }
    if m != START {
        return Err(DecodeError::UnexpectedMarker);
    }
    let (name, q) = match read_string(b, p + 1) {
        Ok(x) => x,
        Err(e) => return Err(e),
    };
    let (version, r) = match read_unsigned(b, q) {
        Ok(x) => x,
        Err(e) => return Err(e),
    };
    if r <= p || r > b.len() {
        return Err(DecodeError::UnexpectedMarker);
    }
    let (mut chain, s) = match read_chain(b, r, t) {
        Ok(x) => x,
        Err(e) => return Err(e),
    };
    let ghost prev = chain@;
    let class = Class { name, version };
    chain.push(class);
    proof {
        lemma_map_push(prev, class, |y: Class| y@);
    }
    t.declare_class(copy_classes(&chain));
    Ok((chain, s))
}

/// Reads the object at `p`, appending its nodes to `out`.
fn read_object(b: &[u8], p: usize, t: &mut Tables, out: &mut Vec<Archivable>) -> (r: Result<
    usize,
    DecodeError,
>)
    ensures
        match r {
            Ok(q) => spec_object(b@, p as int, old(t)@, nodes_view(old(out)@)) == Ok::<
                _,
                DecodeError,
            >((nodes_view(final(out)@), q as int, final(t)@)),
            Err(e) => spec_object(b@, p as int, old(t)@, nodes_view(old(out)@)) == Err::<
                (Seq<NodeView>, int, TablesView),
                _,
            >(e),
        },
    decreases b@.len() - p, 0nat,
{
    if p >= b.len() {
        return Err(DecodeError::TruncatedInput);
    }
    let m = b[p];
    if m >= REFERENCE_TAG {
        return match t.resolve_value((m - REFERENCE_TAG) as usize, out) {
            Ok(_) => Ok(p + 1),
            Err(e) => Err(e),
        };
    }
    if m != START {
        return Err(DecodeError::UnexpectedMarker);
    }
    let (chain, q) = match read_chain(b, p + 1, t) {
        Ok(x) => x,
        Err(e) => return Err(e),
    };
    let (types, r) = match read_blob(b, q) {
        Ok(x) => x,
        Err(e) => return Err(e),
    };
    let (leaves, s) = match read_leaves(b, r, &types) {
        Ok(x) => x,
        Err(e) => return Err(e),
    };
    let (n, u) = match read_unsigned(b, s) {
        Ok(x) => x,
        Err(e) => return Err(e),
    };
    if u <= p || u > b.len() {
        return Err(DecodeError::UnexpectedMarker);
    }
    let mut nodes: Vec<Archivable> = Vec::new();
    let node = Archivable::Object(chain, leaves);
    nodes.push(node);
    proof {
        assert(nodes_view(nodes@) =~= seq![node@]);
    }
    let v = match read_children(b, u, t, &mut nodes, n) {
        Ok(x) => x,
        Err(e) => return Err(e),
    };
    append_copies(out, &nodes);
    t.declare_value(nodes);
    Ok(v)
}

/// Reads `n` nested objects at `p`, appending their nodes to `acc`.
fn read_children(
    b: &[u8],
    p: usize,
    t: &mut Tables,
    acc: &mut Vec<Archivable>,
    n: u64,
) -> (r: Result<usize, DecodeError>)
    ensures
        match r {
            Ok(q) => spec_children(b@, p as int, old(t)@, nodes_view(old(acc)@), n as nat) == Ok::<
                _,
                DecodeError,
            >((nodes_view(final(acc)@), q as int, final(t)@)),
            Err(e) => spec_children(b@, p as int, old(t)@, nodes_view(old(acc)@), n as nat)
                == Err::<(Seq<NodeView>, int, TablesView), _>(e),
        },
    decreases b@.len() - p, n,
{
    if n == 0 {
        return Ok(p);
    }
    let q = match read_object(b, p, t, acc) {
        Ok(x) => x,
        Err(e) => return Err(e),
    };
    if q <= p || q > b.len() {
        return Err(DecodeError::UnexpectedMarker);
    }
    read_children(b, q, t, acc, n - 1)
}

/// Whether `b` starts with the stream header.
fn has_header(b: &[u8]) -> (r: bool)
    ensures
        r == (b@.len() >= HEADER_LEN && b@.subrange(0, HEADER_LEN as int) == header()),
{
    if b.len() < HEADER_LEN {
        return false;
    }
    let r = b[0] == 0x04 && b[1] == 0x0B && b[2] == 0x73 && b[3] == 0x74 && b[4] == 0x72 && b[5]
        == 0x65 && b[6] == 0x61 && b[7] == 0x6d && b[8] == 0x74 && b[9] == 0x79 && b[10] == 0x70
        && b[11] == 0x65 && b[12] == 0x64 && b[13] == 0x81 && b[14] == 0xE8 && b[15] == 0x03;
    proof {
        if r {
            assert(b@.subrange(0, HEADER_LEN as int) =~= header());
        } else {
            assert(b@.subrange(0, HEADER_LEN as int) != header()) by {
                if b@.subrange(0, HEADER_LEN as int) == header() {
                    let h = b@.subrange(0, HEADER_LEN as int);
                    assert(h[0] == 0x04 && h[1] == 0x0B && h[2] == 0x73 && h[3] == 0x74);
                    assert(h[4] == 0x72 && h[5] == 0x65 && h[6] == 0x61 && h[7] == 0x6d);
                    assert(h[8] == 0x74 && h[9] == 0x79 && h[10] == 0x70 && h[11] == 0x65);
                    assert(h[12] == 0x64 && h[13] == 0x81 && h[14] == 0xE8 && h[15] == 0x03);
                }
            }
        }
    }
    r
}

/// Decodes a whole archive into its node sequence.
///
/// Each call starts from empty tables, so the result depends on the bytes alone.
pub fn decode(b: &[u8]) -> (r: Result<Vec<Archivable>, DecodeError>)
    ensures
        match r {
            Ok(n) => spec_decode(b@) == Ok::<_, DecodeError>(nodes_view(n@)),
            Err(e) => spec_decode(b@) == Err::<Seq<NodeView>, _>(e),
        },
{
    if !has_header(b) {
        return Err(DecodeError::NotThisFormat);
    }
    let mut t = Tables::new();
    let mut out: Vec<Archivable> = Vec::new();
    let mut p: usize = HEADER_LEN;
    proof {
        assert(nodes_view(out@) =~= seq![]);
    }
    loop
        invariant
            spec_decode(b@) == spec_events(b@, p as int, t@, nodes_view(out@)),
            p <= b@.len(),
        decreases b@.len() - p,
    {
        if p >= b.len() {
            return Err(DecodeError::TruncatedInput);
        }
        let m = b[p];
        if m == END {
            return Ok(out);
        }
        if m != START {
            return Err(DecodeError::UnexpectedMarker);
        }
        let (types, q) = match read_blob(b, p + 1) {
            Ok(x) => x,
            Err(e) => return Err(e),
        };
        let r = if types.len() == 1 && types[0] == TYPE_OBJECT {
            proof {
                assert(types@ =~= seq![TYPE_OBJECT]);
            }
            match read_object(b, q, &mut t, &mut out) {
                Ok(x) => x,
                Err(e) => return Err(e),
            }
        } else {
            proof {
                assert(types@ != seq![TYPE_OBJECT]) by {
                    if types@ == seq![TYPE_OBJECT] {
                        assert(types@.len() == 1 && types@[0] == TYPE_OBJECT);
                    }
                }
            }
            let (l, r) = match read_leaves(b, q, &types) {
                Ok(x) => x,
                Err(e) => return Err(e),
            };
            let ghost prev = out@;
            let node = Archivable::Data(l);
            out.push(node);
            proof {
                lemma_map_push(prev, node, |y: Archivable| y@);
            }
            r
        };
        if r <= p || r > b.len() {
            return Err(DecodeError::UnexpectedMarker);
        }
        p = r;
    }
}

} // verus!
