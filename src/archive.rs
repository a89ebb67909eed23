//! The values that the typed-archive decoder produces.
use vstd::prelude::*;

verus! {

/// A named, versioned class descriptor.
#[derive(Debug, PartialEq, Eq)]
pub struct Class {
    pub name: String,
    pub version: u64,
}

/// Mathematical view of a [`Class`].
pub struct ClassView {
    pub name: Seq<char>,
    pub version: u64,
}

impl View for Class {
    type V = ClassView;

    open spec fn view(&self) -> ClassView {
        ClassView { name: self.name@, version: self.version }
    }
}

/// A primitive leaf value.
#[derive(Debug, PartialEq, Eq)]
pub enum Leaf {
    Signed(i64),
    Unsigned(u64),
    Text(String),
    Bytes(Vec<u8>),
}

/// Mathematical view of a [`Leaf`].
pub enum LeafView {
    Signed(i64),
    Unsigned(u64),
    Text(Seq<char>),
    Bytes(Seq<u8>),
}

impl View for Leaf {
    type V = LeafView;

    open spec fn view(&self) -> LeafView {
        match self {
            Leaf::Signed(v) => LeafView::Signed(*v),
            Leaf::Unsigned(v) => LeafView::Unsigned(*v),
            Leaf::Text(s) => LeafView::Text(s@),
            Leaf::Bytes(b) => LeafView::Bytes(b@),
        }
    }
}

/// One decoded node, in the order the archive holds them.
///
/// An object's nested objects are not stored inside it: they follow it in the
/// decoded sequence.
#[derive(Debug, PartialEq, Eq)]
pub enum Archivable {
    /// An archived instance: its class chain, oldest ancestor first, and the
    /// primitive values recorded for it.
    Object(Vec<Class>, Vec<Leaf>),
    /// A run of primitive values decoded together.
    Data(Vec<Leaf>),
}

/// Mathematical view of an [`Archivable`].
pub enum NodeView {
    Object(Seq<ClassView>, Seq<LeafView>),
    Data(Seq<LeafView>),
}

pub open spec fn classes_view(c: Seq<Class>) -> Seq<ClassView> {
    c.map_values(|x: Class| x@)
}

pub open spec fn leaves_view(l: Seq<Leaf>) -> Seq<LeafView> {
    l.map_values(|x: Leaf| x@)
}

impl View for Archivable {
    type V = NodeView;

    open spec fn view(&self) -> NodeView {
        match self {
            Archivable::Object(c, l) => NodeView::Object(classes_view(c@), leaves_view(l@)),
            Archivable::Data(l) => NodeView::Data(leaves_view(l@)),
        }
    }
}

pub open spec fn nodes_view(n: Seq<Archivable>) -> Seq<NodeView> {
    n.map_values(|x: Archivable| x@)
}

impl Archivable {
    /// Returns the string held by a string object.
    pub fn as_nsstring(&self) -> (r: Option<&str>)
        ensures
            match r {
                Some(s) => crate::text::text_of(self@) == Some(s@),
                None => crate::text::text_of(self@) is None,
            },
    {
        match crate::text::node_text(self) {
            Some(s) => Some(s.as_str()),
            None => None,
        }
    }
}

pub proof fn lemma_map_push<A, B>(s: Seq<A>, x: A, f: spec_fn(A) -> B)
    ensures
        s.push(x).map_values(f) == s.map_values(f).push(f(x)),
{
    assert(s.push(x).map_values(f) =~= s.map_values(f).push(f(x)));
}

/// Copies a string.
pub fn copy_string(s: &String) -> (r: String)
    ensures
        r@ == s@,
{
    s.clone()
}

/// Copies a byte vector.
pub fn copy_bytes(b: &Vec<u8>) -> (r: Vec<u8>)
    ensures
        r@ == b@,
{
    let mut out: Vec<u8> = Vec::new();
    let mut i: usize = 0;
    while i < b.len()
        invariant
            i <= b@.len(),
            out@ == b@.subrange(0, i as int),
        decreases b@.len() - i,
    {
        out.push(b[i]);
        i = i + 1;
        proof {
            assert(out@ =~= b@.subrange(0, i as int));
        }
    }
    proof {
        assert(out@ =~= b@);
    }
    out
}

pub fn copy_leaf(l: &Leaf) -> (r: Leaf)
    ensures
        r@ == l@,
{
    match l {
        Leaf::Signed(v) => Leaf::Signed(*v),
        Leaf::Unsigned(v) => Leaf::Unsigned(*v),
        Leaf::Text(s) => Leaf::Text(copy_string(s)),
        Leaf::Bytes(b) => Leaf::Bytes(copy_bytes(b)),
    }
}

pub fn copy_leaves(l: &Vec<Leaf>) -> (r: Vec<Leaf>)
    ensures
        leaves_view(r@) == leaves_view(l@),
{
    let mut out: Vec<Leaf> = Vec::new();
    let mut i: usize = 0;
    while i < l.len()
        invariant
            i <= l@.len(),
            leaves_view(out@) =~= leaves_view(l@.subrange(0, i as int)),
        decreases l@.len() - i,
    {
        let ghost prev = out@;
        let x = copy_leaf(&l[i]);
        out.push(x);
        proof {
            lemma_map_push(prev, x, |y: Leaf| y@);
            assert(l@.subrange(0, i + 1) =~= l@.subrange(0, i as int).push(l@[i as int]));
            lemma_map_push(l@.subrange(0, i as int), l@[i as int], |y: Leaf| y@);
        }
        i = i + 1;
    }
    proof {
        assert(l@.subrange(0, l@.len() as int) =~= l@);
    }
    out
}

pub fn copy_classes(c: &Vec<Class>) -> (r: Vec<Class>)
    ensures
        classes_view(r@) == classes_view(c@),
{
    let mut out: Vec<Class> = Vec::new();
    let mut i: usize = 0;
    while i < c.len()
        invariant
            i <= c@.len(),
            classes_view(out@) =~= classes_view(c@.subrange(0, i as int)),
        decreases c@.len() - i,
    {
        let ghost prev = out@;
        let x = Class { name: copy_string(&c[i].name), version: c[i].version };
        out.push(x);
        proof {
            lemma_map_push(prev, x, |y: Class| y@);
            assert(c@.subrange(0, i + 1) =~= c@.subrange(0, i as int).push(c@[i as int]));
            lemma_map_push(c@.subrange(0, i as int), c@[i as int], |y: Class| y@);
        }
        i = i + 1;
    }
    proof {
        assert(c@.subrange(0, c@.len() as int) =~= c@);
    }
    out
}

pub fn copy_node(n: &Archivable) -> (r: Archivable)
    ensures
        r@ == n@,
{
    match n {
        Archivable::Object(c, l) => Archivable::Object(copy_classes(c), copy_leaves(l)),
        Archivable::Data(l) => Archivable::Data(copy_leaves(l)),
    }
}

/// Appends copies of `src` to `out`.
pub fn append_copies(out: &mut Vec<Archivable>, src: &Vec<Archivable>)
    ensures
        nodes_view(final(out)@) == nodes_view(old(out)@) + nodes_view(src@),
{
    let mut i: usize = 0;
    let ghost start = nodes_view(out@);
    while i < src.len()
        invariant
            i <= src@.len(),
            nodes_view(out@) =~= start + nodes_view(src@.subrange(0, i as int)),
        decreases src@.len() - i,
    {
        let ghost prev = out@;
        let x = copy_node(&src[i]);
        out.push(x);
        proof {
            lemma_map_push(prev, x, |y: Archivable| y@);
            assert(src@.subrange(0, i + 1) =~= src@.subrange(0, i as int).push(src@[i as int]));
            lemma_map_push(src@.subrange(0, i as int), src@[i as int], |y: Archivable| y@);
            assert(nodes_view(out@) =~= start + nodes_view(src@.subrange(0, i + 1)));
        }
        i = i + 1;
    }
    proof {
        assert(src@.subrange(0, src@.len() as int) =~= src@);
    }
}

} // verus!
