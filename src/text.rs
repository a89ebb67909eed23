//! Rebuilds attributed text runs and placeholders from a decoded node sequence.
use vstd::prelude::*;

use crate::archive::{
    copy_node, copy_string, lemma_map_push, nodes_view, Archivable, Class, ClassView, Leaf,
    NodeView,
};
use crate::error::ReconstructError;
use crate::strings::str_eq;
use vstd::utf8::{encode_scalar, encode_utf8};

verus! {

pub const NSSTRING: &'static str = "NSString";
pub const NSDICTIONARY: &'static str = "NSDictionary";
pub const NSURL: &'static str = "NSURL";
pub const NSNUMBER: &'static str = "NSNumber";

pub const BOLD_KEY: &'static str = "__kIMTextBoldAttributeName";
pub const ITALIC_KEY: &'static str = "__kIMTextItalicAttributeName";
pub const UNDERLINE_KEY: &'static str = "__kIMTextUnderlineAttributeName";
pub const STRIKETHROUGH_KEY: &'static str = "__kIMTextStrikethroughAttributeName";
pub const MENTION_KEY: &'static str = "__kIMMentionConfirmedMention";
pub const LINK_KEY: &'static str = "__kIMLinkAttributeName";
pub const OTP_KEY: &'static str = "__kIMOneTimeCodeAttributeName";
pub const CONVERSION_KEY: &'static str = "__kIMCalculationResultAttributeName";
pub const ANIMATION_KEY: &'static str = "__kIMTextEffectAttributeName";
pub const DIRECTION_KEY: &'static str = "__kIMBaseWritingDirectionAttributeName";
pub const PART_KEY: &'static str = "__kIMMessagePartAttributeName";
pub const FILE_KEY: &'static str = "__kIMFileTransferGUIDAttributeName";
pub const DATA_DETECTED_KEY: &'static str = "__kIMDataDetectedAttributeName";

/// Attachment placeholder character.
pub const ATTACHMENT_CHAR: char = '\u{FFFC}';
/// Application content placeholder character.
pub const APP_CHAR: char = '\u{FFFD}';

/// One formatting or semantic effect over a text range.
#[derive(Debug, PartialEq, Eq)]
pub enum TextEffect {
    Bold,
    Italic,
    Underline,
    Strikethrough,
    /// A mention of the given handle.
    Mention(String),
    /// A link to the given URL.
    Link(String),
    OneTimeCode,
    /// A unit conversion of the given kind.
    Conversion(i64),
    /// An animation of the given kind.
    Animated(i64),
    /// A writing direction.
    WritingDirection(i64),
    /// An attribute this library does not interpret: its key and its value node.
    Unknown(String, Archivable),
}

pub enum EffectView {
    Bold,
    Italic,
    Underline,
    Strikethrough,
    Mention(Seq<char>),
    Link(Seq<char>),
    OneTimeCode,
    Conversion(i64),
    Animated(i64),
    WritingDirection(i64),
    Unknown(Seq<char>, NodeView),
}

impl View for TextEffect {
    type V = EffectView;

    open spec fn view(&self) -> EffectView {
        match self {
            TextEffect::Bold => EffectView::Bold,
            TextEffect::Italic => EffectView::Italic,
            TextEffect::Underline => EffectView::Underline,
            TextEffect::Strikethrough => EffectView::Strikethrough,
            TextEffect::Mention(s) => EffectView::Mention(s@),
            TextEffect::Link(s) => EffectView::Link(s@),
            TextEffect::OneTimeCode => EffectView::OneTimeCode,
            TextEffect::Conversion(k) => EffectView::Conversion(*k),
            TextEffect::Animated(k) => EffectView::Animated(*k),
            TextEffect::WritingDirection(k) => EffectView::WritingDirection(*k),
            TextEffect::Unknown(k, v) => EffectView::Unknown(k@, v@),
        }
    }
}

pub open spec fn effects_view(e: Seq<TextEffect>) -> Seq<EffectView> {
    e.map_values(|x: TextEffect| x@)
}

/// A half-open range `[start, end)` of UTF-16 code units and its effects; a
/// range with no effects is plain text.
#[derive(Debug, PartialEq, Eq)]
pub struct TextAttributes {
    pub start: usize,
    pub end: usize,
    pub effects: Vec<TextEffect>,
}

pub struct RunView {
    pub start: int,
    pub end: int,
    pub effects: Seq<EffectView>,
}

impl View for TextAttributes {
    type V = RunView;

    open spec fn view(&self) -> RunView {
        RunView { start: self.start as int, end: self.end as int, effects: effects_view(self.effects@) }
    }
}

pub open spec fn runs_view(r: Seq<TextAttributes>) -> Seq<RunView> {
    r.map_values(|x: TextAttributes| x@)
}

/// What a placeholder character stands for.
#[derive(Debug, Clone, Copy, PartialEq, Eq, Structural)]
pub enum PlaceholderKind {
    Attachment,
    App,
}

/// A placeholder character at a character position of the text.
#[derive(Debug, Clone, Copy, PartialEq, Eq, Structural)]
pub struct Placeholder {
    pub position: usize,
    pub kind: PlaceholderKind,
}

/// Number of UTF-16 code units of a character.
pub open spec fn units(c: char) -> nat {
    if c as u32 > 0xFFFF {
        2
    } else {
        1
    }
}

/// Length of a text in UTF-16 code units.
pub open spec fn utf16_len(s: Seq<char>) -> nat
    decreases s.len(),
{
    if s.len() == 0 {
        0
    } else {
        units(s[0]) + utf16_len(s.drop_first())
    }
}

/// The placeholders of a text, in order.
pub open spec fn spec_placeholders(s: Seq<char>) -> Seq<Placeholder>
    decreases s.len(),
{
    if s.len() == 0 {
        seq![]
    } else {
        let rest = spec_placeholders(s.drop_last());
        let i = (s.len() - 1) as usize;
        if s.last() == ATTACHMENT_CHAR {
            rest.push(Placeholder { position: i, kind: PlaceholderKind::Attachment })
        } else if s.last() == APP_CHAR {
            rest.push(Placeholder { position: i, kind: PlaceholderKind::App })
        } else {
            rest
        }
    }
}

/// The string held by a string object: an object whose class chain names
/// `NSString` and whose only value is a string.
pub open spec fn text_of(n: NodeView) -> Option<Seq<char>> {
    match n {
        NodeView::Object(c, l) => if names_class(c, NSSTRING@) && l.len() == 1 && l[0] is Text {
            Some(l[0]->Text_0)
        } else {
            None
        },
        _ => None,
    }
}

/// Whether a class chain holds a class of the given name.
pub open spec fn names_class(chain: Seq<ClassView>, name: Seq<char>) -> bool {
    exists|k: int| 0 <= k < chain.len() && #[trigger] chain[k].name == name
}

pub open spec fn is_object_of(n: NodeView, name: Seq<char>) -> bool {
    match n {
        NodeView::Object(c, _) => names_class(c, name),
        _ => false,
    }
}

/// The number held by a number box node.
pub open spec fn number_of(n: NodeView) -> Option<i64> {
    match n {
        NodeView::Object(c, l) => if names_class(c, NSNUMBER@) && l.len() == 1 && l[0] is Signed {
            Some(l[0]->Signed_0)
        } else {
            None
        },
        _ => None,
    }
}

/// The range length announced at node `i`: a value run that ends in an
/// unsigned integer, followed by a dictionary.
pub open spec fn range_len(nodes: Seq<NodeView>, i: int) -> Option<u64> {
    if 0 <= i && i + 1 < nodes.len() && nodes[i] is Data && is_object_of(nodes[i + 1], NSDICTIONARY@) {
        let l = nodes[i]->Data_0;
        if l.len() > 0 && l.last() is Unsigned {
            Some(l.last()->Unsigned_0)
        } else {
            None
        }
    } else {
        None
    }
}

/// Whether a key/value pair starts at `j`.
pub open spec fn is_pair(nodes: Seq<NodeView>, j: int) -> bool {
    0 <= j && j + 1 < nodes.len() && text_of(nodes[j]) is Some
}

/// Whether the value at `j` is a URL followed by its string.
pub open spec fn is_url_value(nodes: Seq<NodeView>, j: int) -> bool {
    0 <= j && j + 1 < nodes.len() && is_object_of(nodes[j], NSURL@) && text_of(nodes[j + 1]) is Some
}

/// Number of nodes a pair starting at `j` takes.
pub open spec fn pair_width(nodes: Seq<NodeView>, j: int) -> int {
    if is_url_value(nodes, j + 1) {
        3
    } else {
        2
    }
}

/// The effect of the pair starting at `j`, if it is one.
pub open spec fn pair_effect(nodes: Seq<NodeView>, j: int) -> Option<EffectView> {
    let key = text_of(nodes[j])->Some_0;
    let v = nodes[j + 1];
    let unknown = Some(EffectView::Unknown(key, v));
    if key == BOLD_KEY@ {
        Some(EffectView::Bold)
    } else if key == ITALIC_KEY@ {
        Some(EffectView::Italic)
    } else if key == UNDERLINE_KEY@ {
        Some(EffectView::Underline)
    } else if key == STRIKETHROUGH_KEY@ {
        Some(EffectView::Strikethrough)
    } else if key == OTP_KEY@ {
        Some(EffectView::OneTimeCode)
    } else if key == MENTION_KEY@ {
        match text_of(v) {
            Some(t) => Some(EffectView::Mention(t)),
            None => unknown,
        }
    } else if key == LINK_KEY@ {
        if is_url_value(nodes, j + 1) {
            Some(EffectView::Link(text_of(nodes[j + 2])->Some_0))
        } else {
            unknown
        }
    } else if key == CONVERSION_KEY@ {
        match number_of(v) {
            Some(k) => Some(EffectView::Conversion(k)),
            None => unknown,
        }
    } else if key == ANIMATION_KEY@ {
        match number_of(v) {
            Some(k) => Some(EffectView::Animated(k)),
            None => unknown,
        }
    } else if key == DIRECTION_KEY@ {
        match number_of(v) {
            Some(k) => Some(EffectView::WritingDirection(k)),
            None => unknown,
        }
    } else if key == PART_KEY@ || key == FILE_KEY@ || key == DATA_DETECTED_KEY@ {
        None
    } else {
        unknown
    }
}

/// The effects of the pairs from `j` on, appended to `acc`, and the number
/// of nodes they take.
pub open spec fn spec_pairs(nodes: Seq<NodeView>, j: int, acc: Seq<EffectView>) -> (
    Seq<EffectView>,
    nat,
)
    decreases nodes.len() - j,
{
    if !is_pair(nodes, j) {
        (acc, 0)
    } else {
        let w = pair_width(nodes, j);
        let acc2 = match pair_effect(nodes, j) {
            Some(e) => acc.push(e),
            None => acc,
        };
        let (e, c) = spec_pairs(nodes, j + w, acc2);
        (e, c + w as nat)
    }
}

/// The runs from node `i` on, with the cursor at `cursor`, appended to `acc`.
pub open spec fn spec_runs(
    text_len: nat,
    nodes: Seq<NodeView>,
    i: int,
    cursor: int,
    acc: Seq<RunView>,
) -> Result<Seq<RunView>, ReconstructError>
    decreases nodes.len() - i,
{
    if i < 0 || i >= nodes.len() {
        Ok(acc)
    } else {
        match range_len(nodes, i) {
            None => spec_runs(text_len, nodes, i + 1, cursor, acc),
            Some(len) => {
                let (effects, c) = spec_pairs(nodes, i + 2, seq![]);
                let end = cursor + len;
                if end > text_len {
                    Err(ReconstructError::RangeOutOfBounds)
                } else {
                    let acc2 = if effects.len() > 0 {
                        acc.push(RunView { start: cursor, end, effects })
                    } else {
                        acc
                    };
                    let next = i + 2 + c;
                    spec_runs(
                        text_len,
                        nodes,
                        if next <= nodes.len() {
                            next
                        } else {
                            nodes.len() as int
                        },
                        end,
                        acc2,
                    )
                }
            },
        }
    }
}

/// Runs that are ordered, do not overlap, and lie within `[0, text_len]`.
pub open spec fn well_formed(runs: Seq<RunView>, text_len: int) -> bool {
    &&& forall|k: int| 0 <= k < runs.len() ==> 0 <= #[trigger] runs[k].start <= runs[k].end <= text_len
    &&& forall|k: int| 0 < k < runs.len() ==> runs[k - 1].end <= #[trigger] runs[k].start
}

/// Appending a character adds its code units.
pub proof fn lemma_utf16_push(s: Seq<char>, c: char)
    ensures
        utf16_len(s.push(c)) == utf16_len(s) + units(c),
    decreases s.len(),
{
    if s.len() == 0 {
        assert(s.push(c).drop_first() =~= seq![]);
        reveal_with_fuel(utf16_len, 2);
    } else {
        assert(s.push(c).drop_first() =~= s.drop_first().push(c));
        lemma_utf16_push(s.drop_first(), c);
    }
}

pub proof fn lemma_utf16_bound(s: Seq<char>, i: int)
    requires
        0 <= i <= s.len(),
    ensures
        utf16_len(s.subrange(0, i)) <= utf16_len(s),
    decreases s.len() - i,
{
    if i < s.len() {
        lemma_utf16_bound(s, i + 1);
        assert(s.subrange(0, i + 1) =~= s.subrange(0, i).push(s[i]));
        lemma_utf16_push(s.subrange(0, i), s[i]);
    } else {
        assert(s.subrange(0, i) =~= s);
    }
}

/// The UTF-16 length of a text fits in a `usize`.
pub fn utf16_fits(s: &str)
    ensures
        utf16_len(s@) <= usize::MAX,
{
    let bytes = s.as_bytes();
    let _byte_len = bytes.len();
    proof {
        lemma_utf16_le_utf8(s@);
    }
}

proof fn lemma_units_le_utf8_width(c: char)
    ensures
        units(c) <= encode_scalar(c as u32).len(),
{
}

proof fn lemma_utf16_le_utf8(s: Seq<char>)
    ensures
        utf16_len(s) <= encode_utf8(s).len(),
    decreases s.len(),
{
    if s.len() > 0 {
        lemma_units_le_utf8_width(s[0]);
        lemma_utf16_le_utf8(s.drop_first());
    }
}

proof fn lemma_utf16_suffix(s: Seq<char>, i: int)
    requires
        0 <= i <= s.len(),
    ensures
        utf16_len(s.subrange(i, s.len() as int)) <= utf16_len(s),
    decreases i,
{
    if i > 0 {
        assert(s.drop_first().subrange(i - 1, s.drop_first().len() as int) =~= s.subrange(
            i,
            s.len() as int,
        ));
        lemma_utf16_suffix(s.drop_first(), i - 1);
    } else {
        assert(s.subrange(0, s.len() as int) =~= s);
    }
}

/// Length of a text in UTF-16 code units.
pub fn text_utf16_len(s: &str) -> (r: usize)
    ensures
        r as nat == utf16_len(s@),
{
    let bytes = s.as_bytes();
    let _byte_len = bytes.len();
    proof {
        lemma_utf16_le_utf8(s@);
    }
    let len = s.unicode_len();
    let mut n: usize = 0;
    let mut i: usize = len;
    while i > 0
        invariant
            len == s@.len(),
            i <= len,
            utf16_len(s@) <= usize::MAX,
            n as nat == utf16_len(s@.subrange(i as int, len as int)),
        decreases i,
    {
        i = i - 1;
        proof {
            assert(s@.subrange(i as int, len as int).drop_first() =~= s@.subrange(i + 1, len as int));
            lemma_utf16_suffix(s@, i as int);
        }
        let c = s.get_char(i);
        if (c as u32) > 0xFFFF {
            n = n + 2;
        } else {
            n = n + 1;
        }
    }
    proof {
        assert(s@.subrange(0, len as int) =~= s@);
    }
    n
}

/// The placeholders of a text, in order.
pub fn placeholders(s: &str) -> (r: Vec<Placeholder>)
    ensures
        r@ == spec_placeholders(s@),
{
    let len = s.unicode_len();
    let mut out: Vec<Placeholder> = Vec::new();
    let mut i: usize = 0;
    while i < len
        invariant
            len == s@.len(),
            i <= len,
            out@ == spec_placeholders(s@.subrange(0, i as int)),
        decreases len - i,
    {
        proof {
            let t = s@.subrange(0, i + 1);
            assert(t.drop_last() =~= s@.subrange(0, i as int));
        }
        let c = s.get_char(i);
        if c == ATTACHMENT_CHAR {
            out.push(Placeholder { position: i, kind: PlaceholderKind::Attachment });
        } else if c == APP_CHAR {
            out.push(Placeholder { position: i, kind: PlaceholderKind::App });
        }
        i = i + 1;
    }
    proof {
        assert(s@ =~= s@.subrange(0, i as int));
    }
    out
}

/// The string held by a string object.
pub fn node_text(n: &Archivable) -> (r: Option<&String>)
    ensures
        match r {
            Some(s) => text_of(n@) == Some(s@),
            None => text_of(n@) is None,
        },
{
    match n {
        Archivable::Object(c, l) => {
            if chain_names(c, NSSTRING) && l.len() == 1 {
                match &l[0] {
                    Leaf::Text(s) => Some(s),
                    _ => None,
                }
            } else {
                None
            }
        },
        _ => None,
    }
}

/// Whether a class chain holds a class of the given name.
fn chain_names(chain: &Vec<Class>, name: &str) -> (r: bool)
    ensures
        r == names_class(chain@.map_values(|x: Class| x@), name@),
{
    let ghost v = chain@.map_values(|x: Class| x@);
    let mut k: usize = 0;
    while k < chain.len()
        invariant
            k <= chain@.len(),
            v == chain@.map_values(|x: Class| x@),
            forall|m: int| 0 <= m < k ==> v[m].name != name@,
        decreases chain@.len() - k,
    {
        if str_eq(chain[k].name.as_str(), name) {
            proof {
                assert(v[k as int].name == name@);
            }
            return true;
        }
        k = k + 1;
    }
    false
}

fn is_object_named(n: &Archivable, name: &str) -> (r: bool)
    ensures
        r == is_object_of(n@, name@),
{
    match n {
        Archivable::Object(c, _) => chain_names(c, name),
        _ => false,
    }
}

fn node_number(n: &Archivable) -> (r: Option<i64>)
    ensures
        r == number_of(n@),
{
    match n {
        Archivable::Object(c, l) => {
            if chain_names(c, NSNUMBER) && l.len() == 1 {
                match &l[0] {
                    Leaf::Signed(v) => Some(*v),
                    _ => None,
                }
            } else {
                None
            }
        },
        _ => None,
    }
}

fn node_range_len(nodes: &Vec<Archivable>, i: usize) -> (r: Option<u64>)
    requires
        i < nodes@.len(),
    ensures
        r == range_len(nodes_view(nodes@), i as int),
{
    if i >= nodes.len() - 1 || !is_object_named(&nodes[i + 1], NSDICTIONARY) {
        return None;
    }
    match &nodes[i] {
        Archivable::Data(l) => {
            if l.len() > 0 {
                match &l[l.len() - 1] {
                    Leaf::Unsigned(n) => Some(*n),
                    _ => None,
                }
            } else {
                None
            }
        },
        _ => None,
    }
}

fn url_value(nodes: &Vec<Archivable>, j: usize) -> (r: bool)
    ensures
        r == is_url_value(nodes_view(nodes@), j as int),
{
    j < nodes.len() && j + 1 < nodes.len() && is_object_named(&nodes[j], NSURL) && node_text(
        &nodes[j + 1],
    ).is_some()
}

fn effect_of(nodes: &Vec<Archivable>, j: usize) -> (r: Option<TextEffect>)
    requires
        is_pair(nodes_view(nodes@), j as int),
    ensures
        match r {
            Some(e) => pair_effect(nodes_view(nodes@), j as int) == Some(e@),
            None => pair_effect(nodes_view(nodes@), j as int) is None,
        },
{
    let _n = nodes.len();
    let key = match node_text(&nodes[j]) {
        Some(k) => k.as_str(),
        None => {
            return None;
        },
    };
    let v = &nodes[j + 1];
    if str_eq(key, BOLD_KEY) {
        Some(TextEffect::Bold)
    } else if str_eq(key, ITALIC_KEY) {
        Some(TextEffect::Italic)
    } else if str_eq(key, UNDERLINE_KEY) {
        Some(TextEffect::Underline)
    } else if str_eq(key, STRIKETHROUGH_KEY) {
        Some(TextEffect::Strikethrough)
    } else if str_eq(key, OTP_KEY) {
        Some(TextEffect::OneTimeCode)
    } else if str_eq(key, MENTION_KEY) {
        match node_text(v) {
            Some(t) => Some(TextEffect::Mention(copy_string(t))),
            None => Some(TextEffect::Unknown(key.to_owned(), copy_node(v))),
        }
    } else if str_eq(key, LINK_KEY) {
        if url_value(nodes, j + 1) {
            match node_text(&nodes[j + 2]) {
                Some(t) => Some(TextEffect::Link(copy_string(t))),
                None => None,
            }
        } else {
            Some(TextEffect::Unknown(key.to_owned(), copy_node(v)))
        }
    } else if str_eq(key, CONVERSION_KEY) {
        match node_number(v) {
            Some(k) => Some(TextEffect::Conversion(k)),
            None => Some(TextEffect::Unknown(key.to_owned(), copy_node(v))),
        }
    } else if str_eq(key, ANIMATION_KEY) {
        match node_number(v) {
            Some(k) => Some(TextEffect::Animated(k)),
            None => Some(TextEffect::Unknown(key.to_owned(), copy_node(v))),
        }
    } else if str_eq(key, DIRECTION_KEY) {
        match node_number(v) {
            Some(k) => Some(TextEffect::WritingDirection(k)),
            None => Some(TextEffect::Unknown(key.to_owned(), copy_node(v))),
        }
    } else if str_eq(key, PART_KEY) || str_eq(key, FILE_KEY) || str_eq(key, DATA_DETECTED_KEY) {
        None
    } else {
        Some(TextEffect::Unknown(key.to_owned(), copy_node(v)))
    }
}

/// Reads the attribute pairs of a dictionary starting at node `j0`.
fn read_pairs(nodes: &Vec<Archivable>, j0: usize) -> (r: (Vec<TextEffect>, usize))
    ensures
        spec_pairs(nodes_view(nodes@), j0 as int, seq![]) == (effects_view(r.0@), (r.1 - j0) as nat),
        j0 <= r.1,
        r.1 == j0 || r.1 <= nodes@.len(),
{
    let ghost nv = nodes_view(nodes@);
    let mut acc: Vec<TextEffect> = Vec::new();
    let mut j = j0;
    proof {
        assert(effects_view(acc@) =~= seq![]);
    }
    while j < nodes.len() && j + 1 < nodes.len() && node_text(&nodes[j]).is_some()
        invariant
            nv == nodes_view(nodes@),
            j0 <= j,
            j == j0 || j <= nodes@.len(),
            ({
                let (e, c) = spec_pairs(nv, j as int, effects_view(acc@));
                spec_pairs(nv, j0 as int, seq![]) == (e, (c + (j - j0)) as nat)
            }),
        decreases nodes@.len() + 2 - j,
    {
        let w: usize = if url_value(nodes, j + 1) {
            3
        } else {
            2
        };
        let ghost prev = acc@;
        match effect_of(nodes, j) {
            Some(e) => {
                acc.push(e);
                proof {
                    lemma_map_push(prev, e, |y: TextEffect| y@);
                }
            },
            None => {},
        }
        j = j + w;
    }
    proof {
        assert(!is_pair(nv, j as int));
    }
    (acc, j)
}

/// Rebuilds the attributed runs of a text from its decoded nodes.
///
/// A value run ending in an unsigned length, followed by a dictionary,
/// covers the next `length` UTF-16 units of the text; the dictionary's
/// key/value pairs give the effects of that range. Ranges without effects are
/// left out, and other nodes are skipped. The only failure is a range that
/// reaches past the end of the text.
pub fn text_runs(text: &str, nodes: &Vec<Archivable>) -> (r: Result<
    Vec<TextAttributes>,
    ReconstructError,
>)
    ensures
        match r {
            Ok(runs) => spec_runs(utf16_len(text@), nodes_view(nodes@), 0, 0, seq![]) == Ok::<
                _,
                ReconstructError,
            >(runs_view(runs@)),
            Err(e) => spec_runs(utf16_len(text@), nodes_view(nodes@), 0, 0, seq![]) == Err::<
                Seq<RunView>,
                _,
            >(e),
        },
{
    let ghost nv = nodes_view(nodes@);
    let text_len = text_utf16_len(text);
    let mut runs: Vec<TextAttributes> = Vec::new();
    let mut i: usize = 0;
    let mut cursor: usize = 0;
    proof {
        assert(runs_view(runs@) =~= seq![]);
    }
    while i < nodes.len()
        invariant
            nv == nodes_view(nodes@),
            text_len as nat == utf16_len(text@),
            cursor <= text_len,
            spec_runs(utf16_len(text@), nv, 0, 0, seq![]) == spec_runs(
                utf16_len(text@),
                nv,
                i as int,
                cursor as int,
                runs_view(runs@),
            ),
        decreases nodes@.len() - i,
    {
        match node_range_len(nodes, i) {
            None => {
                i = i + 1;
            },
            Some(len) => {
                let (effects, j) = read_pairs(nodes, i + 2);
                proof {
                    assert(j <= nodes@.len());
                }
                if len > (text_len - cursor) as u64 {
                    return Err(ReconstructError::RangeOutOfBounds);
                }
                let end = cursor + len as usize;
                if effects.len() > 0 {
                    let ghost prev = runs@;
                    let run = TextAttributes { start: cursor, end, effects };
                    runs.push(run);
                    proof {
                        lemma_map_push(prev, run, |y: TextAttributes| y@);
                    }
                }
                cursor = end;
                i = j;
            },
        }
    }
    Ok(runs)
}

/// A plain run over `[start, end)`.
pub open spec fn plain(start: int, end: int) -> RunView {
    RunView { start, end, effects: seq![] }
}

/// The runs with every gap from `pos` to `text_len` filled by a plain run.
pub open spec fn spec_cover(runs: Seq<RunView>, pos: int, text_len: int) -> Seq<RunView>
    decreases runs.len(),
{
    if runs.len() == 0 {
        if pos < text_len {
            seq![plain(pos, text_len)]
        } else {
            seq![]
        }
    } else {
        let gap = if pos < runs[0].start {
            seq![plain(pos, runs[0].start)]
        } else {
            seq![]
        };
        gap + seq![runs[0]] + spec_cover(runs.drop_first(), runs[0].end, text_len)
    }
}

/// Sum of the lengths of the runs.
pub open spec fn total_len(runs: Seq<RunView>) -> int
    decreases runs.len(),
{
    if runs.len() == 0 {
        0
    } else {
        (runs[0].end - runs[0].start) + total_len(runs.drop_first())
    }
}

proof fn lemma_total_len_concat(a: Seq<RunView>, b: Seq<RunView>)
    ensures
        total_len(a + b) == total_len(a) + total_len(b),
    decreases a.len(),
{
    if a.len() > 0 {
        assert((a + b).drop_first() =~= a.drop_first() + b);
        lemma_total_len_concat(a.drop_first(), b);
    } else {
        assert(a + b =~= b);
    }
}

proof fn lemma_cover_total(runs: Seq<RunView>, pos: int, text_len: int)
    requires
        well_formed(runs, text_len),
        pos <= text_len,
        runs.len() > 0 ==> pos <= runs[0].start,
    ensures
        total_len(spec_cover(runs, pos, text_len)) == text_len - pos,
    decreases runs.len(),
{
    if runs.len() == 0 {
        reveal_with_fuel(total_len, 2);
    } else {
        let gap = if pos < runs[0].start {
            seq![plain(pos, runs[0].start)]
        } else {
            seq![]
        };
        let rest = runs.drop_first();
        assert(well_formed(rest, text_len)) by {
            assert forall|k: int| 0 < k < rest.len() implies rest[k - 1].end <= #[trigger] rest[k].start by {
                assert(runs[k].end <= runs[k + 1].start);
            }
        }
        if rest.len() > 0 {
            assert(runs[0].end <= runs[1].start);
        }
        lemma_cover_total(rest, runs[0].end, text_len);
        lemma_total_len_concat(gap, seq![runs[0]]);
        lemma_total_len_concat(gap + seq![runs[0]], spec_cover(rest, runs[0].end, text_len));
        reveal_with_fuel(total_len, 2);
    }
}

proof fn lemma_runs_well_formed(
    text_len: nat,
    nodes: Seq<NodeView>,
    i: int,
    cursor: int,
    acc: Seq<RunView>,
)
    requires
        0 <= cursor <= text_len,
        well_formed(acc, text_len as int),
        acc.len() > 0 ==> acc.last().end <= cursor,
    ensures
        spec_runs(text_len, nodes, i, cursor, acc) matches Ok(runs) ==> well_formed(
            runs,
            text_len as int,
        ),
    decreases nodes.len() - i,
{
    if 0 <= i < nodes.len() {
        match range_len(nodes, i) {
            None => lemma_runs_well_formed(text_len, nodes, i + 1, cursor, acc),
            Some(len) => {
                let (effects, c) = spec_pairs(nodes, i + 2, seq![]);
                let end = cursor + len;
                if end <= text_len {
                    let acc2 = if effects.len() > 0 {
                        acc.push(RunView { start: cursor, end, effects })
                    } else {
                        acc
                    };
                    let next = i + 2 + c;
                    let n = if next <= nodes.len() {
                        next
                    } else {
                        nodes.len() as int
                    };
                    assert(well_formed(acc2, text_len as int)) by {
                        if effects.len() > 0 {
                            assert forall|k: int| 0 < k < acc2.len() implies acc2[k - 1].end
                                <= #[trigger] acc2[k].start by {
                                if k < acc.len() {
                                    assert(acc[k - 1].end <= acc[k].start);
                                }
                            }
                        }
                    }
                    lemma_runs_well_formed(text_len, nodes, n, end, acc2);
                }
            },
        }
    }
}

/// The attributed runs of a text, together with the plain runs that fill the
/// gaps between them, have lengths that add up to the text's length in UTF-16
/// code units; and the attributed runs are ordered, disjoint and within the text.
pub proof fn lemma_runs_cover_text(text: Seq<char>, nodes: Seq<NodeView>)
    ensures
        spec_runs(utf16_len(text), nodes, 0, 0, seq![]) matches Ok(runs) ==> {
            &&& well_formed(runs, utf16_len(text) as int)
            &&& total_len(spec_cover(runs, 0, utf16_len(text) as int)) == utf16_len(text)
        },
{
    lemma_runs_well_formed(utf16_len(text), nodes, 0, 0, seq![]);
    if let Ok(runs) = spec_runs(utf16_len(text), nodes, 0, 0, seq![]) {
        lemma_cover_total(runs, 0, utf16_len(text) as int);
    }
}

pub fn copy_effect(e: &TextEffect) -> (r: TextEffect)
    ensures
        r@ == e@,
{
    match e {
        TextEffect::Bold => TextEffect::Bold,
        TextEffect::Italic => TextEffect::Italic,
        TextEffect::Underline => TextEffect::Underline,
        TextEffect::Strikethrough => TextEffect::Strikethrough,
        TextEffect::Mention(s) => TextEffect::Mention(copy_string(s)),
        TextEffect::Link(s) => TextEffect::Link(copy_string(s)),
        TextEffect::OneTimeCode => TextEffect::OneTimeCode,
        TextEffect::Conversion(k) => TextEffect::Conversion(*k),
        TextEffect::Animated(k) => TextEffect::Animated(*k),
        TextEffect::WritingDirection(k) => TextEffect::WritingDirection(*k),
        TextEffect::Unknown(k, v) => TextEffect::Unknown(copy_string(k), copy_node(v)),
    }
}

pub fn copy_run(r: &TextAttributes) -> (c: TextAttributes)
    ensures
        c@ == r@,
{
    let mut effects: Vec<TextEffect> = Vec::new();
    let mut i: usize = 0;
    while i < r.effects.len()
        invariant
            i <= r.effects@.len(),
            effects_view(effects@) == effects_view(r.effects@.subrange(0, i as int)),
        decreases r.effects@.len() - i,
    {
        let ghost prev = effects@;
        let x = copy_effect(&r.effects[i]);
        effects.push(x);
        proof {
            lemma_map_push(prev, x, |y: TextEffect| y@);
            assert(r.effects@.subrange(0, i + 1) =~= r.effects@.subrange(0, i as int).push(
                r.effects@[i as int],
            ));
            lemma_map_push(r.effects@.subrange(0, i as int), r.effects@[i as int], |y: TextEffect| y@);
        }
        i = i + 1;
    }
    proof {
        assert(r.effects@.subrange(0, i as int) =~= r.effects@);
    }
    TextAttributes { start: r.start, end: r.end, effects }
}

/// The runs with every gap of `[0, text_len)` filled by a plain run.
pub fn cover(runs: &Vec<TextAttributes>, text_len: usize) -> (r: Vec<TextAttributes>)
    requires
        well_formed(runs_view(runs@), text_len as int),
    ensures
        runs_view(r@) == spec_cover(runs_view(runs@), 0, text_len as int),
{
    let ghost rv = runs_view(runs@);
    let mut out: Vec<TextAttributes> = Vec::new();
    let mut pos: usize = 0;
    let mut i: usize = 0;
    proof {
        assert(runs_view(out@) =~= seq![]);
        assert(rv.skip(0) =~= rv);
    }
    while i < runs.len()
        invariant
            rv == runs_view(runs@),
            well_formed(rv, text_len as int),
            i <= rv.len(),
            pos <= text_len,
            i < rv.len() ==> pos <= rv[i as int].start,
            spec_cover(rv, 0, text_len as int) == runs_view(out@) + spec_cover(
                rv.skip(i as int),
                pos as int,
                text_len as int,
            ),
        decreases rv.len() - i,
    {
        let ghost before = runs_view(out@);
        let ghost rest = rv.skip(i as int);
        proof {
            assert(rest[0] == rv[i as int]);
            assert(rest.drop_first() =~= rv.skip(i + 1));
        }
        let start = runs[i].start;
        if pos < start {
            let ghost prev = out@;
            let gap = TextAttributes { start: pos, end: start, effects: Vec::new() };
            out.push(gap);
            proof {
                lemma_map_push(prev, gap, |y: TextAttributes| y@);
                assert(gap@.effects =~= seq![]);
            }
        }
        let ghost prev2 = out@;
        let c = copy_run(&runs[i]);
        out.push(c);
        proof {
            lemma_map_push(prev2, c, |y: TextAttributes| y@);
            let gap = if (pos as int) < rest[0].start {
                seq![plain(pos as int, rest[0].start)]
            } else {
                seq![]
            };
            assert(runs_view(out@) =~= before + gap + seq![rest[0]]);
            assert(spec_cover(rest, pos as int, text_len as int) == gap + seq![rest[0]] + spec_cover(
                rest.drop_first(),
                rest[0].end,
                text_len as int,
            ));
            if i + 1 < rv.len() {
                assert(rv[i + 1 - 1].end <= rv[i + 1].start);
            }
        }
        pos = runs[i].end;
        i = i + 1;
    }
    if pos < text_len {
        let ghost prev = out@;
        let gap = TextAttributes { start: pos, end: text_len, effects: Vec::new() };
        out.push(gap);
        proof {
            lemma_map_push(prev, gap, |y: TextAttributes| y@);
            assert(gap@.effects =~= seq![]);
        }
    }
    proof {
        assert(rv.skip(i as int).len() == 0);
        if pos < text_len {
            assert(runs_view(out@) =~= spec_cover(rv, 0, text_len as int));
        } else {
            assert(runs_view(out@) =~= spec_cover(rv, 0, text_len as int));
        }
    }
    out
}

/// Rebuilds the attributed runs and the placeholders of a text from its
/// decoded nodes.
pub fn reconstruct(text: &str, nodes: &Vec<Archivable>) -> (r: Result<
    (Vec<TextAttributes>, Vec<Placeholder>),
    ReconstructError,
>)
    ensures
        match r {
            Ok((runs, marks)) => spec_runs(utf16_len(text@), nodes_view(nodes@), 0, 0, seq![])
                == Ok::<_, ReconstructError>(runs_view(runs@)) && marks@ == spec_placeholders(text@),
            Err(e) => spec_runs(utf16_len(text@), nodes_view(nodes@), 0, 0, seq![]) == Err::<
                Seq<RunView>,
                _,
            >(e),
        },
{
    let runs = match text_runs(text, nodes) {
        Ok(r) => r,
        Err(e) => return Err(e),
    };
    Ok((runs, placeholders(text)))
}

} // verus!
