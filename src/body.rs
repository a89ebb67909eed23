//! Turns a stored message body into text: the typed-archive decoder first,
//! the legacy pattern decoder when it fails.
use vstd::prelude::*;

use crate::archive::{copy_bytes, nodes_view, Archivable, NodeView};
use crate::error::MessageError;
use crate::message::Message;
use crate::message_types::{BubbleComponent, EditRecord, EditStatus, EditedEvent, EditedMessage, EditedMessagePart};
use crate::streamtyped::{parse, spec_framed};
use crate::strings::lossy_of;
use crate::text::{
    copy_run, cover, lemma_runs_cover_text, lemma_utf16_bound, lemma_utf16_push, runs_view,
    spec_cover, spec_runs, text_of, text_runs, text_utf16_len, utf16_fits, utf16_len, RunView,
    TextAttributes, APP_CHAR, ATTACHMENT_CHAR,
};
use vstd::utf8::{decode_utf8, valid_utf8};
use crate::typedstream::{decode, spec_decode};

verus! {

/// A decoded message body, and which decoder produced it.
#[derive(Debug, PartialEq, Eq)]
pub enum Decoded {
    /// The typed-archive decoder read the body: its text and its nodes.
    Archive(String, Vec<Archivable>),
    /// Only the legacy decoder recovered text; it carries no attributes.
    Legacy(String),
}

/// The text of a typed archive: the string its first node holds.
pub open spec fn archive_text(b: Seq<u8>) -> Option<Seq<char>> {
    match spec_decode(b) {
        Ok(n) => if n.len() > 0 {
            text_of(n[0])
        } else {
            None
        },
        Err(_) => None,
    }
}

/// Decodes a message body.
///
/// The typed archive is used when it decodes and its first node holds the
/// text; otherwise the legacy decoder is tried; when both fail the result is
/// [`MessageError::NoText`].
pub fn decode_body(blob: &Vec<u8>) -> (r: Result<Decoded, MessageError>)
    ensures
        match archive_text(blob@) {
            Some(t) => r matches Ok(Decoded::Archive(text, nodes)) && text@ == t && spec_decode(
                blob@,
            ) == Ok::<_, crate::error::DecodeError>(nodes_view(nodes@)),
            None => match spec_framed(blob@) {
                Ok(t) => r matches Ok(Decoded::Legacy(s)) && s@ == lossy_of(t) && (valid_utf8(t)
                    ==> s@ == decode_utf8(t)),
                Err(_) => r == Err::<Decoded, _>(MessageError::NoText),
            },
        },
{
    if let Ok(nodes) = decode(blob.as_slice()) {
        if nodes.len() > 0 {
            if let Some(text) = nodes[0].as_nsstring() {
                let owned = text.to_owned();
                proof {
                    assert(nodes_view(nodes@)[0] == nodes@[0]@);
                }
                return Ok(Decoded::Archive(owned, nodes));
            }
        }
    }
    match parse(copy_bytes(blob)) {
        Ok(s) => Ok(Decoded::Legacy(s)),
        Err(_) => Err(MessageError::NoText),
    }
}

/// The bubble parts of a text, as far as its first `n` characters: the parts
/// so far, and where the current text run started.
pub enum PartView {
    Text(Seq<RunView>),
    Attachment,
    App,
}

impl View for BubbleComponent {
    type V = PartView;

    open spec fn view(&self) -> PartView {
        match self {
            BubbleComponent::Text(r) => PartView::Text(runs_view(r@)),
            BubbleComponent::Attachment => PartView::Attachment,
            BubbleComponent::App => PartView::App,
        }
    }
}

pub open spec fn parts_view(p: Seq<BubbleComponent>) -> Seq<PartView> {
    p.map_values(|x: BubbleComponent| x@)
}

/// The parts of `runs` that fall within `[s, e)`, clipped to it.
pub open spec fn clip(runs: Seq<RunView>, s: int, e: int) -> Seq<RunView>
    decreases runs.len(),
{
    if runs.len() == 0 {
        seq![]
    } else {
        let r = runs.last();
        let a = if r.start < s {
            s
        } else {
            r.start
        };
        let b = if r.end > e {
            e
        } else {
            r.end
        };
        clip(runs.drop_last(), s, e) + if a < b {
            seq![RunView { start: a, end: b, effects: r.effects }]
        } else {
            seq![]
        }
    }
}

/// The bubble parts of a text as far as its last character: the parts so
/// far, and where the current stretch of text started.
pub open spec fn split_state(s: Seq<char>, runs: Seq<RunView>) -> (Seq<PartView>, int)
    decreases s.len(),
{
    if s.len() == 0 {
        (seq![], 0)
    } else {
        let (acc, start) = split_state(s.drop_last(), runs);
        let pos = utf16_len(s.drop_last()) as int;
        let c = s.last();
        if c == ATTACHMENT_CHAR || c == APP_CHAR {
            let acc2 = if start < pos {
                acc.push(PartView::Text(clip(runs, start, pos)))
            } else {
                acc
            };
            (
                acc2.push(
                    if c == ATTACHMENT_CHAR {
                        PartView::Attachment
                    } else {
                        PartView::App
                    },
                ),
                pos + 1,
            )
        } else {
            (acc, start)
        }
    }
}

/// A text split at its placeholders: each placeholder becomes an attachment
/// or application part, and each stretch of text between them a text part
/// holding the runs over its UTF-16 range.
pub open spec fn spec_split(s: Seq<char>, runs: Seq<RunView>) -> Seq<PartView> {
    let (acc, start) = split_state(s, runs);
    if start < utf16_len(s) {
        acc.push(PartView::Text(clip(runs, start, utf16_len(s) as int)))
    } else {
        acc
    }
}

/// The runs that cover a message text: those rebuilt from its decoded nodes
/// with plain runs in the gaps, or one plain run when there are no nodes or
/// they do not fit the text.
pub open spec fn body_runs(text: Seq<char>, nodes: Option<Seq<NodeView>>) -> Seq<RunView> {
    let len = utf16_len(text) as int;
    match nodes {
        Some(n) => match spec_runs(utf16_len(text), n, 0, 0, seq![]) {
            Ok(r) => spec_cover(r, 0, len),
            Err(_) => spec_cover(seq![], 0, len),
        },
        None => spec_cover(seq![], 0, len),
    }
}

pub open spec fn opt_nodes(n: Option<Vec<Archivable>>) -> Option<Seq<NodeView>> {
    match n {
        Some(v) => Some(nodes_view(v@)),
        None => None,
    }
}

/// The parts of `runs` that fall within `[s, e)`, clipped to it.
pub fn clip_runs(runs: &Vec<TextAttributes>, s: usize, e: usize) -> (r: Vec<TextAttributes>)
    ensures
        runs_view(r@) == clip(runs_view(runs@), s as int, e as int),
{
    let mut out: Vec<TextAttributes> = Vec::new();
    let mut i: usize = 0;
    proof {
        assert(runs_view(out@) =~= seq![]);
        assert(runs@.subrange(0, 0) =~= seq![]);
        assert(runs_view(runs@.subrange(0, 0)) =~= seq![]);
    }
    while i < runs.len()
        invariant
            i <= runs@.len(),
            runs_view(out@) == clip(runs_view(runs@.subrange(0, i as int)), s as int, e as int),
        decreases runs@.len() - i,
    {
        proof {
            let pre = runs@.subrange(0, i as int);
            assert(runs@.subrange(0, i + 1) =~= pre.push(runs@[i as int]));
            crate::archive::lemma_map_push(pre, runs@[i as int], |x: TextAttributes| x@);
            assert(runs_view(runs@.subrange(0, i + 1)).drop_last() =~= runs_view(pre));
        }
        let r = &runs[i];
        let a = if r.start < s {
            s
        } else {
            r.start
        };
        let b = if r.end > e {
            e
        } else {
            r.end
        };
        if a < b {
            let c = copy_run(r);
            let piece = TextAttributes { start: a, end: b, effects: c.effects };
            let ghost prev = out@;
            out.push(piece);
            proof {
                crate::archive::lemma_map_push(prev, piece, |x: TextAttributes| x@);
            }
        } else {
            proof {
                assert(runs_view(out@) =~= runs_view(out@) + seq![]);
            }
        }
        i = i + 1;
    }
    proof {
        assert(runs@.subrange(0, i as int) =~= runs@);
    }
    out
}

fn text_part(runs: &Vec<TextAttributes>, start: usize, end: usize) -> (r: BubbleComponent)
    ensures
        r@ == PartView::Text(clip(runs_view(runs@), start as int, end as int)),
{
    BubbleComponent::Text(clip_runs(runs, start, end))
}

/// Splits a text at its placeholders, giving each stretch of text the runs
/// over its range.
pub fn split_at_placeholders(text: &str, runs: &Vec<TextAttributes>) -> (r: Vec<BubbleComponent>)
    ensures
        parts_view(r@) == spec_split(text@, runs_view(runs@)),
{
    let ghost rv = runs_view(runs@);
    utf16_fits(text);
    let n = text.unicode_len();
    let mut out: Vec<BubbleComponent> = Vec::new();
    let mut i: usize = 0;
    let mut pos: usize = 0;
    let mut start: usize = 0;
    proof {
        assert(parts_view(out@) =~= seq![]);
        assert(text@.subrange(0, 0) =~= seq![]);
    }
    while i < n
        invariant
            n == text@.len(),
            i <= n,
            rv == runs_view(runs@),
            utf16_len(text@) <= usize::MAX,
            pos as int == utf16_len(text@.subrange(0, i as int)),
            start <= pos,
            split_state(text@.subrange(0, i as int), rv) == (parts_view(out@), start as int),
        decreases n - i,
    {
        let ghost pre = text@.subrange(0, i as int);
        let c = text.get_char(i);
        proof {
            assert(text@.subrange(0, i + 1) =~= pre.push(c));
            assert(pre.push(c).drop_last() =~= pre);
            lemma_utf16_push(pre, c);
            lemma_utf16_bound(text@, i + 1);
        }
        if c == ATTACHMENT_CHAR || c == APP_CHAR {
            if start < pos {
                let ghost prev = out@;
                let part = text_part(runs, start, pos);
                out.push(part);
                proof {
                    crate::archive::lemma_map_push(prev, part, |x: BubbleComponent| x@);
                }
            }
            let ghost prev2 = out@;
            let mark = if c == ATTACHMENT_CHAR {
                BubbleComponent::Attachment
            } else {
                BubbleComponent::App
            };
            out.push(mark);
            proof {
                crate::archive::lemma_map_push(prev2, mark, |x: BubbleComponent| x@);
            }
            pos = pos + 1;
            start = pos;
        } else {
            if (c as u32) > 0xFFFF {
                pos = pos + 2;
            } else {
                pos = pos + 1;
            }
        }
        i = i + 1;
    }
    proof {
        assert(text@.subrange(0, n as int) =~= text@);
    }
    if start < pos {
        let ghost prev = out@;
        let part = text_part(runs, start, pos);
        out.push(part);
        proof {
            crate::archive::lemma_map_push(prev, part, |x: BubbleComponent| x@);
        }
    }
    out
}

/// The runs that cover a text, rebuilt from its decoded nodes when they fit.
pub fn covering_runs(text: &str, nodes: Option<&Vec<Archivable>>) -> (r: Vec<TextAttributes>)
    ensures
        runs_view(r@) == body_runs(
            text@,
            match nodes {
                Some(v) => Some(nodes_view(v@)),
                None => None,
            },
        ),
{
    utf16_fits(text);
    let len = text_utf16_len(text);
    let empty: Vec<TextAttributes> = Vec::new();
    proof {
        assert(runs_view(empty@) =~= seq![]);
    }
    match nodes {
        Some(n) => match text_runs(text, n) {
            Ok(runs) => {
                proof {
                    lemma_runs_cover_text(text@, nodes_view(n@));
                }
                cover(&runs, len)
            },
            Err(_) => cover(&empty, len),
        },
        None => cover(&empty, len),
    }
}

impl Message {
    /// The parts of the message's bubble: a single application part for an
    /// application message, else its text split at its placeholders, each
    /// stretch of text carrying the runs rebuilt from the decoded nodes.
    pub fn body(&self) -> (r: Vec<BubbleComponent>)
        ensures
            self.balloon_bundle_id is Some ==> parts_view(r@) == seq![PartView::App],
            self.balloon_bundle_id is None ==> parts_view(r@) == match self.text {
                Some(t) => spec_split(t@, body_runs(t@, opt_nodes(self.components))),
                None => seq![],
            },
    {
        if self.balloon_bundle_id.is_some() {
            let mut v: Vec<BubbleComponent> = Vec::new();
            v.push(BubbleComponent::App);
            proof {
                assert(parts_view(v@) =~= seq![PartView::App]);
            }
            return v;
        }
        match &self.text {
            Some(t) => {
                let runs = covering_runs(t.as_str(), self.components.as_ref());
                split_at_placeholders(t.as_str(), &runs)
            },
            None => {
                let v: Vec<BubbleComponent> = Vec::new();
                proof {
                    assert(parts_view(v@) =~= seq![]);
                }
                v
            },
        }
    }

    /// Decodes the message body into `text` and `components`.
    ///
    /// Without a body nothing changes. With one, `components` holds the
    /// decoded nodes when the typed archive gave the text, and `text` holds
    /// whichever decoder's text was recovered; when neither decoder recovers
    /// text both are cleared and the result is [`MessageError::NoText`].
    pub fn generate_text(&mut self, body: Option<&Vec<u8>>) -> (r: Result<String, MessageError>)
        ensures
            match body {
                None => final(self).text == old(self).text
                    && final(self).components == old(self).components,
                Some(b) => match archive_text(b@) {
                    Some(t) => opt_text(final(self).text) == Some(t)
                        && (final(self).components matches Some(n)
                        && spec_decode(b@) == Ok::<_, crate::error::DecodeError>(nodes_view(n@))),
                    None => final(self).components is None && match spec_framed(b@) {
                        Ok(t) => opt_text(final(self).text) == Some(lossy_of(t)) && (valid_utf8(t)
                            ==> opt_text(final(self).text) == Some(decode_utf8(t))),
                        Err(_) => final(self).text is None,
                    },
                },
            },
            match final(self).text {
                Some(t) => r matches Ok(s) && s@ == t@,
                None => r == Err::<String, _>(MessageError::NoText),
            },
            final(self).guid == old(self).guid,
            final(self).rowid == old(self).rowid,
    {
        if let Some(b) = body {
            match decode_body(b) {
                Ok(Decoded::Archive(text, nodes)) => {
                    self.text = Some(text);
                    self.components = Some(nodes);
                },
                Ok(Decoded::Legacy(text)) => {
                    self.text = Some(text);
                    self.components = None;
                },
                Err(_) => {
                    self.text = None;
                    self.components = None;
                },
            }
        }
        match &self.text {
            Some(t) => Ok(t.clone()),
            None => Err(MessageError::NoText),
        }
    }
}

/// The edits of part `i`, in order.
pub open spec fn history_of(edits: Seq<EditRecord>, i: usize) -> Seq<EditRecord>
    decreases edits.len(),
{
    if edits.len() == 0 {
        seq![]
    } else {
        let rest = history_of(edits.drop_last(), i);
        if edits.last().part == i {
            rest.push(edits.last())
        } else {
            rest
        }
    }
}

/// The state of part `i`: unsent when listed as such, else edited when it
/// has edits, else original.
pub open spec fn status_of(edits: Seq<EditRecord>, unsent: Seq<usize>, i: usize) -> EditStatus {
    if unsent.contains(i) {
        EditStatus::Unsent
    } else if history_of(edits, i).len() > 0 {
        EditStatus::Edited
    } else {
        EditStatus::Original
    }
}

/// The text of an archived body: what the decoders recover, else nothing.
pub open spec fn event_text(b: Seq<u8>) -> Seq<char> {
    match archive_text(b) {
        Some(t) => t,
        None => match spec_framed(b) {
            Ok(t) => lossy_of(t),
            Err(_) => seq![],
        },
    }
}

/// Whether an event holds what its record says.
pub open spec fn event_matches(e: EditedEvent, rec: EditRecord) -> bool {
    &&& e.date == rec.date
    &&& e.text@ == event_text(rec.body@)
    &&& opt_text(e.guid) == opt_text(rec.guid)
    &&& (e.components is Some <==> archive_text(rec.body@) is Some)
}

fn event_from(rec: &EditRecord) -> (e: EditedEvent)
    ensures
        event_matches(e, *rec),
{
    let guid = match &rec.guid {
        Some(g) => Some(g.clone()),
        None => None,
    };
    match decode_body(&rec.body) {
        Ok(Decoded::Archive(text, nodes)) => EditedEvent {
            date: rec.date,
            text,
            components: Some(nodes),
            guid,
        },
        Ok(Decoded::Legacy(text)) => EditedEvent { date: rec.date, text, components: None, guid },
        Err(_) => EditedEvent { date: rec.date, text: String::new(), components: None, guid },
    }
}

fn part_history(edits: &Vec<EditRecord>, i: usize) -> (r: Vec<EditedEvent>)
    ensures
        r@.len() == history_of(edits@, i).len(),
        forall|j: int| 0 <= j < r@.len() ==> event_matches(#[trigger] r@[j], history_of(edits@, i)[j]),
{
    let mut out: Vec<EditedEvent> = Vec::new();
    let mut k: usize = 0;
    while k < edits.len()
        invariant
            k <= edits@.len(),
            out@.len() == history_of(edits@.subrange(0, k as int), i).len(),
            forall|j: int|
                0 <= j < out@.len() ==> event_matches(
                    #[trigger] out@[j],
                    history_of(edits@.subrange(0, k as int), i)[j],
                ),
        decreases edits@.len() - k,
    {
        proof {
            assert(edits@.subrange(0, k + 1).drop_last() =~= edits@.subrange(0, k as int));
        }
        if edits[k].part == i {
            let e = event_from(&edits[k]);
            out.push(e);
        }
        k = k + 1;
    }
    proof {
        assert(edits@.subrange(0, k as int) =~= edits@);
    }
    out
}

impl EditedMessage {
    /// Builds the edit history of a message with `part_count` parts from its
    /// recorded edits and the indexes of its unsent parts; records for parts
    /// past the count are ignored.
    pub fn from_summary(part_count: usize, edits: &Vec<EditRecord>, unsent: &Vec<usize>) -> (r:
        EditedMessage)
        ensures
            r.parts@.len() == part_count,
            forall|i: int|
                0 <= i < part_count ==> (#[trigger] r.parts@[i]).status == status_of(
                    edits@,
                    unsent@,
                    i as usize,
                ),
            forall|i: int|
                0 <= i < part_count ==> (#[trigger] r.parts@[i]).edit_history@.len() == history_of(
                    edits@,
                    i as usize,
                ).len(),
            forall|i: int, j: int|
                0 <= i < part_count && 0 <= j < r.parts@[i].edit_history@.len() ==> event_matches(
                    #[trigger] r.parts@[i].edit_history@[j],
                    history_of(edits@, i as usize)[j],
                ),
    {
        let mut parts: Vec<EditedMessagePart> = Vec::new();
        let mut i: usize = 0;
        while i < part_count
            invariant
                i <= part_count,
                parts@.len() == i,
                forall|p: int|
                    0 <= p < i ==> (#[trigger] parts@[p]).status == status_of(
                        edits@,
                        unsent@,
                        p as usize,
                    ),
                forall|p: int|
                    0 <= p < i ==> (#[trigger] parts@[p]).edit_history@.len() == history_of(
                        edits@,
                        p as usize,
                    ).len(),
                forall|p: int, j: int|
                    0 <= p < i && 0 <= j < parts@[p].edit_history@.len() ==> event_matches(
                        #[trigger] parts@[p].edit_history@[j],
                        history_of(edits@, p as usize)[j],
                    ),
            decreases part_count - i,
        {
            let history = part_history(edits, i);
            let mut gone = false;
            let mut u: usize = 0;
            while u < unsent.len()
                invariant
                    u <= unsent@.len(),
                    gone == (exists|x: int| 0 <= x < u && unsent@[x] == i),
                decreases unsent@.len() - u,
            {
                if unsent[u] == i {
                    gone = true;
                }
                u = u + 1;
            }
            proof {
                if gone {
                    let x = choose|x: int| 0 <= x < u && unsent@[x] == i;
                    assert(unsent@.contains(i));
                } else {
                    assert(!unsent@.contains(i));
                }
            }
            let status = if gone {
                EditStatus::Unsent
            } else if history.len() > 0 {
                EditStatus::Edited
            } else {
                EditStatus::Original
            };
            parts.push(EditedMessagePart { status, edit_history: history });
            i = i + 1;
        }
        EditedMessage { parts }
    }
}

pub open spec fn opt_text(s: Option<String>) -> Option<Seq<char>> {
    match s {
        Some(x) => Some(x@),
        None => None,
    }
}

} // verus!
