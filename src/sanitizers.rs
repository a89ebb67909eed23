//! Escaping of text for file names, HTML and JSON.
use vstd::prelude::*;

use std::borrow::Cow;

use crate::strings::{push_char, push_str};

verus! {

/// The character that replaces one a file name may not hold.
pub const FILENAME_REPLACEMENT_CHAR: char = '_';

pub open spec fn filename_disallowed(c: char) -> bool {
    c == '*' || c == '"' || c == '/' || c == '\\' || c == '<' || c == '>' || c == ':' || c == '|'
        || c == '?'
}

pub open spec fn spec_sanitize_filename(s: Seq<char>) -> Seq<char> {
    s.map_values(
        |c: char|
            if filename_disallowed(c) {
                FILENAME_REPLACEMENT_CHAR
            } else {
                c
            },
    )
}

/// What HTML writes in place of `c`.
pub open spec fn html_escape(c: char) -> Seq<char> {
    if c == '>' {
        "&gt;"@
    } else if c == '<' {
        "&lt;"@
    } else if c == '"' {
        "&quot;"@
    } else if c == '\'' {
        "&apos;"@
    } else if c == '`' {
        "&grave;"@
    } else if c == '&' {
        "&amp;"@
    } else if c == '\u{a0}' {
        "&nbsp;"@
    } else {
        seq![c]
    }
}

pub open spec fn html_special(c: char) -> bool {
    c == '>' || c == '<' || c == '"' || c == '\'' || c == '`' || c == '&' || c == '\u{a0}'
}

pub open spec fn spec_sanitize_html(s: Seq<char>) -> Seq<char>
    decreases s.len(),
{
    if s.len() == 0 {
        seq![]
    } else {
        spec_sanitize_html(s.drop_last()) + html_escape(s.last())
    }
}

pub open spec fn hex_digit(d: nat) -> char {
    if d < 10 {
        crate::dates::digit_char(d)
    } else if d == 10 {
        'a'
    } else if d == 11 {
        'b'
    } else if d == 12 {
        'c'
    } else if d == 13 {
        'd'
    } else if d == 14 {
        'e'
    } else {
        'f'
    }
}

/// What JSON writes in place of `c`.
pub open spec fn json_escape(c: char) -> Seq<char> {
    if c == '"' {
        seq!['\\', '"']
    } else if c == '\\' {
        seq!['\\', '\\']
    } else if c == '\u{08}' {
        seq!['\\', 'b']
    } else if c == '\t' {
        seq!['\\', 't']
    } else if c == '\n' {
        seq!['\\', 'n']
    } else if c == '\u{0c}' {
        seq!['\\', 'f']
    } else if c == '\r' {
        seq!['\\', 'r']
    } else if (c as u32) < 0x20 {
        seq!['\\', 'u', '0', '0', hex_digit((c as u32 / 16) as nat), hex_digit((c as u32 % 16) as nat)]
    } else {
        seq![c]
    }
}

pub open spec fn json_special(c: char) -> bool {
    c == '"' || c == '\\' || (c as u32) < 0x20
}

pub open spec fn spec_sanitize_json(s: Seq<char>) -> Seq<char>
    decreases s.len(),
{
    if s.len() == 0 {
        seq![]
    } else {
        spec_sanitize_json(s.drop_last()) + json_escape(s.last())
    }
}

/// Replaces each character a file name may not hold with `_`.
pub fn sanitize_filename(filename: &str) -> (r: String)
    ensures
        r@ == spec_sanitize_filename(filename@),
{
    let n = filename.unicode_len();
    let mut out = String::new();
    let mut i: usize = 0;
    while i < n
        invariant
            n == filename@.len(),
            i <= n,
            out@ == spec_sanitize_filename(filename@.subrange(0, i as int)),
        decreases n - i,
    {
        let c = filename.get_char(i);
        let d = if c == '*' || c == '"' || c == '/' || c == '\\' || c == '<' || c == '>' || c
            == ':' || c == '|' || c == '?' {
            FILENAME_REPLACEMENT_CHAR
        } else {
            c
        };
        push_char(&mut out, d);
        i = i + 1;
        proof {
            assert(out@ =~= spec_sanitize_filename(filename@.subrange(0, i as int)));
        }
    }
    proof {
        assert(filename@.subrange(0, n as int) =~= filename@);
    }
    out
}

fn push_html_escape(out: &mut String, c: char)
    ensures
        final(out)@ == old(out)@ + html_escape(c),
{
    if c == '>' {
        push_str(out, "&gt;");
    } else if c == '<' {
        push_str(out, "&lt;");
    } else if c == '"' {
        push_str(out, "&quot;");
    } else if c == '\'' {
        push_str(out, "&apos;");
    } else if c == '`' {
        push_str(out, "&grave;");
    } else if c == '&' {
        push_str(out, "&amp;");
    } else if c == '\u{a0}' {
        push_str(out, "&nbsp;");
    } else {
        push_char(out, c);
        proof {
            assert(old(out)@.push(c) =~= old(out)@ + seq![c]);
        }
    }
}

proof fn lemma_html_unchanged(s: Seq<char>)
    requires
        forall|k: int| 0 <= k < s.len() ==> !html_special(#[trigger] s[k]),
    ensures
        spec_sanitize_html(s) == s,
    decreases s.len(),
{
    if s.len() > 0 {
        lemma_html_unchanged(s.drop_last());
        assert(s.drop_last().push(s.last()) =~= s);
    }
}

/// Escapes the characters HTML treats specially; the input itself comes
/// back when none occurs.
pub fn sanitize_html(input: &str) -> (r: Cow<'_, str>)
    ensures
        r@ == spec_sanitize_html(input@),
        r is Borrowed <==> forall|k: int| 0 <= k < input@.len() ==> !html_special(#[trigger] input@[k]),
{
    let n = input.unicode_len();
    let mut i: usize = 0;
    while i < n
        invariant
            n == input@.len(),
            i <= n,
            forall|k: int| 0 <= k < i ==> !html_special(#[trigger] input@[k]),
        ensures
            i < n ==> html_special(input@[i as int]),
            forall|k: int| 0 <= k < i ==> !html_special(#[trigger] input@[k]),
        decreases n - i,
    {
        let c = input.get_char(i);
        if c == '>' || c == '<' || c == '"' || c == '\'' || c == '`' || c == '&' || c == '\u{a0}' {
            break;
        }
        i = i + 1;
    }
    if i == n {
        proof {
            lemma_html_unchanged(input@);
        }
        return Cow::Borrowed(input);
    }
    let mut out = String::new();
    let mut j: usize = 0;
    while j < n
        invariant
            n == input@.len(),
            j <= n,
            out@ == spec_sanitize_html(input@.subrange(0, j as int)),
        decreases n - j,
    {
        let c = input.get_char(j);
        proof {
            assert(input@.subrange(0, j + 1).drop_last() =~= input@.subrange(0, j as int));
        }
        push_html_escape(&mut out, c);
        j = j + 1;
    }
    proof {
        assert(input@.subrange(0, n as int) =~= input@);
    }
    Cow::Owned(out)
}

fn hex(d: u32) -> (c: char)
    requires
        d < 16,
    ensures
        c == hex_digit(d as nat),
{
    if d == 0 {
        '0'
    } else if d == 1 {
        '1'
    } else if d == 2 {
        '2'
    } else if d == 3 {
        '3'
    } else if d == 4 {
        '4'
    } else if d == 5 {
        '5'
    } else if d == 6 {
        '6'
    } else if d == 7 {
        '7'
    } else if d == 8 {
        '8'
    } else if d == 9 {
        '9'
    } else if d == 10 {
        'a'
    } else if d == 11 {
        'b'
    } else if d == 12 {
        'c'
    } else if d == 13 {
        'd'
    } else if d == 14 {
        'e'
    } else {
        'f'
    }
}

fn push_json_escape(out: &mut String, c: char)
    ensures
        final(out)@ == old(out)@ + json_escape(c),
{
    let ghost start = out@;
    if c == '"' {
        push_char(out, '\\');
        push_char(out, '"');
    } else if c == '\\' {
        push_char(out, '\\');
        push_char(out, '\\');
    } else if c == '\u{08}' {
        push_char(out, '\\');
        push_char(out, 'b');
    } else if c == '\t' {
        push_char(out, '\\');
        push_char(out, 't');
    } else if c == '\n' {
        push_char(out, '\\');
        push_char(out, 'n');
    } else if c == '\u{0c}' {
        push_char(out, '\\');
        push_char(out, 'f');
    } else if c == '\r' {
        push_char(out, '\\');
        push_char(out, 'r');
    } else if (c as u32) < 0x20 {
        let v = c as u32;
        push_char(out, '\\');
        push_char(out, 'u');
        push_char(out, '0');
        push_char(out, '0');
        push_char(out, hex(v / 16));
        push_char(out, hex(v % 16));
    } else {
        push_char(out, c);
    }
    proof {
        assert(out@ =~= start + json_escape(c));
    }
}

proof fn lemma_json_unchanged(s: Seq<char>)
    requires
        forall|k: int| 0 <= k < s.len() ==> !json_special(#[trigger] s[k]),
    ensures
        spec_sanitize_json(s) == s,
    decreases s.len(),
{
    if s.len() > 0 {
        lemma_json_unchanged(s.drop_last());
        assert(s.drop_last().push(s.last()) =~= s);
    }
}

/// Escapes quotes, backslashes and control characters for a JSON string; the
/// input itself comes back when none occurs.
pub fn sanitize_json(input: &str) -> (r: Cow<'_, str>)
    ensures
        r@ == spec_sanitize_json(input@),
        r is Borrowed <==> forall|k: int| 0 <= k < input@.len() ==> !json_special(#[trigger] input@[k]),
{
    let n = input.unicode_len();
    let mut i: usize = 0;
    while i < n
        invariant
            n == input@.len(),
            i <= n,
            forall|k: int| 0 <= k < i ==> !json_special(#[trigger] input@[k]),
        ensures
            i < n ==> json_special(input@[i as int]),
            forall|k: int| 0 <= k < i ==> !json_special(#[trigger] input@[k]),
        decreases n - i,
    {
        let c = input.get_char(i);
        if c == '"' || c == '\\' || (c as u32) < 0x20 {
            break;
        }
        i = i + 1;
    }
    if i == n {
        proof {
            lemma_json_unchanged(input@);
        }
        return Cow::Borrowed(input);
    }
    let mut out = String::new();
    let mut j: usize = 0;
    while j < n
        invariant
            n == input@.len(),
            j <= n,
            out@ == spec_sanitize_json(input@.subrange(0, j as int)),
        decreases n - j,
    {
        let c = input.get_char(j);
        proof {
            assert(input@.subrange(0, j + 1).drop_last() =~= input@.subrange(0, j as int));
        }
        push_json_escape(&mut out, c);
        j = j + 1;
    }
    proof {
        assert(input@.subrange(0, n as int) =~= input@);
    }
    Cow::Owned(out)
}

} // verus!
