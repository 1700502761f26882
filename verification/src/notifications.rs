//! Toast notification content: XML payloads, copy-button labels, protocol
//! activation URIs and backend fallback.

use vstd::prelude::*;
use vstd::string::*;
use vstd::utf8::*;

use crate::paths::{
    file_name, is_plain_name, is_sep, join, parent, path_eq, path_file_name, path_join, path_parent, paths_equal,
};
use crate::text::{
    chars_of, debug_quoted, debug_str, decimal, find_char_in, first_index_of, has_prefix_at,
    join_strings, lemma_first_index_of, push_char, push_decimal, seq_join, str_eq,
    string_from_range, string_views,
};

verus! {

/// A desktop notification as handed to the toast backends.
#[derive(Debug, Clone, PartialEq, Eq)]
pub struct NativeNotification {
    pub title: String,
    pub body: String,
    /// Full text copied when the toast Copy button is activated (may differ from truncated body).
    pub copy_payload: Option<String>,
    /// When true, routing already placed the payload on the clipboard; toast shows "Copy again".
    pub already_copied: bool,
}

/// Label shown on the toast Copy action button.
pub const TOAST_COPY_ACTION_LABEL: &'static str = "Copy";

/// Label when the payload was already copied during routing.
pub const TOAST_COPY_AGAIN_ACTION_LABEL: &'static str = "Copy again";

/// Spec: the copy button label for a toast.
pub open spec fn copy_action_label(already_copied: bool) -> Seq<char> {
    if already_copied {
        seq!['C', 'o', 'p', 'y', ' ', 'a', 'g', 'a', 'i', 'n']
    } else {
        seq!['C', 'o', 'p', 'y']
    }
}

/// Copy button label for a routing toast (Copy vs Copy again).
pub fn toast_copy_action_label(already_copied: bool) -> (label: &'static str)
    ensures
        label@ == copy_action_label(already_copied),
{
    proof {
        reveal_strlit("Copy again");
        reveal_strlit("Copy");
    }
    if already_copied {
        TOAST_COPY_AGAIN_ACTION_LABEL
    } else {
        TOAST_COPY_ACTION_LABEL
    }
}

/// Spec: the XML text for one character.
pub open spec fn xml_escape_char(c: char) -> Seq<char> {
    if c == '&' {
        seq!['&', 'a', 'm', 'p', ';']
    } else if c == '<' {
        seq!['&', 'l', 't', ';']
    } else if c == '>' {
        seq!['&', 'g', 't', ';']
    } else if c == '"' {
        seq!['&', 'q', 'u', 'o', 't', ';']
    } else if c == '\'' {
        seq!['&', 'a', 'p', 'o', 's', ';']
    } else {
        seq![c]
    }
}

/// Spec: `s` with each XML special character replaced by its entity.
pub open spec fn xml_escaped(s: Seq<char>) -> Seq<char>
    decreases s.len(),
{
    if s.len() == 0 {
        seq![]
    } else {
        xml_escaped(s.drop_last()) + xml_escape_char(s.last())
    }
}

/// Appends every character of `piece` to `out`.
fn push_all(out: &mut String, piece: &[char])
    ensures
        final(out)@ == old(out)@ + piece@,
{
    let mut i: usize = 0;
    while i < piece.len()
        invariant
            i <= piece.len(),
            out@ == old(out)@ + piece@.subrange(0, i as int),
        decreases piece.len() - i,
    {
        push_char(out, piece[i]);
        i += 1;
    }
}

/// Appends the XML form of `c` to `out`.
fn push_xml_escaped_char(out: &mut String, c: char)
    ensures
        final(out)@ == old(out)@ + xml_escape_char(c),
{
    if c == '&' {
        push_all(out, &['&', 'a', 'm', 'p', ';']);
    } else if c == '<' {
        push_all(out, &['&', 'l', 't', ';']);
    } else if c == '>' {
        push_all(out, &['&', 'g', 't', ';']);
    } else if c == '"' {
        push_all(out, &['&', 'q', 'u', 'o', 't', ';']);
    } else if c == '\'' {
        push_all(out, &['&', 'a', 'p', 'o', 's', ';']);
    } else {
        push_char(out, c);
    }
}

/// Escapes `&`, `<`, `>`, `"` and `'` for inclusion in toast XML.
pub fn escape_xml(raw: &str) -> (escaped: String)
    ensures
        escaped@ == xml_escaped(raw@),
{
    let cs = chars_of(raw);
    let mut out = String::new();
    let mut i: usize = 0;
    while i < cs.len()
        invariant
            i <= cs.len(),
            cs@ == raw@,
            out@ == xml_escaped(cs@.subrange(0, i as int)),
        decreases cs.len() - i,
    {
        push_xml_escaped_char(&mut out, cs[i]);
        proof {
            let next = cs@.subrange(0, i + 1);
            assert(next.drop_last() =~= cs@.subrange(0, i as int));
        }
        i += 1;
    }
    proof {
        assert(cs@.subrange(0, cs.len() as int) =~= cs@);
    }
    out
}

/// Spec: a character that the escaped text never holds raw.
pub open spec fn is_markup_char(c: char) -> bool {
    c == '<' || c == '>' || c == '"' || c == '\''
}

/// Spec: a character that escaping rewrites.
pub open spec fn is_xml_special(c: char) -> bool {
    c == '&' || is_markup_char(c)
}

/// Escaping works character by character: the escaped text of `a + b` is
/// that of `a` followed by that of `b`.
pub proof fn law_escape_xml_concat(a: Seq<char>, b: Seq<char>)
    ensures
        xml_escaped(a + b) == xml_escaped(a) + xml_escaped(b),
    decreases b.len(),
{
    if b.len() == 0 {
        assert(a + b =~= a);
        assert(xml_escaped(a) + xml_escaped(b) =~= xml_escaped(a));
    } else {
        assert((a + b).drop_last() =~= a + b.drop_last());
        assert((a + b).last() == b.last());
        law_escape_xml_concat(a, b.drop_last());
        assert(xml_escaped(a) + xml_escaped(b.drop_last()) + xml_escape_char(b.last())
            =~= xml_escaped(a) + (xml_escaped(b.drop_last()) + xml_escape_char(b.last())));
    }
}

/// Text without `&`, `<`, `>`, `"` or `'` is left as it is.
pub proof fn law_escape_xml_plain_unchanged(s: Seq<char>)
    requires
        forall|i: int| 0 <= i < s.len() ==> !is_xml_special(#[trigger] s[i]),
    ensures
        xml_escaped(s) == s,
    decreases s.len(),
{
    if s.len() > 0 {
        let d = s.drop_last();
        assert forall|i: int| 0 <= i < d.len() implies !is_xml_special(#[trigger] d[i]) by {
            assert(d[i] == s[i]);
        }
        law_escape_xml_plain_unchanged(d);
        assert(!is_xml_special(s[s.len() - 1]));
        assert(d.push(s.last()) =~= s);
    }
}

/// The escaped text holds no raw `<`, `>`, `"` or `'`.
pub proof fn law_escape_xml_no_markup(s: Seq<char>)
    ensures
        forall|i: int|
            0 <= i < xml_escaped(s).len() ==> !is_markup_char(#[trigger] xml_escaped(s)[i]),
    decreases s.len(),
{
    if s.len() > 0 {
        law_escape_xml_no_markup(s.drop_last());
        let p = xml_escaped(s.drop_last());
        let e = xml_escape_char(s.last());
        assert forall|i: int| 0 <= i < (p + e).len() implies !is_markup_char(
            #[trigger] (p + e)[i],
        ) by {
            if i < p.len() {
                assert((p + e)[i] == p[i]);
            } else {
                assert((p + e)[i] == e[i - p.len()]);
            }
        }
    }
}

/// Spec: the entity of some special character starts at `i` in `t`.
pub open spec fn entity_at(t: Seq<char>, i: int) -> bool {
    exists|c: char|
        is_xml_special(c) && i + xml_escape_char(c).len() <= t.len() && #[trigger] t.subrange(
            i,
            i + xml_escape_char(c).len(),
        ) == xml_escape_char(c)
}

/// Every `&` in the escaped text starts the entity of an escaped character.
pub proof fn law_escape_xml_ampersand_starts_entity(s: Seq<char>)
    ensures
        forall|i: int|
            0 <= i < xml_escaped(s).len() && #[trigger] xml_escaped(s)[i] == '&' ==> entity_at(
                xml_escaped(s),
                i,
            ),
    decreases s.len(),
{
    if s.len() > 0 {
        law_escape_xml_ampersand_starts_entity(s.drop_last());
        let p = xml_escaped(s.drop_last());
        let c = s.last();
        let e = xml_escape_char(c);
        let t = p + e;
        assert(xml_escaped(s) == t);
        assert forall|i: int| 0 <= i < t.len() && #[trigger] t[i] == '&' implies entity_at(t, i) by {
            if i < p.len() {
                assert(t[i] == p[i]);
                assert(entity_at(p, i));
                let d = choose|d: char|
                    is_xml_special(d) && i + xml_escape_char(d).len() <= p.len()
                        && #[trigger] p.subrange(i, i + xml_escape_char(d).len())
                        == xml_escape_char(d);
                assert(t.subrange(i, i + xml_escape_char(d).len()) =~= p.subrange(
                    i,
                    i + xml_escape_char(d).len(),
                ));
            } else {
                let k = i - p.len();
                assert(t[i] == e[k]);
                assert(is_xml_special(c));
                assert(k == 0);
                assert(t.subrange(i, i + e.len()) =~= e);
            }
        }
    }
}

/// One escaped character followed by more text fixes the character and the text.
proof fn lemma_escape_char_head(c: char, d: char, x: Seq<char>, y: Seq<char>)
    requires
        xml_escape_char(c) + x == xml_escape_char(d) + y,
    ensures
        c == d,
        x == y,
{
    let ec = xml_escape_char(c);
    let ed = xml_escape_char(d);
    let t = ec + x;
    assert(t == ed + y);
    assert(t[0] == ec[0] && t[0] == ed[0]);
    if is_xml_special(c) && is_xml_special(d) {
        assert(t[1] == ec[1] && t[1] == ed[1]);
        assert(t[2] == ec[2] && t[2] == ed[2]);
    }
    assert(c == d);
    assert(x =~= t.skip(ec.len() as int));
    assert(y =~= t.skip(ed.len() as int));
}

/// Escaping loses nothing: texts with the same escaped form are the same text.
pub proof fn law_escape_xml_injective(a: Seq<char>, b: Seq<char>)
    requires
        xml_escaped(a) == xml_escaped(b),
    ensures
        a == b,
    decreases a.len() + b.len(),
{
    if a.len() > 0 {
        law_escape_xml_concat(seq![a[0]], a.drop_first());
        assert(seq![a[0]] + a.drop_first() =~= a);
        assert(seq![a[0]].drop_last() =~= Seq::<char>::empty());
        assert(xml_escaped(Seq::<char>::empty()) == Seq::<char>::empty());
        assert(seq![a[0]].last() == a[0]);
        assert(xml_escaped(seq![a[0]]) =~= xml_escape_char(a[0]));
    }
    if b.len() > 0 {
        law_escape_xml_concat(seq![b[0]], b.drop_first());
        assert(seq![b[0]] + b.drop_first() =~= b);
        assert(seq![b[0]].drop_last() =~= Seq::<char>::empty());
        assert(xml_escaped(Seq::<char>::empty()) == Seq::<char>::empty());
        assert(seq![b[0]].last() == b[0]);
        assert(xml_escaped(seq![b[0]]) =~= xml_escape_char(b[0]));
    }
    if a.len() > 0 && b.len() > 0 {
        lemma_escape_char_head(a[0], b[0], xml_escaped(a.drop_first()), xml_escaped(b.drop_first()));
        law_escape_xml_injective(a.drop_first(), b.drop_first());
        assert(a =~= b);
    } else if a.len() > 0 {
        assert(xml_escaped(b) =~= Seq::<char>::empty());
        assert(xml_escape_char(a[0]).len() > 0);
    } else if b.len() > 0 {
        assert(xml_escaped(a) =~= Seq::<char>::empty());
        assert(xml_escape_char(b[0]).len() > 0);
    } else {
        assert(a =~= b);
    }
}

/// Maximum characters shown in a toast body before truncation with an ellipsis.
pub const TOAST_BODY_MAX_CHARS: usize = 256;

/// Spec: the toast form of `text`: unchanged when it has at most `max_chars`
/// characters, else its first `max_chars` characters and an ellipsis.
pub open spec fn truncated_for_toast(text: Seq<char>, max_chars: nat) -> Seq<char> {
    if text.len() <= max_chars {
        text
    } else {
        text.take(max_chars as int).push('…')
    }
}

/// Truncate `text` for toast display, appending `…` when longer than `max_chars`.
pub fn truncate_for_toast(text: &str, max_chars: usize) -> (out: String)
    ensures
        out@ == truncated_for_toast(text@, max_chars as nat),
{
    let n = text.unicode_len();
    if n <= max_chars {
        return text.to_owned();
    }
    let mut out = String::new();
    let mut i: usize = 0;
    while i < max_chars
        invariant
            i <= max_chars < n,
            n == text@.len(),
            out@ == text@.take(i as int),
        decreases max_chars - i,
    {
        push_char(&mut out, text.get_char(i));
        proof {
            assert(text@.take(i + 1) =~= text@.take(i as int).push(text@[i as int]));
        }
        i += 1;
    }
    push_char(&mut out, '…');
    out
}

} // verus!

verus! {

/// Custom URL scheme for toast Copy activation (unpackaged apps require protocol activation).
pub const TOAST_PROTOCOL_SCHEME: &'static str = "visioflow";

/// Spec: bytes copied verbatim into a protocol URI.
pub open spec fn is_unreserved_byte(b: u8) -> bool {
    ||| 0x41 <= b <= 0x5A
    ||| 0x61 <= b <= 0x7A
    ||| 0x30 <= b <= 0x39
    ||| b == 0x2D
    ||| b == 0x5F
    ||| b == 0x2E
    ||| b == 0x7E
    ||| b == 0x2F
    ||| b == 0x3A
    ||| b == 0x5C
}

/// Spec: upper-case hexadecimal digit for a value below 16.
pub open spec fn hex_upper(n: u8) -> char {
    if n == 0 { '0' } else if n == 1 { '1' } else if n == 2 { '2' } else if n == 3 { '3' }
    else if n == 4 { '4' } else if n == 5 { '5' } else if n == 6 { '6' } else if n == 7 { '7' }
    else if n == 8 { '8' } else if n == 9 { '9' } else if n == 10 { 'A' } else if n == 11 { 'B' }
    else if n == 12 { 'C' } else if n == 13 { 'D' } else if n == 14 { 'E' } else { 'F' }
}

/// Spec: the URI text for one byte of the path.
pub open spec fn percent_encode_byte(b: u8) -> Seq<char> {
    if is_unreserved_byte(b) {
        seq![b as char]
    } else {
        seq!['%', hex_upper(b / 16), hex_upper(b % 16)]
    }
}

/// Spec: percent-encoding of a byte string.
pub open spec fn percent_encoded(bytes: Seq<u8>) -> Seq<char>
    decreases bytes.len(),
{
    if bytes.len() == 0 {
        seq![]
    } else {
        percent_encoded(bytes.drop_last()) + percent_encode_byte(bytes.last())
    }
}

fn hex_upper_exec(n: u8) -> (c: char)
    requires
        n < 16,
    ensures
        c == hex_upper(n),
{
    if n == 0 { '0' } else if n == 1 { '1' } else if n == 2 { '2' } else if n == 3 { '3' }
    else if n == 4 { '4' } else if n == 5 { '5' } else if n == 6 { '6' } else if n == 7 { '7' }
    else if n == 8 { '8' } else if n == 9 { '9' } else if n == 10 { 'A' } else if n == 11 { 'B' }
    else if n == 12 { 'C' } else if n == 13 { 'D' } else if n == 14 { 'E' } else { 'F' }
}

fn is_unreserved_byte_exec(b: u8) -> (r: bool)
    ensures
        r == is_unreserved_byte(b),
{
    (0x41 <= b && b <= 0x5A) || (0x61 <= b && b <= 0x7A) || (0x30 <= b && b <= 0x39) || b == 0x2D
        || b == 0x5F || b == 0x2E || b == 0x7E || b == 0x2F || b == 0x3A || b == 0x5C
}

/// Percent-encodes the UTF-8 bytes of `raw`, keeping path-safe ASCII as is.
fn percent_encode(raw: &str) -> (out: String)
    ensures
        out@ == percent_encoded(raw.spec_bytes()),
{
    let bytes = raw.as_bytes();
    let mut out = String::new();
    let mut i: usize = 0;
    while i < bytes.len()
        invariant
            i <= bytes.len(),
            bytes@ == raw.spec_bytes(),
            out@ == percent_encoded(bytes@.subrange(0, i as int)),
        decreases bytes.len() - i,
    {
        let b = bytes[i];
        if is_unreserved_byte_exec(b) {
            push_char(&mut out, b as char);
        } else {
            push_char(&mut out, '%');
            push_char(&mut out, hex_upper_exec(b / 16));
            push_char(&mut out, hex_upper_exec(b % 16));
        }
        proof {
            assert(bytes@.subrange(0, i + 1).drop_last() =~= bytes@.subrange(0, i as int));
        }
        i += 1;
    }
    proof {
        assert(bytes@.subrange(0, bytes.len() as int) =~= bytes@);
    }
    out
}

/// Spec: the fixed part of a toast Copy activation URI.
pub open spec fn copy_uri_prefix() -> Seq<char> {
    seq![
        'v', 'i', 's', 'i', 'o', 'f', 'l', 'o', 'w', ':', 'n', 'o', 't', 'i', 'f', 'y', '-', 'c',
        'o', 'p', 'y', '?', 'p', 'a', 't', 'h', '=',
    ]
}

/// Spec: the protocol URI that copies the staged file at `path`.
pub open spec fn copy_protocol_uri(path: Seq<char>) -> Seq<char> {
    copy_uri_prefix() + percent_encoded(encode_utf8(path))
}

/// Protocol URI Windows launches when the toast Copy button is clicked.
pub fn toast_copy_protocol_uri(staging_path: &str) -> (uri: String)
    ensures
        uri@ == copy_protocol_uri(staging_path@),
{
    let mut uri = "visioflow:notify-copy?path=".to_owned();
    proof {
        reveal_strlit("visioflow:notify-copy?path=");
        assert(uri@ =~= copy_uri_prefix());
    }
    let encoded = percent_encode(staging_path);
    uri.append(encoded.as_str());
    uri
}

/// CLI arguments Windows passes when the toast Copy button is clicked (foreground activation).
pub fn toast_copy_activation_args(staging_path: &str) -> (args: String)
    ensures
        args@ == copy_protocol_uri(staging_path@),
{
    toast_copy_protocol_uri(staging_path)
}

} // verus!

verus! {

/// Spec: the value of an ASCII hexadecimal digit (either case).
pub open spec fn hex_value(b: u8) -> Option<u8> {
    if 0x30 <= b <= 0x39 {
        Some((b - 0x30) as u8)
    } else if 0x61 <= b <= 0x66 {
        Some((b - 0x61 + 10) as u8)
    } else if 0x41 <= b <= 0x46 {
        Some((b - 0x41 + 10) as u8)
    } else {
        None
    }
}

/// Spec: the byte denoted by the two characters after `%`, read as a base-16
/// integer (`u8::from_str_radix`, which also takes a leading `+`).
pub open spec fn escape_value(b1: u8, b2: u8) -> Option<u8> {
    if b1 == 0x2B {
        hex_value(b2)
    } else {
        match (hex_value(b1), hex_value(b2)) {
            (Some(h), Some(l)) => Some((h * 16 + l) as u8),
            _ => None,
        }
    }
}

/// Spec: a UTF-8 continuation byte.
pub open spec fn is_utf8_continuation(b: u8) -> bool {
    0x80 <= b <= 0xBF
}

/// Outcome of percent-decoding the bytes of a URI component.
pub enum PercentDecoding {
    /// The decoded bytes.
    Bytes(Seq<u8>),
    /// A `%` is followed by two characters that are not a hexadecimal byte.
    InvalidEscape,
    /// A `%` is followed by text whose third byte splits a multi-byte character.
    SplitsChar,
}

/// Spec: prepend decoded bytes to an outcome.
pub open spec fn prepend_decoded(prefix: Seq<u8>, d: PercentDecoding) -> PercentDecoding {
    match d {
        PercentDecoding::Bytes(r) => PercentDecoding::Bytes(prefix + r),
        other => other,
    }
}

/// Spec: percent-decoding, scanning left to right; `%XX` is only decoded when
/// at least one byte follows it or it ends the text.
pub open spec fn percent_decoding(b: Seq<u8>) -> PercentDecoding
    decreases b.len(),
{
    if b.len() == 0 {
        PercentDecoding::Bytes(seq![])
    } else if b[0] == 0x25 && b.len() > 2 {
        if b.len() > 3 && is_utf8_continuation(b[3]) {
            PercentDecoding::SplitsChar
        } else {
            match escape_value(b[1], b[2]) {
                None => PercentDecoding::InvalidEscape,
                Some(v) => prepend_decoded(seq![v], percent_decoding(b.subrange(3, b.len() as int))),
            }
        }
    } else {
        prepend_decoded(seq![b[0]], percent_decoding(b.subrange(1, b.len() as int)))
    }
}

/// Converts bytes to a `String` (`String::from_utf8`); the error text is the
/// standard library's message, which is not stated here.
#[verifier::external_body]
fn string_from_utf8(bytes: Vec<u8>) -> (r: Result<String, String>)
    ensures
        r is Ok <==> valid_utf8(bytes@),
        r matches Ok(s) ==> s@ == decode_utf8(bytes@),
{
    match String::from_utf8(bytes) {
        Ok(s) => Ok(s),
        Err(e) => Err(e.to_string()),
    }
}

fn hex_value_exec(b: u8) -> (r: Option<u8>)
    ensures
        r == hex_value(b),
{
    if 0x30 <= b && b <= 0x39 {
        Some(b - 0x30)
    } else if 0x61 <= b && b <= 0x66 {
        Some(b - 0x61 + 10)
    } else if 0x41 <= b && b <= 0x46 {
        Some(b - 0x41 + 10)
    } else {
        None
    }
}

fn escape_value_exec(b1: u8, b2: u8) -> (r: Option<u8>)
    ensures
        r == escape_value(b1, b2),
{
    if b1 == 0x2B {
        hex_value_exec(b2)
    } else {
        match (hex_value_exec(b1), hex_value_exec(b2)) {
            (Some(h), Some(l)) => Some(h * 16 + l),
            _ => None,
        }
    }
}

/// Spec: what decoding the text `s` yields.
pub open spec fn percent_decode_result(s: Seq<char>) -> Option<Seq<char>> {
    match percent_decoding(encode_utf8(s)) {
        PercentDecoding::Bytes(v) => if valid_utf8(v) {
            Some(decode_utf8(v))
        } else {
            None
        },
        _ => None,
    }
}

/// Decodes `%XX` escapes in `input` and reads the result as UTF-8.
fn percent_decode(input: &str) -> (r: Result<String, String>)
    requires
        !(percent_decoding(input.spec_bytes()) is SplitsChar),
    ensures
        r is Ok <==> percent_decode_result(input@) is Some,
        r matches Ok(s) ==> Some(s@) == percent_decode_result(input@),
{
    let bytes = input.as_bytes();
    let n = bytes.len();
    let mut out: Vec<u8> = Vec::new();
    let mut i: usize = 0;
    proof {
        assert(bytes@.subrange(0, n as int) =~= bytes@);
    }
    while i < n
        invariant
            i <= n,
            n == bytes@.len(),
            bytes@ == input.spec_bytes(),
            !(percent_decoding(bytes@) is SplitsChar),
            percent_decoding(bytes@) == prepend_decoded(
                out@,
                percent_decoding(bytes@.subrange(i as int, n as int)),
            ),
        decreases n - i,
    {
        let ghost rest = bytes@.subrange(i as int, n as int);
        if bytes[i] == 0x25 && n - i > 2 {
            match escape_value_exec(bytes[i + 1], bytes[i + 2]) {
                Some(v) => {
                    proof {
                        assert(rest.subrange(3, rest.len() as int) =~= bytes@.subrange(
                            i + 3,
                            n as int,
                        ));
                        if rest.len() > 3 && is_utf8_continuation(rest[3]) {
                            assert(percent_decoding(bytes@) is SplitsChar);
                        }
                        assert(out@.push(v) =~= out@ + seq![v]);
                        let d = percent_decoding(bytes@.subrange(i + 3, n as int));
                        match d {
                            PercentDecoding::Bytes(r) => {
                                assert(out@ + (seq![v] + r) =~= out@.push(v) + r);
                            },
                            _ => {},
                        }
                    }
                    out.push(v);
                    i += 3;
                },
                None => {
                    proof {
                        if rest.len() > 3 && is_utf8_continuation(rest[3]) {
                            assert(percent_decoding(bytes@) is SplitsChar);
                        }
                    }
                    return Err("invalid digit found in string".to_owned());
                },
            }
        } else {
            proof {
                assert(rest.subrange(1, rest.len() as int) =~= bytes@.subrange(i + 1, n as int));
                let d = percent_decoding(bytes@.subrange(i + 1, n as int));
                match d {
                    PercentDecoding::Bytes(r) => {
                        assert(out@ + (seq![rest[0]] + r) =~= out@.push(rest[0]) + r);
                    },
                    _ => {},
                }
            }
            out.push(bytes[i]);
            i += 1;
        }
    }
    proof {
        assert(out@ + seq![] =~= out@);
    }
    string_from_utf8(out)
}

} // verus!

verus! {

/// Spec: `visioflow:`.
pub open spec fn scheme_prefix() -> Seq<char> {
    seq!['v', 'i', 's', 'i', 'o', 'f', 'l', 'o', 'w', ':']
}

/// Spec: `notify-copy?`.
pub open spec fn notify_copy_prefix() -> Seq<char> {
    seq!['n', 'o', 't', 'i', 'f', 'y', '-', 'c', 'o', 'p', 'y', '?']
}

/// Spec: the `path` query key.
pub open spec fn path_key() -> Seq<char> {
    seq!['p', 'a', 't', 'h']
}

/// Spec: the raw value of the first `path=` pair of a `&`-separated query;
/// a pair without `=` before it ends the search.
pub open spec fn query_path_value(q: Seq<char>) -> Option<Seq<char>>
    decreases q.len(),
{
    let pair_end = match first_index_of(q, '&') {
        Some(k) => k,
        None => q.len() as int,
    };
    if 0 <= pair_end <= q.len() {
        let pair = q.subrange(0, pair_end);
        match first_index_of(pair, '=') {
            None => None,
            Some(e) => if pair.take(e) == path_key() {
                Some(pair.skip(e + 1))
            } else if pair_end < q.len() {
                query_path_value(q.skip(pair_end + 1))
            } else {
                None
            },
        }
    } else {
        None
    }
}

/// Spec: the raw path value of a `visioflow:notify-copy?...` argument.
pub open spec fn activation_path_value(arg: Seq<char>) -> Option<Seq<char>> {
    if arg.len() >= 10 && arg.take(10) == scheme_prefix() {
        let rest = arg.skip(10);
        if rest.len() >= 12 && rest.take(12) == notify_copy_prefix() {
            query_path_value(rest.skip(12))
        } else {
            None
        }
    } else {
        None
    }
}

/// Spec: decoding the path value of `arg` does not cut a multi-byte character
/// (on such input the activation parser would panic).
pub open spec fn activation_decodes_cleanly(arg: Seq<char>) -> bool {
    match activation_path_value(arg) {
        Some(v) => !(percent_decoding(encode_utf8(v)) is SplitsChar),
        None => true,
    }
}

/// Spec: the staging path named by a protocol activation argument.
pub open spec fn toast_activation_path(arg: Seq<char>) -> Option<Seq<char>> {
    match activation_path_value(arg) {
        Some(v) => percent_decode_result(v),
        None => None,
    }
}

/// The raw (still percent-encoded) path value of an activation argument.
fn activation_raw_path(arg: &str) -> (r: Option<String>)
    ensures
        match activation_path_value(arg@) {
            Some(v) => r matches Some(s) && s@ == v,
            None => r is None,
        },
{
    let cs = chars_of(arg);
    let n = cs.len();
    if !has_prefix_at(&cs, 0, &['v', 'i', 's', 'i', 'o', 'f', 'l', 'o', 'w', ':']) {
        proof {
            if n >= 10 {
                assert(arg@.take(10) =~= cs@.subrange(0, 10));
            }
        }
        return None;
    }
    if !has_prefix_at(&cs, 10, &['n', 'o', 't', 'i', 'f', 'y', '-', 'c', 'o', 'p', 'y', '?']) {
        proof {
            assert(arg@.take(10) =~= cs@.subrange(0, 10));
            if n >= 22 {
                assert(arg@.skip(10).take(12) =~= cs@.subrange(10, 22));
            }
        }
        return None;
    }
    let ghost query = arg@.skip(10).skip(12);
    proof {
        assert(arg@.take(10) =~= cs@.subrange(0, 10));
        assert(arg@.skip(10).take(12) =~= cs@.subrange(10, 22));
        assert(query =~= cs@.subrange(22, n as int));
    }
    let mut pos: usize = 22;
    loop
        invariant
            22 <= pos <= n,
            n == cs@.len(),
            cs@ == arg@,
            activation_path_value(arg@) == query_path_value(cs@.subrange(pos as int, n as int)),
        decreases n - pos,
    {
        let ghost q = cs@.subrange(pos as int, n as int);
        let amp = find_char_in(&cs, '&', pos, n);
        let pair_end = match amp {
            Some(k) => k,
            None => n,
        };
        proof {
            lemma_first_index_of(q, '&');
            assert(cs@.subrange(pos as int, pair_end as int) =~= q.subrange(0, pair_end - pos));
        }
        let eq = find_char_in(&cs, '=', pos, pair_end);
        match eq {
            None => {
                return None;
            },
            Some(e) => {
                let ghost pair = q.subrange(0, pair_end - pos);
                proof {
                    lemma_first_index_of(pair, '=');
                }
                let is_path = e - pos == 4 && has_prefix_at(&cs, pos, &['p', 'a', 't', 'h']);
                proof {
                    assert(pair.take(e - pos) =~= cs@.subrange(pos as int, e as int));
                    if e - pos == 4 {
                        assert(cs@.subrange(pos as int, pos + 4) =~= cs@.subrange(
                            pos as int,
                            e as int,
                        ));
                    }
                }
                if is_path {
                    let value = string_from_range(&cs, e + 1, pair_end);
                    proof {
                        assert(pair.skip(e - pos + 1) =~= cs@.subrange(e + 1, pair_end as int));
                    }
                    return Some(value);
                }
                match amp {
                    Some(k) => {
                        proof {
                            assert(q.skip(pair_end - pos + 1) =~= cs@.subrange(k + 1, n as int));
                        }
                        pos = k + 1;
                    },
                    None => {
                        return None;
                    },
                }
            },
        }
    }
}

/// True when percent-decoding `input` meets a `%` escape whose third byte
/// falls inside a multi-byte character.
fn percent_escape_splits_char(input: &str) -> (r: bool)
    ensures
        r == (percent_decoding(input.spec_bytes()) is SplitsChar),
{
    let bytes = input.as_bytes();
    let n = bytes.len();
    let mut i: usize = 0;
    proof {
        assert(bytes@.subrange(0, n as int) =~= bytes@);
    }
    while i < n
        invariant
            i <= n,
            n == bytes@.len(),
            bytes@ == input.spec_bytes(),
            (percent_decoding(bytes@) is SplitsChar) == (percent_decoding(
                bytes@.subrange(i as int, n as int),
            ) is SplitsChar),
        decreases n - i,
    {
        let ghost rest = bytes@.subrange(i as int, n as int);
        if bytes[i] == 0x25 && n - i > 2 {
            if n - i > 3 && 0x80 <= bytes[i + 3] && bytes[i + 3] < 0xC0 {
                return true;
            }
            match escape_value_exec(bytes[i + 1], bytes[i + 2]) {
                Some(v) => {
                    proof {
                        assert(rest.subrange(3, rest.len() as int) =~= bytes@.subrange(
                            i + 3,
                            n as int,
                        ));
                    }
                    i += 3;
                },
                None => {
                    return false;
                },
            }
        } else {
            proof {
                assert(rest.subrange(1, rest.len() as int) =~= bytes@.subrange(i + 1, n as int));
            }
            i += 1;
        }
    }
    false
}

/// Whether [`parse_toast_protocol_activation`] can decode `arg`: false when a
/// `%` escape in its path value cuts a multi-byte character.
pub fn toast_activation_decodes_cleanly(arg: &str) -> (r: bool)
    ensures
        r == activation_decodes_cleanly(arg@),
{
    match activation_raw_path(arg) {
        Some(value) => !percent_escape_splits_char(value.as_str()),
        None => true,
    }
}

/// Parse a `visioflow:notify-copy?path=...` activation argument into a staging file path.
pub fn parse_toast_protocol_activation(arg: &str) -> (path: Option<String>)
    requires
        activation_decodes_cleanly(arg@),
    ensures
        path is Some <==> toast_activation_path(arg@) is Some,
        path matches Some(p) ==> Some(p@) == toast_activation_path(arg@),
{
    match activation_raw_path(arg) {
        Some(value) => match percent_decode(value.as_str()) {
            Ok(p) => Some(p),
            Err(_) => None,
        },
        None => None,
    }
}

/// The activation argument of a toast protocol launch: the command line
/// (program name first) must hold exactly one argument.
pub fn toast_activation_argument(args: &[String]) -> (r: Option<String>)
    ensures
        args@.len() == 2 ==> r == Some(args@[1]),
        args@.len() != 2 ==> r is None,
{
    if args.len() == 2 {
        Some(args[1].clone())
    } else {
        None
    }
}

} // verus!

verus! {

/// Spec: the bytes of an ASCII character sequence.
pub open spec fn ascii_bytes(cs: Seq<char>) -> Seq<u8> {
    Seq::new(cs.len(), |i: int| cs[i] as u8)
}

/// Spec: a character that percent-encoding can produce.
pub open spec fn is_encoded_char(c: char) -> bool {
    ||| exists|b: u8| is_unreserved_byte(b) && c == b as char
    ||| c == '%'
    ||| exists|n: u8| n < 16 && c == hex_upper(n)
}

proof fn lemma_percent_encoded_concat(a: Seq<u8>, c: Seq<u8>)
    ensures
        percent_encoded(a + c) == percent_encoded(a) + percent_encoded(c),
    decreases c.len(),
{
    if c.len() == 0 {
        assert(a + c =~= a);
        assert(percent_encoded(a) + percent_encoded(c) =~= percent_encoded(a));
    } else {
        lemma_percent_encoded_concat(a, c.drop_last());
        assert((a + c).drop_last() =~= a + c.drop_last());
        assert((a + c).last() == c.last());
        assert(percent_encoded(a + c) =~= percent_encoded(a) + percent_encoded(c.drop_last())
            + percent_encode_byte(c.last()));
    }
}

proof fn lemma_percent_encoded_front(b: Seq<u8>)
    requires
        b.len() > 0,
    ensures
        percent_encoded(b) == percent_encode_byte(b[0]) + percent_encoded(b.drop_first()),
{
    assert(b =~= seq![b[0]] + b.drop_first());
    lemma_percent_encoded_concat(seq![b[0]], b.drop_first());
    assert(seq![b[0]].drop_last() =~= Seq::<u8>::empty());
    assert(percent_encoded(Seq::<u8>::empty()) =~= Seq::<char>::empty());
    assert(percent_encoded(seq![b[0]]) =~= percent_encode_byte(b[0]));
}

proof fn lemma_encoded_chars(b: Seq<u8>)
    ensures
        forall|i: int|
            0 <= i < percent_encoded(b).len() ==> is_encoded_char(#[trigger] percent_encoded(b)[i]),
    decreases b.len(),
{
    if b.len() > 0 {
        lemma_encoded_chars(b.drop_last());
        let prev = percent_encoded(b.drop_last());
        let last = percent_encode_byte(b.last());
        assert forall|i: int| 0 <= i < percent_encoded(b).len() implies is_encoded_char(
            #[trigger] percent_encoded(b)[i],
        ) by {
            if i < prev.len() {
                assert(percent_encoded(b)[i] == prev[i]);
            } else {
                assert(percent_encoded(b)[i] == last[i - prev.len()]);
                if is_unreserved_byte(b.last()) {
                    assert(is_unreserved_byte(b.last()) && last[0] == b.last() as char);
                } else {
                    assert(((b.last() / 16) as u8) < 16);
                    assert(((b.last() % 16) as u8) < 16);
                }
            }
        }
    }
}

proof fn lemma_encoded_char_facts(c: char)
    requires
        is_encoded_char(c),
    ensures
        c != '&',
        c != '=',
        (c as u32) < 0x80,
{
}

proof fn lemma_hex_roundtrip(n: u8)
    requires
        n < 16,
    ensures
        hex_value(hex_upper(n) as u8) == Some(n),
        hex_upper(n) as u8 != 0x2B,
        (hex_upper(n) as u32) < 0x80,
{
}

proof fn lemma_decode_encoded(b: Seq<u8>)
    ensures
        percent_decoding(ascii_bytes(percent_encoded(b))) == PercentDecoding::Bytes(b),
    decreases b.len(),
{
    if b.len() == 0 {
        assert(ascii_bytes(percent_encoded(b)) =~= Seq::<u8>::empty());
        assert(b =~= Seq::<u8>::empty());
    } else {
        let rest = b.drop_first();
        lemma_percent_encoded_front(b);
        lemma_decode_encoded(rest);
        let head = percent_encode_byte(b[0]);
        let tail = percent_encoded(rest);
        let all = ascii_bytes(percent_encoded(b));
        assert(percent_encoded(b) == head + tail);
        lemma_encoded_chars(rest);
        if is_unreserved_byte(b[0]) {
            assert(all[0] == b[0]);
            assert(all.subrange(1, all.len() as int) =~= ascii_bytes(tail));
            assert(all[0] != 0x25);
            assert(percent_decoding(all) == prepend_decoded(
                seq![b[0]],
                percent_decoding(all.subrange(1, all.len() as int)),
            ));
            assert(seq![b[0]] + rest =~= b);
        } else {
            let n1 = (b[0] / 16) as u8;
            let n2 = (b[0] % 16) as u8;
            lemma_hex_roundtrip(n1);
            lemma_hex_roundtrip(n2);
            assert(all[0] == 0x25);
            assert(all[1] == hex_upper(n1) as u8);
            assert(all[2] == hex_upper(n2) as u8);
            assert(n1 * 16 + n2 == b[0]);
            if all.len() > 3 {
                assert(all[3] == tail[0] as u8);
                assert(is_encoded_char(tail[0]));
                lemma_encoded_char_facts(tail[0]);
            }
            assert(all.subrange(3, all.len() as int) =~= ascii_bytes(tail));
            assert(escape_value(all[1], all[2]) == Some(b[0]));
            assert(all.len() > 2);
            assert(percent_decoding(all) == prepend_decoded(
                seq![b[0]],
                percent_decoding(all.subrange(3, all.len() as int)),
            ));
            assert(seq![b[0]] + rest =~= b);
        }
    }
}

/// A toast Copy URI names its staging path again: parsing the activation
/// argument built for any path gives that path back, without failing.
pub proof fn law_copy_uri_roundtrip(path: Seq<char>)
    ensures
        activation_decodes_cleanly(copy_protocol_uri(path)),
        toast_activation_path(copy_protocol_uri(path)) == Some(path),
{
    broadcast use vstd::utf8::group_utf8_lib;

    let bytes = encode_utf8(path);
    let enc = percent_encoded(bytes);
    let uri = copy_protocol_uri(path);
    lemma_encoded_chars(bytes);
    assert(uri.take(10) =~= scheme_prefix());
    assert(uri.skip(10).take(12) =~= notify_copy_prefix());
    let q = uri.skip(10).skip(12);
    assert(q =~= path_key().push('=') + enc);
    assert forall|j: int| 0 <= j < q.len() implies q[j] != '&' by {
        if j >= 5 {
            assert(q[j] == enc[j - 5]);
            lemma_encoded_char_facts(enc[j - 5]);
        }
    }
    crate::text::lemma_first_index_of_absent(q, '&');
    assert(q.subrange(0, q.len() as int) =~= q);
    crate::text::lemma_first_index_of_unique(q, '=', 4);
    assert(q.take(4) =~= path_key());
    assert(q.skip(5) =~= enc);
    assert(activation_path_value(uri) == Some(enc));
    assert forall|i: int| 0 <= i < enc.len() implies '\0' <= #[trigger] enc[i] <= '\u{7f}' by {
        lemma_encoded_char_facts(enc[i]);
    }
    assert(is_ascii_chars(enc));
    assert(encode_utf8(enc) =~= ascii_bytes(enc));
    lemma_decode_encoded(bytes);
}

} // verus!

verus! {

/// Windows App User Model ID used for toast identity (must match Start Menu shortcut).
pub const TOAST_APP_ID: &'static str = "VisioFlow.VisioFlowQR";

/// Stub COM CLSID on the Start Menu shortcut (required for unpackaged toast activation).
pub const TOAST_ACTIVATOR_CLSID: &'static str = "{A7F3C2E1-5B4D-4A9E-8F6C-1D2E3F4A5B6C}";

/// Hint printed when toast APIs succeed but Windows may suppress the popup.
pub const TOAST_SUPPRESSION_HINT: &'static str = "if no toast appears, open Windows Settings > System > Notifications and enable notifications for VisioFlow (also check Focus Assist)";

/// Windows GUI-subsystem helper next to `visioflow.exe` for toast Copy activation.
pub const TOAST_ACTIVATOR_EXE_NAME: &'static str = "visioflow-toast.exe";

/// Spec: `visioflow-toast.exe`.
pub open spec fn activator_exe_name() -> Seq<char> {
    seq![
        'v', 'i', 's', 'i', 'o', 'f', 'l', 'o', 'w', '-', 't', 'o', 'a', 's', 't', '.', 'e', 'x',
        'e',
    ]
}

/// Spec: the toast activator beside the main executable.
pub open spec fn activator_exe_path(main_exe: Seq<char>) -> Seq<char> {
    match parent(main_exe) {
        Some(dir) => join(dir, activator_exe_name()),
        None => activator_exe_name(),
    }
}

/// Path to the headless toast activator shipped beside the main CLI binary.
pub fn toast_activator_exe_path(main_exe: &str) -> (path: String)
    ensures
        path@ == activator_exe_path(main_exe@),
{
    proof {
        reveal_strlit("visioflow-toast.exe");
        assert(is_plain_name(activator_exe_name()));
    }
    assert(TOAST_ACTIVATOR_EXE_NAME@ == activator_exe_name());
    match path_parent(main_exe) {
        Some(dir) => {
            let p = path_join(dir.as_str(), TOAST_ACTIVATOR_EXE_NAME);
            assert(p@ == join(dir@, activator_exe_name()));
            p
        },
        None => TOAST_ACTIVATOR_EXE_NAME.to_owned(),
    }
}

/// Spec: the registry `open\command` value for protocol activation.
pub open spec fn protocol_registry_command(exe_path: Seq<char>) -> Seq<char> {
    seq!['"'] + activator_exe_path(exe_path) + seq!['"', ' ', '"', '%', '1', '"']
}

/// Registry `open\command` value for `visioflow:` protocol activation without a console flash.
pub fn toast_protocol_registry_command(exe_path: &str) -> (command: String)
    ensures
        command@ == protocol_registry_command(exe_path@),
{
    let mut command = String::new();
    push_char(&mut command, '"');
    let activator = toast_activator_exe_path(exe_path);
    command.append(activator.as_str());
    command.append("\" \"%1\"");
    proof {
        reveal_strlit("\" \"%1\"");
        assert(command@ =~= protocol_registry_command(exe_path@));
    }
    command
}

/// Spec: the Start Menu folder below the user's `APPDATA` directory.
pub open spec fn shortcut_dir_under(appdata: Seq<char>) -> Seq<char> {
    appdata + seq![
        '\\', 'M', 'i', 'c', 'r', 'o', 's', 'o', 'f', 't', '\\', 'W', 'i', 'n', 'd', 'o', 'w', 's',
        '\\', 'S', 't', 'a', 'r', 't', ' ', 'M', 'e', 'n', 'u', '\\', 'P', 'r', 'o', 'g', 'r', 'a',
        'm', 's', '\\', 'V', 'i', 's', 'i', 'o', 'F', 'l', 'o', 'w',
    ]
}

/// Spec: `VisioFlow.lnk`.
pub open spec fn shortcut_name() -> Seq<char> {
    seq!['V', 'i', 's', 'i', 'o', 'F', 'l', 'o', 'w', '.', 'l', 'n', 'k']
}

/// Start Menu folder for the toast registration shortcut, given the value of
/// the `APPDATA` environment variable (or the error reading it).
pub fn toast_shortcut_dir(appdata: Result<String, String>) -> (dir: Result<String, String>)
    ensures
        appdata matches Ok(a) ==> dir matches Ok(d) && d@ == shortcut_dir_under(a@),
        appdata matches Err(e) ==> dir == Err::<String, String>(e),
{
    match appdata {
        Ok(a) => {
            let mut d = a;
            d.append("\\Microsoft\\Windows\\Start Menu\\Programs\\VisioFlow");
            proof {
                reveal_strlit("\\Microsoft\\Windows\\Start Menu\\Programs\\VisioFlow");
            }
            Ok(d)
        },
        Err(e) => Err(e),
    }
}

/// Full path to the Start Menu shortcut that registers the toast AppUserModelID.
pub fn toast_shortcut_path(appdata: Result<String, String>) -> (path: Result<String, String>)
    ensures
        appdata matches Ok(a) ==> path matches Ok(p) && p@ == join(
            shortcut_dir_under(a@),
            shortcut_name(),
        ),
        appdata matches Err(e) ==> path == Err::<String, String>(e),
{
    match toast_shortcut_dir(appdata) {
        Ok(dir) => {
            proof {
                reveal_strlit("VisioFlow.lnk");
                assert("VisioFlow.lnk"@ == shortcut_name());
                assert(is_plain_name(shortcut_name()));
                assert(is_plain_name("VisioFlow.lnk"@));
            }
            Ok(path_join(dir.as_str(), "VisioFlow.lnk"))
        },
        Err(e) => Err(e),
    }
}

/// Spec: an existing shortcut targets a different executable; the canonical
/// forms are compared when both paths could be resolved on disk.
pub open spec fn target_stale(
    stored: Seq<char>,
    current: Seq<char>,
    stored_canonical: Option<Seq<char>>,
    current_canonical: Option<Seq<char>>,
) -> bool {
    match (stored_canonical, current_canonical) {
        (Some(a), Some(b)) => !paths_equal(a, b),
        _ => !paths_equal(stored, current),
    }
}

/// Returns true when an existing shortcut targets a different executable.
/// `stored_canonical` and `current_canonical` are the resolved forms of the
/// two paths, where they exist on disk.
pub fn shortcut_target_stale(
    stored_target: &str,
    current_exe: &str,
    stored_canonical: Option<String>,
    current_canonical: Option<String>,
) -> (stale: bool)
    ensures
        stale == target_stale(
            stored_target@,
            current_exe@,
            match stored_canonical {
                Some(s) => Some(s@),
                None => None,
            },
            match current_canonical {
                Some(s) => Some(s@),
                None => None,
            },
        ),
{
    match (stored_canonical, current_canonical) {
        (Some(a), Some(b)) => !path_eq(a.as_str(), b.as_str()),
        _ => !path_eq(stored_target, current_exe),
    }
}

} // verus!

verus! {

/// Spec: filename prefix for temp files staging toast copy payloads.
pub open spec fn staging_prefix() -> Seq<char> {
    seq![
        'v', 'i', 's', 'i', 'o', 'f', 'l', 'o', 'w', '-', 't', 'o', 'a', 's', 't', '-', 'c', 'o',
        'p', 'y', '-',
    ]
}

/// Spec: `.txt`.
pub open spec fn txt_suffix() -> Seq<char> {
    seq!['.', 't', 'x', 't']
}

/// Spec: the staging file name for process `pid` and sequence number `id`.
pub open spec fn staging_file_name(pid: nat, id: nat) -> Seq<char> {
    staging_prefix() + decimal(pid) + seq!['-'] + decimal(id) + txt_suffix()
}

/// Spec: the last component of `path` is a staging file name: the staging
/// prefix, then anything, then `.txt`.
pub open spec fn is_staging_name(path: Seq<char>) -> bool {
    match file_name(path) {
        None => false,
        Some(name) => {
            &&& name.len() >= 21
            &&& name.take(21) == staging_prefix()
            &&& name.len() >= 4
            &&& name.skip(name.len() - 4) == txt_suffix()
        },
    }
}

/// Spec: the view of an optional string.
pub open spec fn opt_string_view(o: Option<String>) -> Option<Seq<char>> {
    match o {
        Some(s) => Some(s@),
        None => None,
    }
}

/// Spec: the canonical form of a path where one was found, the path itself otherwise.
pub open spec fn normalized(raw: Seq<char>, canonical: Option<Seq<char>>) -> Seq<char> {
    match canonical {
        Some(c) => c,
        None => raw,
    }
}

/// Spec: the code of `c` with an ASCII upper-case letter made lower case.
pub open spec fn ascii_lower_code(c: char) -> u32 {
    if 'A' <= c && c <= 'Z' {
        ((c as u32) + 32) as u32
    } else {
        c as u32
    }
}

/// Spec: the texts are equal when ASCII letters are compared without case.
pub open spec fn eq_ignore_ascii_case(a: Seq<char>, b: Seq<char>) -> bool {
    a.len() == b.len() && forall|i: int| 0 <= i < a.len() ==> ascii_lower_code(a[i]) == ascii_lower_code(b[i])
}

/// Spec: `path` is a staging file directly inside the temp directory
/// `temp_dir`, given the canonical forms found for its parent and for the
/// temp directory: the parent's text and the temp directory's text, each in
/// its canonical form where it has one, agree up to ASCII case.
pub open spec fn is_staging_path(
    path: Seq<char>,
    temp_dir: Seq<char>,
    parent_canonical: Option<Seq<char>>,
    temp_canonical: Option<Seq<char>>,
) -> bool {
    &&& is_staging_name(path)
    &&& match parent(path) {
        None => false,
        Some(p) => eq_ignore_ascii_case(
            normalized(p, parent_canonical),
            normalized(temp_dir, temp_canonical),
        ),
    }
}

/// Spec: `canonical` is what `canonicalize` may report for the path `raw`.
pub open spec fn canonical_outcome<F: Fn(&str) -> Option<String>>(
    canonicalize: F,
    raw: Seq<char>,
    canonical: Option<Seq<char>>,
) -> bool {
    exists|s: &str, out: Option<String>|
        s@ == raw && #[trigger] call_ensures(canonicalize, (s,), out) && opt_string_view(out)
            == canonical
}

fn ascii_lower_code_exec(c: char) -> (r: u32)
    ensures
        r == ascii_lower_code(c),
{
    let x = c as u32;
    if 'A' <= c && c <= 'Z' {
        x + 32
    } else {
        x
    }
}

/// True when two directories are the same temp directory: their texts, each
/// in its canonical form where one was found, agree up to ASCII case.
pub fn same_temp_directory(
    left: &str,
    right: &str,
    left_canonical: Option<String>,
    right_canonical: Option<String>,
) -> (r: bool)
    ensures
        r == eq_ignore_ascii_case(
            normalized(left@, opt_string_view(left_canonical)),
            normalized(right@, opt_string_view(right_canonical)),
        ),
{
    let l = match &left_canonical {
        Some(c) => chars_of(c.as_str()),
        None => chars_of(left),
    };
    let r = match &right_canonical {
        Some(c) => chars_of(c.as_str()),
        None => chars_of(right),
    };
    proof {
        assert(l@ == normalized(left@, opt_string_view(left_canonical)));
        assert(r@ == normalized(right@, opt_string_view(right_canonical)));
    }
    if l.len() != r.len() {
        return false;
    }
    let mut i: usize = 0;
    while i < l.len()
        invariant
            i <= l.len() == r.len(),
            l@ == normalized(left@, opt_string_view(left_canonical)),
            r@ == normalized(right@, opt_string_view(right_canonical)),
            forall|j: int| 0 <= j < i ==> ascii_lower_code(l@[j]) == ascii_lower_code(r@[j]),
        decreases l.len() - i,
    {
        if ascii_lower_code_exec(l[i]) != ascii_lower_code_exec(r[i]) {
            proof {
                assert(ascii_lower_code(l@[i as int]) != ascii_lower_code(r@[i as int]));
                assert(!eq_ignore_ascii_case(l@, r@));
            }
            return false;
        }
        i += 1;
    }
    true
}

/// File name of the temp file staging a toast copy payload.
pub fn toast_copy_staging_file_name(pid: u32, id: u64) -> (name: String)
    ensures
        name@ == staging_file_name(pid as nat, id as nat),
{
    let mut name = "visioflow-toast-copy-".to_owned();
    proof {
        reveal_strlit("visioflow-toast-copy-");
        reveal_strlit(".txt");
    }
    push_decimal(&mut name, pid as u64);
    push_char(&mut name, '-');
    push_decimal(&mut name, id);
    name.append(".txt");
    proof {
        assert(name@ =~= staging_file_name(pid as nat, id as nat));
    }
    name
}

/// Path of the temp file staging a toast copy payload inside `temp_dir`.
pub fn toast_copy_staging_path(temp_dir: &str, pid: u32, id: u64) -> (path: String)
    ensures
        path@ == join(temp_dir@, staging_file_name(pid as nat, id as nat)),
{
    let name = toast_copy_staging_file_name(pid, id);
    proof {
        lemma_staging_name_plain(pid as nat, id as nat);
    }
    path_join(temp_dir, name.as_str())
}

/// Returns true when `path` is a VisioFlow toast copy staging file directly
/// under the temp directory `temp_dir`. `canonicalize` resolves a path on
/// disk; it is asked for the parent and then for the temp directory, and
/// only once the file name has passed.
pub fn is_toast_copy_staging_path<F: Fn(&str) -> Option<String>>(
    path: &str,
    temp_dir: &str,
    canonicalize: F,
) -> (r: bool)
    requires
        forall|s: &str| call_requires(canonicalize, (s,)),
    ensures
        !is_staging_name(path@) || parent(path@) is None ==> !r,
        is_staging_name(path@) && parent(path@) is Some ==> exists|
            a: Option<Seq<char>>,
            b: Option<Seq<char>>,
        |
            canonical_outcome(canonicalize, parent(path@).unwrap(), a) && canonical_outcome(
                canonicalize,
                temp_dir@,
                b,
            ) && r == is_staging_path(path@, temp_dir@, a, b),
{
    let name = match path_file_name(path) {
        Some(n) => n,
        None => return false,
    };
    let cs = chars_of(name.as_str());
    let n = cs.len();
    if !has_prefix_at(&cs, 0, &['v', 'i', 's', 'i', 'o', 'f', 'l', 'o', 'w', '-', 't', 'o', 'a', 's', 't', '-', 'c', 'o', 'p', 'y', '-']) {
        proof {
            if n >= 21 {
                assert(cs@.take(21) =~= cs@.subrange(0, 21));
            }
        }
        return false;
    }
    proof {
        assert(cs@.take(21) =~= cs@.subrange(0, 21));
    }
    if !has_prefix_at(&cs, n - 4, &['.', 't', 'x', 't']) {
        proof {
            assert(cs@.skip(n - 4) =~= cs@.subrange(n - 4, n as int));
        }
        return false;
    }
    proof {
        assert(cs@.skip(n - 4) =~= cs@.subrange(n - 4, n as int));
        assert(is_staging_name(path@));
    }
    match path_parent(path) {
        None => false,
        Some(p) => {
            let ps = p.as_str();
            let pc = canonicalize(ps);
            let tc = canonicalize(temp_dir);
            let ghost a = opt_string_view(pc);
            let ghost b = opt_string_view(tc);
            proof {
                assert(call_ensures(canonicalize, (ps,), pc));
                assert(call_ensures(canonicalize, (temp_dir,), tc));
                assert(canonical_outcome(canonicalize, parent(path@).unwrap(), a));
                assert(canonical_outcome(canonicalize, temp_dir@, b));
            }
            let r = same_temp_directory(ps, temp_dir, pc, tc);
            proof {
                assert(r == is_staging_path(path@, temp_dir@, a, b));
            }
            r
        },
    }
}

proof fn lemma_decimal_digits(n: nat)
    ensures
        decimal(n).len() > 0,
        forall|j: int| 0 <= j < decimal(n).len() ==> '0' <= #[trigger] decimal(n)[j] <= '9',
    decreases n,
{
    if n >= 10 {
        lemma_decimal_digits(n / 10);
        assert forall|j: int| 0 <= j < decimal(n).len() implies '0' <= #[trigger] decimal(
            n,
        )[j] <= '9' by {
            if j < decimal(n / 10).len() {
                assert(decimal(n)[j] == decimal(n / 10)[j]);
            }
        }
    }
}

/// A staging file name is a single plain path component.
proof fn lemma_staging_name_plain(pid: nat, id: nat)
    ensures
        is_plain_name(staging_file_name(pid, id)),
{
    let name = staging_file_name(pid, id);
    lemma_decimal_digits(pid);
    lemma_decimal_digits(id);
    let dp = decimal(pid);
    let di = decimal(id);
    assert forall|j: int| 0 <= j < name.len() implies !is_sep(name[j]) by {
        if j < 21 {
            assert(name[j] == staging_prefix()[j]);
        } else if j < 21 + dp.len() {
            assert(name[j] == dp[j - 21]);
        } else if j == 21 + dp.len() {
        } else if j < 22 + dp.len() + di.len() {
            assert(name[j] == di[j - 22 - dp.len()]);
        } else {
            assert(name[j] == txt_suffix()[j - 22 - dp.len() - di.len()]);
        }
    }
    assert(name[0] == 'v');
    assert(name[1] == 'i');
    assert(name != seq!['.']);
    assert(name != seq!['.', '.']);
}

/// A staged toast payload is recognised as such: for any process and
/// sequence number and a temp directory that does not start with two
/// separators (so has no UNC, device or verbatim prefix), the path built
/// has a staging file name, its parent is the temp directory component by
/// component, and it passes the staging check whenever the parent and the
/// temp directory resolve to the same canonical form.
pub proof fn law_staging_path_recognised(temp_dir: Seq<char>, pid: nat, id: nat, canonical: Seq<char>)
    requires
        !(temp_dir.len() >= 2 && is_sep(temp_dir[0]) && is_sep(temp_dir[1])),
    ensures
        is_staging_name(join(temp_dir, staging_file_name(pid, id))),
        parent(join(temp_dir, staging_file_name(pid, id))) matches Some(p) && paths_equal(
            p,
            temp_dir,
        ),
        is_staging_path(
            join(temp_dir, staging_file_name(pid, id)),
            temp_dir,
            Some(canonical),
            Some(canonical),
        ),
{
    let name = staging_file_name(pid, id);
    lemma_staging_name_plain(pid, id);
    crate::paths::lemma_join_file_name(temp_dir, name);
    assert(name.take(21) =~= staging_prefix());
    assert(name.skip(name.len() - 4) =~= txt_suffix());
}

} // verus!

verus! {

/// Spec: the toast XML for `note`, with a Copy action when a staging file is given.
pub open spec fn toast_xml_text(
    title: Seq<char>,
    body: Seq<char>,
    already_copied: bool,
    copy_staging: Option<Seq<char>>,
) -> Seq<char> {
    let visual = "<visual><binding template=\"ToastGeneric\"><text>"@ + xml_escaped(title)
        + "</text><text>"@ + xml_escaped(body) + "</text></binding></visual>"@;
    match copy_staging {
        Some(path) => "<toast>"@ + visual + "<actions><action content=\""@ + xml_escaped(
            copy_action_label(already_copied),
        ) + "\" arguments=\""@ + xml_escaped(copy_protocol_uri(path))
            + "\" activationType=\"protocol\"/></actions>"@ + "</toast>"@,
        None => "<toast>"@ + visual + "</toast>"@,
    }
}

/// The toast without a Copy button shows the escaped title and body; the
/// Copy button only inserts the `<actions>` element (labelled per
/// `already_copied`, activating the copy URI of the staging path) before the
/// closing `</toast>`, leaving the rest as it is.
pub proof fn law_copy_action_only_adds_actions(
    title: Seq<char>,
    body: Seq<char>,
    already_copied: bool,
    path: Seq<char>,
)
    ensures
        toast_xml_text(title, body, already_copied, None) == "<toast>"@
            + "<visual><binding template=\"ToastGeneric\"><text>"@ + xml_escaped(title)
            + "</text><text>"@ + xml_escaped(body) + "</text></binding></visual>"@ + "</toast>"@,
        exists|head: Seq<char>|
            toast_xml_text(title, body, already_copied, None) == head + "</toast>"@
                && #[trigger] toast_xml_text(title, body, already_copied, Some(path)) == head
                + ("<actions><action content=\""@ + xml_escaped(copy_action_label(already_copied))
                + "\" arguments=\""@ + xml_escaped(copy_protocol_uri(path))
                + "\" activationType=\"protocol\"/></actions>"@) + "</toast>"@,
{
    let visual = "<visual><binding template=\"ToastGeneric\"><text>"@ + xml_escaped(title)
        + "</text><text>"@ + xml_escaped(body) + "</text></binding></visual>"@;
    let head = "<toast>"@ + visual;
    let actions = "<actions><action content=\""@ + xml_escaped(copy_action_label(already_copied))
        + "\" arguments=\""@ + xml_escaped(copy_protocol_uri(path))
        + "\" activationType=\"protocol\"/></actions>"@;
    assert(toast_xml_text(title, body, already_copied, None) =~= head + "</toast>"@);
    assert(toast_xml_text(title, body, already_copied, Some(path)) =~= head + actions
        + "</toast>"@);
    assert(toast_xml_text(title, body, already_copied, None) =~= "<toast>"@
        + "<visual><binding template=\"ToastGeneric\"><text>"@ + xml_escaped(title)
        + "</text><text>"@ + xml_escaped(body) + "</text></binding></visual>"@ + "</toast>"@);
}

/// The WinRT toast XML for `note`; `copy_staging` adds the Copy button.
pub fn toast_xml(note: &NativeNotification, copy_staging: Option<&str>) -> (xml: String)
    ensures
        xml@ == toast_xml_text(
            note.title@,
            note.body@,
            note.already_copied,
            match copy_staging {
                Some(p) => Some(p@),
                None => None,
            },
        ),
{
    let mut xml = "<toast>".to_owned();
    xml.append("<visual><binding template=\"ToastGeneric\"><text>");
    xml.append(escape_xml(note.title.as_str()).as_str());
    xml.append("</text><text>");
    xml.append(escape_xml(note.body.as_str()).as_str());
    xml.append("</text></binding></visual>");
    match copy_staging {
        Some(path) => {
            xml.append("<actions><action content=\"");
            xml.append(escape_xml(toast_copy_action_label(note.already_copied)).as_str());
            xml.append("\" arguments=\"");
            xml.append(escape_xml(toast_copy_protocol_uri(path).as_str()).as_str());
            xml.append("\" activationType=\"protocol\"/></actions>");
        },
        None => {},
    }
    xml.append("</toast>");
    proof {
        let visual = "<visual><binding template=\"ToastGeneric\"><text>"@ + xml_escaped(
            note.title@,
        ) + "</text><text>"@ + xml_escaped(note.body@) + "</text></binding></visual>"@;
        match copy_staging {
            Some(path) => {
                assert(xml@ =~= "<toast>"@ + visual + "<actions><action content=\""@
                    + xml_escaped(copy_action_label(note.already_copied)) + "\" arguments=\""@
                    + xml_escaped(copy_protocol_uri(path@))
                    + "\" activationType=\"protocol\"/></actions>"@ + "</toast>"@);
            },
            None => {
                assert(xml@ =~= "<toast>"@ + visual + "</toast>"@);
            },
        }
    }
    xml
}

/// The built-in notification backend where no desktop toast service is
/// wired in: it accepts every notification.
pub fn noop_notification_backend(note: &NativeNotification) -> (r: Result<(), String>)
    ensures
        r is Ok,
{
    Ok(())
}

/// Spec: `backend` may report `outcome` for `note`.
pub open spec fn backend_reported<F: Fn(&NativeNotification) -> Result<(), String>>(
    backend: F,
    note: &NativeNotification,
    outcome: Result<(), String>,
) -> bool {
    call_ensures(backend, (note,), outcome)
}

/// Spec: the backend reported success for `note`.
pub open spec fn backend_delivered<F: Fn(&NativeNotification) -> Result<(), String>>(
    backend: F,
    note: &NativeNotification,
) -> bool {
    exists|r: Result<(), String>| r is Ok && backend_reported(backend, note, r)
}

/// Spec: the backend reported an error for `note`.
pub open spec fn backend_failed<F: Fn(&NativeNotification) -> Result<(), String>>(
    backend: F,
    note: &NativeNotification,
) -> bool {
    exists|e: String| backend_reported(backend, note, Err(e))
}

/// Try each backend in order and stop at the first success; when all fail,
/// the error lists each backend's error, separated by `; `.
pub fn send_with_backends<F: Fn(&NativeNotification) -> Result<(), String>>(
    note: &NativeNotification,
    backends: &[F],
) -> (r: Result<(), String>)
    requires
        forall|i: int| 0 <= i < backends@.len() ==> call_requires(backends@[i], (note,)),
    ensures
        r is Ok ==> exists|k: int|
            0 <= k < backends@.len() && backend_delivered(backends@[k], note)
                && forall|j: int| 0 <= j < k ==> #[trigger] backend_failed(backends@[j], note),
        r matches Err(msg) ==> exists|errs: Seq<String>|
            errs.len() == backends@.len() && (forall|j: int|
                0 <= j < errs.len() ==> #[trigger] backend_reported(
                    backends@[j],
                    note,
                    Err(errs[j]),
                )) && msg@ == seq_join(string_views(errs), "; "@),
{
    let mut errors: Vec<String> = Vec::new();
    let mut i: usize = 0;
    while i < backends.len()
        invariant
            i <= backends@.len(),
            errors@.len() == i,
            forall|j: int| 0 <= j < backends@.len() ==> call_requires(backends@[j], (note,)),
            forall|j: int|
                0 <= j < i ==> #[trigger] backend_reported(
                    backends@[j],
                    note,
                    Err(errors@[j]),
                ),
        decreases backends@.len() - i,
    {
        let outcome = (backends[i])(note);
        proof {
            assert(backend_reported(backends@[i as int], note, outcome));
        }
        match outcome {
            Ok(()) => {
                proof {
                    assert forall|j: int| 0 <= j < i implies #[trigger] backend_failed(
                        backends@[j],
                        note,
                    ) by {
                        assert(backend_reported(backends@[j], note, Err(errors@[j])));
                    }
                    assert(backend_delivered(backends@[i as int], note));
                    let k = i as int;
                    assert(0 <= k < backends@.len() && backend_delivered(backends@[k], note)
                        && forall|j: int| 0 <= j < k ==> #[trigger] backend_failed(backends@[j], note));
                }
                return Ok(());
            },
            Err(err) => {
                errors.push(err);
            },
        }
        i += 1;
    }
    Err(join_strings(&errors, "; "))
}

/// Spec: the error line for a labelled backend: `label: error`.
pub open spec fn labeled_error(label: Seq<char>, err: Seq<char>) -> Seq<char> {
    label + ": "@ + err
}

/// Like [`send_with_backends`], returning the label of the backend that
/// delivered the notification; errors are prefixed with their backend's label.
pub fn send_with_backends_labeled<F: Fn(&NativeNotification) -> Result<(), String>>(
    note: &NativeNotification,
    backends: &[(&'static str, F)],
) -> (r: Result<&'static str, String>)
    requires
        forall|i: int| 0 <= i < backends@.len() ==> call_requires(backends@[i].1, (note,)),
    ensures
        r matches Ok(label) ==> exists|k: int|
            0 <= k < backends@.len() && backends@[k].0 == label && backend_delivered(
                backends@[k].1,
                note,
            ) && forall|j: int| 0 <= j < k ==> #[trigger] backend_failed(backends@[j].1, note),
        r matches Err(msg) ==> exists|errs: Seq<String>|
            errs.len() == backends@.len() && (forall|j: int|
                0 <= j < errs.len() ==> #[trigger] backend_reported(
                    backends@[j].1,
                    note,
                    Err(errs[j]),
                )) && msg@ == seq_join(
                Seq::new(errs.len(), |j: int| labeled_error(backends@[j].0@, errs[j]@)),
                "; "@,
            ),
{
    let mut errors: Vec<String> = Vec::new();
    let mut lines: Vec<String> = Vec::new();
    let mut i: usize = 0;
    while i < backends.len()
        invariant
            i <= backends@.len(),
            errors@.len() == i,
            lines@.len() == i,
            forall|j: int| 0 <= j < backends@.len() ==> call_requires(backends@[j].1, (note,)),
            forall|j: int|
                0 <= j < i ==> #[trigger] backend_reported(
                    backends@[j].1,
                    note,
                    Err(errors@[j]),
                ),
            forall|j: int|
                0 <= j < i ==> #[trigger] lines@[j]@ == labeled_error(
                    backends@[j].0@,
                    errors@[j]@,
                ),
        decreases backends@.len() - i,
    {
        let (label, backend) = &backends[i];
        let outcome = backend(note);
        proof {
            assert(backend_reported(backends@[i as int].1, note, outcome));
        }
        match outcome {
            Ok(()) => {
                proof {
                    assert forall|j: int| 0 <= j < i implies #[trigger] backend_failed(
                        backends@[j].1,
                        note,
                    ) by {
                        assert(backend_reported(backends@[j].1, note, Err(errors@[j])));
                    }
                    let k = i as int;
                    assert(backend_delivered(backends@[i as int].1, note));
                    assert(0 <= k < backends@.len() && backends@[k].0 == *label && backend_delivered(
                        backends@[k].1,
                        note,
                    ) && forall|j: int|
                        0 <= j < k ==> #[trigger] backend_failed(backends@[j].1, note));
                }
                return Ok(*label);
            },
            Err(err) => {
                let mut line = (*label).to_owned();
                line.append(": ");
                line.append(err.as_str());
                errors.push(err);
                lines.push(line);
            },
        }
        i += 1;
    }
    let joined = join_strings(&lines, "; ");
    proof {
        assert(string_views(lines@) =~= Seq::new(
            errors@.len(),
            |j: int| labeled_error(backends@[j].0@, errors@[j]@),
        ));
    }
    Err(joined)
}


/// Label of the backend used where no desktop toast service is wired in.
pub const NOOP_BACKEND_LABEL: &'static str = "noop";

/// Label of the Windows backend that talks to WinRT directly.
pub const WINRT_BACKEND_LABEL: &'static str = "winrt";

/// Label of the Windows backend that drives WinRT through PowerShell.
pub const POWERSHELL_BACKEND_LABEL: &'static str = "powershell";

/// Label of the Windows backend that uses the BurntToast PowerShell module.
pub const BURNT_TOAST_BACKEND_LABEL: &'static str = "burnttoast";

/// Run the toast smoke path over the platform's labelled backends (on
/// Windows `winrt`, `powershell`, `burnttoast`; elsewhere `noop`), in order,
/// and return the label of the first one that delivers; when all fail, the
/// error lists each `label: error`, separated by `; `.
pub fn run_notify_test<F: Fn(&NativeNotification) -> Result<(), String>>(
    note: &NativeNotification,
    backends: &[(&'static str, F)],
) -> (r: Result<&'static str, String>)
    requires
        forall|i: int| 0 <= i < backends@.len() ==> call_requires(backends@[i].1, (note,)),
    ensures
        r matches Ok(label) ==> exists|k: int|
            0 <= k < backends@.len() && backends@[k].0 == label && backend_delivered(
                backends@[k].1,
                note,
            ) && forall|j: int| 0 <= j < k ==> #[trigger] backend_failed(backends@[j].1, note),
        r matches Err(msg) ==> exists|errs: Seq<String>|
            errs.len() == backends@.len() && (forall|j: int|
                0 <= j < errs.len() ==> #[trigger] backend_reported(
                    backends@[j].1,
                    note,
                    Err(errs[j]),
                )) && msg@ == seq_join(
                Seq::new(errs.len(), |j: int| labeled_error(backends@[j].0@, errs[j]@)),
                "; "@,
            ),
{
    send_with_backends_labeled(note, backends)
}

/// Spec: the labels of a list of labelled backends, in order.
pub open spec fn backend_labels<F>(backends: Seq<(&'static str, F)>) -> Seq<Seq<char>> {
    Seq::new(backends.len(), |j: int| backends[j].0@)
}

/// Spec: `k` is the first position whose label is `name`.
pub open spec fn is_first_label<F>(backends: Seq<(&'static str, F)>, name: Seq<char>, k: int) -> bool {
    &&& 0 <= k < backends.len()
    &&& backends[k].0@ == name
    &&& forall|j: int| 0 <= j < k ==> backends[j].0@ != name
}

/// Spec: the message for a backend name that no backend carries.
pub open spec fn unknown_backend_message(name: Seq<char>, labels: Seq<Seq<char>>) -> Seq<char> {
    "unknown toast backend "@ + debug_str(name) + "; available: "@ + seq_join(labels, ", "@)
}

/// Run the first backend of the platform's list labelled `backend` (for
/// smoke tests and diagnostics): its label on success, its error otherwise;
/// a name that no backend carries is answered with the list of labels, and
/// then no backend runs.
pub fn run_notify_test_backend<F: Fn(&NativeNotification) -> Result<(), String>>(
    note: &NativeNotification,
    backend: &str,
    backends: &[(&'static str, F)],
) -> (r: Result<&'static str, String>)
    requires
        forall|i: int| 0 <= i < backends@.len() ==> call_requires(backends@[i].1, (note,)),
    ensures
        forall|k: int|
            is_first_label(backends@, backend@, k) ==> exists|out: Result<(), String>|
                backend_reported(backends@[k].1, note, out) && r == match out {
                    Ok(()) => Ok::<&'static str, String>(backends@[k].0),
                    Err(e) => Err(e),
                },
        (forall|k: int| 0 <= k < backends@.len() ==> backends@[k].0@ != backend@) ==> (r matches Err(
            msg,
        ) && msg@ == unknown_backend_message(backend@, backend_labels(backends@))),
{
    let mut names: Vec<String> = Vec::new();
    let mut i: usize = 0;
    while i < backends.len()
        invariant
            i <= backends@.len(),
            forall|j: int| 0 <= j < backends@.len() ==> call_requires(backends@[j].1, (note,)),
            forall|j: int| 0 <= j < i ==> backends@[j].0@ != backend@,
            string_views(names@) == backend_labels(backends@).take(i as int),
        decreases backends@.len() - i,
    {
        let (label, sender) = &backends[i];
        if str_eq(label, backend) {
            let out = sender(note);
            proof {
                assert(is_first_label(backends@, backend@, i as int));
                assert forall|k: int| is_first_label(backends@, backend@, k) implies k == i by {
                    if k < i {
                    } else if k > i {
                        assert(backends@[i as int].0@ != backend@);
                    }
                }
            }
            let ghost outcome = out;
            let res = match out {
                Ok(()) => Ok(*label),
                Err(e) => Err(e),
            };
            proof {
                assert(backend_reported(backends@[i as int].1, note, outcome));
                assert(res == match outcome {
                    Ok(()) => Ok::<&'static str, String>(backends@[i as int].0),
                    Err(e) => Err(e),
                });
            }
            return res;
        }
        let ghost before = names@;
        names.push((*label).to_owned());
        proof {
            assert(string_views(names@) =~= string_views(before).push(label@));
            assert(backend_labels(backends@).take(i + 1) =~= backend_labels(backends@).take(
                i as int,
            ).push(label@));
        }
        i += 1;
    }
    proof {
        assert(backend_labels(backends@).take(i as int) =~= backend_labels(backends@));
        assert forall|k: int| is_first_label(backends@, backend@, k) implies false by {
            assert(backends@[k].0@ != backend@);
        }
    }
    let mut msg = "unknown toast backend ".to_owned();
    let quoted = debug_quoted(backend);
    msg.append(quoted.as_str());
    msg.append("; available: ");
    let available = join_strings(&names, ", ");
    msg.append(available.as_str());
    proof {
        reveal_strlit("unknown toast backend ");
        reveal_strlit("; available: ");
        reveal_strlit(", ");
    }
    Err(msg)
}

/// Deliver `note` through the platform's backends (on Windows WinRT, then
/// WinRT through PowerShell, then BurntToast; elsewhere the no-op backend),
/// in order: `Ok` at the first that delivers, otherwise an error joining
/// every backend's error with `; `.
pub fn send_native_notification<F: Fn(&NativeNotification) -> Result<(), String>>(
    note: &NativeNotification,
    backends: &[F],
) -> (r: Result<(), String>)
    requires
        forall|i: int| 0 <= i < backends@.len() ==> call_requires(backends@[i], (note,)),
    ensures
        r is Ok ==> exists|k: int|
            0 <= k < backends@.len() && backend_delivered(backends@[k], note)
                && forall|j: int| 0 <= j < k ==> #[trigger] backend_failed(backends@[j], note),
        r matches Err(msg) ==> exists|errs: Seq<String>|
            errs.len() == backends@.len() && (forall|j: int|
                0 <= j < errs.len() ==> #[trigger] backend_reported(
                    backends@[j],
                    note,
                    Err(errs[j]),
                )) && msg@ == seq_join(string_views(errs), "; "@),
{
    send_with_backends(note, backends)
}

} // verus!
