//! Answers to web requests, and the text formats around them.

use vstd::prelude::*;
use vstd::string::*;
use vstd::utf8::*;

use crate::json::{Json, JsonView};
use crate::text::{chars_of, string_of};

verus! {

/// An answer to a web request.
pub enum Reply {
    /// A JSON document with a status code.
    Json(u16, Json),
    /// An HTML document with a status code.
    Html(u16, String),
    /// A redirection with a status code and a location.
    Redirect(u16, String),
    /// A status code without a document.
    Empty(u16),
}

/// The mathematical value of a [`Reply`].
pub enum ReplyView {
    Json(u16, JsonView),
    Html(u16, Seq<char>),
    Redirect(u16, Seq<char>),
    Empty(u16),
}

impl View for Reply {
    type V = ReplyView;

    open spec fn view(&self) -> ReplyView {
        match self {
            Reply::Json(status, j) => ReplyView::Json(*status, j@),
            Reply::Html(status, s) => ReplyView::Html(*status, s@),
            Reply::Redirect(status, s) => ReplyView::Redirect(*status, s@),
            Reply::Empty(status) => ReplyView::Empty(*status),
        }
    }
}

/// Whether a byte may stand in the value of a header.
pub open spec fn header_byte(b: u8) -> bool {
    (b >= 32 && b != 127) || b == 9
}

/// Whether a text may be the value of a header.
pub open spec fn header_text(s: Seq<char>) -> bool {
    forall|i: int| 0 <= i < encode_utf8(s).len() ==> header_byte(#[trigger] encode_utf8(s)[i])
}

/// `axum::http::HeaderValue::from_str` succeeds if and only if no byte of the text is a control
/// character other than the tab.
#[verifier::external_body]
pub(crate) fn fits_header(s: &str) -> (r: bool)
    ensures
        r == header_text(s@),
{
    axum::http::HeaderValue::from_str(s).is_ok()
}

/// What `String::from_utf8_lossy` makes of some bytes.
pub uninterp spec fn utf8_lossy(bytes: Seq<u8>) -> Seq<char>;

/// `String::from_utf8_lossy`: bytes that are UTF-8 give the text they encode. What stands for
/// other bytes is not stated.
#[verifier::external_body]
pub(crate) fn from_utf8_lossy(bytes: &[u8]) -> (r: String)
    ensures
        r@ == utf8_lossy(bytes@),
        valid_utf8(bytes@) ==> r@ == decode_utf8(bytes@),
{
    String::from_utf8_lossy(bytes).into_owned()
}

/// The value of a hexadecimal digit.
pub open spec fn hex_digit(b: u8) -> Option<u8> {
    if 48 <= b <= 57 {
        Some((b - 48) as u8)
    } else if 97 <= b <= 102 {
        Some((b - 87) as u8)
    } else if 65 <= b <= 70 {
        Some((b - 55) as u8)
    } else {
        None
    }
}

/// The bytes that a percent-encoded text stands for: a plus sign is a space, a percent sign with
/// two hexadecimal digits is the byte they give, and everything else is itself.
pub open spec fn percent_decoded(b: Seq<u8>) -> Seq<u8>
    decreases b.len(),
{
    if b.len() == 0 {
        b
    } else if b[0] == 43 {
        seq![32u8] + percent_decoded(b.skip(1))
    } else if b[0] == 37 && b.len() > 2 && hex_digit(b[1]) is Some && hex_digit(b[2]) is Some {
        seq![(hex_digit(b[1])->0 * 16 + hex_digit(b[2])->0) as u8] + percent_decoded(b.skip(3))
    } else {
        seq![b[0]] + percent_decoded(b.skip(1))
    }
}

/// Whether a byte needs no encoding.
pub open spec fn unreserved(b: u8) -> bool {
    (65 <= b <= 90) || (97 <= b <= 122) || (48 <= b <= 57) || b == 45 || b == 95 || b == 46 || b
        == 126
}

/// An upper-case hexadecimal digit.
pub open spec fn upper_hex(n: u8) -> char {
    if n < 10 {
        (48 + n) as char
    } else {
        (55 + n) as char
    }
}

/// A byte in percent-encoding: itself, or a percent sign and two digits.
pub open spec fn encoded_byte(b: u8) -> Seq<char> {
    if unreserved(b) {
        seq![b as char]
    } else {
        seq!['%', upper_hex(b / 16), upper_hex(b % 16)]
    }
}

/// Bytes in percent-encoding.
pub open spec fn percent_encoded(b: Seq<u8>) -> Seq<char>
    decreases b.len(),
{
    if b.len() == 0 {
        Seq::empty()
    } else {
        encoded_byte(b[0]) + percent_encoded(b.skip(1))
    }
}

/// The value of a hexadecimal digit.
pub fn hex_value(value: u8) -> (r: Option<u8>)
    ensures
        r == hex_digit(value),
        r is Some ==> r->0 < 16,
{
    if 48 <= value && value <= 57 {
        Some(value - 48)
    } else if 97 <= value && value <= 102 {
        Some(value - 87)
    } else if 65 <= value && value <= 70 {
        Some(value - 55)
    } else {
        None
    }
}

/// The bytes that a percent-encoded text stands for.
pub fn percent_decode_bytes(bytes: &[u8]) -> (r: Vec<u8>)
    ensures
        r@ == percent_decoded(bytes@),
{
    let mut decoded: Vec<u8> = Vec::new();
    let mut index: usize = 0;
    assert(bytes@.skip(0) =~= bytes@);
    while index < bytes.len()
        invariant
            index <= bytes.len(),
            percent_decoded(bytes@) =~= decoded@ + percent_decoded(bytes@.skip(index as int)),
        decreases bytes.len() - index,
    {
        let ghost rest = bytes@.skip(index as int);
        assert(rest[0] == bytes@[index as int]);
        let byte: u8 = bytes[index];
        if byte == 43 {
            assert(rest.skip(1) =~= bytes@.skip(index + 1));
            decoded.push(32);
            index += 1;
        } else if byte == 37 && bytes.len() - index > 2 {
            assert(rest[1] == bytes@[index + 1] && rest[2] == bytes@[index + 2]);
            match (hex_value(bytes[index + 1]), hex_value(bytes[index + 2])) {
                (Some(high), Some(low)) => {
                    assert(rest.skip(3) =~= bytes@.skip(index + 3));
                    decoded.push(high * 16 + low);
                    index += 3;
                },
                _ => {
                    assert(rest.skip(1) =~= bytes@.skip(index + 1));
                    decoded.push(byte);
                    index += 1;
                },
            }
        } else {
            assert(rest.skip(1) =~= bytes@.skip(index + 1));
            decoded.push(byte);
            index += 1;
        }
    }
    assert(bytes@.skip(index as int) =~= Seq::<u8>::empty());
    decoded
}

/// The text that a percent-encoded text stands for.
pub fn percent_decode(value: &str) -> (r: String)
    ensures
        r@ == utf8_lossy(percent_decoded(encode_utf8(value@))),
        valid_utf8(percent_decoded(encode_utf8(value@))) ==> r@ == decode_utf8(
            percent_decoded(encode_utf8(value@)),
        ),
{
    let decoded: Vec<u8> = percent_decode_bytes(value.as_bytes());
    from_utf8_lossy(decoded.as_slice())
}

/// An upper-case hexadecimal digit.
fn upper_hex_char(n: u8) -> (r: char)
    requires
        n < 16,
    ensures
        r == upper_hex(n),
{
    if n < 10 {
        (48 + n) as char
    } else {
        (55 + n) as char
    }
}

/// A text in percent-encoding.
pub fn percent_encode(value: &str) -> (r: String)
    ensures
        r@ == percent_encoded(encode_utf8(value@)),
{
    let bytes: &[u8] = value.as_bytes();
    let mut encoded: Vec<char> = Vec::new();
    let mut i: usize = 0;
    assert(bytes@.skip(0) =~= bytes@);
    while i < bytes.len()
        invariant
            i <= bytes.len(),
            percent_encoded(bytes@) =~= encoded@ + percent_encoded(bytes@.skip(i as int)),
        decreases bytes.len() - i,
    {
        let byte: u8 = bytes[i];
        let ghost rest = bytes@.skip(i as int);
        assert(rest[0] == byte);
        assert(rest.skip(1) =~= bytes@.skip(i + 1));
        if (65 <= byte && byte <= 90) || (97 <= byte && byte <= 122) || (48 <= byte && byte <= 57)
            || byte == 45 || byte == 95 || byte == 46 || byte == 126 {
            encoded.push(byte as char);
        } else {
            encoded.push('%');
            encoded.push(upper_hex_char(byte / 16));
            encoded.push(upper_hex_char(byte % 16));
        }
        i += 1;
    }
    assert(bytes@.skip(i as int) =~= Seq::<u8>::empty());
    string_of(encoded.as_slice())
}

proof fn lemma_encoded_ascii(b: Seq<u8>)
    ensures
        is_ascii_chars(percent_encoded(b)),
    decreases b.len(),
{
    if b.len() > 0 {
        lemma_encoded_ascii(b.skip(1));
        let head = encoded_byte(b[0]);
        assert(is_ascii_chars(head));
        assert(is_ascii_chars(percent_encoded(b))) by {
            let rest = percent_encoded(b.skip(1));
            is_ascii_chars_concat(percent_encoded(b), head, rest);
        }
    }
}

/// The characters of a text that has only ASCII, as bytes.
spec fn ascii_bytes(s: Seq<char>) -> Seq<u8> {
    Seq::new(s.len(), |i: int| s[i] as u8)
}

proof fn lemma_decode_encoded(b: Seq<u8>)
    ensures
        percent_decoded(ascii_bytes(percent_encoded(b))) == b,
    decreases b.len(),
{
    let x = ascii_bytes(percent_encoded(b));
    if b.len() == 0 {
        assert(x =~= Seq::<u8>::empty());
    } else {
        lemma_decode_encoded(b.skip(1));
        let head = encoded_byte(b[0]);
        let rest = ascii_bytes(percent_encoded(b.skip(1)));
        if unreserved(b[0]) {
            assert(x[0] == b[0]);
            assert(x.skip(1) =~= rest);
            assert(percent_decoded(x) == seq![b[0]] + percent_decoded(rest));
            assert(seq![b[0]] + b.skip(1) =~= b);
        } else {
            assert(x[0] == 37u8);
            assert(x[1] == upper_hex(b[0] / 16) as u8);
            assert(x[2] == upper_hex(b[0] % 16) as u8);
            assert(hex_digit(x[1]) == Some((b[0] / 16) as u8));
            assert(hex_digit(x[2]) == Some((b[0] % 16) as u8));
            assert(x.skip(3) =~= rest);
            assert(percent_decoded(x) == seq![b[0]] + percent_decoded(rest));
            assert(seq![b[0]] + b.skip(1) =~= b);
        }
    }
}

/// Percent-decoding undoes percent-encoding.
pub proof fn law_percent_round_trip(s: Seq<char>)
    ensures
        percent_decoded(encode_utf8(percent_encoded(encode_utf8(s)))) == encode_utf8(s),
        valid_utf8(percent_decoded(encode_utf8(percent_encoded(encode_utf8(s))))),
        decode_utf8(percent_decoded(encode_utf8(percent_encoded(encode_utf8(s))))) == s,
{
    let b = encode_utf8(s);
    lemma_encoded_ascii(b);
    is_ascii_chars_encode_utf8(percent_encoded(b));
    lemma_decode_encoded(b);
    assert(encode_utf8(percent_encoded(b)) =~= ascii_bytes(percent_encoded(b)));
    encode_utf8_valid_utf8(s);
    encode_utf8_decode_utf8(s);
}

proof fn lemma_encode_concat(a: Seq<char>, b: Seq<char>)
    ensures
        encode_utf8(a + b) == encode_utf8(a) + encode_utf8(b),
    decreases a.len(),
{
    if a.len() == 0 {
        assert(a + b =~= b);
        assert(encode_utf8(a) + encode_utf8(b) =~= encode_utf8(b));
    } else {
        lemma_encode_concat(a.drop_first(), b);
        assert((a + b).drop_first() =~= a.drop_first() + b);
        assert(encode_utf8(a + b) =~= encode_utf8(a) + encode_utf8(b));
    }
}

/// Whether a text has printable characters of ASCII only.
pub open spec fn printable(s: Seq<char>) -> bool {
    forall|i: int| 0 <= i < s.len() ==> ' ' <= #[trigger] s[i] && s[i] <= '~'
}

/// Texts that may be values of headers make one together, and printable ones do.
pub proof fn lemma_header_text(a: Seq<char>, b: Seq<char>)
    ensures
        header_text(a) && header_text(b) ==> header_text(a + b),
        printable(a) ==> header_text(a),
{
    lemma_encode_concat(a, b);
    if header_text(a) && header_text(b) {
        let bytes = encode_utf8(a + b);
        assert forall|i: int| 0 <= i < bytes.len() implies header_byte(#[trigger] bytes[i]) by {
            if i < encode_utf8(a).len() {
                assert(bytes[i] == encode_utf8(a)[i]);
            } else {
                assert(bytes[i] == encode_utf8(b)[i - encode_utf8(a).len()]);
            }
        }
    }
    if printable(a) {
        assert(is_ascii_chars(a));
        is_ascii_chars_encode_utf8(a);
        assert forall|i: int| 0 <= i < encode_utf8(a).len() implies header_byte(
            #[trigger] encode_utf8(a)[i],
        ) by {
            assert(a[i] as u8 == encode_utf8(a)[i]);
        }
    }
}

/// Percent-encoding is printable.
pub proof fn lemma_encoded_printable(b: Seq<u8>)
    ensures
        printable(percent_encoded(b)),
    decreases b.len(),
{
    if b.len() > 0 {
        lemma_encoded_printable(b.skip(1));
        let head = encoded_byte(b[0]);
        let rest = percent_encoded(b.skip(1));
        assert(printable(head));
        assert forall|i: int| 0 <= i < percent_encoded(b).len() implies ' '
            <= #[trigger] percent_encoded(b)[i] && percent_encoded(b)[i] <= '~' by {
            if i < head.len() {
                assert(percent_encoded(b)[i] == head[i]);
            } else {
                assert(percent_encoded(b)[i] == rest[i - head.len()]);
            }
        }
    }
}

/// What stands for a character in HTML.
pub open spec fn escaped_char(c: char, quotes: bool) -> Seq<char> {
    if c == '&' {
        "&amp;"@
    } else if c == '"' && quotes {
        "&quot;"@
    } else if c == '<' {
        "&lt;"@
    } else if c == '>' {
        "&gt;"@
    } else {
        seq![c]
    }
}

/// A text with the characters replaced that HTML gives a meaning; quotation marks on demand.
pub open spec fn html_escaped(s: Seq<char>, quotes: bool) -> Seq<char>
    decreases s.len(),
{
    if s.len() == 0 {
        s
    } else {
        html_escaped(s.drop_last(), quotes) + escaped_char(s.last(), quotes)
    }
}

/// A text with the characters replaced that HTML gives a meaning.
fn escape(value: &str, quotes: bool) -> (r: String)
    ensures
        r@ == html_escaped(value@, quotes),
{
    let cs: Vec<char> = chars_of(value);
    let mut out: String = String::new();
    let mut i: usize = 0;
    while i < cs.len()
        invariant
            i <= cs.len(),
            out@ == html_escaped(cs@.take(i as int), quotes),
        decreases cs.len() - i,
    {
        let c: char = cs[i];
        let ghost before = out@;
        if c == '&' {
            out.append("&amp;");
        } else if c == '"' && quotes {
            out.append("&quot;");
        } else if c == '<' {
            out.append("&lt;");
        } else if c == '>' {
            out.append("&gt;");
        } else {
            out.push(c);
            assert(out@ =~= before + seq![c]);
        }
        i += 1;
        assert(cs@.take(i as int).drop_last() =~= cs@.take(i - 1));
        assert(cs@.take(i as int).last() == cs@[i - 1]);
    }
    assert(cs@.take(i as int) =~= cs@);
    out
}

/// A text that can stand in HTML, in an attribute too.
pub fn html_escape(value: &str) -> (r: String)
    ensures
        r@ == html_escaped(value@, true),
{
    escape(value, true)
}

/// A text that can stand in HTML between tags.
pub fn html_escape_text(value: &str) -> (r: String)
    ensures
        r@ == html_escaped(value@, false),
{
    escape(value, false)
}

/// An escaped text opens and closes no tag, and ends no attribute.
pub proof fn law_html_escaped(s: Seq<char>, quotes: bool)
    ensures
        forall|i: int|
            0 <= i < html_escaped(s, quotes).len() ==> #[trigger] html_escaped(s, quotes)[i] != '<'
                && html_escaped(s, quotes)[i] != '>' && (quotes ==> html_escaped(s, quotes)[i]
                != '"'),
    decreases s.len(),
{
    if s.len() > 0 {
        law_html_escaped(s.drop_last(), quotes);
        reveal_strlit("&amp;");
        reveal_strlit("&quot;");
        reveal_strlit("&lt;");
        reveal_strlit("&gt;");
        let rest = html_escaped(s.drop_last(), quotes);
        let tail = escaped_char(s.last(), quotes);
        assert forall|k: int| 0 <= k < tail.len() implies #[trigger] tail[k] != '<' && tail[k] != '>' && (
        quotes ==> tail[k] != '"') by {}
        assert forall|i: int| 0 <= i < html_escaped(s, quotes).len() implies
            #[trigger] html_escaped(s, quotes)[i] != '<' && html_escaped(s, quotes)[i] != '>' && (quotes
            ==> html_escaped(s, quotes)[i] != '"') by {
            if i < rest.len() {
                assert(html_escaped(s, quotes)[i] == rest[i]);
            } else {
                assert(html_escaped(s, quotes)[i] == tail[i - rest.len()]);
            }
        }
    }
}

} // verus!
