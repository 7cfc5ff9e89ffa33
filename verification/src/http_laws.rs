//! What both sides of an HTTP exchange can rely on.
use vstd::prelude::*;
use vstd::utf8::{decode_utf8, encode_scalar, encode_utf8, valid_utf8};

use crate::http::{
    blank_line, body_of, decimal, handled, offer_in, path_of, response, response_head, route_of,
    Outcome,
};
use crate::text::{find, is_space, lemma_find, lemma_find_nothing, lemma_second_word, stands_at};

verus! {

/// The number that decimal digits denote.
pub open spec fn decimal_value(digits: Seq<u8>) -> int
    decreases digits.len(),
{
    if digits.len() == 0 {
        0
    } else {
        decimal_value(digits.drop_last()) * 10 + (digits.last() - 48)
    }
}

/// The digits of a number, such as a content length, are digits and denote it.
pub proof fn law_decimal_reads_back(n: nat)
    ensures
        decimal_value(decimal(n)) == n,
        decimal(n).len() > 0,
        forall|i: int| 0 <= i < decimal(n).len() ==> 48 <= #[trigger] decimal(n)[i] <= 57,
    decreases n,
{
    if n < 10 {
        let one = seq![(48 + n) as u8];
        assert(one.drop_last() =~= Seq::<u8>::empty());
        assert(decimal_value(one.drop_last()) == 0);
    } else {
        law_decimal_reads_back(n / 10);
        assert(decimal(n).drop_last() =~= decimal(n / 10));
    }
}

/// The bytes of an empty line.
pub open spec fn blank_line_bytes() -> Seq<u8> {
    seq![13u8, 10u8, 13u8, 10u8]
}

/// The body of a response, as a client reads it: what stands behind the first empty line.
pub open spec fn body_bytes(response: Seq<u8>) -> Seq<u8> {
    response.skip(find(response, blank_line_bytes(), 0)->0 + 4)
}

/// The byte of a carriage return stands in the encoding of a text just where the character does.
proof fn lemma_no_carriage_return(chars: Seq<char>)
    requires
        forall|i: int| 0 <= i < chars.len() ==> #[trigger] chars[i] != '\r',
    ensures
        forall|i: int| 0 <= i < encode_utf8(chars).len() ==> #[trigger] encode_utf8(chars)[i] != 13,
    decreases chars.len(),
{
    if chars.len() > 0 {
        let v = chars[0] as u32;
        let first = encode_scalar(v);
        let rest = encode_utf8(chars.drop_first());
        assert forall|i: int| 0 <= i < chars.drop_first().len() implies #[trigger] chars.drop_first()[i]
            != '\r' by {
            assert(chars[i + 1] != '\r');
        }
        lemma_no_carriage_return(chars.drop_first());
        assert(v <= 0x7F ==> (v & 0x7F) as u8 == v) by (bit_vector);
        assert(0xC0u8 | ((v >> 6) & 0x1F) as u8 >= 0x80) by (bit_vector);
        assert(0xE0u8 | ((v >> 12) & 0x0F) as u8 >= 0x80) by (bit_vector);
        assert(0xF0u8 | ((v >> 18) & 0x7) as u8 >= 0x80) by (bit_vector);
        assert(0x80u8 | (v & 0x3F) as u8 >= 0x80) by (bit_vector);
        assert(0x80u8 | ((v >> 6) & 0x3F) as u8 >= 0x80) by (bit_vector);
        assert(0x80u8 | ((v >> 12) & 0x3F) as u8 >= 0x80) by (bit_vector);
        vstd::utf8::char_is_scalar(chars[0]);
        assert(chars[0] != '\r');
        assert(v != 13) by {
            vstd::utf8::char_u32_cast(chars[0], v);
            assert(13u32 as char == '\r');
        }
        assert forall|i: int| 0 <= i < first.len() implies #[trigger] first[i] != 13 by {
            assert(first[0] == v || first[0] >= 0x80);
            assert(i == 0 || first[i] >= 0x80);
        }
        assert forall|i: int| 0 <= i < encode_utf8(chars).len() implies #[trigger] encode_utf8(
            chars,
        )[i] != 13 by {
            if i >= first.len() {
                assert(encode_utf8(chars)[i] == rest[i - first.len()]);
            } else {
                assert(encode_utf8(chars)[i] == first[i]);
            }
        }
    }
}

/// The fixed parts of a head, byte for byte where it matters.
proof fn lemma_fixed_parts()
    ensures
        ({
            let a = encode_utf8("HTTP/1.1 "@);
            let b = encode_utf8(" OK\r\nContent-Type: "@);
            let c = encode_utf8("\r\nContent-Length: "@);
            &&& forall|i: int| 0 <= i < a.len() ==> #[trigger] a[i] != 13
            &&& b.len() > 5 && b[5] != 13
            &&& forall|i: int| 0 <= i < b.len() && i != 3 ==> #[trigger] b[i] != 13
            &&& c.len() > 2 && c[0] == 13 && c[1] == 10 && c[2] != 13 && c[2] != 10
            &&& forall|i: int| 0 < i < c.len() ==> #[trigger] c[i] != 13
            &&& encode_utf8("\r\n\r\n"@) == blank_line_bytes()
        }),
{
    reveal_strlit("HTTP/1.1 ");
    reveal_strlit(" OK\r\nContent-Type: ");
    reveal_strlit("\r\nContent-Length: ");
    reveal_strlit("\r\n\r\n");
    vstd::utf8::is_ascii_chars_encode_utf8("HTTP/1.1 "@);
    vstd::utf8::is_ascii_chars_encode_utf8(" OK\r\nContent-Type: "@);
    vstd::utf8::is_ascii_chars_encode_utf8("\r\nContent-Length: "@);
    vstd::utf8::is_ascii_chars_encode_utf8("\r\n\r\n"@);
    assert(encode_utf8("\r\n\r\n"@) =~= blank_line_bytes());
}

/// The bytes of a text and of the end of its line.
pub open spec fn line_bytes(text: Seq<char>) -> Seq<u8> {
    encode_utf8(text) + seq![13u8, 10u8]
}

/// Whether a content type leaves the head of a response in one piece: neither it nor the end of its
/// line makes an empty line.
pub open spec fn fits_in_head(content_type: Seq<char>) -> bool {
    forall|j: int|
        0 <= j ==> !#[trigger] stands_at(line_bytes(content_type), blank_line_bytes(), j)
}

/// A content type without a carriage return fits in a head.
pub proof fn lemma_one_line_fits(content_type: Seq<char>)
    requires
        forall|i: int| 0 <= i < content_type.len() ==> #[trigger] content_type[i] != '\r',
    ensures
        fits_in_head(content_type),
{
    lemma_no_carriage_return(content_type);
    let line = line_bytes(content_type);
    assert forall|j: int| 0 <= j implies !#[trigger] stands_at(line, blank_line_bytes(), j) by {
        if stands_at(line, blank_line_bytes(), j) {
            assert(line.subrange(j, j + 4)[0] == 13);
            assert(line[j] == encode_utf8(content_type)[j] || j >= encode_utf8(content_type).len());
        }
    }
}

/// The first empty line of a response is the one that ends its head, so that whoever reads on
/// from there reads the body and nothing else.
pub proof fn law_body_follows_first_blank_line(status: u16, content_type: Seq<char>, body: Seq<u8>)
    requires
        fits_in_head(content_type),
    ensures
        ({
            let out = response(status, content_type, body);
            let head = response_head(status, content_type, body.len());
            &&& find(out, blank_line_bytes(), 0) == Some(head.len() - 4)
            &&& body_bytes(out) == body
        }),
{
    let out = response(status, content_type, body);
    let head = response_head(status, content_type, body.len());
    let a = encode_utf8("HTTP/1.1 "@);
    let d = decimal(status as nat);
    let b = encode_utf8(" OK\r\nContent-Type: "@);
    let t = encode_utf8(content_type);
    let c = encode_utf8("\r\nContent-Length: "@);
    let n = decimal(body.len());
    lemma_fixed_parts();
    law_decimal_reads_back(status as nat);
    law_decimal_reads_back(body.len());
    let p = head.len() - 4;
    assert(out.subrange(p, p + 4) =~= blank_line_bytes());
    assert forall|j: int| 0 <= j < p implies !#[trigger] stands_at(out, blank_line_bytes(), j) by {
        if stands_at(out, blank_line_bytes(), j) {
            let seen = out.subrange(j, j + 4);
            assert(seen[0] == 13 && seen[1] == 10 && seen[2] == 13 && seen[3] == 10);
            assert(out[j] == 13 && out[j + 1] == 10 && out[j + 2] == 13 && out[j + 3] == 10);
            let i1 = a.len() as int;
            let i2 = i1 + d.len();
            let i3 = i2 + b.len();
            let i4 = i3 + t.len();
            let i5 = i4 + c.len();
            if j < i1 {
                assert(out[j] == a[j]);
            } else if j < i2 {
                assert(out[j] == d[j - i1]);
            } else if j < i3 {
                assert(out[j] == b[j - i2]);
                assert(j == i2 + 3);
                assert(out[j + 2] == b[5]);
            } else if j < i4 {
                let line = line_bytes(content_type);
                assert(out[i4] == c[0] && out[i4 + 1] == c[1] && out[i4 + 2] == c[2]);
                if j + 4 <= i4 + 2 {
                    assert(line.subrange(j - i3, j - i3 + 4) =~= seen);
                    assert(stands_at(line, blank_line_bytes(), j - i3));
                } else {
                    assert(out[i4 + 2] != 13 && out[i4 + 2] != 10);
                }
            } else if j < i5 {
                assert(out[j] == c[j - i4]);
                assert(j == i4);
                assert(out[j + 2] == c[2]);
            } else {
                assert(out[j] == n[j - i5]);
            }
        }
    }
    lemma_find(out, blank_line_bytes(), 0, p);
    assert(out.skip(p + 4) =~= body);
}

/// What a client posts is what is read: a document behind a head and an empty line is the body,
/// where no empty line stands before that one or inside the document.
pub proof fn law_posted_document_is_read(head: Seq<char>, document: Seq<char>)
    requires
        forall|j: int|
            0 <= j < head.len() ==> !#[trigger] stands_at(head + blank_line(), blank_line(), j),
        forall|j: int| 0 <= j ==> !#[trigger] stands_at(document, blank_line(), j),
    ensures
        body_of(head + blank_line() + document) == document,
{
    let request = head + blank_line() + document;
    let p = head.len() as int;
    assert(request.subrange(p, p + 4) =~= blank_line());
    assert forall|j: int| 0 <= j < p implies !#[trigger] stands_at(request, blank_line(), j) by {
        assert(request.subrange(j, j + 4) =~= (head + blank_line()).subrange(j, j + 4));
        assert(!stands_at(head + blank_line(), blank_line(), j));
    }
    lemma_find(request, blank_line(), 0, p);
    assert(request.skip(p + 4) =~= document);
    lemma_find_nothing(document, blank_line(), 0);
}

/// Whatever asks for another path, or with another method, is told that it is not there, and
/// nothing else happens.
pub proof fn law_everything_else_is_not_found(request: Seq<u8>, page: Seq<u8>)
    requires
        valid_utf8(request),
        path_of(decode_utf8(request)) != "/cam"@ || !("GET"@.is_prefix_of(decode_utf8(request))
            || "POST"@.is_prefix_of(decode_utf8(request))),
    ensures
        handled(request, page) == Outcome::Send(
            response(404, "text/plain"@, encode_utf8("not found"@)),
        ),
{
}

/// Only a `POST` makes a viewer, and only a `GET` is sent the page.
pub proof fn law_methods(request: Seq<char>)
    ensures
        route_of(request) is Offer ==> "POST"@.is_prefix_of(request) && path_of(request) == "/cam"@,
        route_of(request) is Page ==> "GET"@.is_prefix_of(request) && path_of(request) == "/cam"@,
        "POST"@.is_prefix_of(request) ==> !(route_of(request) is Page),
{
    reveal_strlit("GET");
    reveal_strlit("POST");
    if "POST"@.is_prefix_of(request) && "GET"@.is_prefix_of(request) {
        assert("POST"@[0] == request[0]);
        assert("GET"@[0] == request[0]);
    }
}

/// Every `GET /cam` is sent the page, whatever follows the path in the request.
pub proof fn law_page_is_served(tail: Seq<char>, page: Seq<u8>)
    requires
        tail.len() > 0 ==> is_space(tail[0]),
    ensures
        handled(encode_utf8("GET /cam"@ + tail), page) == Outcome::Send(
            response(200, "text/html"@, page),
        ),
{
    let request = "GET /cam"@ + tail;
    reveal_strlit("GET /cam");
    reveal_strlit("GET");
    reveal_strlit("/cam");
    vstd::utf8::encode_utf8_valid_utf8(request);
    vstd::utf8::encode_utf8_decode_utf8(request);
    lemma_second_word(request, 3, 8);
    assert(request.subrange(4, 8) =~= "/cam"@);
    assert("GET"@.is_prefix_of(request)) by {
        assert(request.subrange(0, 3) =~= "GET"@);
    }
}

/// Every `POST /cam` whose body is a JSON document makes a viewer, with the string member `sdp` of
/// the document as the offer, or with an empty offer where there is none; one whose body is no
/// JSON document is dropped, with the error of parsing it.
pub proof fn law_offer_is_taken(tail: Seq<char>, document: Seq<char>, page: Seq<u8>)
    requires
        tail.len() > 0 ==> is_space(tail[0]),
        forall|j: int|
            0 <= j < ("POST /cam"@ + tail).len() ==> !#[trigger] stands_at(
                "POST /cam"@ + tail + blank_line(),
                blank_line(),
                j,
            ),
        forall|j: int| 0 <= j ==> !#[trigger] stands_at(document, blank_line(), j),
    ensures
        handled(encode_utf8("POST /cam"@ + tail + blank_line() + document), page) == offer_in(
            document,
        ),
{
    let head = "POST /cam"@ + tail;
    let request = head + blank_line() + document;
    reveal_strlit("POST /cam");
    reveal_strlit("POST");
    reveal_strlit("GET");
    reveal_strlit("/cam");
    vstd::utf8::encode_utf8_valid_utf8(request);
    vstd::utf8::encode_utf8_decode_utf8(request);
    assert(request[9] == if tail.len() > 0 {
        tail[0]
    } else {
        '\r'
    });
    lemma_second_word(request, 4, 9);
    assert(request.subrange(5, 9) =~= "/cam"@);
    assert("POST"@.is_prefix_of(request)) by {
        assert(request.subrange(0, 4) =~= "POST"@);
    }
    law_methods(request);
    law_posted_document_is_read(head, document);
}

} // verus!
