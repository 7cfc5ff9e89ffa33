//! What is read out of a request, and what is done about it.
use vstd::prelude::*;
use vstd::utf8::{decode_utf8, encode_utf8, valid_utf8};

use crate::http::{
    answer, answer_document, blank_line, body, decimal, handle, offer_of, respond, response,
    response_head, route, utf8_error, HandleError, Handling, Route,
};
use crate::http_laws::{
    body_bytes, decimal_value, fits_in_head, law_body_follows_first_blank_line,
    law_decimal_reads_back,
};
use crate::json::{json_members, parsed_json, value_members};
use crate::text::{
    find, is_space, lemma_find, lemma_find_nothing, lemma_run_ends_at, second_word, stands_at,
    whitespace, words,
};

verus! {

/// The characters that Unicode calls white space are, and no others.
pub proof fn law_whitespace(c: char, space: bool)
    ensures
        call_ensures(whitespace, (c,), space) ==> {
            let code = c as u32;
            space == (9 <= code <= 13 || code == 0x20 || code == 0x85 || code == 0xA0 || code
                == 0x1680 || 0x2000 <= code <= 0x200A || code == 0x2028 || code == 0x2029 || code
                == 0x202F || code == 0x205F || code == 0x3000)
        },
{
}

/// Whether there is nothing but white space.
pub open spec fn is_blank(text: Seq<char>) -> bool {
    forall|i: int| 0 <= i < text.len() ==> is_space(#[trigger] text[i])
}

/// Whether there is no white space.
pub open spec fn is_solid(text: Seq<char>) -> bool {
    forall|i: int| 0 <= i < text.len() ==> !is_space(#[trigger] text[i])
}

/// The words of a text that begins with white space, a word, and white space or the end.
proof fn lemma_first_word(lead: Seq<char>, first: Seq<char>, rest: Seq<char>)
    requires
        is_blank(lead),
        is_solid(first),
        first.len() > 0,
        rest.len() > 0 ==> is_space(rest[0]),
    ensures
        words(lead + first + rest) == seq![first] + words(rest),
{
    let text = lead + first + rest;
    let start = lead.len() as int;
    let end = start + first.len();
    assert forall|j: int| 0 <= j < start implies is_space(#[trigger] text[j]) == true by {
        assert(text[j] == lead[j]);
    }
    assert(text[start] == first[0]);
    lemma_run_ends_at(text, 0, start, true);
    assert forall|j: int| start <= j < end implies is_space(#[trigger] text[j]) == false by {
        assert(text[j] == first[j - start]);
    }
    if end < text.len() {
        assert(text[end] == rest[0]);
    }
    lemma_run_ends_at(text, start, end, false);
    assert(text.subrange(start, end) =~= first);
    assert(text.skip(end) =~= rest);
}

/// White space has no words.
proof fn lemma_no_words(text: Seq<char>)
    requires
        is_blank(text),
    ensures
        words(text).len() == 0,
{
    lemma_run_ends_at(text, 0, text.len() as int, true);
}

/// The second word is found wherever it stands, however long it is and whatever surrounds it.
pub proof fn law_second_word(
    text: &str,
    lead: Seq<char>,
    first: Seq<char>,
    gap: Seq<char>,
    second: Seq<char>,
    tail: Seq<char>,
    word: Option<String>,
)
    requires
        is_blank(lead) && is_blank(gap) && gap.len() > 0,
        is_solid(first) && first.len() > 0,
        is_solid(second) && second.len() > 0,
        tail.len() > 0 ==> is_space(tail[0]),
        text@ == lead + first + gap + second + tail,
    ensures
        call_ensures(second_word, (text,), word) ==> word is Some && word->0@ == second,
{
    let rest = gap + second + tail;
    assert(rest[0] == gap[0]);
    assert(text@ =~= lead + first + rest);
    lemma_first_word(lead, first, rest);
    lemma_first_word(gap, second, tail);
    assert(words(text@)[1] == second);
}

/// A text of one word or none has no second one.
pub proof fn law_no_second_word(
    text: &str,
    lead: Seq<char>,
    first: Seq<char>,
    tail: Seq<char>,
    word: Option<String>,
)
    requires
        is_blank(lead) && is_solid(first) && is_blank(tail),
        text@ == lead + first + tail,
    ensures
        call_ensures(second_word, (text,), word) ==> word is None,
{
    lemma_no_words(tail);
    if first.len() > 0 {
        lemma_first_word(lead, first, tail);
    } else {
        assert forall|i: int| 0 <= i < text@.len() implies is_space(#[trigger] text@[i]) by {
            if i < lead.len() {
                assert(text@[i] == lead[i]);
            } else {
                assert(text@[i] == tail[i - lead.len()]);
            }
        }
        lemma_no_words(text@);
    }
}

/// Whether an empty line stands at a position of a text.
pub open spec fn empty_line_at(text: Seq<char>, j: int) -> bool {
    0 <= j && j + 4 <= text.len() && text[j] == '\r' && text[j + 1] == '\n' && text[j + 2] == '\r'
        && text[j + 3] == '\n'
}

/// Whether no empty line stands in a text.
pub open spec fn no_empty_line(text: Seq<char>) -> bool {
    forall|j: int| !#[trigger] empty_line_at(text, j)
}

/// Whether the first empty line of a text stands at a position.
pub open spec fn first_empty_line(text: Seq<char>, p: int) -> bool {
    empty_line_at(text, p) && forall|j: int| j < p ==> !#[trigger] empty_line_at(text, j)
}

proof fn lemma_empty_line(text: Seq<char>, j: int)
    ensures
        stands_at(text, blank_line(), j) <==> empty_line_at(text, j),
{
    if 0 <= j && j + 4 <= text.len() {
        let seen = text.subrange(j, j + 4);
        assert(seen[0] == text[j] && seen[1] == text[j + 1] && seen[2] == text[j + 2] && seen[3]
            == text[j + 3]);
        if empty_line_at(text, j) {
            assert(seen =~= blank_line());
        }
    }
}

proof fn lemma_find_line(text: Seq<char>, p: int)
    ensures
        first_empty_line(text, p) ==> find(text, blank_line(), 0) == Some(p),
        no_empty_line(text) ==> find(text, blank_line(), 0) is None,
{
    assert forall|j: int| stands_at(text, blank_line(), j) == #[trigger] empty_line_at(
        text,
        j,
    ) by {
        lemma_empty_line(text, j);
    }
    if first_empty_line(text, p) {
        assert forall|j: int| 0 <= j < p implies !#[trigger] stands_at(text, blank_line(), j) by {
            assert(!empty_line_at(text, j));
        }
        assert(empty_line_at(text, p));
        lemma_find(text, blank_line(), 0, p);
    }
    if no_empty_line(text) {
        assert forall|j: int| 0 <= j implies !#[trigger] stands_at(text, blank_line(), j) by {
            assert(!empty_line_at(text, j));
        }
        lemma_find_nothing(text, blank_line(), 0);
    }
}

/// The body of a request is all that stands behind its first empty line, up to the next one, and
/// nothing where there is no empty line.
pub proof fn law_body(request: &str, p: int, q: int, result: String)
    ensures
        call_ensures(body, (request,), result) ==> {
            &&& no_empty_line(request@) ==> result@ == Seq::<char>::empty()
            &&& first_empty_line(request@, p) && no_empty_line(request@.skip(p + 4)) ==> result@
                == request@.skip(p + 4)
            &&& first_empty_line(request@, p) && first_empty_line(request@.skip(p + 4), q)
                ==> result@ == request@.subrange(p + 4, p + 4 + q)
        },
{
    lemma_find_line(request@, p);
    if first_empty_line(request@, p) {
        let rest = request@.skip(p + 4);
        lemma_find_line(rest, q);
        if first_empty_line(rest, q) {
            assert(rest.take(q) =~= request@.subrange(p + 4, p + 4 + q));
        }
    }
}

/// Whether a request begins with the three letters of `GET`.
pub open spec fn begins_get(request: Seq<char>) -> bool {
    request.len() >= 3 && request[0] == 'G' && request[1] == 'E' && request[2] == 'T'
}

/// Whether a request begins with the four letters of `POST`.
pub open spec fn begins_post(request: Seq<char>) -> bool {
    request.len() >= 4 && request[0] == 'P' && request[1] == 'O' && request[2] == 'S' && request[3]
        == 'T'
}

/// A request is routed by its first letters and its second word: the page for `GET /cam`, the offer
/// in the body for `POST /cam`, and nothing is there otherwise.
pub proof fn law_route(request: &str, word: Option<String>, text: String, r: Route)
    ensures
        call_ensures(route, (request,), r) && call_ensures(second_word, (request,), word)
            && call_ensures(body, (request,), text) ==> {
            let cam = word is Some && word->0@ == "/cam"@;
            &&& r is Page <==> cam && begins_get(request@)
            &&& r is Offer <==> cam && begins_post(request@)
            &&& r is NotFound <==> !(cam && (begins_get(request@) || begins_post(request@)))
            &&& r matches Route::Offer { body } ==> body@ == text@
        },
{
    reveal_strlit("GET");
    reveal_strlit("POST");
    reveal_strlit("/");
    reveal_strlit("/cam");
    assert("/"@.len() != "/cam"@.len());
    assert("GET"@.is_prefix_of(request@) <==> begins_get(request@)) by {
        if "GET"@.is_prefix_of(request@) {
            assert("GET"@[0] == request@[0] && "GET"@[1] == request@[1] && "GET"@[2] == request@[2]);
        }
        if begins_get(request@) {
            assert(request@.subrange(0, 3) =~= "GET"@);
        }
    }
    assert("POST"@.is_prefix_of(request@) <==> begins_post(request@)) by {
        if "POST"@.is_prefix_of(request@) {
            assert("POST"@[0] == request@[0] && "POST"@[1] == request@[1] && "POST"@[2]
                == request@[2] && "POST"@[3] == request@[3]);
        }
        if begins_post(request@) {
            assert(request@.subrange(0, 4) =~= "POST"@);
        }
    }
}

/// Whether digits denote a number, without zeros in front of it.
pub open spec fn denotes(digits: Seq<u8>, n: int) -> bool {
    &&& digits.len() > 0
    &&& forall|i: int| 0 <= i < digits.len() ==> 48 <= #[trigger] digits[i] <= 57
    &&& digits.len() > 1 ==> digits[0] != 48
    &&& decimal_value(digits) == n
}

/// Digits to which one is added denote ten times the number and that one.
pub proof fn law_digits_denote(digits: Seq<u8>, digit: u8)
    ensures
        decimal_value(Seq::empty()) == 0,
        decimal_value(digits.push(digit)) == decimal_value(digits) * 10 + (digit - 48),
{
    assert(digits.push(digit).drop_last() =~= digits);
}

proof fn lemma_denotes(n: nat)
    ensures
        denotes(decimal(n), n as int),
        n > 0 ==> decimal(n)[0] != 48,
    decreases n,
{
    law_decimal_reads_back(n);
    if n >= 10 {
        lemma_denotes(n / 10);
        assert(decimal(n)[0] == decimal(n / 10)[0]);
    }
}

/// Whether bytes are a response: a status line, the content type, the number of bytes in the body,
/// an empty line, and the body as it is.
pub open spec fn is_response(
    out: Seq<u8>,
    status: int,
    content_type: Seq<char>,
    body: Seq<u8>,
) -> bool {
    exists|code: Seq<u8>, length: Seq<u8>|
        {
            &&& #[trigger] denotes(code, status)
            &&& #[trigger] denotes(length, body.len() as int)
            &&& out == encode_utf8("HTTP/1.1 "@) + code + encode_utf8(" OK\r\nContent-Type: "@)
                + encode_utf8(content_type) + encode_utf8("\r\nContent-Length: "@) + length
                + encode_utf8("\r\n\r\n"@) + body
        }
}

proof fn lemma_response(status: u16, content_type: Seq<char>, body: Seq<u8>)
    ensures
        is_response(response(status, content_type, body), status as int, content_type, body),
{
    lemma_denotes(status as nat);
    lemma_denotes(body.len());
    assert(response(status, content_type, body) =~= encode_utf8("HTTP/1.1 "@) + decimal(
        status as nat,
    ) + encode_utf8(" OK\r\nContent-Type: "@) + encode_utf8(content_type) + encode_utf8(
        "\r\nContent-Length: "@,
    ) + decimal(body.len()) + encode_utf8("\r\n\r\n"@) + body);
}

/// What is sent is a response with the status, the content type and the body that were asked for,
/// and its head says how long the body is.
pub proof fn law_respond(status: u16, content_type: &str, body: &[u8], out: Vec<u8>)
    ensures
        call_ensures(respond, (status, content_type, body), out) ==> is_response(
            out@,
            status as int,
            content_type@,
            body@,
        ),
{
    lemma_response(status, content_type@, body@);
}

/// The digits behind `Content-Length: ` denote the number of bytes that follow the first empty line.
pub proof fn law_content_length(status: u16, content_type: &str, body: &[u8], out: Vec<u8>)
    requires
        fits_in_head(content_type@),
    ensures
        call_ensures(respond, (status, content_type, body), out) ==> {
            &&& body_bytes(out@) == body@
            &&& exists|before: Seq<u8>, length: Seq<u8>|
                {
                    &&& #[trigger] denotes(length, body_bytes(out@).len() as int)
                    &&& out@ == #[trigger] (before + encode_utf8("\r\nContent-Length: "@)) + length
                        + seq![13u8, 10u8, 13u8, 10u8] + body_bytes(out@)
                }
        },
{
    if call_ensures(respond, (status, content_type, body), out) {
        law_body_follows_first_blank_line(status, content_type@, body@);
        lemma_denotes(body@.len());
        let before = encode_utf8("HTTP/1.1 "@) + decimal(status as nat) + encode_utf8(
            " OK\r\nContent-Type: "@,
        ) + encode_utf8(content_type@);
        let length = decimal(body@.len());
        reveal_strlit("\r\n\r\n");
        vstd::utf8::is_ascii_chars_encode_utf8("\r\n\r\n"@);
        assert(encode_utf8("\r\n\r\n"@) =~= seq![13u8, 10u8, 13u8, 10u8]);
        assert(out@ == response_head(status, content_type@, body@.len()) + body@);
        assert(out@ =~= (before + encode_utf8("\r\nContent-Length: "@)) + length + seq![
            13u8,
            10u8,
            13u8,
            10u8,
        ] + body_bytes(out@));
        assert(denotes(length, body_bytes(out@).len() as int));
    }
}

/// An offer is handed on as it is, however long, and is empty where there is none.
pub proof fn law_offer_of(member: Option<String>, offer: String)
    ensures
        call_ensures(offer_of, (member,), offer) ==> {
            &&& member matches Some(text) ==> offer@ == text@
            &&& member is None ==> offer@.len() == 0
        },
{
}

/// What is done about a request follows from what it asks for. The page is sent as it is. The offer
/// is the string in the member `sdp` of the document in the body, character for character, and empty
/// where there is no such string.
pub proof fn law_handle(
    request: &[u8],
    page: &[u8],
    text: &str,
    r: Route,
    handling: Result<Handling, HandleError>,
)
    ensures
        call_ensures(handle, (request, page), handling) ==> {
            &&& handling matches Err(HandleError::NotUtf8(e)) ==> !valid_utf8(request@) && e
                == utf8_error(request@)
            &&& !valid_utf8(request@) ==> handling is Err && handling->Err_0 is NotUtf8
            &&& call_ensures(route, (text,), r) && encode_utf8(text@) == request@ ==> match r {
                Route::Page => handling is Ok && handling->Ok_0 is Send && is_response(
                    handling->Ok_0->Send_0@,
                    200,
                    "text/html"@,
                    page@,
                ),
                Route::NotFound => handling is Ok && handling->Ok_0 is Send && is_response(
                    handling->Ok_0->Send_0@,
                    404,
                    "text/plain"@,
                    encode_utf8("not found"@),
                ),
                Route::Offer { body } => match parsed_json(body@) {
                    Err(e) => handling == Err::<Handling, HandleError>(HandleError::NotJson(e)),
                    Ok(document) => {
                        let members = value_members(document);
                        &&& handling is Ok
                        &&& handling->Ok_0 is AddViewer
                        &&& forall|t: Seq<char>|
                            members.contains_key("sdp"@) && #[trigger] members["sdp"@] == Some(t)
                                ==> handling->Ok_0->offer@ == t
                        &&& !(members.contains_key("sdp"@) && members["sdp"@] is Some)
                            ==> handling->Ok_0->offer@.len() == 0
                    },
                },
            }
        },
{
    if call_ensures(handle, (request, page), handling) {
        if encode_utf8(text@) == request@ {
            vstd::utf8::encode_utf8_valid_utf8(text@);
            vstd::utf8::encode_utf8_decode_utf8(text@);
            lemma_response(200, "text/html"@, page@);
            lemma_response(404, "text/plain"@, encode_utf8("not found"@));
        }
    }
}

/// Whether a document answers an offer: it is an object of two members, `type` with `answer` and
/// `sdp` with the session description, character for character.
pub open spec fn answers(document: Seq<char>, sdp: Seq<char>) -> bool {
    &&& json_members(document) is Some
    &&& forall|key: Seq<char>|
        #[trigger] json_members(document)->0.contains_key(key) <==> key == "type"@ || key == "sdp"@
    &&& json_members(document)->0["type"@] == Some("answer"@)
    &&& json_members(document)->0["sdp"@] == Some(sdp)
}

/// The document that is made for a session description answers with just that.
pub proof fn law_answer_document(sdp: &str, document: String)
    ensures
        call_ensures(answer_document, (sdp,), document) ==> answers(document@, sdp@),
{
    reveal_strlit("type");
    reveal_strlit("sdp");
    assert("type"@.len() != "sdp"@.len());
}

/// A viewer is sent that document, as JSON.
pub proof fn law_answer(sdp: &str, document: String, out: Vec<u8>)
    ensures
        call_ensures(answer, (sdp,), out) ==> {
            &&& call_ensures(answer_document, (sdp,), document) ==> is_response(
                out@,
                200,
                "application/json"@,
                encode_utf8(document@),
            )
            &&& answers(decode_utf8(body_bytes(out@)), sdp@)
        },
{
    reveal_strlit("type");
    reveal_strlit("sdp");
    assert("type"@.len() != "sdp"@.len());
    lemma_response(200, "application/json"@, encode_utf8(document@));
}

} // verus!
