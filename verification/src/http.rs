//! The HTTP side of the camera: what a request asks for, and how it is answered.
use std::str::Utf8Error;

use vstd::prelude::*;
use vstd::string::StrSliceExecFns;
use vstd::string::StringSliceAdditionalSpecFns;
use vstd::utf8::{decode_utf8, encode_utf8, valid_utf8};

use crate::http_laws::{body_bytes, law_body_follows_first_blank_line, lemma_one_line_fits};
use crate::json::{
    empty_object, insert_string, json_members, no_members, object_text, parse, parsed_json, render,
    string_at, string_member, value_members,
};
use crate::text::{chars_of, find, lemma_find, lemma_find_nothing, second_word, stands_at, words};

verus! {

/// What is wrong with bytes that are not UTF-8.
#[verifier::external_type_specification]
#[verifier::external_body]
pub struct ExUtf8Error(Utf8Error);

/// The error that bytes are refused with that are not UTF-8.
pub uninterp spec fn utf8_error(bytes: Seq<u8>) -> Utf8Error;

/// `std::str::from_utf8`: bytes that are UTF-8 are the text that they encode, other bytes are an
/// error, which depends on the bytes alone.
pub assume_specification[ std::str::from_utf8 ](v: &[u8]) -> (text: Result<&str, Utf8Error>)
    ensures
        text is Ok <==> valid_utf8(v@),
        text matches Ok(t) ==> t.spec_bytes() == v@,
        text matches Err(e) ==> e == utf8_error(v@),
;

/// The empty line that ends the head of a message.
pub open spec fn blank_line() -> Seq<char> {
    seq!['\r', '\n', '\r', '\n']
}

/// The path that a request asks for: its second word, or the root.
pub open spec fn path_of(request: Seq<char>) -> Seq<char> {
    if words(request).len() >= 2 {
        words(request)[1]
    } else {
        "/"@
    }
}

/// The body of a request: what stands behind its first empty line, up to the next one.
pub open spec fn body_of(request: Seq<char>) -> Seq<char> {
    match find(request, blank_line(), 0) {
        None => seq![],
        Some(p) => {
            let rest = request.skip(p + 4);
            match find(rest, blank_line(), 0) {
                None => rest,
                Some(q) => rest.take(q),
            }
        },
    }
}

/// What a request asks for.
pub enum Route {
    /// The page.
    Page,
    /// To become a viewer, with an offer in the body.
    Offer { body: String },
    /// Something that is not there.
    NotFound,
}

/// What a route says.
pub enum RouteView {
    Page,
    Offer { body: Seq<char> },
    NotFound,
}

impl View for Route {
    type V = RouteView;

    open spec fn view(&self) -> RouteView {
        match *self {
            Route::Page => RouteView::Page,
            Route::Offer { body } => RouteView::Offer { body: body@ },
            Route::NotFound => RouteView::NotFound,
        }
    }
}

/// Requests for `/cam` are served: `GET` with the page, `POST` with an answer to the offer in the
/// body. Nothing else is there.
pub open spec fn route_of(request: Seq<char>) -> RouteView {
    if path_of(request) != "/cam"@ {
        RouteView::NotFound
    } else if "GET"@.is_prefix_of(request) {
        RouteView::Page
    } else if "POST"@.is_prefix_of(request) {
        RouteView::Offer { body: body_of(request) }
    } else {
        RouteView::NotFound
    }
}

/// Whether `part` stands in `whole` at position `i`.
fn chars_stand_at(whole: &Vec<char>, part: &Vec<char>, i: usize) -> (there: bool)
    requires
        i <= whole@.len(),
    ensures
        there == stands_at(whole@, part@, i as int),
{
    let len: usize = whole.len();
    if len - i < part.len() {
        return false;
    }
    let mut k: usize = 0;
    while k < part.len()
        invariant
            len == whole@.len(),
            i + part@.len() <= len,
            k <= part@.len(),
            forall|j: int| 0 <= j < k ==> whole@[i + j] == #[trigger] part@[j],
        decreases part@.len() - k,
    {
        if whole[i + k] != part[k] {
            assert(whole@.subrange(i as int, i + part@.len())[k as int] != part@[k as int]);
            return false;
        }
        k = k + 1;
    }
    assert(whole@.subrange(i as int, i + part@.len()) =~= part@);
    true
}

/// The first position at or after `from` at which `part` stands in `whole`.
fn find_chars(whole: &Vec<char>, part: &Vec<char>, from: usize) -> (found: Option<usize>)
    requires
        from <= whole@.len(),
    ensures
        found is Some <==> find(whole@, part@, from as int) is Some,
        found is Some ==> find(whole@, part@, from as int) == Some(found->0 as int),
        found is Some ==> from <= found->0 && found->0 + part@.len() <= whole@.len(),
{
    let mut i: usize = from;
    while i < whole.len()
        invariant
            from <= i <= whole@.len(),
            forall|j: int| from <= j < i ==> !#[trigger] stands_at(whole@, part@, j),
        decreases whole@.len() - i,
    {
        if chars_stand_at(whole, part, i) {
            proof {
                lemma_find(whole@, part@, from as int, i as int);
            }
            return Some(i);
        }
        i = i + 1;
    }
    if chars_stand_at(whole, part, i) {
        proof {
            lemma_find(whole@, part@, from as int, i as int);
        }
        return Some(i);
    }
    proof {
        lemma_find_nothing(whole@, part@, from as int);
    }
    None
}

/// The body of a request.
pub fn body(request: &str) -> (body: String)
    ensures
        body@ == body_of(request@),
{
    let chars = chars_of(request);
    let len: usize = chars.len();
    let blank: Vec<char> = vec!['\r', '\n', '\r', '\n'];
    assert(blank@ =~= blank_line());
    match find_chars(&chars, &blank, 0) {
        None => String::new(),
        Some(p) => {
            let start: usize = p + 4;
            let rest_text = request.substring_char(start, len);
            let rest = chars_of(rest_text);
            assert(rest@ =~= request@.skip(start as int));
            match find_chars(&rest, &blank, 0) {
                None => rest_text.to_owned(),
                Some(q) => {
                    assert(rest@.subrange(0, q as int) =~= rest@.take(q as int));
                    rest_text.substring_char(0, q).to_owned()
                },
            }
        },
    }
}

/// Whether a text begins with another.
fn begins_with(text: &str, prefix: &str) -> (begins: bool)
    ensures
        begins == prefix@.is_prefix_of(text@),
{
    let begins: bool = chars_stand_at(&chars_of(text), &chars_of(prefix), 0);
    assert(begins == prefix@.is_prefix_of(text@)) by {
        if prefix@.len() <= text@.len() {
            assert(text@.subrange(0, prefix@.len() as int) =~= text@.subrange(
                0,
                0 + prefix@.len() as int,
            ));
        }
    }
    begins
}

/// What a request asks for.
pub fn route(request: &str) -> (route: Route)
    ensures
        route@ == route_of(request@),
{
    let path = match second_word(request) {
        Some(path) => path,
        None => "/".to_owned(),
    };
    if path != "/cam".to_owned() {
        Route::NotFound
    } else if begins_with(request, "GET") {
        Route::Page
    } else if begins_with(request, "POST") {
        Route::Offer { body: body(request) }
    } else {
        Route::NotFound
    }
}

/// The decimal digits of a number.
pub open spec fn decimal(n: nat) -> Seq<u8>
    decreases n,
{
    if n < 10 {
        seq![(48 + n) as u8]
    } else {
        decimal(n / 10).push((48 + n % 10) as u8)
    }
}

/// The head of a response. Its status line says OK whatever the status is.
pub open spec fn response_head(status: u16, content_type: Seq<char>, length: nat) -> Seq<u8> {
    encode_utf8("HTTP/1.1 "@) + decimal(status as nat) + encode_utf8(" OK\r\nContent-Type: "@)
        + encode_utf8(content_type) + encode_utf8("\r\nContent-Length: "@) + decimal(length)
        + encode_utf8("\r\n\r\n"@)
}

/// A response: its head, and its body.
pub open spec fn response(status: u16, content_type: Seq<char>, body: Seq<u8>) -> Seq<u8> {
    response_head(status, content_type, body.len()) + body
}

/// Appends the decimal digits of a number.
fn push_decimal(out: &mut Vec<u8>, n: usize)
    ensures
        final(out)@ == old(out)@ + decimal(n as nat),
    decreases n,
{
    if n >= 10 {
        push_decimal(out, n / 10);
    }
    out.push(48 + (n % 10) as u8);
    assert(out@ =~= old(out)@ + decimal(n as nat));
}

/// Appends bytes.
fn push_bytes(out: &mut Vec<u8>, bytes: &[u8])
    ensures
        final(out)@ == old(out)@ + bytes@,
{
    out.extend_from_slice(bytes);
    assert(out@ =~= old(out)@ + bytes@);
}

/// The bytes of a response.
pub fn respond(status: u16, content_type: &str, body: &[u8]) -> (out: Vec<u8>)
    ensures
        out@ == response(status, content_type@, body@),
{
    let mut out: Vec<u8> = Vec::new();
    push_bytes(&mut out, "HTTP/1.1 ".as_bytes());
    push_decimal(&mut out, status as usize);
    push_bytes(&mut out, " OK\r\nContent-Type: ".as_bytes());
    push_bytes(&mut out, content_type.as_bytes());
    push_bytes(&mut out, "\r\nContent-Length: ".as_bytes());
    push_decimal(&mut out, body.len());
    push_bytes(&mut out, "\r\n\r\n".as_bytes());
    push_bytes(&mut out, body);
    assert(out@ =~= response(status, content_type@, body@));
    out
}

/// The offer that a member of a JSON document holds: its text, or none.
pub open spec fn offer_text(member: Option<Seq<char>>) -> Seq<char> {
    match member {
        Some(text) => text,
        None => seq![],
    }
}

/// The offer in the member of a JSON document: the text of the member, or the empty text where
/// there is no such member or it is no string.
pub fn offer_of(member: Option<String>) -> (offer: String)
    ensures
        offer@ == offer_text(
            match member {
                Some(text) => Some(text@),
                None => None,
            },
        ),
{
    match member {
        Some(text) => text,
        None => String::new(),
    }
}

/// Why a request is dropped without a response.
pub enum HandleError {
    /// Its bytes are no text.
    NotUtf8(Utf8Error),
    /// Its body is no JSON document.
    NotJson(serde_json::Error),
}

/// What is done about a request.
pub enum Handling {
    /// These bytes are sent.
    Send(Vec<u8>),
    /// The sender becomes a viewer, and is sent the answer to its offer.
    AddViewer { offer: String },
}

/// What becomes of a request.
pub enum Outcome {
    NotUtf8(Utf8Error),
    NotJson(serde_json::Error),
    Send(Seq<u8>),
    AddViewer { offer: Seq<char> },
}

/// What the handling of a request says.
pub open spec fn outcome(handling: Result<Handling, HandleError>) -> Outcome {
    match handling {
        Err(HandleError::NotUtf8(e)) => Outcome::NotUtf8(e),
        Err(HandleError::NotJson(e)) => Outcome::NotJson(e),
        Ok(Handling::Send(bytes)) => Outcome::Send(bytes@),
        Ok(Handling::AddViewer { offer }) => Outcome::AddViewer { offer: offer@ },
    }
}

/// What becomes of an offer in the body of a request: the string member `sdp` of the document that
/// it is, or an empty offer where there is none, or the error of a body that is no JSON document.
pub open spec fn offer_in(body: Seq<char>) -> Outcome {
    match parsed_json(body) {
        Err(e) => Outcome::NotJson(e),
        Ok(document) => Outcome::AddViewer {
            offer: offer_text(string_at(value_members(document), "sdp"@)),
        },
    }
}

/// What becomes of a request, given the page.
pub open spec fn handled(request: Seq<u8>, page: Seq<u8>) -> Outcome {
    if !valid_utf8(request) {
        Outcome::NotUtf8(utf8_error(request))
    } else {
        match route_of(decode_utf8(request)) {
            RouteView::Page => Outcome::Send(response(200, "text/html"@, page)),
            RouteView::Offer { body } => offer_in(body),
            RouteView::NotFound => Outcome::Send(
                response(404, "text/plain"@, encode_utf8("not found"@)),
            ),
        }
    }
}

/// Handles a request, given the page that viewers get. Without a body nobody becomes a viewer.
pub fn handle(request: &[u8], page: &[u8]) -> (handling: Result<Handling, HandleError>)
    ensures
        outcome(handling) == handled(request@, page@),
        handling matches Ok(Handling::AddViewer { .. }) ==> body_of(decode_utf8(request@)).len()
            > 0,
{
    let text = match std::str::from_utf8(request) {
        Ok(text) => text,
        Err(e) => {
            return Err(HandleError::NotUtf8(e));
        },
    };
    proof {
        vstd::utf8::encode_utf8_decode_utf8(text@);
    }
    match route(text) {
        Route::Page => Ok(Handling::Send(respond(200, "text/html", page))),
        Route::Offer { body } => match parse(body.as_str()) {
            Err(e) => Err(HandleError::NotJson(e)),
            Ok(document) => Ok(
                Handling::AddViewer { offer: offer_of(string_member(&document, "sdp")) },
            ),
        },
        Route::NotFound => Ok(Handling::Send(respond(404, "text/plain", "not found".as_bytes()))),
    }
}

/// The members of the document that answers an offer.
pub open spec fn answer_members(sdp: Seq<char>) -> Map<Seq<char>, Option<Seq<char>>> {
    no_members().insert("type"@, Some("answer"@)).insert("sdp"@, Some(sdp))
}

/// The document that answers an offer. Its reader finds in it that it is an answer, and the
/// session description as it was given.
pub fn answer_document(sdp: &str) -> (document: String)
    ensures
        document@ == object_text(answer_members(sdp@)),
        json_members(document@) == Some(answer_members(sdp@)),
        string_at(json_members(document@)->0, "type"@) == Some("answer"@),
        string_at(json_members(document@)->0, "sdp"@) == Some(sdp@),
{
    let mut object = empty_object();
    insert_string(&mut object, "type".to_owned(), "answer".to_owned());
    insert_string(&mut object, "sdp".to_owned(), sdp.to_owned());
    proof {
        reveal_strlit("type");
        reveal_strlit("sdp");
        assert("type"@.len() != "sdp"@.len());
    }
    render(object)
}

/// The response to a viewer whose offer was accepted, given the session description to answer
/// with. Who reads on from its first empty line reads the document that answers the offer.
pub fn answer(sdp: &str) -> (out: Vec<u8>)
    ensures
        out@ == response(
            200,
            "application/json"@,
            encode_utf8(object_text(answer_members(sdp@))),
        ),
        json_members(decode_utf8(body_bytes(out@))) == Some(answer_members(sdp@)),
{
    let document = answer_document(sdp);
    let out = respond(200, "application/json", document.as_str().as_bytes());
    proof {
        reveal_strlit("application/json");
        lemma_one_line_fits("application/json"@);
        law_body_follows_first_blank_line(200, "application/json"@, encode_utf8(document@));
        vstd::utf8::encode_utf8_decode_utf8(document@);
    }
    out
}

} // verus!
