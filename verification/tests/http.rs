use intercom_cam::http::{
    answer, answer_document, body, handle, offer_of, respond, route, HandleError, Handling, Route,
};
use intercom_cam::text::{second_word, whitespace};

const PAGE: &[u8] = b"<html>";

fn sent(request: &[u8]) -> String {
    match handle(request, PAGE) {
        Ok(Handling::Send(bytes)) => String::from_utf8(bytes).unwrap(),
        _ => panic!("nothing sent"),
    }
}

fn offered(request: &str) -> String {
    match handle(request.as_bytes(), PAGE) {
        Ok(Handling::AddViewer { offer }) => offer,
        _ => panic!("no viewer"),
    }
}

#[test]
fn white_space_is_what_unicode_says() {
    for code in 0..=0x10FFFFu32 {
        if let Some(c) = char::from_u32(code) {
            assert_eq!(whitespace(c), c.is_whitespace(), "{:x}", code);
        }
    }
}

#[test]
fn the_second_word_is_found() {
    for text in [
        "", " ", "GET", " GET", "GET ", "GET /cam", " GET\t\n/cam HTTP/1.1\r\n", "a b", "a\u{3000}b c",
        "GET  /cam", "\u{a0}x\u{2009}y",
    ] {
        assert_eq!(
            second_word(text),
            text.split_whitespace().nth(1).map(str::to_owned),
            "{:?}",
            text
        );
    }
}

#[test]
fn the_body_stands_between_empty_lines() {
    for text in [
        "", "a", "a\r\n\r\n", "a\r\n\r\nb", "a\r\n\r\nb\r\n\r\nc", "\r\n\r\n\r\n\r\n", "\r\n\r\n\r\nx",
        "a\r\n\r\n\r\n\r\nb", "\r\n\r", "ä\r\n\r\nö",
    ] {
        assert_eq!(body(text), text.split("\r\n\r\n").nth(1).unwrap_or(""), "{:?}", text);
    }
}

#[test]
fn routes() {
    assert!(matches!(route("GET /cam HTTP/1.1\r\n\r\n"), Route::Page));
    assert!(matches!(route("GET /cam"), Route::Page));
    assert!(matches!(route("GETTING /cam"), Route::Page));
    assert!(matches!(route("GET /"), Route::NotFound));
    assert!(matches!(route("GET"), Route::NotFound));
    assert!(matches!(route("GET /camera"), Route::NotFound));
    assert!(matches!(route("get /cam"), Route::NotFound));
    assert!(matches!(route(" GET /cam"), Route::NotFound));
    assert!(matches!(route("PUT /cam HTTP/1.1"), Route::NotFound));
    assert!(matches!(route(""), Route::NotFound));
    match route("POST /cam HTTP/1.1\r\nHost: x\r\n\r\n{}") {
        Route::Offer { body } => assert_eq!(body, "{}"),
        _ => panic!("no offer"),
    }
}

#[test]
fn responses_are_laid_out_as_http_has_it() {
    let out = respond(200, "text/html", b"0123456789ab");
    assert_eq!(
        String::from_utf8(out).unwrap(),
        "HTTP/1.1 200 OK\r\nContent-Type: text/html\r\nContent-Length: 12\r\n\r\n0123456789ab"
    );
    let empty = respond(0, "", b"");
    assert_eq!(
        String::from_utf8(empty).unwrap(),
        "HTTP/1.1 0 OK\r\nContent-Type: \r\nContent-Length: 0\r\n\r\n"
    );
    let large = respond(65535, "ä", &[7u8; 1234567]);
    let head = "HTTP/1.1 65535 OK\r\nContent-Type: ä\r\nContent-Length: 1234567\r\n\r\n";
    assert_eq!(large[..head.len()], head.as_bytes()[..]);
    assert_eq!(large.len(), head.len() + 1234567);
}

#[test]
fn the_body_of_a_response_follows_its_first_empty_line() {
    let out = respond(404, "text/plain", b"a\r\n\r\nb");
    let text = String::from_utf8(out).unwrap();
    let (head, body) = text.split_once("\r\n\r\n").unwrap();
    assert_eq!(body, "a\r\n\r\nb");
    assert!(head.ends_with("Content-Length: 6"));
}

#[test]
fn the_page_is_served() {
    assert_eq!(
        sent(b"GET /cam HTTP/1.1\r\n\r\n"),
        "HTTP/1.1 200 OK\r\nContent-Type: text/html\r\nContent-Length: 6\r\n\r\n<html>"
    );
}

#[test]
fn other_requests_are_not_found() {
    let expected =
        "HTTP/1.1 404 OK\r\nContent-Type: text/plain\r\nContent-Length: 9\r\n\r\nnot found";
    assert_eq!(sent(b"GET / HTTP/1.1\r\n\r\n"), expected);
    assert_eq!(sent(b"DELETE /cam HTTP/1.1\r\n\r\n"), expected);
    assert_eq!(sent(b""), expected);
}

#[test]
fn an_offer_makes_a_viewer() {
    assert_eq!(
        offered("POST /cam HTTP/1.1\r\nHost: x\r\n\r\n{\"type\":\"offer\",\"sdp\":\"v=0\\r\\n\\u00e4\"}"),
        "v=0\r\nä"
    );
}

#[test]
fn a_document_without_a_session_description_is_an_empty_offer() {
    assert_eq!(offered("POST /cam\r\n\r\n{}"), "");
    assert_eq!(offered("POST /cam\r\n\r\n{\"sdp\":7}"), "");
    assert_eq!(offered("POST /cam\r\n\r\n[\"sdp\"]"), "");
    assert_eq!(offered("POST /cam\r\n\r\n null "), "");
    assert_eq!(offered("POST /cam\r\n\r\n{\"sdp\":\"a\",\"sdp\":\"b\"}"), "b");
    assert_eq!(offer_of(None), "");
    assert_eq!(offer_of(Some("x".to_string())), "x");
}

#[test]
fn a_body_that_is_not_json_is_dropped() {
    for request in ["POST /cam", "POST /cam\r\n\r\n", "POST /cam\r\n\r\n{", "POST /cam\r\n\r\nv=0"] {
        let expected = serde_json::from_str::<serde_json::Value>(&body(request)).unwrap_err();
        match handle(request.as_bytes(), PAGE) {
            Err(HandleError::NotJson(e)) => assert_eq!(e.to_string(), expected.to_string()),
            _ => panic!("not dropped"),
        }
    }
}

#[test]
fn bytes_that_are_no_text_are_dropped() {
    match handle(b"GET /cam \xff", PAGE) {
        Err(HandleError::NotUtf8(e)) => {
            assert_eq!((e.valid_up_to(), e.error_len()), (9, Some(1)));
        }
        _ => panic!("not dropped"),
    }
    match handle(b"POST /cam\r\n\r\n{\"sdp\":\"\xc3", PAGE) {
        Err(HandleError::NotUtf8(e)) => {
            assert_eq!((e.valid_up_to(), e.error_len()), (21, None));
        }
        _ => panic!("not dropped"),
    }
}

#[test]
fn an_answer_reads_back() {
    let sdp = "v=0\r\n\"quoted\" \\ \u{1} ä \u{1f600}\r\n\r\n";
    let document = answer_document(sdp);
    let value: serde_json::Value = serde_json::from_str(&document).unwrap();
    assert_eq!(value["type"], "answer");
    assert_eq!(value["sdp"], sdp);
    assert_eq!(value.as_object().unwrap().len(), 2);
    assert_eq!(answer_document("x"), "{\"sdp\":\"x\",\"type\":\"answer\"}");
}

#[test]
fn an_answer_is_sent_as_json() {
    assert_eq!(
        String::from_utf8(answer("é")).unwrap(),
        "HTTP/1.1 200 OK\r\nContent-Type: application/json\r\nContent-Length: 28\r\n\r\n{\"sdp\":\"é\",\"type\":\"answer\"}"
    );
}

#[test]
fn a_client_reads_the_answer_behind_the_first_empty_line() {
    let text = String::from_utf8(answer("a\r\n\r\nb")).unwrap();
    let (_, body) = text.split_once("\r\n\r\n").unwrap();
    let value: serde_json::Value = serde_json::from_str(body).unwrap();
    assert_eq!(value["type"], "answer");
    assert_eq!(value["sdp"], "a\r\n\r\nb");
}

#[test]
fn an_answer_posted_back_is_the_same_offer() {
    let sdp = "v=0\r\ns=-\r\n\r\nx";
    let request = format!("POST /cam HTTP/1.1\r\n\r\n{}", answer_document(sdp));
    assert_eq!(offered(&request), sdp);
}
