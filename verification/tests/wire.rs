use http_files::mime::get_mime_type;
use http_files::request::{
    find_byte, head_end, names_match, parse_head, parse_header_line, parse_request, parse_request_line,
    Progress, Request,
    RequestError,
};
use http_files::response::{reason_phrase, Phase, ResponseWriter};
use http_files::text::{copy_range, decimal_digits, has_suffix, literal, same_bytes};

#[test]
fn literal_gives_the_bytes_of_the_text() {
    assert_eq!(literal("GET"), vec![71u8, 69, 84]);
    assert_eq!(literal(""), Vec::<u8>::new());
}

#[test]
fn same_bytes_compares_content() {
    assert!(same_bytes(b"abc", b"abc"));
    assert!(!same_bytes(b"abc", b"abd"));
    assert!(!same_bytes(b"abc", b"ab"));
    assert!(same_bytes(b"", b""));
}

#[test]
fn has_suffix_looks_at_the_end() {
    assert!(has_suffix(b"index.html", b".html"));
    assert!(!has_suffix(b"index.html", b".htm"));
    assert!(has_suffix(b"a", b""));
    assert!(!has_suffix(b"ml", b".html"));
}

#[test]
fn copy_range_takes_the_middle() {
    assert_eq!(copy_range(b"hello", 1, 4), b"ell".to_vec());
    assert_eq!(copy_range(b"hello", 2, 2), Vec::<u8>::new());
}

#[test]
fn decimal_digits_of_numbers() {
    assert_eq!(decimal_digits(0), b"0".to_vec());
    assert_eq!(decimal_digits(7), b"7".to_vec());
    assert_eq!(decimal_digits(10), b"10".to_vec());
    assert_eq!(decimal_digits(1024), b"1024".to_vec());
    assert_eq!(decimal_digits(u64::MAX), b"18446744073709551615".to_vec());
    assert_eq!(decimal_digits(4096), 4096u64.to_string().into_bytes());
}

#[test]
fn mime_types_by_ending() {
    assert_eq!(get_mime_type(b"index.html"), b"text/html".to_vec());
    assert_eq!(get_mime_type(b"old.htm"), b"text/html".to_vec());
    assert_eq!(get_mime_type(b"style.css"), b"text/css".to_vec());
    assert_eq!(get_mime_type(b"app.js"), b"application/javascript".to_vec());
    assert_eq!(get_mime_type(b"notes.txt"), b"text/plain".to_vec());
    assert_eq!(get_mime_type(b"a.jpg"), b"image/jpeg".to_vec());
    assert_eq!(get_mime_type(b"a.jpeg"), b"image/jpeg".to_vec());
    assert_eq!(get_mime_type(b"a.png"), b"image/png".to_vec());
    assert_eq!(get_mime_type(b"a.gif"), b"image/gif".to_vec());
    assert_eq!(get_mime_type(b"a.pdf"), b"application/pdf".to_vec());
}

#[test]
fn mime_type_falls_back_for_unknown_endings() {
    assert_eq!(get_mime_type(b"archive.tar"), b"application/octet-stream".to_vec());
    assert_eq!(get_mime_type(b"Makefile"), b"application/octet-stream".to_vec());
    assert_eq!(get_mime_type(b""), b"application/octet-stream".to_vec());
    assert_eq!(get_mime_type(b"html"), b"application/octet-stream".to_vec());
}

#[test]
fn reason_phrases() {
    assert_eq!(reason_phrase(200), b"OK".to_vec());
    assert_eq!(reason_phrase(400), b"Bad Request".to_vec());
    assert_eq!(reason_phrase(404), b"Not Found".to_vec());
    assert_eq!(reason_phrase(405), b"Method Not Allowed".to_vec());
    assert_eq!(reason_phrase(500), b"Internal Server Error".to_vec());
}

#[test]
fn writer_puts_the_parts_in_order() {
    let mut w = ResponseWriter::new();
    assert_eq!(w.current_phase(), Phase::Start);
    w.start_response(200);
    assert_eq!(w.current_phase(), Phase::Headers);
    w.send_header(b"Content-Type", b"text/plain");
    w.send_header(b"Content-Length", b"5");
    assert_eq!(w.current_phase(), Phase::Headers);
    w.end_headers();
    assert_eq!(w.current_phase(), Phase::Body);
    w.write_body(b"hel");
    w.write_body(b"lo");
    assert_eq!(
        w.into_bytes(),
        b"HTTP/1.0 200 OK\r\nContent-Type: text/plain\r\nContent-Length: 5\r\n\r\nhello".to_vec()
    );
}

#[test]
fn writer_status_lines() {
    let mut w = ResponseWriter::new();
    w.start_response(404);
    w.end_headers();
    assert_eq!(w.into_bytes(), b"HTTP/1.0 404 Not Found\r\n\r\n".to_vec());
    let mut w = ResponseWriter::new();
    w.start_response(405);
    assert_eq!(w.into_bytes(), b"HTTP/1.0 405 Method Not Allowed\r\n".to_vec());
}

#[test]
fn find_byte_gives_first_place_or_length() {
    assert_eq!(find_byte(b"a b c", 0, b' '), 1);
    assert_eq!(find_byte(b"a b c", 2, b' '), 3);
    assert_eq!(find_byte(b"a b c", 4, b' '), 5);
    assert_eq!(find_byte(b"abc", 3, b'a'), 3);
}

#[test]
fn head_end_finds_the_first_blank_line() {
    assert_eq!(head_end(b"GET / HTTP/1.0\r\n\r\n"), Some(18));
    assert_eq!(head_end(b"GET / HTTP/1.0\r\n\r\nbody\r\n\r\n"), Some(18));
    assert_eq!(head_end(b"\r\n\r\n"), Some(4));
    assert_eq!(head_end(b"GET / HTTP/1.0\r\n"), None);
    assert_eq!(head_end(b"GET / HTTP/1.0\n\n"), None);
    assert_eq!(head_end(b""), None);
    assert_eq!(head_end(b"\r\n\r"), None);
}

#[test]
fn request_line_has_three_words() {
    assert_eq!(
        parse_request_line(b"GET /a/b HTTP/1.0"),
        Some((b"GET".to_vec(), b"/a/b".to_vec()))
    );
    assert_eq!(parse_request_line(b"GET /a/b"), None);
    assert_eq!(parse_request_line(b"GET"), None);
    assert_eq!(parse_request_line(b""), None);
    assert_eq!(parse_request_line(b" / HTTP/1.0"), None);
    assert_eq!(parse_request_line(b"GET  HTTP/1.0"), None);
    assert_eq!(parse_request_line(b"GET / "), None);
    assert_eq!(parse_request_line(b"GET / HTTP/1.0 x"), None);
}

#[test]
fn header_line_splits_at_the_first_colon() {
    assert_eq!(
        parse_header_line(b"Host: example.com:80"),
        Some((b"Host".to_vec(), b"example.com:80".to_vec()))
    );
    assert_eq!(parse_header_line(b"X:\t  v "), Some((b"X".to_vec(), b"v ".to_vec())));
    assert_eq!(parse_header_line(b"Empty:"), Some((b"Empty".to_vec(), Vec::new())));
    assert_eq!(parse_header_line(b"no colon"), None);
    assert_eq!(parse_header_line(b": value"), None);
}

#[test]
fn parse_head_reads_method_path_and_headers() {
    let r = parse_head(b"GET /index.html HTTP/1.0\r\nHost: a\r\nAccept: */*\r\n\r\n");
    assert_eq!(
        r,
        Ok(Request {
            method: b"GET".to_vec(),
            path: b"/index.html".to_vec(),
            headers: vec![
                (b"Host".to_vec(), b"a".to_vec()),
                (b"Accept".to_vec(), b"*/*".to_vec())
            ],
        })
    );
}

#[test]
fn parse_head_without_headers() {
    let r = parse_head(b"POST / HTTP/1.1\r\n\r\n");
    assert_eq!(
        r,
        Ok(Request { method: b"POST".to_vec(), path: b"/".to_vec(), headers: vec![] })
    );
}

#[test]
fn parse_head_rejects_what_is_no_request() {
    assert_eq!(parse_head(b""), Err(RequestError::MalformedRequest));
    assert_eq!(parse_head(b"\r\n\r\n"), Err(RequestError::MalformedRequest));
    assert_eq!(parse_head(b"GET /\r\n\r\n"), Err(RequestError::MalformedRequest));
    assert_eq!(parse_head(b"GET / HTTP/1.0\n\n"), Err(RequestError::MalformedRequest));
    assert_eq!(parse_head(b"GET / HTTP/1.0\r\n"), Err(RequestError::MalformedRequest));
    assert_eq!(parse_head(b"GET / HTTP/1.0\r\nHost\r\n\r\n"), Err(RequestError::MalformedRequest));
    assert_eq!(parse_head(b"GET / HTTP/1.0\r\nHost: a\r\n"), Err(RequestError::MalformedRequest));
}

#[test]
fn names_match_ignores_case() {
    assert!(names_match(b"Content-Type", b"content-type"));
    assert!(names_match(b"HOST", b"host"));
    assert!(!names_match(b"Host", b"Hos"));
    assert!(!names_match(b"a[", b"a{"));
    assert!(!names_match(b"a@", b"a`"));
}

#[test]
fn header_lookup_finds_the_last_of_a_name() {
    let r = parse_head(b"GET / HTTP/1.0\r\nX-A: 1\r\nHost: h\r\nx-a: 2\r\n\r\n").unwrap();
    assert_eq!(r.header(b"X-A"), Some(b"2".to_vec()));
    assert_eq!(r.header(b"host"), Some(b"h".to_vec()));
    assert_eq!(r.header(b"Accept"), None);
}

#[test]
fn reading_waits_for_the_whole_head() {
    let r = parse_request(Vec::new(), b"GET /a HTTP/1.0\r\nHo");
    assert_eq!(r, Ok(Progress::NeedMore { received: b"GET /a HTTP/1.0\r\nHo".to_vec() }));
    let r = parse_request(b"GET /a HTTP/1.0\r\nHo".to_vec(), b"st: x\r\n\r\nbody");
    assert_eq!(
        r,
        Ok(Progress::Complete {
            request: Request {
                method: b"GET".to_vec(),
                path: b"/a".to_vec(),
                headers: vec![(b"Host".to_vec(), b"x".to_vec())],
            }
        })
    );
}

#[test]
fn reading_tells_closed_from_malformed() {
    assert_eq!(parse_request(Vec::new(), b""), Err(RequestError::ConnectionClosed));
    assert_eq!(
        parse_request(b"GET / HTTP/1.0\r\n".to_vec(), b""),
        Err(RequestError::ConnectionClosed)
    );
    assert_eq!(parse_request(b"GET /".to_vec(), b"\r\n\r\n"), Err(RequestError::MalformedRequest));
}
