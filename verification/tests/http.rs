use worker_pool::http::{starts_with, Request, Response};

#[test]
fn request_lines() {
    assert_eq!(Request::Get.as_bytes(), b"GET / HTTP/1.1\r\n");
    assert_eq!(Request::Sleep.as_bytes(), b"GET /sleep HTTP/1.1\r\n");
    assert_eq!(Request::Stop.as_bytes(), b"GET /stop HTTP/1.1\r\n");
}

#[test]
fn status_lines() {
    assert_eq!(Request::Get.as_respond_str(), "HTTP/1.1 200 OK");
    assert_eq!(Request::Sleep.as_respond_str(), "HTTP/1.1 200 OK");
    assert_eq!(Request::Stop.as_respond_str(), "HTTP/1.1 404 NOT FOUND");
}

#[test]
fn pages_by_request() {
    assert_eq!(Response::from_request(&Request::Get), Response::Hello);
    assert_eq!(Response::from_request(&Request::Sleep), Response::Hello);
    assert_eq!(Response::from_request(&Request::Stop), Response::FourFour);
}

#[test]
fn files_by_page() {
    assert_eq!(Response::Hello.get_resource(), "hello.html");
    assert_eq!(Response::FourFour.get_resource(), "404.html");
}

#[test]
fn requests_are_told_by_their_first_line() {
    assert_eq!(Request::from_bytes(b"GET / HTTP/1.1\r\nHost: x\r\n\r\n"), Request::Get);
    assert_eq!(Request::from_bytes(b"GET /sleep HTTP/1.1\r\nHost: x\r\n\r\n"), Request::Sleep);
    assert_eq!(Request::from_bytes(b"GET /stop HTTP/1.1\r\n"), Request::Stop);
    assert_eq!(Request::from_bytes(b"GET /other HTTP/1.1\r\n"), Request::Stop);
    assert_eq!(Request::from_bytes(b"POST / HTTP/1.1\r\n"), Request::Stop);
}

#[test]
fn a_line_cut_short_is_no_request() {
    assert_eq!(Request::from_bytes(b""), Request::Stop);
    assert_eq!(Request::from_bytes(b"GET / HTTP/1.1\r"), Request::Stop);
    assert_eq!(Request::from_bytes(b"GET /sleep HTTP/1.1"), Request::Stop);
}

#[test]
fn a_whole_buffer_is_read_from_its_start() {
    let mut buffer = [0u8; 1024];
    assert_eq!(Request::from_bytes(&buffer), Request::Stop);
    let line = b"GET / HTTP/1.1\r\n";
    buffer[..line.len()].copy_from_slice(line);
    assert_eq!(Request::from_bytes(&buffer), Request::Get);
    let mut shifted = [0u8; 1024];
    shifted[1..line.len() + 1].copy_from_slice(line);
    assert_eq!(Request::from_bytes(&shifted), Request::Stop);
}

#[test]
fn prefixes() {
    assert!(starts_with(b"abc", b""));
    assert!(starts_with(b"abc", b"ab"));
    assert!(starts_with(b"abc", b"abc"));
    assert!(!starts_with(b"abc", b"abcd"));
    assert!(!starts_with(b"abc", b"ac"));
    assert!(starts_with(b"", b""));
    assert!(!starts_with(b"", b"a"));
}

#[test]
fn answer_to_a_found_page() {
    let answer = Request::Get.respond(b"<h1>Hello!</h1>");
    assert_eq!(
        answer,
        b"HTTP/1.1 200 OK\r\nContent-Length: 15\r\n\r\n<h1>Hello!</h1>".to_vec()
    );
}

#[test]
fn answer_to_a_missing_page() {
    let answer = Request::Stop.respond(b"gone");
    assert_eq!(answer, b"HTTP/1.1 404 NOT FOUND\r\nContent-Length: 4\r\n\r\ngone".to_vec());
}

#[test]
fn answer_with_an_empty_body() {
    let answer = Request::Sleep.respond(b"");
    assert_eq!(answer, b"HTTP/1.1 200 OK\r\nContent-Length: 0\r\n\r\n".to_vec());
}

#[test]
fn content_length_is_written_in_decimal() {
    let nine = vec![b'x'; 9];
    let ten = vec![b'x'; 10];
    let many = vec![b'y'; 12345];
    assert!(starts_with(&Request::Get.respond(&nine), b"HTTP/1.1 200 OK\r\nContent-Length: 9\r\n\r\nx"));
    assert!(starts_with(&Request::Get.respond(&ten), b"HTTP/1.1 200 OK\r\nContent-Length: 10\r\n\r\nx"));
    let answer = Request::Get.respond(&many);
    assert!(starts_with(&answer, b"HTTP/1.1 200 OK\r\nContent-Length: 12345\r\n\r\ny"));
    assert_eq!(answer.len(), 15 + 18 + 5 + 4 + 12345);
    assert_eq!(answer, format!("HTTP/1.1 200 OK\r\nContent-Length: {}\r\n\r\n{}", many.len(), "y".repeat(12345)).into_bytes());
}
