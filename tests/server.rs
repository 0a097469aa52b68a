use tinyserve::http::StatusCode;
use tinyserve::server::{Page, Reply, Server, SLEEP_SECS};

#[test]
fn root_gets_hello_page() {
    let r = Server::reply_to_buffer(b"GET / HTTP/1.1\r\n\r\n");
    assert_eq!(r, Reply { status: StatusCode::Success, page: Page::Hello, delay_secs: 0 });
    assert_eq!(r.page.filename(), "hello.html");
}

#[test]
fn sleep_waits_then_gets_hello_page() {
    let r = Server::reply_to_buffer(b"GET /sleep HTTP/1.1\r\n\r\n");
    assert_eq!(r, Reply { status: StatusCode::Success, page: Page::Hello, delay_secs: SLEEP_SECS });
    assert_eq!(SLEEP_SECS, 5);
}

#[test]
fn other_uri_and_bad_requests_get_not_found() {
    let nf = Reply { status: StatusCode::NotFound, page: Page::NotFound, delay_secs: 0 };
    assert_eq!(Server::reply_to_buffer(b"GET /other HTTP/1.1\r\n\r\n"), nf);
    assert_eq!(Server::reply_to_buffer(b"garbage"), nf);
    assert_eq!(nf.page.filename(), "404.html");
}

#[test]
fn response_text_layout() {
    let _server = Server::new();
    let ok = Reply { status: StatusCode::Success, page: Page::Hello, delay_secs: 0 };
    assert_eq!(Server::response_text(&ok, "hi"), "HTTP/1.1 200 OK\r\nContent-Length: 2\r\n\r\nhi");
    let nf = Reply { status: StatusCode::NotFound, page: Page::NotFound, delay_secs: 0 };
    let body = "x".repeat(1234);
    let text = Server::response_text(&nf, &body);
    assert_eq!(text, format!("HTTP/1.1 404 NOT FOUND\r\nContent-Length: 1234\r\n\r\n{}", body));
    assert_eq!(Server::response_text(&ok, "é"), "HTTP/1.1 200 OK\r\nContent-Length: 2\r\n\r\né");
    assert_eq!(Server::response_text(&ok, ""), "HTTP/1.1 200 OK\r\nContent-Length: 0\r\n\r\n");
}
