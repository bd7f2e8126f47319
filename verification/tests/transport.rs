use base64::engine::general_purpose::STANDARD;
use base64::Engine;
use fints::error::FinTSError;
use fints::transport::{client_settings, latin1_text, FinTSConnection, ReplyPart};

type Connection = FinTSConnection<u8>;

#[test]
fn a_message_is_posted_as_base64() {
    let connection = Connection::new("https://fints.dkb.de/fints", Ok(7)).unwrap();
    assert_eq!(*connection.client(), 7);
    let request = connection.send(b"HNHBK:1:3+000000000125+300+0+1'");
    assert_eq!(request.url, "https://fints.dkb.de/fints");
    assert_eq!(request.content_type, "text/plain");
    assert_eq!(request.body, STANDARD.encode(b"HNHBK:1:3+000000000125+300+0+1'"));
    assert_eq!(connection.send(b"").body, "");
    assert_eq!(connection.send(b"A").body, "QQ==");
    assert_eq!(connection.send(b"AB").body, "QUI=");
    assert_eq!(connection.send(&[0xFB, 0xEF, 0xFF]).body, "++//");
}

#[test]
fn a_message_is_read_back_from_its_body() {
    let connection = Connection::new("https://x", Ok(0)).unwrap();
    for n in 0..70_usize {
        let message: Vec<u8> = (0..n).map(|i| (i * 37 + n) as u8).collect();
        let body = connection.send(&message).body.into_bytes();
        assert_eq!(Connection::received(Ok(body)).unwrap(), message);
    }
}

#[test]
fn white_space_in_a_reply_does_not_count() {
    let body = b" QU\r\nJD\tQ\xa0Q==\x85\n".to_vec();
    assert_eq!(Connection::received(Ok(body)).unwrap(), b"ABCA");
}

#[test]
fn a_client_that_cannot_be_built() {
    match Connection::new("https://x", Err("no TLS".to_string())) {
        Err(FinTSError::Transport(m)) => assert_eq!(m, "Failed to create HTTP client: no TLS"),
        other => panic!("{:?}", other),
    }
}

#[test]
fn failures_of_a_request() {
    match Connection::not_sent("timed out") {
        FinTSError::Transport(m) => assert_eq!(m, "HTTP request failed: timed out"),
        other => panic!("{:?}", other),
    }
    match Connection::refused(503, Some("busy".to_string())) {
        FinTSError::Http { status, message } => {
            assert_eq!(status, 503);
            assert_eq!(message, "busy");
        }
        other => panic!("{:?}", other),
    }
    match Connection::refused(404, None) {
        FinTSError::Http { status, message } => {
            assert_eq!(status, 404);
            assert_eq!(message, "");
        }
        other => panic!("{:?}", other),
    }
    match Connection::received(Err("reset".to_string())) {
        Err(FinTSError::Transport(m)) => assert_eq!(m, "Failed to read response: reset"),
        other => panic!("{:?}", other),
    }
    match Connection::received(Ok(b"QUI".to_vec())) {
        Err(FinTSError::Transport(m)) => {
            assert_eq!(m, "Failed to base64-decode response: Invalid padding")
        }
        other => panic!("{:?}", other),
    }
}

#[test]
fn a_status_of_two_hundred_odd_is_a_success() {
    assert_eq!(Connection::reply_part(199), ReplyPart::Text);
    assert_eq!(Connection::reply_part(200), ReplyPart::Bytes);
    assert_eq!(Connection::reply_part(299), ReplyPart::Bytes);
    assert_eq!(Connection::reply_part(300), ReplyPart::Text);
    assert_eq!(Connection::reply_part(500), ReplyPart::Text);
}

#[test]
fn bytes_are_read_as_latin1() {
    assert_eq!(latin1_text(&vec![0x41, 0xC4, 0xFF]), "AÄÿ");
}

#[test]
fn the_client_is_patient() {
    let settings = client_settings();
    assert_eq!(settings.timeout_secs, 300);
    assert_eq!(settings.pool_idle_timeout_secs, 2);
    assert_eq!(settings.pool_max_idle_per_host, 0);
    assert!(settings.tcp_nodelay);
}
