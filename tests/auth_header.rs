use codex_session::auth_header::page_span;
use codex_session::auth_header::read_auth_header_with;
use codex_session::auth_header::AuthHeaderError;
use codex_session::auth_header::AUTH_HEADER_PREFIX_LEN;
use codex_session::auth_header::BUFFER_SIZE;
use std::io;

#[test]
fn reads_key_with_no_newlines() {
    let result = read_auth_header_with(|buf| {
        let data = b"sk-abc123";
        buf[..data.len()].copy_from_slice(data);
        Ok(data.len())
    })
    .unwrap();

    assert_eq!(result, "Bearer sk-abc123");
}

#[test]
fn reads_key_and_trims_newlines() {
    let result = read_auth_header_with(|buf| {
        let data = b"sk-abc123\r\n";
        buf[..data.len()].copy_from_slice(data);
        Ok(data.len())
    })
    .unwrap();

    assert_eq!(result, "Bearer sk-abc123");
}

#[test]
fn errors_when_no_input_provided() {
    let err = read_auth_header_with(|_| Ok(0)).unwrap_err();
    let message = err.message();
    assert!(message.contains("must be provided"));
}

#[test]
fn errors_when_buffer_filled() {
    let err = read_auth_header_with(|buf| {
        let data = vec![b'a'; BUFFER_SIZE - AUTH_HEADER_PREFIX_LEN];
        buf[..data.len()].copy_from_slice(&data);
        Ok(data.len())
    })
    .unwrap_err();
    let message = err.message();
    assert!(message.contains("too large"));
}

#[test]
fn propagates_io_error() {
    let err = read_auth_header_with(|_| Err(io::Error::other("boom"))).unwrap_err();

    let io_error = match &err {
        AuthHeaderError::Io(e) => e,
        other => panic!("expected an I/O error, got {other:?}"),
    };
    assert_eq!(io_error.kind(), io::ErrorKind::Other);
    assert_eq!(io_error.to_string(), "boom");
}

#[test]
fn errors_on_invalid_utf8() {
    let err = read_auth_header_with(|buf| {
        let data = b"sk-abc\xff";
        buf[..data.len()].copy_from_slice(data);
        Ok(data.len())
    })
    .unwrap_err();

    let message = err.message();
    assert!(message.contains("UTF-8"));
}

#[test]
fn only_newlines_count_as_missing() {
    let err = read_auth_header_with(|buf| {
        let data = b"\n\r\n";
        buf[..data.len()].copy_from_slice(data);
        Ok(data.len())
    })
    .unwrap_err();
    assert!(matches!(err, AuthHeaderError::Missing));
}

#[test]
fn key_one_byte_short_of_the_buffer_is_accepted() {
    let n = BUFFER_SIZE - AUTH_HEADER_PREFIX_LEN - 1;
    let result = read_auth_header_with(|buf| {
        for b in buf[..n].iter_mut() {
            *b = b'k';
        }
        Ok(n)
    })
    .unwrap();
    assert_eq!(result.len(), AUTH_HEADER_PREFIX_LEN + n);
    assert!(result.starts_with("Bearer kkk"));
}

#[test]
fn inner_newlines_are_kept() {
    let result = read_auth_header_with(|buf| {
        let data = b"a\nb\n";
        buf[..data.len()].copy_from_slice(data);
        Ok(data.len())
    })
    .unwrap();
    assert_eq!(result, "Bearer a\nb");
}

#[test]
fn page_span_covers_whole_pages() {
    assert_eq!(page_span(4096 + 10, 5, 4096), Some((4096, 4096)));
    assert_eq!(page_span(4090, 10, 4096), Some((0, 8192)));
    assert_eq!(page_span(100, 0, 4096), None);
    assert_eq!(page_span(100, 5, 0), None);
    assert_eq!(page_span(usize::MAX - 2, 10, 4096), None);
    // the page mask, as for any page size
    assert_eq!(page_span(5, 1, 3), Some((5, 3)));
}
