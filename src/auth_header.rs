//! The `Authorization` header built from an API key read from standard
//! input, with the key's bytes wiped from the read buffer on every path.

use crate::text::utf8_slice;
use std::io::Error as IoError;
use vstd::prelude::*;
use vstd::utf8::decode_utf8;
use vstd::utf8::valid_utf8;
use zeroize::Zeroize;

verus! {

#[verifier::external_type_specification]
#[verifier::external_body]
pub struct ExIoError(IoError);

/// Size of the buffer the key is read into, prefix included.
pub const BUFFER_SIZE: usize = 1024;

/// Length of `Bearer `, which starts the buffer.
pub const AUTH_HEADER_PREFIX_LEN: usize = 7;

/// The bytes of `Bearer `.
pub open spec fn prefix_bytes() -> Seq<u8> {
    seq![66u8, 101u8, 97u8, 114u8, 101u8, 114u8, 32u8]
}

pub open spec fn zeros(n: nat) -> Seq<u8> {
    Seq::new(n, |i: int| 0u8)
}

pub open spec fn is_newline(b: u8) -> bool {
    b == 10 || b == 13
}

/// The end of `bytes[..n]` once trailing `\n` and `\r` are dropped, never
/// below `lo`.
pub open spec fn trimmed_end(bytes: Seq<u8>, lo: int, n: int) -> int
    decreases n - lo,
{
    if n <= lo {
        lo
    } else if is_newline(bytes[n - 1]) {
        trimmed_end(bytes, lo, n - 1)
    } else {
        n
    }
}

/// Why no header was produced.
#[derive(Debug)]
pub enum AuthHeaderError {
    /// Reading standard input failed.
    Io(IoError),
    /// The key filled the whole buffer and may have been cut.
    TooLarge,
    /// Nothing but line breaks was read.
    Missing,
    /// The key is not valid UTF-8.
    InvalidUtf8,
}

impl AuthHeaderError {
    /// A human-readable description.
    pub fn message(&self) -> (r: String)
        ensures
            *self is TooLarge ==> r@ == "OPENAI_API_KEY is too large to fit in the 512-byte buffer"@,
            *self is Missing ==> r@
                == "OPENAI_API_KEY must be provided via stdin (e.g. printenv OPENAI_API_KEY | codex responses-api-proxy)"@,
            *self is InvalidUtf8 ==> r@ == "reading Authorization header from stdin as UTF-8"@,
    {
        match self {
            AuthHeaderError::Io(e) => e.to_string(),
            AuthHeaderError::TooLarge => String::from_str("OPENAI_API_KEY is too large to fit in the 512-byte buffer"),
            AuthHeaderError::Missing => String::from_str(
                "OPENAI_API_KEY must be provided via stdin (e.g. printenv OPENAI_API_KEY | codex responses-api-proxy)",
            ),
            AuthHeaderError::InvalidUtf8 => String::from_str("reading Authorization header from stdin as UTF-8"),
        }
    }
}

/// Relies on zeroize's `Zeroize` for `[u8; N]`: every byte is overwritten
/// with 0 by volatile writes.
#[verifier::external_body]
fn wipe(buf: &mut [u8; BUFFER_SIZE])
    ensures
        final(buf)@ == zeros(BUFFER_SIZE as nat),
{
    buf.zeroize();
}

/// Hands `buf[offset..]` to the caller's reader and returns what it
/// returned; the bytes before `offset` are out of its reach.
#[verifier::external_body]
fn read_from<F>(read_fn: F, buf: &mut [u8; BUFFER_SIZE], offset: usize) -> (r: Result<usize, IoError>)
    where
        F: FnOnce(&mut [u8]) -> Result<usize, IoError>,
    requires
        offset <= BUFFER_SIZE,
    ensures
        final(buf)@.subrange(0, offset as int) == old(buf)@.subrange(0, offset as int),
{
    read_fn(&mut buf[offset..])
}

/// The header read from `buf`, which starts with `Bearer ` and holds what
/// the reader returned after it. The buffer is wiped on every path.
pub fn auth_header_from_read(buf: &mut [u8; BUFFER_SIZE], read: Result<usize, IoError>) -> (r: Result<String, AuthHeaderError>)
    requires
        old(buf)@.subrange(0, 7) == prefix_bytes(),
    ensures
        final(buf)@ == zeros(BUFFER_SIZE as nat),
        read is Err ==> r is Err && r->Err_0 is Io && r->Err_0->Io_0 == read->Err_0,
        read is Ok && read->Ok_0 >= BUFFER_SIZE - AUTH_HEADER_PREFIX_LEN ==> r is Err && r->Err_0 is TooLarge,
        read is Ok && read->Ok_0 < BUFFER_SIZE - AUTH_HEADER_PREFIX_LEN ==> {
            let end = trimmed_end(old(buf)@, 7, 7 + read->Ok_0);
            let header = old(buf)@.subrange(0, end);
            &&& end == 7 ==> r is Err && r->Err_0 is Missing
            &&& end > 7 && !valid_utf8(header) ==> r is Err && r->Err_0 is InvalidUtf8
            &&& end > 7 && valid_utf8(header) ==> r is Ok && r->Ok_0@ == decode_utf8(header)
        },
{
    let n = match read {
        Ok(n) => n,
        Err(e) => {
            wipe(buf);
            return Err(AuthHeaderError::Io(e));
        },
    };
    if n >= BUFFER_SIZE - AUTH_HEADER_PREFIX_LEN {
        wipe(buf);
        return Err(AuthHeaderError::TooLarge);
    }
    let mut total: usize = AUTH_HEADER_PREFIX_LEN + n;
    while total > AUTH_HEADER_PREFIX_LEN && (buf[total - 1] == 10u8 || buf[total - 1] == 13u8)
        invariant
            7 <= total <= 7 + n,
            7 + n < BUFFER_SIZE,
            buf@ == old(buf)@,
            trimmed_end(old(buf)@, 7, total as int) == trimmed_end(old(buf)@, 7, 7 + n),
        decreases total,
    {
        total -= 1;
    }
    if total == AUTH_HEADER_PREFIX_LEN {
        wipe(buf);
        return Err(AuthHeaderError::Missing);
    }
    let decoded = utf8_slice(buf.as_slice(), 0, total);
    wipe(buf);
    match decoded {
        Some(s) => Ok(s),
        None => Err(AuthHeaderError::InvalidUtf8),
    }
}

proof fn lemma_trimmed_end_range(bytes: Seq<u8>, lo: int, n: int)
    requires
        lo <= n,
    ensures
        lo <= trimmed_end(bytes, lo, n) <= n,
    decreases n - lo,
{
    if n > lo && is_newline(bytes[n - 1]) {
        lemma_trimmed_end_range(bytes, lo, n - 1);
    }
}

/// Reads the key with `read_fn` into a fixed buffer after `Bearer ` and
/// returns the header value: the decoded text of `Bearer ` and the bytes
/// read, without trailing line breaks, shorter than the buffer.
pub fn read_auth_header_with<F>(read_fn: F) -> (r: Result<String, AuthHeaderError>)
    where
        F: FnOnce(&mut [u8]) -> Result<usize, IoError>,
    ensures
        r is Ok ==> exists|b: Seq<u8>| #![auto]
            b.len() > 7 && b.len() < BUFFER_SIZE && b.subrange(0, 7) == prefix_bytes() && valid_utf8(b)
                && r->Ok_0@ == decode_utf8(b),
{
    let mut buf: [u8; BUFFER_SIZE] = [0u8; BUFFER_SIZE];
    buf[0] = 66u8;
    buf[1] = 101u8;
    buf[2] = 97u8;
    buf[3] = 114u8;
    buf[4] = 101u8;
    buf[5] = 114u8;
    buf[6] = 32u8;
    proof {
        assert(buf@.subrange(0, 7) =~= prefix_bytes());
    }
    let read = read_from(read_fn, &mut buf, AUTH_HEADER_PREFIX_LEN);
    let ghost filled = buf@;
    let r = auth_header_from_read(&mut buf, read);
    proof {
        if r is Ok {
            let n = read->Ok_0 as int;
            let end = trimmed_end(filled, 7, 7 + n);
            lemma_trimmed_end_range(filled, 7, 7 + n);
            let b = filled.subrange(0, end);
            assert(b.subrange(0, 7) == filled.subrange(0, 7));
        }
    }
    r
}


/// `a` with the bits below the page size cleared, as the page mask does.
pub open spec fn page_floor(a: usize, page_size: usize) -> usize {
    a & !((page_size - 1) as usize)
}

/// The pages to lock for `len` bytes at `addr`, as start and size: the
/// start and the end rounded down with the page mask. `None` when there is
/// nothing to lock, the end overflows, or the span is empty.
pub open spec fn page_span_of(addr: usize, len: usize, page_size: usize) -> Option<(usize, usize)> {
    if len == 0 || page_size == 0 || addr + len + page_size - 1 > usize::MAX {
        None
    } else {
        let start = page_floor(addr, page_size);
        let end = page_floor((addr + len + page_size - 1) as usize, page_size);
        if end <= start {
            None
        } else {
            Some((start, (end - start) as usize))
        }
    }
}

/// The region to pin in memory so that the `len` bytes at `addr` never
/// reach swap.
pub fn page_span(addr: usize, len: usize, page_size: usize) -> (r: Option<(usize, usize)>)
    ensures
        r == page_span_of(addr, len, page_size),
{
    if len == 0 || page_size == 0 {
        return None;
    }
    let addr_end = match addr.checked_add(len) {
        Some(v) => match v.checked_add(page_size - 1) {
            Some(t) => t,
            None => {
                return None;
            },
        },
        None => {
            return None;
        },
    };
    let mask = !(page_size - 1);
    let start = addr & mask;
    let end = addr_end & mask;
    if end <= start {
        return None;
    }
    Some((start, end - start))
}

} // verus!
