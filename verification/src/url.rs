//! The addresses that `connect` and `bind` take.
//!
//! An address is `scheme://authority`. Of the schemes only `tcp` is served,
//! and its authority is `host:port`: a host that is not empty, a colon, and a
//! port written in decimal digits.

use vstd::prelude::*;
use vstd::utf8::encode_utf8;
use crate::error::{invalid_input_io_error, Error, ErrorKind};

verus! {

/// The bytes `tcp://`.
pub open spec fn tcp_prefix() -> Seq<u8> {
    seq![0x74u8, 0x63u8, 0x70u8, 0x3au8, 0x2fu8, 0x2fu8]
}

/// A decimal digit.
pub open spec fn is_digit(b: u8) -> bool {
    0x30 <= b <= 0x39
}

/// `authority` is a host, a colon and a port: the colon stands at `colon`,
/// something stands before it, and only digits, at least one, stand behind
/// it.
pub open spec fn splits_at(authority: Seq<u8>, colon: int) -> bool {
    &&& 0 < colon < authority.len() - 1
    &&& authority[colon] == 0x3au8
    &&& forall|j: int| colon < j < authority.len() ==> is_digit(#[trigger] authority[j])
}

/// `authority` is a host, a colon and a port.
pub open spec fn valid_tcp_authority(authority: Seq<u8>) -> bool {
    exists|colon: int| splits_at(authority, colon)
}

/// `url` is an address that the library serves.
pub open spec fn valid_url(url: Seq<u8>) -> bool {
    &&& url.len() >= 6
    &&& url.subrange(0, 6) == tcp_prefix()
    &&& valid_tcp_authority(url.subrange(6, url.len() as int))
}

/// The error that answers an address that is not served.
pub open spec fn invalid_url() -> Error {
    Error { kind: ErrorKind::InvalidInput, message: "invalid url" }
}

/// Accepts the addresses that the library serves.
pub fn check_url_bytes(url: &[u8]) -> (res: Result<(), Error>)
    ensures
        res == if valid_url(url@) {
            Ok::<(), Error>(())
        } else {
            Err::<(), Error>(invalid_url())
        },
{
    let n = url.len();
    if n < 6 {
        return Err(invalid_input_io_error("invalid url"));
    }
    let prefix: [u8; 6] = [0x74, 0x63, 0x70, 0x3a, 0x2f, 0x2f];
    let mut i: usize = 0;
    while i < 6
        invariant
            i <= 6 <= n,
            n == url@.len(),
            prefix@ == tcp_prefix(),
            forall|k: int| 0 <= k < i ==> url@[k] == tcp_prefix()[k],
        decreases 6 - i,
    {
        if url[i] != prefix[i] {
            assert(url@.subrange(0, 6)[i as int] != tcp_prefix()[i as int]);
            return Err(invalid_input_io_error("invalid url"));
        }
        i += 1;
    }
    assert(url@.subrange(0, 6) =~= tcp_prefix());
    let ghost authority = url@.subrange(6, n as int);
    // The port: the digits at the end.
    let mut k: usize = n;
    while k > 6 && url[k - 1] >= 0x30 && url[k - 1] <= 0x39
        invariant
            6 <= k <= n,
            n == url@.len(),
            authority == url@.subrange(6, n as int),
            forall|j: int| k - 6 <= j < authority.len() ==> is_digit(#[trigger] authority[j]),
        decreases k,
    {
        k -= 1;
    }
    // `k - 1` is the last byte that is no digit, if there is one.
    let ok = k > 7 && k < n && url[k - 1] == 0x3a;
    proof {
        if ok {
            assert(splits_at(authority, k - 7));
        } else {
            if valid_tcp_authority(authority) {
                let colon = choose|colon: int| splits_at(authority, colon);
                if k > 6 {
                    // authority[k - 7] is no digit, so the colon is not before it
                    assert(!is_digit(authority[k - 7]));
                    if colon < k - 7 {
                        assert(is_digit(authority[k - 7]));
                    }
                    if colon > k - 7 {
                        assert(is_digit(authority[colon]));
                    }
                    assert(colon == k - 7);
                } else {
                    assert(is_digit(authority[colon]));
                }
            }
        }
    }
    if ok {
        Ok(())
    } else {
        Err(invalid_input_io_error("invalid url"))
    }
}

/// Accepts the addresses that the library serves.
pub fn check_url(url: &String) -> (res: Result<(), Error>)
    ensures
        res == if valid_url(encode_utf8(url@)) {
            Ok::<(), Error>(())
        } else {
            Err::<(), Error>(invalid_url())
        },
{
    check_url_bytes(url.as_str().as_bytes())
}

} // verus!
