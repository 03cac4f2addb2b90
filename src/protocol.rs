use vstd::prelude::*;

verus! {

/// The HTTP version a connection is served with.
#[derive(Clone, Copy, Debug, PartialEq, Eq, Structural)]
pub enum Protocol {
    Http1,
    Http2,
}

/// A TLS peer negotiated an application protocol that is not served.
#[derive(Clone, Copy, Debug, PartialEq, Eq, Structural)]
pub struct UnsupportedProtocol;

/// The protocol for a TLS connection from its negotiated ALPN value: `h2` is
/// HTTP/2, `http/1.1` or none is HTTP/1.1, anything else fails the connection.
pub fn select_protocol(alpn: Option<&[u8]>) -> (r: Result<Protocol, UnsupportedProtocol>)
    ensures
        match alpn {
            None => r == Ok::<Protocol, UnsupportedProtocol>(Protocol::Http1),
            Some(a) => if a@ == seq![104u8, 50u8] {
                r == Ok::<Protocol, UnsupportedProtocol>(Protocol::Http2)
            } else if a@ == seq![104u8, 116u8, 116u8, 112u8, 47u8, 49u8, 46u8, 49u8] {
                r == Ok::<Protocol, UnsupportedProtocol>(Protocol::Http1)
            } else {
                r == Err::<Protocol, UnsupportedProtocol>(UnsupportedProtocol)
            },
        },
{
    match alpn {
        None => Ok(Protocol::Http1),
        Some(a) => {
            if bytes_equal(a, &[104u8, 50u8]) {
                Ok(Protocol::Http2)
            } else if bytes_equal(a, &[104u8, 116u8, 116u8, 112u8, 47u8, 49u8, 46u8, 49u8]) {
                Ok(Protocol::Http1)
            } else {
                Err(UnsupportedProtocol)
            }
        },
    }
}

fn bytes_equal(a: &[u8], b: &[u8]) -> (r: bool)
    ensures
        r == (a@ == b@),
{
    if a.len() != b.len() {
        return false;
    }
    let mut i: usize = 0;
    while i < a.len()
        invariant
            a@.len() == b@.len(),
            i <= a@.len(),
            forall|j: int| 0 <= j < i ==> a@[j] == b@[j],
        decreases a@.len() - i,
    {
        if a[i] != b[i] {
            return false;
        }
        i += 1;
    }
    assert(a@ =~= b@);
    true
}

/// Listeners on ports 443 and 8443 speak TLS; the others plain HTTP/1.1.
pub fn is_https_port(port: u16) -> (r: bool)
    ensures
        r == (port == 443 || port == 8443),
{
    port == 443 || port == 8443
}

} // verus!
