use vstd::prelude::*;
use vstd::string::{StringExecFns, StringSliceAdditionalSpecFns};

verus! {

/// The bytes of `http://`.
pub open spec fn http_scheme() -> Seq<u8> {
    seq![104u8, 116, 116, 112, 58, 47, 47]
}

/// The bytes of `https://`.
pub open spec fn https_scheme() -> Seq<u8> {
    seq![104u8, 116, 116, 112, 115, 58, 47, 47]
}

/// Whether `s` starts with `p`.
pub open spec fn has_prefix(s: Seq<u8>, p: Seq<u8>) -> bool {
    p.len() <= s.len() && s.subrange(0, p.len() as int) == p
}

/// Whether a server address names its scheme, `http://` or `https://`.
pub open spec fn names_scheme(b: Seq<u8>) -> bool {
    has_prefix(b, http_scheme()) || has_prefix(b, https_scheme())
}

fn starts_with_bytes(b: &[u8], p: &[u8]) -> (r: bool)
    ensures
        r == has_prefix(b@, p@),
{
    if p.len() > b.len() {
        return false;
    }
    let mut i: usize = 0;
    while i < p.len()
        invariant
            i <= p@.len() <= b@.len(),
            b@.subrange(0, i as int) == p@.subrange(0, i as int),
        decreases p@.len() - i,
    {
        if b[i] != p[i] {
            assert(b@.subrange(0, p@.len() as int)[i as int] != p@[i as int]);
            return false;
        }
        i = i + 1;
        assert(b@.subrange(0, i as int) =~= p@.subrange(0, i as int));
    }
    assert(p@.subrange(0, i as int) =~= p@);
    true
}

/// The address of a log server with its scheme: as given where it starts
/// with `http://` or `https://`, else with `https://` in front.
pub fn with_default_scheme(server: &str) -> (r: String)
    ensures
        names_scheme(server.spec_bytes()) ==> r@ == server@,
        !names_scheme(server.spec_bytes()) ==> r@ == "https://"@ + server@,
{
    let http: [u8; 7] = [104, 116, 116, 112, 58, 47, 47];
    let https: [u8; 8] = [104, 116, 116, 112, 115, 58, 47, 47];
    assert(http@ =~= http_scheme());
    assert(https@ =~= https_scheme());
    let bytes = server.as_bytes();
    if starts_with_bytes(bytes, http.as_slice()) || starts_with_bytes(bytes, https.as_slice()) {
        server.to_owned()
    } else {
        let mut r = String::from_str("https://");
        r.append(server);
        r
    }
}

} // verus!
