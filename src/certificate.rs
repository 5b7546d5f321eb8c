use vstd::prelude::*;
use crate::error::RenewError;

verus! {

/// An issued certificate: the PEM chain, leaf first, and the PEM private key.
#[derive(Debug, Clone)]
pub struct Certificate {
    pub cert: String,
    pub key: String,
}

/// The not-after time, in Unix seconds, of the first certificate of a PEM
/// chain; `None` when the chain holds no PEM block or the first does not
/// decode as an X.509 certificate.
pub uninterp spec fn leaf_not_after(chain: Seq<char>) -> Option<i64>;

/// Relies on x509_parser: `Pem::iter_from_buffer` yields the chain's first PEM
/// block, `Pem::parse_x509` decodes it, and its validity's `not_after` gives
/// the expiry as a Unix timestamp.
#[verifier::external_body]
fn parse_leaf_not_after(chain: &str) -> (r: Option<i64>)
    ensures
        r == leaf_not_after(chain@),
{
    let pem = x509_parser::pem::Pem::iter_from_buffer(chain.as_bytes()).next()?.ok()?;
    let leaf = pem.parse_x509().ok()?;
    Some(leaf.tbs_certificate.validity.not_after.timestamp())
}

/// The certificate and its expiry, given the leaf's not-after time as parsed.
pub open spec fn issued(chain: String, key: String, not_after: Option<i64>) -> Result<
    (Certificate, i64),
    RenewError,
> {
    match not_after {
        Some(t) => Ok((Certificate { cert: chain, key }, t)),
        None => Err(RenewError::CertificateParseError),
    }
}

/// Pairs a chain and its key with the leaf's expiry; fails with
/// `CertificateParseError` when no expiry could be read.
pub fn issued_certificate(chain: String, key: String, not_after: Option<i64>) -> (r: Result<
    (Certificate, i64),
    RenewError,
>)
    ensures
        r == issued(chain, key, not_after),
{
    match not_after {
        Some(t) => Ok((Certificate { cert: chain, key }, t)),
        None => Err(RenewError::CertificateParseError),
    }
}

/// The certificate made of a freshly issued chain and key, with the expiry of
/// the chain's leaf.
pub fn certificate_from_chain(chain: String, key: String) -> (r: Result<
    (Certificate, i64),
    RenewError,
>)
    ensures
        r == issued(chain, key, leaf_not_after(chain@)),
{
    let not_after = parse_leaf_not_after(chain.as_str());
    issued_certificate(chain, key, not_after)
}

/// The line that closes a PEM certificate block.
pub open spec fn end_marker() -> Seq<char> {
    "-----END CERTIFICATE-----"@
}

/// `m` occurs in `s` at position `i`.
pub open spec fn occurs_at(s: Seq<char>, m: Seq<char>, i: int) -> bool {
    0 <= i && i + m.len() <= s.len() && s.subrange(i, i + m.len()) == m
}

/// The leaf of a PEM chain: everything up to the end of the first closing
/// marker, or the whole text when it has none.
pub open spec fn leaf_of(chain: Seq<char>) -> Seq<char> {
    if exists|i: int| #[trigger] occurs_at(chain, end_marker(), i) {
        let i = choose|i: int|
            #[trigger] occurs_at(chain, end_marker(), i) && forall|k: int|
                0 <= k < i ==> !(#[trigger] occurs_at(chain, end_marker(), k));
        chain.subrange(0, i + end_marker().len())
    } else {
        chain
    }
}

/// The text with each pair of consecutive line feeds, from the left, made one.
pub open spec fn collapse_blank_lines(s: Seq<char>) -> Seq<char>
    decreases s.len(),
{
    if s.len() < 2 {
        s
    } else if s[0] == '\n' && s[1] == '\n' {
        seq!['\n'] + collapse_blank_lines(s.subrange(2, s.len() as int))
    } else {
        seq![s[0]] + collapse_blank_lines(s.subrange(1, s.len() as int))
    }
}

impl Certificate {
    /// The leaf certificate alone, as the first PEM block of the chain.
    pub fn get_leaf_certificate(&self) -> (r: String)
        ensures
            r@ == leaf_of(self.cert@),
    {
        let chain = self.cert.as_str();
        let marker = "-----END CERTIFICATE-----";
        proof {
            reveal_strlit("-----END CERTIFICATE-----");
        }
        let n = chain.unicode_len();
        let m = marker.unicode_len();
        let mut i: usize = 0;
        assert(m > 0);
        while m <= n && i <= n - m
            invariant
                0 < m,
                i <= n,
                n == chain@.len(),
                m == marker@.len(),
                marker@ == end_marker(),
                chain@ == self.cert@,
                forall|k: int| 0 <= k < i ==> !(#[trigger] occurs_at(chain@, end_marker(), k)),
            decreases n - i,
        {
            if crate::text::text_eq(chain.substring_char(i, i + m), marker) {
                proof {
                    let c = choose|c: int|
                        #[trigger] occurs_at(chain@, end_marker(), c) && forall|k: int|
                            0 <= k < c ==> !(#[trigger] occurs_at(chain@, end_marker(), k));
                    assert(occurs_at(chain@, end_marker(), i as int));
                    if c < i {
                        assert(!occurs_at(chain@, end_marker(), c));
                    } else if c > i {
                        assert(!occurs_at(chain@, end_marker(), i as int));
                    }
                }
                return String::from_str(chain.substring_char(0, i + m));
            }
            i = i + 1;
        }
        proof {
            assert forall|k: int| !(#[trigger] occurs_at(chain@, end_marker(), k)) by {
                if 0 <= k < i {
                } else if k >= i {
                    assert(m > n || k + m > n);
                }
            }
        }
        String::from_str(chain)
    }

    /// The chain with doubled line feeds made single, as the hosting provider
    /// wants it.
    pub fn chain_for_upload(&self) -> (r: String)
        ensures
            r@ == collapse_blank_lines(self.cert@),
    {
        let chain = self.cert.as_str();
        let n = chain.unicode_len();
        let mut out = String::new();
        let mut i: usize = 0;
        proof {
            assert(chain@.subrange(0, n as int) == chain@);
        }
        while i < n
            invariant
                n == chain@.len(),
                chain@ == self.cert@,
                i <= n,
                out@ + collapse_blank_lines(chain@.subrange(i as int, n as int))
                    == collapse_blank_lines(chain@),
            decreases n - i,
        {
            let ghost rest = chain@.subrange(i as int, n as int);
            if i + 1 < n && chain.get_char(i) == '\n' && chain.get_char(i + 1) == '\n' {
                assert(rest.subrange(2, rest.len() as int) == chain@.subrange(i + 2, n as int));
                proof {
                    reveal_strlit("\n");
                    assert("\n"@ == seq!['\n']);
                }
                out.append("\n");
                i = i + 2;
            } else {
                if i + 1 < n {
                    assert(rest.subrange(1, rest.len() as int) == chain@.subrange(i + 1, n as int));
                } else {
                    assert(rest.len() == 1);
                    assert(chain@.subrange(i + 1, n as int).len() == 0);
                    assert(rest == seq![rest[0]] + chain@.subrange(i + 1, n as int));
                }
                out.append(chain.substring_char(i, i + 1));
                assert(chain@.subrange(i as int, i + 1) == seq![rest[0]]);
                i = i + 1;
            }
        }
        proof {
            assert(chain@.subrange(n as int, n as int).len() == 0);
        }
        out
    }
}

} // verus!
