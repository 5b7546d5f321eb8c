use vstd::prelude::*;
use crate::error::RenewError;

verus! {

/// The DNS vendors that can publish challenge records.
#[derive(Debug, Clone, Copy, PartialEq, Eq, Structural)]
pub enum DnsProviderType {
    Vercel,
}

impl DnsProviderType {
    /// The name under which the vendor is stored.
    pub fn name(&self) -> (r: &'static str)
        ensures
            r@ == "Vercel"@,
    {
        match self {
            DnsProviderType::Vercel => "Vercel",
        }
    }

    /// The vendor stored under `name`.
    pub fn from_name(name: &str) -> (r: Result<DnsProviderType, RenewError>)
        ensures
            name@ == "Vercel"@ ==> r == Ok::<DnsProviderType, RenewError>(
                DnsProviderType::Vercel,
            ),
            name@ != "Vercel"@ ==> r == Err::<DnsProviderType, RenewError>(
                RenewError::UnknownProvider,
            ),
    {
        if crate::text::text_eq(name, "Vercel") {
            Ok(DnsProviderType::Vercel)
        } else {
            Err(RenewError::UnknownProvider)
        }
    }
}

/// The API token of a Vercel account.
#[derive(Debug, Clone)]
pub struct VercelDnsCreds {
    pub token: String,
}

/// Which vendor publishes the challenge records of a subdomain, in which zone,
/// with which stored credential (empty: take it from the environment).
#[derive(Debug, Clone)]
pub struct DnsBinding {
    pub provider: DnsProviderType,
    pub zone: String,
    pub creds: String,
}

/// The position of the last '.' in `s` before position `end`, or -1.
pub open spec fn last_dot_before(s: Seq<char>, end: int) -> int
    decreases end,
{
    if end <= 0 {
        -1
    } else if s[end - 1] == '.' {
        end - 1
    } else {
        last_dot_before(s, end - 1)
    }
}

/// The zone of a fully qualified name: its last two labels, or `None` for a
/// name without a dot.
pub open spec fn zone_of(name: Seq<char>) -> Option<Seq<char>> {
    let last = last_dot_before(name, name.len() as int);
    if last < 0 {
        None
    } else {
        Some(name.subrange(last_dot_before(name, last) + 1, name.len() as int))
    }
}

proof fn lemma_last_dot_bounds(s: Seq<char>, end: int)
    ensures
        -1 <= last_dot_before(s, end) < if end < 0 {
            0
        } else {
            end
        },
    decreases end,
{
    if end > 0 {
        lemma_last_dot_bounds(s, end - 1);
    }
}

fn last_dot_index(s: &str, end: usize) -> (r: Option<usize>)
    requires
        end <= s@.len(),
    ensures
        r is None <==> last_dot_before(s@, end as int) == -1,
        r matches Some(j) ==> j as int == last_dot_before(s@, end as int),
{
    proof {
        lemma_last_dot_bounds(s@, end as int);
    }
    let mut i: usize = end;
    while i > 0
        invariant
            i <= end <= s@.len(),
            last_dot_before(s@, end as int) == last_dot_before(s@, i as int),
        decreases i,
    {
        if s.get_char(i - 1) == '.' {
            return Some(i - 1);
        }
        i = i - 1;
    }
    None
}

/// Binds a subdomain to its DNS vendor: the records go into the zone made of
/// the subdomain's last two labels. Fails with `InvalidDomain` for a name
/// without a dot.
pub fn get_dns_provider(provider_type: DnsProviderType, subdomain: &str, creds: String) -> (r:
    Result<DnsBinding, RenewError>)
    ensures
        zone_of(subdomain@) is None ==> r == Err::<DnsBinding, RenewError>(
            RenewError::InvalidDomain,
        ),
        zone_of(subdomain@) matches Some(z) ==> (r matches Ok(b) && b.provider == provider_type
            && b.zone@ == z && b.creds == creds),
{
    let n = subdomain.unicode_len();
    match last_dot_index(subdomain, n) {
        None => Err(RenewError::InvalidDomain),
        Some(last) => {
            proof {
                lemma_last_dot_bounds(subdomain@, n as int);
                lemma_last_dot_bounds(subdomain@, last as int);
            }
            let start = match last_dot_index(subdomain, last) {
                None => 0,
                Some(prev) => prev + 1,
            };
            let zone = String::from_str(subdomain.substring_char(start, n));
            Ok(DnsBinding { provider: provider_type, zone, creds })
        },
    }
}

} // verus!
