use vstd::prelude::*;
use crate::error::RenewError;

verus! {

/// The certificate authorities an account can be registered with.
#[derive(Debug, Clone, Copy, PartialEq, Eq, Structural)]
pub enum AcmeProvider {
    LetsEncrypt,
    LetsEncryptStaging,
}

/// Relies on instant_acme's `LetsEncrypt::url`: the fixed directory URL of the
/// production and of the staging Let's Encrypt environment.
#[verifier::external_body]
fn lets_encrypt_directory(staging: bool) -> (r: &'static str)
    ensures
        !staging ==> r@ == "https://acme-v02.api.letsencrypt.org/directory"@,
        staging ==> r@ == "https://acme-staging-v02.api.letsencrypt.org/directory"@,
{
    let server = if staging {
        instant_acme::LetsEncrypt::Staging
    } else {
        instant_acme::LetsEncrypt::Production
    };
    server.url()
}

impl AcmeProvider {
    /// A human-readable name for the provider.
    pub fn label(&self) -> (r: &'static str)
        ensures
            *self == AcmeProvider::LetsEncrypt ==> r@ == "Let's Encrypt"@,
            *self == AcmeProvider::LetsEncryptStaging ==> r@
                == "Let's Encrypt Staging Environment"@,
    {
        match self {
            AcmeProvider::LetsEncrypt => "Let's Encrypt",
            AcmeProvider::LetsEncryptStaging => "Let's Encrypt Staging Environment",
        }
    }

    /// The ACME directory URL of the provider.
    pub fn url(&self) -> (r: &'static str)
        ensures
            *self == AcmeProvider::LetsEncrypt ==> r@
                == "https://acme-v02.api.letsencrypt.org/directory"@,
            *self == AcmeProvider::LetsEncryptStaging ==> r@
                == "https://acme-staging-v02.api.letsencrypt.org/directory"@,
    {
        match self {
            AcmeProvider::LetsEncrypt => lets_encrypt_directory(false),
            AcmeProvider::LetsEncryptStaging => lets_encrypt_directory(true),
        }
    }

    /// The name under which the provider is stored.
    pub fn name(&self) -> (r: &'static str)
        ensures
            *self == AcmeProvider::LetsEncrypt ==> r@ == "LetsEncrypt"@,
            *self == AcmeProvider::LetsEncryptStaging ==> r@ == "LetsEncryptStaging"@,
    {
        match self {
            AcmeProvider::LetsEncrypt => "LetsEncrypt",
            AcmeProvider::LetsEncryptStaging => "LetsEncryptStaging",
        }
    }

    /// The provider stored under `name`.
    pub fn from_name(name: &str) -> (r: Result<AcmeProvider, RenewError>)
        ensures
            name@ == "LetsEncrypt"@ ==> r == Ok::<AcmeProvider, RenewError>(
                AcmeProvider::LetsEncrypt,
            ),
            name@ == "LetsEncryptStaging"@ ==> r == Ok::<AcmeProvider, RenewError>(
                AcmeProvider::LetsEncryptStaging,
            ),
            name@ != "LetsEncrypt"@ && name@ != "LetsEncryptStaging"@ ==> r
                == Err::<AcmeProvider, RenewError>(RenewError::UnknownProvider),
    {
        proof {
            reveal_strlit("LetsEncrypt");
            reveal_strlit("LetsEncryptStaging");
            assert("LetsEncrypt"@.len() != "LetsEncryptStaging"@.len());
        }
        if crate::text::text_eq(name, "LetsEncrypt") {
            Ok(AcmeProvider::LetsEncrypt)
        } else if crate::text::text_eq(name, "LetsEncryptStaging") {
            Ok(AcmeProvider::LetsEncryptStaging)
        } else {
            Err(RenewError::UnknownProvider)
        }
    }
}

/// The status of an ACME order, as the CA reports it.
#[derive(Debug, Clone, Copy, PartialEq, Eq, Structural)]
pub enum OrderStatus {
    Pending,
    Ready,
    Processing,
    Valid,
    Invalid,
}

impl OrderStatus {
    /// Whether polling can stop at this status.
    pub open spec fn settled(self) -> bool {
        self == OrderStatus::Ready || self == OrderStatus::Valid || self == OrderStatus::Invalid
    }

    /// Whether the order can go on to finalization from this status.
    pub open spec fn accepted(self) -> bool {
        self == OrderStatus::Ready || self == OrderStatus::Valid
    }

    pub fn is_settled(&self) -> (r: bool)
        ensures
            r == self.settled(),
    {
        match self {
            OrderStatus::Ready | OrderStatus::Valid | OrderStatus::Invalid => true,
            OrderStatus::Pending | OrderStatus::Processing => false,
        }
    }

    pub fn is_accepted(&self) -> (r: bool)
        ensures
            r == self.accepted(),
    {
        match self {
            OrderStatus::Ready | OrderStatus::Valid => true,
            _ => false,
        }
    }
}

/// The status of one authorization of an order.
#[derive(Debug, Clone, Copy, PartialEq, Eq, Structural)]
pub enum AuthorizationStatus {
    Pending,
    Valid,
    Invalid,
    Revoked,
    Expired,
}

/// The kinds of challenge a CA may offer for an authorization.
#[derive(Debug, Clone, Copy, PartialEq, Eq, Structural)]
pub enum ChallengeType {
    Http01,
    Dns01,
    TlsAlpn01,
}

/// What the challenge selection reads of an authorization.
#[derive(Debug, Clone)]
pub struct AuthorizationInfo {
    pub status: AuthorizationStatus,
    pub challenge_types: Vec<ChallengeType>,
}

/// The DNS-01 challenge chosen for one pending authorization: both are indices
/// into the order's authorizations and that authorization's challenges.
#[derive(Debug, Clone, Copy, PartialEq, Eq, Structural)]
pub struct ChallengeChoice {
    pub authorization: usize,
    pub challenge: usize,
}

/// `j` is the position of the first DNS-01 challenge in `types`.
pub open spec fn is_first_dns01(types: Seq<ChallengeType>, j: int) -> bool {
    &&& 0 <= j < types.len()
    &&& types[j] == ChallengeType::Dns01
    &&& forall|k: int| 0 <= k < j ==> types[k] != ChallengeType::Dns01
}

pub open spec fn has_dns01(types: Seq<ChallengeType>) -> bool {
    exists|j: int| 0 <= j < types.len() && types[j] == ChallengeType::Dns01
}

pub open spec fn first_dns01(types: Seq<ChallengeType>) -> int {
    choose|j: int| is_first_dns01(types, j)
}

/// The choices for the first `n` authorizations: one for each pending one, in order.
pub open spec fn dns01_choices(auths: Seq<AuthorizationInfo>, n: nat) -> Seq<ChallengeChoice>
    decreases n,
{
    if n == 0 {
        Seq::empty()
    } else {
        let a = auths[n - 1];
        let earlier = dns01_choices(auths, (n - 1) as nat);
        if a.status == AuthorizationStatus::Pending {
            earlier.push(
                ChallengeChoice {
                    authorization: (n - 1) as usize,
                    challenge: first_dns01(a.challenge_types@) as usize,
                },
            )
        } else {
            earlier
        }
    }
}

/// Some pending authorization among the first `n` offers no DNS-01 challenge.
pub open spec fn lacks_dns01(auths: Seq<AuthorizationInfo>, n: nat) -> bool {
    exists|i: int|
        0 <= i < n && auths[i].status == AuthorizationStatus::Pending && !has_dns01(
            auths[i].challenge_types@,
        )
}

/// The position of the first DNS-01 challenge among `types`, if any.
pub fn find_dns01(types: &Vec<ChallengeType>) -> (r: Option<usize>)
    ensures
        r is None <==> !has_dns01(types@),
        r matches Some(j) ==> is_first_dns01(types@, j as int) && j as int == first_dns01(
            types@,
        ),
{
    let mut j: usize = 0;
    while j < types.len()
        invariant
            j <= types.len(),
            forall|k: int| 0 <= k < j ==> types@[k] != ChallengeType::Dns01,
        decreases types.len() - j,
    {
        if types[j] == ChallengeType::Dns01 {
            proof {
                lemma_first_dns01_unique(types@, j as int);
            }
            return Some(j);
        }
        j = j + 1;
    }
    None
}

proof fn lemma_first_dns01_unique(types: Seq<ChallengeType>, j: int)
    requires
        is_first_dns01(types, j),
    ensures
        first_dns01(types) == j,
{
    let c = first_dns01(types);
    assert(is_first_dns01(types, c));
    if c < j {
        assert(types[c] != ChallengeType::Dns01);
    } else if c > j {
        assert(types[j] != ChallengeType::Dns01);
    }
}

/// Picks the DNS-01 challenge of every pending authorization, in order. Fails
/// with `UnsupportedChallenge` when a pending authorization offers none.
pub fn select_dns01_challenges(auths: &Vec<AuthorizationInfo>) -> (r: Result<
    Vec<ChallengeChoice>,
    RenewError,
>)
    ensures
        r is Err <==> lacks_dns01(auths@, auths@.len()),
        r is Err ==> r == Err::<Vec<ChallengeChoice>, RenewError>(
            RenewError::UnsupportedChallenge,
        ),
        r matches Ok(v) ==> v@ == dns01_choices(auths@, auths@.len()),
{
    let mut out: Vec<ChallengeChoice> = Vec::new();
    let mut i: usize = 0;
    while i < auths.len()
        invariant
            i <= auths.len(),
            !lacks_dns01(auths@, i as nat),
            out@ == dns01_choices(auths@, i as nat),
        decreases auths.len() - i,
    {
        let a = &auths[i];
        if a.status == AuthorizationStatus::Pending {
            match find_dns01(&a.challenge_types) {
                Some(j) => {
                    out.push(ChallengeChoice { authorization: i, challenge: j });
                },
                None => {
                    assert(lacks_dns01(auths@, auths@.len())) by {
                        assert(auths@[i as int].status == AuthorizationStatus::Pending);
                    }
                    return Err(RenewError::UnsupportedChallenge);
                },
            }
        }
        proof {
            if lacks_dns01(auths@, (i + 1) as nat) {
                let w = choose|w: int|
                    0 <= w < i + 1 && auths@[w].status == AuthorizationStatus::Pending
                        && !has_dns01(auths@[w].challenge_types@);
                assert(w != i);
                assert(lacks_dns01(auths@, i as nat));
            }
        }
        i = i + 1;
    }
    Ok(out)
}

/// The DNS name of the TXT record that answers a DNS-01 challenge for `identifier`.
pub open spec fn record_name_of(identifier: Seq<char>) -> Seq<char> {
    "_acme-challenge."@ + identifier + "."@
}

pub fn challenge_record_name(identifier: &str) -> (r: String)
    ensures
        r@ == record_name_of(identifier@),
{
    crate::text::join3("_acme-challenge.", identifier, ".")
}

} // verus!
