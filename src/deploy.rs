use vstd::prelude::*;
use crate::error::RenewError;

verus! {

/// The hosting providers a certificate can be deployed to.
#[derive(Debug, Clone, Copy, PartialEq, Eq, Structural)]
pub enum EndpointProviderType {
    DigitalOcean,
}

impl EndpointProviderType {
    /// The name under which the provider is stored.
    pub fn name(&self) -> (r: &'static str)
        ensures
            r@ == "DigitalOcean"@,
    {
        match self {
            EndpointProviderType::DigitalOcean => "DigitalOcean",
        }
    }

    /// The provider stored under `name`.
    pub fn from_name(name: &str) -> (r: Result<EndpointProviderType, RenewError>)
        ensures
            name@ == "DigitalOcean"@ ==> r == Ok::<EndpointProviderType, RenewError>(
                EndpointProviderType::DigitalOcean,
            ),
            name@ != "DigitalOcean"@ ==> r == Err::<EndpointProviderType, RenewError>(
                RenewError::UnknownProvider,
            ),
    {
        if crate::text::text_eq(name, "DigitalOcean") {
            Ok(EndpointProviderType::DigitalOcean)
        } else {
            Err(RenewError::UnknownProvider)
        }
    }
}

/// The API token of a DigitalOcean account.
#[derive(Debug, Clone)]
pub struct DigitalOceanCreds {
    pub token: String,
}

/// The HTTP status with which the provider refuses a certificate it already holds.
pub const UNPROCESSABLE_ENTITY: u16 = 422;

/// Group 1 of the leftmost match of regular expression `pattern` in `text`;
/// `None` when the pattern does not compile, does not match, or the group
/// takes no part in the match.
pub uninterp spec fn first_capture(pattern: Seq<char>, text: Seq<char>) -> Option<Seq<char>>;

/// Relies on regex: `Regex::new` compiles the pattern, `Regex::captures` finds
/// its leftmost match and `Captures::get(1)` gives the first group.
#[verifier::external_body]
fn regex_first_capture(pattern: &str, text: &str) -> (r: Option<String>)
    ensures
        r is None <==> first_capture(pattern@, text@) is None,
        r matches Some(c) ==> first_capture(pattern@, text@) == Some(c@),
{
    let re = regex::Regex::new(pattern).ok()?;
    let caps = re.captures(text)?;
    caps.get(1).map(|m| m.as_str().to_string())
}

/// The provider's words when a certificate with the same fingerprint exists;
/// the group is that certificate's name.
pub open spec fn same_fingerprint_pattern() -> Seq<char> {
    "found certificate (.*) with the same SHA-1 fingerprint"@
}

/// The name of the existing certificate that a refusal body points to.
pub open spec fn conflict_name(body: Seq<char>) -> Option<Seq<char>> {
    first_capture(same_fingerprint_pattern(), body)
}

/// The provider's answer to a certificate upload.
#[derive(Debug)]
pub enum UploadReply {
    /// The certificate was stored under `id`.
    Created { id: String },
    /// The upload was refused with this status and body.
    Rejected { status: u16, body: String },
}

/// What to do after an upload.
#[derive(Debug)]
pub enum UploadStep {
    /// The new certificate's id is known.
    Uploaded { id: String },
    /// The same certificate exists under `name`: look its id up.
    FindByName { name: String },
    /// The upload failed.
    Failed { error: RenewError },
}

/// The step after `reply`, where `conflict` is the certificate name that the
/// refusal body points to, if any.
pub open spec fn upload_step_of(reply: UploadReply, conflict: Option<String>) -> UploadStep {
    match reply {
        UploadReply::Created { id } => UploadStep::Uploaded { id },
        UploadReply::Rejected { status, body } => if status == UNPROCESSABLE_ENTITY
            && conflict is Some {
            UploadStep::FindByName { name: conflict.unwrap() }
        } else {
            UploadStep::Failed { error: RenewError::DeploymentError { status, body } }
        },
    }
}

/// Decides what follows an upload, given the name parsed out of the refusal body.
pub fn upload_step_with(reply: UploadReply, conflict: Option<String>) -> (r: UploadStep)
    ensures
        r == upload_step_of(reply, conflict),
{
    match reply {
        UploadReply::Created { id } => UploadStep::Uploaded { id },
        UploadReply::Rejected { status, body } => {
            if status == UNPROCESSABLE_ENTITY {
                match conflict {
                    Some(name) => UploadStep::FindByName { name },
                    None => UploadStep::Failed {
                        error: RenewError::DeploymentError { status, body },
                    },
                }
            } else {
                UploadStep::Failed { error: RenewError::DeploymentError { status, body } }
            }
        },
    }
}

/// Decides what follows an upload: a refusal because the same certificate
/// exists is recovered by looking that certificate up by name; any other
/// refusal fails with `DeploymentError`.
pub fn upload_step(reply: UploadReply) -> (r: UploadStep)
    ensures
        reply matches UploadReply::Created { id } ==> r == (UploadStep::Uploaded { id }),
        reply matches UploadReply::Rejected { status, body } ==> (status
            == UNPROCESSABLE_ENTITY && conflict_name(body@) is Some ==> (r matches UploadStep::FindByName {
            name,
        } && Some(name@) == conflict_name(body@))),
        reply matches UploadReply::Rejected { status, body } ==> (status
            != UNPROCESSABLE_ENTITY || conflict_name(body@) is None ==> r == (UploadStep::Failed {
            error: RenewError::DeploymentError { status, body },
        })),
{
    let conflict = match &reply {
        UploadReply::Created { .. } => None,
        UploadReply::Rejected { body, .. } => regex_first_capture(
            "found certificate (.*) with the same SHA-1 fingerprint",
            body.as_str(),
        ),
    };
    upload_step_with(reply, conflict)
}

/// A certificate as the provider lists it.
#[derive(Debug, Clone)]
pub struct RemoteCertificate {
    pub id: String,
    pub name: String,
}

/// A CDN endpoint as the provider lists it.
#[derive(Debug, Clone)]
pub struct Endpoint {
    pub id: String,
    pub ttl: u16,
    pub certificate_id: String,
    pub custom_domain: String,
}

/// What one page of a paginated listing showed.
#[derive(Debug, Clone, Copy, PartialEq, Eq, Structural)]
pub enum PageScan {
    /// The item sought is at this position of the page.
    Found(usize),
    /// Not on this page: fetch the next one.
    NextPage,
    /// The page was empty: the listing is over and the item is not in it.
    Exhausted,
}

/// The scan of a page whose items match the sought one at the positions where
/// `hit` holds: the first hit, else the next page, else the end.
pub open spec fn scan_of(len: nat, hit: spec_fn(int) -> bool) -> PageScan {
    if len == 0 {
        PageScan::Exhausted
    } else if exists|i: int| 0 <= i < len && #[trigger] hit(i) {
        PageScan::Found(
            (choose|i: int|
                0 <= i < len && #[trigger] hit(i) && forall|k: int| 0 <= k < i ==> !(#[trigger] hit(k))) as usize,
        )
    } else {
        PageScan::NextPage
    }
}

proof fn lemma_scan_found(len: nat, hit: spec_fn(int) -> bool, i: int)
    requires
        0 <= i < len,
        hit(i),
        forall|k: int| 0 <= k < i ==> !(#[trigger] hit(k)),
    ensures
        scan_of(len, hit) == PageScan::Found(i as usize),
{
    let c = choose|c: int|
        0 <= c < len && #[trigger] hit(c) && forall|k: int| 0 <= k < c ==> !(#[trigger] hit(k));
    assert(0 <= c < len && hit(c) && forall|k: int| 0 <= k < c ==> !(#[trigger] hit(k)));
    if c < i {
        assert(!hit(c));
    } else if c > i {
        assert(!hit(i));
    }
}

/// Looks for the certificate named `name` on one page of the certificate listing.
pub fn scan_certificates(page: &Vec<RemoteCertificate>, name: &str) -> (r: PageScan)
    ensures
        r == scan_of(page@.len(), |i: int| page@[i].name@ == name@),
{
    let ghost hit = |i: int| page@[i].name@ == name@;
    if page.len() == 0 {
        return PageScan::Exhausted;
    }
    let mut i: usize = 0;
    while i < page.len()
        invariant
            i <= page@.len(),
            hit == (|j: int| page@[j].name@ == name@),
            forall|k: int| 0 <= k < i ==> !(#[trigger] hit(k)),
        decreases page.len() - i,
    {
        if crate::text::text_eq(page[i].name.as_str(), name) {
            proof {
                lemma_scan_found(page@.len(), hit, i as int);
            }
            return PageScan::Found(i);
        }
        i = i + 1;
    }
    PageScan::NextPage
}

/// Looks for the endpoint serving `subdomain` on one page of the endpoint listing.
pub fn scan_endpoints(page: &Vec<Endpoint>, subdomain: &str) -> (r: PageScan)
    ensures
        r == scan_of(page@.len(), |i: int| page@[i].custom_domain@ == subdomain@),
{
    let ghost hit = |i: int| page@[i].custom_domain@ == subdomain@;
    if page.len() == 0 {
        return PageScan::Exhausted;
    }
    let mut i: usize = 0;
    while i < page.len()
        invariant
            i <= page@.len(),
            hit == (|j: int| page@[j].custom_domain@ == subdomain@),
            forall|k: int| 0 <= k < i ==> !(#[trigger] hit(k)),
        decreases page.len() - i,
    {
        if crate::text::text_eq(page[i].custom_domain.as_str(), subdomain) {
            proof {
                lemma_scan_found(page@.len(), hit, i as int);
            }
            return PageScan::Found(i);
        }
        i = i + 1;
    }
    PageScan::NextPage
}

/// How the endpoint is brought to serve the uploaded certificate.
#[derive(Debug)]
pub enum DeployPlan {
    /// The endpoint already serves it: nothing to do.
    Unchanged,
    /// Point the endpoint at `certificate_id`, resending its other fields, then
    /// delete the superseded certificate.
    Repoint {
        endpoint_id: String,
        custom_domain: String,
        ttl: u16,
        certificate_id: String,
        superseded: String,
    },
    /// Create an endpoint for the subdomain bound to `certificate_id`.
    Create { certificate_id: String },
}

/// The plan for certificate `certificate_id`, given the endpoint found for the
/// subdomain, if any.
pub open spec fn deployment_plan(
    existing: Option<Endpoint>,
    certificate_id: String,
    endpoint_must_exist: bool,
) -> Result<DeployPlan, RenewError> {
    match existing {
        Some(ep) => if ep.certificate_id@ == certificate_id@ {
            Ok(DeployPlan::Unchanged)
        } else {
            Ok(
                DeployPlan::Repoint {
                    endpoint_id: ep.id,
                    custom_domain: ep.custom_domain,
                    ttl: ep.ttl,
                    certificate_id,
                    superseded: ep.certificate_id,
                },
            )
        },
        None => if endpoint_must_exist {
            Err(RenewError::EndpointNotFound)
        } else {
            Ok(DeployPlan::Create { certificate_id })
        },
    }
}

/// Decides how to deploy certificate `certificate_id`: leave an endpoint that
/// already serves it alone, repoint one that serves another, create one where
/// none exists unless it must exist (`EndpointNotFound`).
pub fn plan_deployment(
    existing: Option<Endpoint>,
    certificate_id: String,
    endpoint_must_exist: bool,
) -> (r: Result<DeployPlan, RenewError>)
    ensures
        r == deployment_plan(existing, certificate_id, endpoint_must_exist),
{
    match existing {
        Some(ep) => {
            if crate::text::text_eq(ep.certificate_id.as_str(), certificate_id.as_str()) {
                Ok(DeployPlan::Unchanged)
            } else {
                Ok(
                    DeployPlan::Repoint {
                        endpoint_id: ep.id,
                        custom_domain: ep.custom_domain,
                        ttl: ep.ttl,
                        certificate_id,
                        superseded: ep.certificate_id,
                    },
                )
            }
        },
        None => {
            if endpoint_must_exist {
                Err(RenewError::EndpointNotFound)
            } else {
                Ok(DeployPlan::Create { certificate_id })
            }
        },
    }
}

/// Deploying again a certificate the endpoint already serves is a no-op: when
/// the upload is refused because the same certificate exists, the refusal
/// leads to a lookup by name rather than an error, and once that name resolves
/// to the endpoint's current certificate id the plan is `Unchanged`, with
/// nothing repointed and nothing deleted.
pub proof fn lemma_redeploy_is_noop(
    body: String,
    name: String,
    listed: RemoteCertificate,
    ep: Endpoint,
    endpoint_must_exist: bool,
)
    requires
        conflict_name(body@) == Some(name@),
        listed.name@ == name@,
        listed.id@ == ep.certificate_id@,
    ensures
        upload_step_of(
            UploadReply::Rejected { status: UNPROCESSABLE_ENTITY, body },
            Some(name),
        ) == (UploadStep::FindByName { name }),
        deployment_plan(Some(ep), listed.id, endpoint_must_exist) == Ok::<
            DeployPlan,
            RenewError,
        >(DeployPlan::Unchanged),
{
}

/// A refusal that points at an existing certificate with the same fingerprint
/// is recovered: once the named certificate's id is known, an endpoint serving
/// another certificate is repointed to it, and the superseded one is deleted.
pub proof fn lemma_conflict_resolves_to_repoint(
    body: String,
    name: String,
    listed: RemoteCertificate,
    ep: Endpoint,
    endpoint_must_exist: bool,
)
    requires
        conflict_name(body@) == Some(name@),
        listed.name@ == name@,
        listed.id@ != ep.certificate_id@,
    ensures
        upload_step_of(
            UploadReply::Rejected { status: UNPROCESSABLE_ENTITY, body },
            Some(name),
        ) == (UploadStep::FindByName { name }),
        deployment_plan(Some(ep), listed.id, endpoint_must_exist) == Ok::<
            DeployPlan,
            RenewError,
        >(
            DeployPlan::Repoint {
                endpoint_id: ep.id,
                custom_domain: ep.custom_domain,
                ttl: ep.ttl,
                certificate_id: listed.id,
                superseded: ep.certificate_id,
            },
        ),
{
}

} // verus!
