use vstd::prelude::*;
use crate::deploy::EndpointProviderType;
use crate::dns::{get_dns_provider, zone_of, DnsBinding, DnsProviderType};
use crate::error::RenewError;

verus! {

/// A stored subdomain with its linked providers, as the store hands it out.
#[derive(Debug, Clone)]
pub struct JobRow {
    pub subdomain: String,
    pub acme_creds: String,
    pub dns_provider: String,
    pub dns_creds: String,
    pub endpoint_provider: String,
    pub endpoint_creds: String,
}

/// One renewal job with its linked providers resolved.
#[derive(Debug, Clone)]
pub struct RenewalJob {
    pub subdomain: String,
    pub acme_creds: String,
    pub dns: DnsBinding,
    pub endpoint: EndpointProviderType,
    pub endpoint_creds: String,
}

/// Resolves a row's linked providers: an unknown provider name fails with
/// `UnknownProvider`, a subdomain without a zone with `InvalidDomain`.
pub fn prepare_job(row: JobRow) -> (r: Result<RenewalJob, RenewError>)
    ensures
        row.dns_provider@ != "Vercel"@ ==> r == Err::<RenewalJob, RenewError>(
            RenewError::UnknownProvider,
        ),
        row.dns_provider@ == "Vercel"@ && row.endpoint_provider@ != "DigitalOcean"@ ==> r
            == Err::<RenewalJob, RenewError>(RenewError::UnknownProvider),
        row.dns_provider@ == "Vercel"@ && row.endpoint_provider@ == "DigitalOcean"@
            && zone_of(row.subdomain@) is None ==> r == Err::<RenewalJob, RenewError>(
            RenewError::InvalidDomain,
        ),
        row.dns_provider@ == "Vercel"@ && row.endpoint_provider@ == "DigitalOcean"@
            && zone_of(row.subdomain@) is Some ==> (r matches Ok(job) && job.subdomain
            == row.subdomain && job.acme_creds == row.acme_creds && job.dns.provider
            == DnsProviderType::Vercel && Some(job.dns.zone@) == zone_of(row.subdomain@)
            && job.dns.creds == row.dns_creds && job.endpoint == EndpointProviderType::DigitalOcean
            && job.endpoint_creds == row.endpoint_creds),
{
    let dns_type = match DnsProviderType::from_name(row.dns_provider.as_str()) {
        Ok(t) => t,
        Err(e) => return Err(e),
    };
    let endpoint = match EndpointProviderType::from_name(row.endpoint_provider.as_str()) {
        Ok(t) => t,
        Err(e) => return Err(e),
    };
    let dns = match get_dns_provider(dns_type, row.subdomain.as_str(), row.dns_creds) {
        Ok(b) => b,
        Err(e) => return Err(e),
    };
    Ok(
        RenewalJob {
            subdomain: row.subdomain,
            acme_creds: row.acme_creds,
            dns,
            endpoint,
            endpoint_creds: row.endpoint_creds,
        },
    )
}

/// Where one job stands.
#[derive(Debug, Clone, Copy, PartialEq, Eq, Structural)]
pub enum JobStage {
    Issuing,
    Persisting,
    Deploying,
    Finished,
}

/// What came of the job's last action.
#[derive(Debug)]
pub enum JobEvent {
    Done,
    Failed { error: RenewError },
}

/// What the driver of a job is to do next.
#[derive(Debug)]
pub enum JobAction {
    /// Run the order for a new certificate.
    Issue,
    /// Store the new certificate with its expiry.
    Persist,
    /// Deploy the new certificate; create the endpoint if there is none.
    Deploy { endpoint_must_exist: bool },
    /// The job is over.
    Finish { result: Result<(), RenewError> },
    /// Nothing is left to do.
    Idle,
}

/// The job's transition on event `e`: issue, then store, then deploy; the
/// first failure ends the job.
pub open spec fn job_next(stage: JobStage, e: JobEvent) -> (JobStage, JobAction) {
    match stage {
        JobStage::Finished => (JobStage::Finished, JobAction::Idle),
        _ => match e {
            JobEvent::Failed { error } => (
                JobStage::Finished,
                JobAction::Finish { result: Err(error) },
            ),
            JobEvent::Done => match stage {
                JobStage::Issuing => (JobStage::Persisting, JobAction::Persist),
                JobStage::Persisting => (
                    JobStage::Deploying,
                    JobAction::Deploy { endpoint_must_exist: false },
                ),
                _ => (JobStage::Finished, JobAction::Finish { result: Ok(()) }),
            },
        },
    }
}

/// A new job and its first action.
pub fn job_start() -> (r: (JobStage, JobAction))
    ensures
        r == (JobStage::Issuing, JobAction::Issue),
{
    (JobStage::Issuing, JobAction::Issue)
}

pub fn job_step(stage: JobStage, e: JobEvent) -> (r: (JobStage, JobAction))
    ensures
        r == job_next(stage, e),
{
    match stage {
        JobStage::Finished => (JobStage::Finished, JobAction::Idle),
        _ => match e {
            JobEvent::Failed { error } => (
                JobStage::Finished,
                JobAction::Finish { result: Err(error) },
            ),
            JobEvent::Done => match stage {
                JobStage::Issuing => (JobStage::Persisting, JobAction::Persist),
                JobStage::Persisting => (
                    JobStage::Deploying,
                    JobAction::Deploy { endpoint_must_exist: false },
                ),
                _ => (JobStage::Finished, JobAction::Finish { result: Ok(()) }),
            },
        },
    }
}

/// The stages and actions after feeding `evs` in turn.
pub open spec fn job_run(stage: JobStage, evs: Seq<JobEvent>) -> (JobStage, Seq<JobAction>)
    decreases evs.len(),
{
    if evs.len() == 0 {
        (stage, Seq::empty())
    } else {
        let (t, a) = job_next(stage, evs[0]);
        let (u, acts) = job_run(t, evs.drop_first());
        (u, seq![a] + acts)
    }
}

/// A newly issued certificate is stored before any deployment is tried: in
/// every run of a job, a `Deploy` action comes only after a `Persist` action,
/// and only with endpoint creation allowed.
pub proof fn lemma_persist_before_deploy(evs: Seq<JobEvent>, i: int)
    requires
        0 <= i < job_run(JobStage::Issuing, evs).1.len(),
        job_run(JobStage::Issuing, evs).1[i] is Deploy,
    ensures
        exists|k: int| 0 <= k < i && (#[trigger] job_run(JobStage::Issuing, evs).1[k]) is Persist,
        job_run(JobStage::Issuing, evs).1[i] == (JobAction::Deploy { endpoint_must_exist: false }),
{
    lemma_job_deploy_shape(JobStage::Issuing, evs);
}

proof fn lemma_job_deploy_shape(stage: JobStage, evs: Seq<JobEvent>)
    ensures
        forall|i: int|
            0 <= i < job_run(stage, evs).1.len() && (#[trigger] job_run(stage, evs).1[i]) is Deploy
                ==> job_run(stage, evs).1[i] == (JobAction::Deploy { endpoint_must_exist: false })
                && (stage == JobStage::Persisting && i == 0 || exists|k: int|
                0 <= k < i && (#[trigger] job_run(stage, evs).1[k]) is Persist),
        stage == JobStage::Issuing ==> forall|i: int|
            0 <= i < job_run(stage, evs).1.len() && (#[trigger] job_run(stage, evs).1[i]) is Deploy
                ==> exists|k: int| 0 <= k < i && (#[trigger] job_run(stage, evs).1[k]) is Persist,
    decreases evs.len(),
{
    if evs.len() > 0 {
        let (t, a) = job_next(stage, evs[0]);
        lemma_job_deploy_shape(t, evs.drop_first());
        let (u, acts) = job_run(t, evs.drop_first());
        let all = seq![a] + acts;
        assert(job_run(stage, evs).1 == all);
        assert forall|i: int| 0 <= i < all.len() && (#[trigger] all[i]) is Deploy implies all[i]
            == (JobAction::Deploy { endpoint_must_exist: false }) && (stage == JobStage::Persisting
            && i == 0 || exists|k: int| 0 <= k < i && (#[trigger] all[k]) is Persist) by {
            if i > 0 {
                assert(all[i] == acts[i - 1]);
                if t == JobStage::Persisting && i - 1 == 0 {
                    assert(a is Persist);
                    assert(all[0] is Persist);
                } else {
                    let k = choose|k: int| 0 <= k < i - 1 && (#[trigger] acts[k]) is Persist;
                    assert(all[k + 1] == acts[k]);
                }
            }
        }
        if stage == JobStage::Issuing {
            assert forall|i: int| 0 <= i < all.len() && (#[trigger] all[i]) is Deploy implies exists|
                k: int,
            | 0 <= k < i && (#[trigger] all[k]) is Persist by {
                assert(i != 0);
            }
        }
    }
}

} // verus!
