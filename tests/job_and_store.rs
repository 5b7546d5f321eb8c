use remote_ssl_renewal::deploy::EndpointProviderType;
use remote_ssl_renewal::error::RenewError;
use remote_ssl_renewal::job::{job_start, job_step, prepare_job, JobAction, JobEvent, JobRow, JobStage};
use remote_ssl_renewal::store::{position_by_id, relink_clears_certificate, DbObject};

fn job_row(subdomain: &str, dns: &str, endpoint: &str) -> JobRow {
    JobRow {
        subdomain: subdomain.to_string(),
        acme_creds: "{}".to_string(),
        dns_provider: dns.to_string(),
        dns_creds: String::new(),
        endpoint_provider: endpoint.to_string(),
        endpoint_creds: String::new(),
    }
}

#[test]
fn prepare_resolves_providers_and_zone() {
    let job = prepare_job(job_row("a.example.com", "Vercel", "DigitalOcean")).unwrap();
    assert_eq!(job.subdomain, "a.example.com");
    assert_eq!(job.dns.zone, "example.com");
    assert_eq!(job.endpoint, EndpointProviderType::DigitalOcean);
}

#[test]
fn prepare_rejects_unknown_providers_and_bad_names() {
    assert_eq!(
        prepare_job(job_row("a.example.com", "Route53", "DigitalOcean")).unwrap_err(),
        RenewError::UnknownProvider
    );
    assert_eq!(
        prepare_job(job_row("a.example.com", "Vercel", "S3")).unwrap_err(),
        RenewError::UnknownProvider
    );
    assert_eq!(
        prepare_job(job_row("localhost", "Vercel", "DigitalOcean")).unwrap_err(),
        RenewError::InvalidDomain
    );
}

#[test]
fn job_persists_before_deploying() {
    let (s, a) = job_start();
    assert!(matches!(a, JobAction::Issue));
    let (s, a) = job_step(s, JobEvent::Done);
    assert!(matches!(a, JobAction::Persist));
    let (s, a) = job_step(s, JobEvent::Done);
    assert!(matches!(a, JobAction::Deploy { endpoint_must_exist: false }));
    let (s, a) = job_step(s, JobEvent::Done);
    assert!(matches!(a, JobAction::Finish { result: Ok(()) }));
    assert_eq!(s, JobStage::Finished);
}

#[test]
fn job_stops_at_first_failure() {
    let (s, _) = job_start();
    let (s, a) = job_step(s, JobEvent::Failed { error: RenewError::ChallengeTimeout });
    assert_eq!(s, JobStage::Finished);
    assert!(matches!(a, JobAction::Finish { result: Err(RenewError::ChallengeTimeout) }));
    let (_, a) = job_step(s, JobEvent::Done);
    assert!(matches!(a, JobAction::Idle));
}

#[test]
fn deploy_failure_keeps_persisted_certificate() {
    let (s, _) = job_start();
    let (s, _) = job_step(s, JobEvent::Done);
    let (s, _) = job_step(s, JobEvent::Done);
    let (_, a) = job_step(
        s,
        JobEvent::Failed { error: RenewError::DeploymentError { status: 500, body: String::new() } },
    );
    assert!(matches!(a, JobAction::Finish { result: Err(RenewError::DeploymentError { .. }) }));
}

fn obj(id: i64, name: &str) -> DbObject {
    DbObject { id, name: name.to_string(), provider: "Vercel".to_string(), creds: String::new() }
}

#[test]
fn finds_objects_by_id() {
    let objs = vec![obj(7, "a"), obj(3, "b"), obj(3, "c")];
    assert_eq!(position_by_id(&objs, 3), Some(1));
    assert_eq!(position_by_id(&objs, 9), None);
}

#[test]
fn relinking_clears_only_on_account_change() {
    assert!(relink_clears_certificate(1, 2));
    assert!(!relink_clears_certificate(2, 2));
}
