use remote_ssl_renewal::acme::OrderStatus;
use remote_ssl_renewal::certificate::{certificate_from_chain, issued_certificate};
use remote_ssl_renewal::deploy::{
    plan_deployment, scan_certificates, scan_endpoints, upload_step, DeployPlan, Endpoint,
    PageScan, RemoteCertificate, UploadReply, UploadStep,
};
use remote_ssl_renewal::error::RenewError;
use remote_ssl_renewal::issuance::{Action, Event, Issuance};
use remote_ssl_renewal::job::{job_start, job_step, prepare_job, JobAction, JobEvent, JobRow};
use remote_ssl_renewal::renewal::{
    decide_single, renewal_threshold_at, select_due, RenewDecision, SubdomainRecord,
};

const NOW: i64 = 1_700_000_000;
const DAY: i64 = 86_400;
/// 2030-01-01T00:00:00Z.
const NOT_AFTER: i64 = 1_893_456_000;

fn self_signed(name: &str) -> (String, String) {
    let mut params = rcgen::CertificateParams::new(vec![name.to_string()]);
    params.not_after = rcgen::date_time_ymd(2030, 1, 1);
    let cert = rcgen::Certificate::from_params(params).unwrap();
    (cert.serialize_pem().unwrap(), cert.serialize_private_key_pem())
}

#[test]
fn leaf_expiry_is_read_from_chain() {
    let (chain, key) = self_signed("a.example.com");
    let (cert, expires) = certificate_from_chain(chain.clone(), key.clone()).unwrap();
    assert_eq!(expires, NOT_AFTER);
    assert_eq!(cert.cert, chain);
    assert_eq!(cert.key, key);
}

#[test]
fn empty_or_garbled_chain_is_a_parse_error() {
    assert_eq!(
        certificate_from_chain(String::new(), "k".to_string()).unwrap_err(),
        RenewError::CertificateParseError
    );
    let garbled = "-----BEGIN CERTIFICATE-----\nAAAA\n-----END CERTIFICATE-----\n";
    assert_eq!(
        certificate_from_chain(garbled.to_string(), "k".to_string()).unwrap_err(),
        RenewError::CertificateParseError
    );
}

#[test]
fn issued_certificate_with_given_expiry() {
    let (cert, t) = issued_certificate("c".to_string(), "k".to_string(), Some(42)).unwrap();
    assert_eq!((cert.cert.as_str(), cert.key.as_str(), t), ("c", "k", 42));
    assert_eq!(
        issued_certificate("c".to_string(), "k".to_string(), None).unwrap_err(),
        RenewError::CertificateParseError
    );
}

#[test]
fn new_subdomain_is_issued_persisted_and_deployed() {
    // Selected by the batch scan although it never had a certificate.
    let threshold = renewal_threshold_at(NOW);
    let rows = vec![SubdomainRecord {
        name: "a.example.com".to_string(),
        enabled: true,
        expires: None,
    }];
    assert_eq!(select_due(&rows, threshold), vec![0]);

    let job = prepare_job(JobRow {
        subdomain: "a.example.com".to_string(),
        acme_creds: "{}".to_string(),
        dns_provider: "Vercel".to_string(),
        dns_creds: String::new(),
        endpoint_provider: "DigitalOcean".to_string(),
        endpoint_creds: String::new(),
    })
    .unwrap();
    assert_eq!(job.dns.zone, "example.com");

    let (stage, a) = job_start();
    assert!(matches!(a, JobAction::Issue));

    // The order becomes Valid on the second poll.
    let (chain, key) = self_signed("a.example.com");
    let (mut m, _) = Issuance::start(1);
    let events = vec![
        Event::Published { handle: "rec".to_string() },
        Event::Looked { found: true },
        Event::Slept,
        Event::Acknowledged,
        Event::Status { status: OrderStatus::Pending, detail: String::new() },
        Event::Status { status: OrderStatus::Valid, detail: String::new() },
        Event::Acknowledged,
        Event::Issued { chain: chain.clone() },
    ];
    let mut last = Action::Idle;
    for e in events {
        let (next, a) = m.step(e);
        m = next;
        last = a;
    }
    let issued_chain = match last {
        Action::Finish { result: Ok(c) } => c,
        other => panic!("unexpected {:?}", other),
    };
    let (cert, expires) = certificate_from_chain(issued_chain, key).unwrap();
    assert_eq!(expires, NOT_AFTER);
    assert_eq!(cert.cert, chain);

    let (stage, a) = job_step(stage, JobEvent::Done);
    assert!(matches!(a, JobAction::Persist));
    let (_, a) = job_step(stage, JobEvent::Done);
    assert!(matches!(a, JobAction::Deploy { endpoint_must_exist: false }));

    let id = match upload_step(UploadReply::Created { id: "cert-new".to_string() }) {
        UploadStep::Uploaded { id } => id,
        other => panic!("unexpected {:?}", other),
    };
    let page: Vec<Endpoint> = vec![];
    assert_eq!(scan_endpoints(&page, "a.example.com"), PageScan::Exhausted);
    match plan_deployment(None, id, false).unwrap() {
        DeployPlan::Create { certificate_id } => assert_eq!(certificate_id, "cert-new"),
        other => panic!("unexpected {:?}", other),
    }
}

#[test]
fn certificate_far_from_expiry_is_not_due() {
    let threshold = renewal_threshold_at(NOW);
    assert_eq!(decide_single(Some(NOW + 30 * DAY), threshold, false), RenewDecision::NotDue);
}

#[test]
fn same_fingerprint_upload_resolves_and_repoints() {
    let body = "found certificate X with the same SHA-1 fingerprint";
    let name = match upload_step(UploadReply::Rejected { status: 422, body: body.to_string() }) {
        UploadStep::FindByName { name } => name,
        other => panic!("unexpected {:?}", other),
    };
    assert_eq!(name, "X");
    let page = vec![
        RemoteCertificate { id: "id-w".to_string(), name: "W".to_string() },
        RemoteCertificate { id: "id-x".to_string(), name: "X".to_string() },
    ];
    let id = match scan_certificates(&page, &name) {
        PageScan::Found(i) => page[i].id.clone(),
        other => panic!("unexpected {:?}", other),
    };
    assert_eq!(id, "id-x");
    let ep = Endpoint {
        id: "ep".to_string(),
        ttl: 600,
        certificate_id: "id-old".to_string(),
        custom_domain: "b.example.com".to_string(),
    };
    match plan_deployment(Some(ep), id, false).unwrap() {
        DeployPlan::Repoint { certificate_id, superseded, .. } => {
            assert_eq!(certificate_id, "id-x");
            assert_eq!(superseded, "id-old");
        }
        other => panic!("unexpected {:?}", other),
    }
}

#[test]
fn redeploy_of_served_certificate_is_noop() {
    let body = "found certificate X with the same SHA-1 fingerprint";
    assert!(matches!(
        upload_step(UploadReply::Rejected { status: 422, body: body.to_string() }),
        UploadStep::FindByName { .. }
    ));
    let ep = Endpoint {
        id: "ep".to_string(),
        ttl: 600,
        certificate_id: "id-x".to_string(),
        custom_domain: "b.example.com".to_string(),
    };
    assert!(matches!(
        plan_deployment(Some(ep), "id-x".to_string(), false).unwrap(),
        DeployPlan::Unchanged
    ));
}
