use vstd::prelude::*;
use crate::error::RenewError;

verus! {

/// How long before expiry a certificate becomes due: fourteen days, in seconds.
pub const RENEWAL_WINDOW_SECS: i64 = 14 * 24 * 60 * 60;

/// The expiry before which a certificate is due at time `now`: fourteen days
/// ahead, held at the largest timestamp.
pub open spec fn threshold_at(now: i64) -> i64 {
    if now > i64::MAX - RENEWAL_WINDOW_SECS {
        i64::MAX
    } else {
        (now + RENEWAL_WINDOW_SECS) as i64
    }
}

pub fn renewal_threshold_at(now: i64) -> (r: i64)
    ensures
        r == threshold_at(now),
{
    if now > i64::MAX - RENEWAL_WINDOW_SECS {
        i64::MAX
    } else {
        now + RENEWAL_WINDOW_SECS
    }
}

/// Relies on time's `OffsetDateTime::now_utc` and `unix_timestamp`: the
/// current time in Unix seconds.
#[verifier::external_body]
fn unix_now() -> (r: i64) {
    time::OffsetDateTime::now_utc().unix_timestamp()
}

/// The current time and the renewal threshold that goes with it.
pub fn renewal_threshold() -> (r: (i64, i64))
    ensures
        r.1 == threshold_at(r.0),
{
    let now = unix_now();
    (now, renewal_threshold_at(now))
}

/// What the scheduler reads of a stored subdomain.
#[derive(Debug, Clone)]
pub struct SubdomainRecord {
    pub name: String,
    pub enabled: bool,
    /// The expiry of the last certificate, absent when none was ever issued.
    pub expires: Option<i64>,
}

/// A subdomain that a batch run renews.
pub open spec fn is_due(s: SubdomainRecord, threshold: i64) -> bool {
    s.enabled && match s.expires {
        None => true,
        Some(t) => t < threshold,
    }
}

/// The positions of the due subdomains among the first `n`, in order.
pub open spec fn due_indices(rows: Seq<SubdomainRecord>, threshold: i64, n: nat) -> Seq<usize>
    decreases n,
{
    if n == 0 {
        Seq::empty()
    } else {
        let earlier = due_indices(rows, threshold, (n - 1) as nat);
        if is_due(rows[n - 1], threshold) {
            earlier.push((n - 1) as usize)
        } else {
            earlier
        }
    }
}

/// Picks, in order, the subdomains a batch run renews: the enabled ones whose
/// certificate expires before `threshold` or that never had one.
pub fn select_due(rows: &Vec<SubdomainRecord>, threshold: i64) -> (r: Vec<usize>)
    ensures
        r@ == due_indices(rows@, threshold, rows@.len()),
{
    let mut out: Vec<usize> = Vec::new();
    let mut i: usize = 0;
    while i < rows.len()
        invariant
            i <= rows@.len(),
            out@ == due_indices(rows@, threshold, i as nat),
        decreases rows.len() - i,
    {
        let row = &rows[i];
        let due = row.enabled && match row.expires {
            None => true,
            Some(t) => t < threshold,
        };
        if due {
            out.push(i);
        }
        i = i + 1;
    }
    out
}

proof fn lemma_due_indices_shape(rows: Seq<SubdomainRecord>, threshold: i64, n: nat)
    requires
        n <= rows.len() <= usize::MAX,
    ensures
        forall|j: int|
            0 <= j < due_indices(rows, threshold, n).len() ==> {
                let x = #[trigger] due_indices(rows, threshold, n)[j];
                x < n && is_due(rows[x as int], threshold)
            },
        forall|j1: int, j2: int|
            0 <= j1 < j2 < due_indices(rows, threshold, n).len() ==> #[trigger] due_indices(
                rows,
                threshold,
                n,
            )[j1] < #[trigger] due_indices(rows, threshold, n)[j2],
        forall|i: int|
            0 <= i < n && is_due(rows[i], threshold) ==> #[trigger] due_indices(
                rows,
                threshold,
                n,
            ).contains(i as usize),
    decreases n,
{
    if n > 0 {
        lemma_due_indices_shape(rows, threshold, (n - 1) as nat);
        let earlier = due_indices(rows, threshold, (n - 1) as nat);
        let all = due_indices(rows, threshold, n);
        assert forall|j: int| 0 <= j < all.len() implies {
            let x = #[trigger] all[j];
            x < n && is_due(rows[x as int], threshold)
        } by {
            if j < earlier.len() {
                assert(all[j] == earlier[j]);
            }
        }
        assert forall|j1: int, j2: int| 0 <= j1 < j2 < all.len() implies #[trigger] all[j1]
            < #[trigger] all[j2] by {
            if j2 < earlier.len() {
                assert(all[j1] == earlier[j1]);
                assert(all[j2] == earlier[j2]);
            } else {
                assert(all[j1] == earlier[j1]);
            }
        }
        assert forall|i: int|
            0 <= i < n && is_due(rows[i], threshold) implies #[trigger] due_indices(
            rows,
            threshold,
            n,
        ).contains(i as usize) by {
            if i < n - 1 {
                assert(earlier.contains(i as usize));
                let j = choose|j: int| 0 <= j < earlier.len() && earlier[j] == i as usize;
                assert(due_indices(rows, threshold, n)[j] == i as usize);
            } else {
                let all = due_indices(rows, threshold, n);
                assert(all[all.len() - 1] == i as usize);
            }
        }
    }
}

/// A batch run never selects a subdomain that is not due: one that is
/// disabled, or whose certificate expires at or after the threshold.
pub proof fn lemma_not_due_not_selected(rows: Seq<SubdomainRecord>, threshold: i64, i: int)
    requires
        0 <= i < rows.len() <= usize::MAX,
        !is_due(rows[i], threshold),
    ensures
        !due_indices(rows, threshold, rows.len()).contains(i as usize),
{
    lemma_due_indices_shape(rows, threshold, rows.len());
    let d = due_indices(rows, threshold, rows.len());
    if d.contains(i as usize) {
        let j = choose|j: int| 0 <= j < d.len() && d[j] == i as usize;
        assert(is_due(rows[d[j] as int], threshold));
    }
}

/// A batch run selects every due subdomain (enabled, with no certificate or
/// one that expires before the threshold) exactly once.
pub proof fn lemma_due_selected_once(rows: Seq<SubdomainRecord>, threshold: i64, i: int)
    requires
        0 <= i < rows.len() <= usize::MAX,
        is_due(rows[i], threshold),
    ensures
        due_indices(rows, threshold, rows.len()).contains(i as usize),
        forall|j1: int, j2: int|
            0 <= j1 < due_indices(rows, threshold, rows.len()).len() && 0 <= j2
                < due_indices(rows, threshold, rows.len()).len() && due_indices(
                rows,
                threshold,
                rows.len(),
            )[j1] == i as usize && due_indices(rows, threshold, rows.len())[j2] == i as usize
                ==> j1 == j2,
{
    lemma_due_indices_shape(rows, threshold, rows.len());
    let d = due_indices(rows, threshold, rows.len());
    assert forall|j1: int, j2: int|
        0 <= j1 < d.len() && 0 <= j2 < d.len() && d[j1] == i as usize && d[j2]
            == i as usize implies j1 == j2 by {
        if j1 < j2 {
            assert(d[j1] < d[j2]);
        } else if j2 < j1 {
            assert(d[j2] < d[j1]);
        }
    }
}

/// Whether a single-target run renews: when forced, when no certificate was
/// ever issued, or when it expires before the threshold.
pub open spec fn single_target_due(expires: Option<i64>, threshold: i64, force: bool) -> bool {
    force || match expires {
        None => true,
        Some(t) => t < threshold,
    }
}

/// What a single-target run does.
#[derive(Debug, Clone, Copy, PartialEq, Eq, Structural)]
pub enum RenewDecision {
    Renew,
    /// The certificate is not due yet: nothing is done and the CA is not contacted.
    NotDue,
}

pub fn decide_single(expires: Option<i64>, threshold: i64, force: bool) -> (r: RenewDecision)
    ensures
        r == (if single_target_due(expires, threshold, force) {
            RenewDecision::Renew
        } else {
            RenewDecision::NotDue
        }),
{
    let due = match expires {
        None => true,
        Some(t) => t < threshold,
    };
    if force || due {
        RenewDecision::Renew
    } else {
        RenewDecision::NotDue
    }
}

/// The options of a renewal run: one subdomain, or every due one. `force` is
/// honoured only with a subdomain.
#[derive(Debug, Clone)]
pub struct RenewArgs {
    pub subdomain: Option<String>,
    pub force: bool,
}

/// How one job of a batch run ended.
#[derive(Debug)]
pub struct JobReport {
    pub subdomain: String,
    pub result: Result<(), RenewError>,
}

/// The subdomains among the first `n` reports whose job failed, in order.
pub open spec fn failed_among(reports: Seq<JobReport>, n: nat) -> Seq<Seq<char>>
    decreases n,
{
    if n == 0 {
        Seq::empty()
    } else {
        let earlier = failed_among(reports, (n - 1) as nat);
        if reports[n - 1].result is Err {
            earlier.push(reports[n - 1].subdomain@)
        } else {
            earlier
        }
    }
}

proof fn lemma_failed_among_empty(reports: Seq<JobReport>, n: nat)
    requires
        n <= reports.len(),
    ensures
        failed_among(reports, n).len() == 0 <==> forall|i: int|
            0 <= i < n ==> (#[trigger] reports[i]).result is Ok,
    decreases n,
{
    if n > 0 {
        lemma_failed_among_empty(reports, (n - 1) as nat);
    }
}

/// The subdomains whose job failed, in the order of the reports. One job's
/// failure does not hide another's: every failed job is listed.
pub fn failed_subdomains(reports: &Vec<JobReport>) -> (r: Vec<String>)
    ensures
        r@.map_values(|s: String| s@) == failed_among(reports@, reports@.len()),
        r@.len() == 0 <==> forall|i: int|
            0 <= i < reports@.len() ==> (#[trigger] reports@[i]).result is Ok,
{
    let mut out: Vec<String> = Vec::new();
    let mut i: usize = 0;
    while i < reports.len()
        invariant
            i <= reports@.len(),
            out@.map_values(|s: String| s@) == failed_among(reports@, i as nat),
        decreases reports.len() - i,
    {
        if reports[i].result.is_err() {
            let name = reports[i].subdomain.clone();
            out.push(name);
            assert(out@.map_values(|s: String| s@) == failed_among(reports@, i as nat).push(
                reports@[i as int].subdomain@,
            ));
        }
        i = i + 1;
    }
    proof {
        lemma_failed_among_empty(reports@, reports@.len());
        assert(out@.map_values(|s: String| s@).len() == out@.len());
    }
    out
}

} // verus!
