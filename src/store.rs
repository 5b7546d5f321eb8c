use vstd::prelude::*;

verus! {

/// A stored ACME account, DNS provider or endpoint.
#[derive(Debug, Clone)]
pub struct DbObject {
    pub id: i64,
    pub name: String,
    pub provider: String,
    pub creds: String,
}

/// Every stored account, DNS provider and endpoint, each list ordered by name.
#[derive(Debug, Clone)]
pub struct DbObjects {
    pub acme_accounts: Vec<DbObject>,
    pub dns_providers: Vec<DbObject>,
    pub endpoints: Vec<DbObject>,
}

/// The options of the command that relinks a subdomain.
#[derive(Debug, Clone)]
pub struct EditArgs {
    pub subdomain: String,
}

/// The options of the command that deploys the stored certificate again.
#[derive(Debug, Clone)]
pub struct ReinstallCertArgs {
    pub subdomain: String,
}

/// The position of the first object with id `id`, if any.
pub fn position_by_id(objects: &Vec<DbObject>, id: i64) -> (r: Option<usize>)
    ensures
        r is None <==> forall|i: int| 0 <= i < objects@.len() ==> (#[trigger] objects@[i]).id != id,
        r matches Some(j) ==> j < objects@.len() && objects@[j as int].id == id && forall|i: int|
            0 <= i < j ==> (#[trigger] objects@[i]).id != id,
{
    let mut j: usize = 0;
    while j < objects.len()
        invariant
            j <= objects@.len(),
            forall|i: int| 0 <= i < j ==> (#[trigger] objects@[i]).id != id,
        decreases objects.len() - j,
    {
        if objects[j].id == id {
            return Some(j);
        }
        j = j + 1;
    }
    None
}

/// Whether relinking a subdomain drops its cached certificate's expiry, so
/// that the next batch run renews it: only when the ACME account changes.
pub fn relink_clears_certificate(current_account: i64, chosen_account: i64) -> (r: bool)
    ensures
        r == (current_account != chosen_account),
{
    current_account != chosen_account
}

} // verus!
