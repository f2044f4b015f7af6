//! Planning record updates and judging the provider's answers.
//!
//! The updater works through the configured subdomains in order,
//! sequentially. A subdomain without a matched record identifier is
//! skipped with a diagnostic; every other one gets one partial update
//! carrying `{type: "A", name, content: ip, ttl, proxied}`. The first
//! refused update fails the whole run, attributed to its subdomain —
//! later subdomains are not attempted, earlier updates stay applied.

use vstd::prelude::*;
use vstd::map::*;
use crate::config::{Config, Subdomain};
use crate::errors::{DdnsError, spec_status_success, status_is_success};

verus! {

/// The body of one record update request.
#[derive(Debug)]
pub struct UpdateRecord {
    /// The record type; always `A`.
    pub ty: String,
    /// The name to write, as configured.
    pub name: String,
    /// The address to write.
    pub content: String,
    /// Time-to-live, in seconds.
    pub ttl: usize,
    /// Whether the record routes through the provider's reverse proxy.
    pub proxied: bool,
}

/// What the updater does for one configured subdomain, in order.
#[derive(Debug)]
pub enum UpdateStep {
    /// No record was matched: leave a diagnostic naming the subdomain and
    /// move on. Deliberately not an error.
    Skip { name: String },
    /// Send a partial update for the matched record.
    Patch { record_id: String, body: UpdateRecord },
}

/// How the step planned for one subdomain relates to that subdomain: an
/// unmatched one is skipped under its own name; a matched one gets a
/// patch of its record, writing the `A` type, its configured name and
/// proxied flag, the resolved address and the configured time-to-live.
pub open spec fn step_for(sd: Subdomain, ip: Seq<char>, ttl: usize, step: UpdateStep) -> bool {
    match sd.id {
        None => step matches UpdateStep::Skip { name } && name@ == sd.name@,
        Some(id) => step matches UpdateStep::Patch { record_id, body } && record_id@ == id@
            && body.ty@ == seq!['A'] && body.name@ == sd.name@ && body.content@ == ip && body.ttl
            == ttl && body.proxied == sd.proxied,
    }
}

/// Plans the whole run: one step per configured subdomain, in configured
/// order.
pub fn plan_updates(ip: &str, config: &Config) -> (plan: Vec<UpdateStep>)
    ensures
        plan@.len() == config.subdomains@.len(),
        forall|k: int|
            0 <= k < plan@.len() ==> step_for(
                config.subdomains@[k],
                ip@,
                config.ttl,
                #[trigger] plan@[k],
            ),
{
    let mut plan: Vec<UpdateStep> = Vec::new();
    let mut i: usize = 0;
    while i < config.subdomains.len()
        invariant
            i <= config.subdomains@.len(),
            plan@.len() == i as int,
            forall|k: int|
                0 <= k < i as int ==> step_for(
                    config.subdomains@[k],
                    ip@,
                    config.ttl,
                    #[trigger] plan@[k],
                ),
        decreases config.subdomains@.len() - i,
    {
        let sd = &config.subdomains[i];
        match &sd.id {
            None => {
                plan.push(UpdateStep::Skip { name: sd.name.clone() });
            },
            Some(id) => {
                let ty = String::from_str("A");
                proof {
                    reveal_strlit("A");
                    assert(ty@ =~= seq!['A']);
                }
                let body = UpdateRecord {
                    ty,
                    name: sd.name.clone(),
                    content: String::from_str(ip),
                    ttl: config.ttl,
                    proxied: sd.proxied,
                };
                plan.push(UpdateStep::Patch { record_id: id.clone(), body });
            },
        }
        i += 1;
    }
    plan
}

/// One structured error of the provider's response envelope.
#[derive(Debug)]
pub struct ApiError {
    pub code: u32,
    pub message: String,
}

/// The provider's response envelope to one record update, reduced to what
/// the updater judges. The structured errors are reported by the caller
/// when `success` is false.
#[derive(Debug)]
pub struct ApiEnvelope {
    pub success: bool,
    pub errors: Vec<ApiError>,
}

/// Judges the HTTP status of the record listing: any non-success status —
/// an authentication failure among them — aborts the run before matching.
pub fn judge_list_status(status: u16) -> (r: Result<(), DdnsError>)
    ensures
        spec_status_success(status) <==> r is Ok,
        !spec_status_success(status) ==> (r matches Err(DdnsError::ApiFailure { status: st })
            && st == status),
{
    if status_is_success(status) {
        Ok(())
    } else {
        Err(DdnsError::ApiFailure { status })
    }
}

/// Judges the HTTP status of one record update: a non-success status
/// fails the whole run, attributed to the subdomain, carrying the status.
pub fn judge_update_status(name: &str, status: u16) -> (r: Result<(), DdnsError>)
    ensures
        spec_status_success(status) <==> r is Ok,
        !spec_status_success(status) ==> (r matches Err(
            DdnsError::UpdateFailed { subdomain, http_status },
        ) && subdomain@ == name@ && http_status == Some(status)),
{
    if status_is_success(status) {
        Ok(())
    } else {
        Err(DdnsError::UpdateFailed { subdomain: String::from_str(name), http_status: Some(status) })
    }
}

/// Judges the decoded envelope of one record update: `success = false`
/// fails the whole run, attributed to the subdomain; the caller reports
/// each structured error of the envelope first.
pub fn judge_envelope(name: &str, env: &ApiEnvelope) -> (r: Result<(), DdnsError>)
    ensures
        env.success <==> r is Ok,
        !env.success ==> (r matches Err(DdnsError::UpdateFailed { subdomain, http_status })
            && subdomain@ == name@ && http_status is None),
{
    if env.success {
        Ok(())
    } else {
        Err(DdnsError::UpdateFailed { subdomain: String::from_str(name), http_status: None })
    }
}

/// The fields of a provider-side record that an update writes, as plain
/// mathematical values.
pub ghost struct RecordFields {
    pub ty: Seq<char>,
    pub name: Seq<char>,
    pub content: Seq<char>,
    pub ttl: usize,
    pub proxied: bool,
}

/// What one update body writes.
pub open spec fn body_fields(b: UpdateRecord) -> RecordFields {
    RecordFields { ty: b.ty@, name: b.name@, content: b.content@, ttl: b.ttl, proxied: b.proxied }
}

/// Provider-side record state as the updater sees it — the written fields
/// of each record, keyed by record identifier — after one step ran.
pub open spec fn apply_step(state: Map<Seq<char>, RecordFields>, step: UpdateStep) -> Map<
    Seq<char>,
    RecordFields,
> {
    match step {
        UpdateStep::Skip { .. } => state,
        UpdateStep::Patch { record_id, body } => state.insert(record_id@, body_fields(body)),
    }
}

/// The record state after a whole plan ran, in order.
pub open spec fn apply_plan(state: Map<Seq<char>, RecordFields>, plan: Seq<UpdateStep>) -> Map<
    Seq<char>,
    RecordFields,
>
    decreases plan.len(),
{
    if plan.len() == 0 {
        state
    } else {
        apply_plan(apply_step(state, plan[0]), plan.drop_first())
    }
}

/// The fields that a plan, as a whole, writes to the record with
/// identifier `k`: those of the last patch addressed to it, if any.
pub open spec fn plan_value(plan: Seq<UpdateStep>, k: Seq<char>) -> Option<RecordFields>
    decreases plan.len(),
{
    if plan.len() == 0 {
        None
    } else {
        let rest = plan_value(plan.drop_first(), k);
        if rest is Some {
            rest
        } else {
            match plan[0] {
                UpdateStep::Patch { record_id, body } => if record_id@ == k {
                    Some(body_fields(body))
                } else {
                    None
                },
                UpdateStep::Skip { .. } => None,
            }
        }
    }
}

/// After a plan ran, a record holds what the plan last wrote to it, and a
/// record the plan never wrote to is as it was.
proof fn lemma_apply_plan_at(
    state: Map<Seq<char>, RecordFields>,
    plan: Seq<UpdateStep>,
    k: Seq<char>,
)
    ensures
        apply_plan(state, plan).contains_key(k) <==> (state.contains_key(k) || plan_value(plan, k)
            is Some),
        plan_value(plan, k) matches Some(v) ==> apply_plan(state, plan)[k] == v,
        plan_value(plan, k) is None && state.contains_key(k) ==> apply_plan(state, plan)[k]
            == state[k],
    decreases plan.len(),
{
    if plan.len() > 0 {
        lemma_apply_plan_at(apply_step(state, plan[0]), plan.drop_first(), k);
    }
}

/// Law: running the same plan twice in a row leaves exactly the record
/// state of running it once. Every patch writes values that do not depend
/// on the state it finds, so the second, identical pass changes nothing —
/// even though it issues every write again.
pub proof fn lemma_plan_idempotent(state: Map<Seq<char>, RecordFields>, plan: Seq<UpdateStep>)
    ensures
        apply_plan(apply_plan(state, plan), plan) == apply_plan(state, plan),
{
    let once = apply_plan(state, plan);
    let twice = apply_plan(once, plan);
    assert forall|k: Seq<char>| twice.contains_key(k) <==> once.contains_key(k) by {
        lemma_apply_plan_at(state, plan, k);
        lemma_apply_plan_at(once, plan, k);
    }
    assert forall|k: Seq<char>| once.contains_key(k) implies twice[k] == once[k] by {
        lemma_apply_plan_at(state, plan, k);
        lemma_apply_plan_at(once, plan, k);
    }
    assert(twice =~= once);
}

} // verus!
