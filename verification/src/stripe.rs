use vstd::prelude::*;
use crate::errors::{ServiceError, bad_request, fails_bad_request};
use crate::ids::{parse_uuid, parsed_uuid};
use crate::text::str_eq;
use crate::file::unique_keys;

verus! {

/// Answer carrying the checkout page where a payment method is set up.
pub struct CreateSetupCheckoutSessionResPayload {
    pub url: String,
}

/// How a plan or subscription is billed.
#[derive(Debug, Clone, Copy, PartialEq, Eq)]
pub enum BillingKind {
    Flat,
    UsageBased,
}

/// The value stored under `key` in metadata given as key and value pairs,
/// keys unique as in the map they come from.
pub open spec fn metadata_lookup(entries: Seq<(String, String)>, key: Seq<char>) -> Option<Seq<char>>
    decreases entries.len(),
{
    if entries.len() == 0 {
        None
    } else if entries[0].0@ == key {
        Some(entries[0].1@)
    } else {
        metadata_lookup(entries.drop_first(), key)
    }
}

/// Looks `key` up in metadata.
pub fn metadata_get(entries: &Vec<(String, String)>, key: &str) -> (r: Option<String>)
    requires
        unique_keys(entries@),
    ensures
        match r {
            Some(v) => metadata_lookup(entries@, key@) == Some(v@),
            None => metadata_lookup(entries@, key@) is None,
        },
{
    let mut i: usize = 0;
    assert(entries@.skip(0) =~= entries@);
    while i < entries.len()
        invariant
            i <= entries@.len(),
            metadata_lookup(entries@, key@) == metadata_lookup(entries@.skip(i as int), key@),
        decreases entries.len() - i,
    {
        assert(entries@.skip(i as int)[0] == entries@[i as int]);
        if str_eq(entries[i].0.as_str(), key) {
            return Some(entries[i].1.clone());
        }
        assert(entries@.skip(i as int).drop_first() =~= entries@.skip(i + 1));
        i = i + 1;
    }
    None
}

/// A completed subscription checkout, read from the checkout session.
pub struct SubscriptionCheckout {
    pub stripe_subscription_id: String,
    pub organization_id: u128,
    pub plan_id: u128,
    /// `None` for a plan type other than `usage-based` and `flat`, which
    /// records nothing.
    pub kind: Option<BillingKind>,
}

/// Billing kind named by a checkout's `plan_type` metadata.
pub open spec fn plan_type_kind(plan_type: Seq<char>) -> Option<BillingKind> {
    if plan_type == "usage-based"@ {
        Some(BillingKind::UsageBased)
    } else if plan_type == "flat"@ {
        Some(BillingKind::Flat)
    } else {
        None
    }
}

/// Reads a completed subscription checkout: it must name its subscription
/// and carry metadata with a UUID `organization_id`, a `plan_type` and a UUID
/// `plan_id`; each missing or malformed value is refused with its message,
/// in that order.
pub fn checkout_subscription(subscription: Option<String>, metadata: Option<Vec<(String, String)>>) -> (r: Result<SubscriptionCheckout, ServiceError>)
    requires
        metadata matches Some(m) ==> unique_keys(m@),
    ensures
        subscription is None ==> fails_bad_request(r, "Checkout session must have a subscription"@),
        subscription is Some && metadata is None ==> fails_bad_request(r, "Checkout session must have metadata"@),
        subscription matches Some(s) ==> (metadata matches Some(m) ==> {
            let org = metadata_lookup(m@, "organization_id"@);
            let plan_type = metadata_lookup(m@, "plan_type"@);
            let plan = metadata_lookup(m@, "plan_id"@);
            if org is None {
                fails_bad_request(r, "Checkout session must have an organization_id metadata"@)
            } else if parsed_uuid(org.unwrap()) is None {
                fails_bad_request(r, "organization_id metadata must be a uuid"@)
            } else if plan_type is None {
                fails_bad_request(r, "Checkout session must have an plan_type metadata"@)
            } else if plan is None {
                fails_bad_request(r, "Checkout session must have an organization_id metadata"@)
            } else if parsed_uuid(plan.unwrap()) is None {
                fails_bad_request(r, "organization_id metadata must be a uuid"@)
            } else {
                r matches Ok(c) && c.stripe_subscription_id@ == s@
                    && Some(c.organization_id) == parsed_uuid(org.unwrap())
                    && Some(c.plan_id) == parsed_uuid(plan.unwrap())
                    && c.kind == plan_type_kind(plan_type.unwrap())
            }
        }),
{
    let s = match subscription {
        Some(s) => s,
        None => { return Err(bad_request("Checkout session must have a subscription")); },
    };
    let m = match metadata {
        Some(m) => m,
        None => { return Err(bad_request("Checkout session must have metadata")); },
    };
    let org_text = match metadata_get(&m, "organization_id") {
        Some(t) => t,
        None => { return Err(bad_request("Checkout session must have an organization_id metadata")); },
    };
    let organization_id = match parse_uuid(org_text.as_str()) {
        Some(id) => id,
        None => { return Err(bad_request("organization_id metadata must be a uuid")); },
    };
    let plan_type = match metadata_get(&m, "plan_type") {
        Some(t) => t,
        None => { return Err(bad_request("Checkout session must have an plan_type metadata")); },
    };
    let plan_text = match metadata_get(&m, "plan_id") {
        Some(t) => t,
        None => { return Err(bad_request("Checkout session must have an organization_id metadata")); },
    };
    let plan_id = match parse_uuid(plan_text.as_str()) {
        Some(id) => id,
        None => { return Err(bad_request("organization_id metadata must be a uuid")); },
    };
    let kind = if str_eq(plan_type.as_str(), "usage-based") {
        Some(BillingKind::UsageBased)
    } else if str_eq(plan_type.as_str(), "flat") {
        Some(BillingKind::Flat)
    } else {
        None
    };
    Ok(SubscriptionCheckout { stripe_subscription_id: s, organization_id, plan_id, kind })
}

/// Reads the subscription a completed setup checkout sets the payment
/// method of, from the setup intent's metadata.
pub fn setup_subscription_id(metadata: Option<Vec<(String, String)>>) -> (r: Result<String, ServiceError>)
    requires
        metadata matches Some(m) ==> unique_keys(m@),
    ensures
        metadata is None ==> fails_bad_request(r, "Checkout session must have metadata"@),
        metadata matches Some(m) ==> match metadata_lookup(m@, "subscription_id"@) {
            Some(v) => r matches Ok(s) && s@ == v,
            None => fails_bad_request(r, "Checkout session must have an subscription_id metadata"@),
        },
{
    match metadata {
        None => Err(bad_request("Checkout session must have metadata")),
        Some(m) => match metadata_get(&m, "subscription_id") {
            Some(v) => Ok(v),
            None => Err(bad_request("Checkout session must have an subscription_id metadata")),
        },
    }
}

/// A step that a completed subscription checkout calls for, in the order
/// they are taken.
#[derive(Debug)]
pub enum CheckoutAction {
    /// Delete the organization's current subscriptions; a failure here is
    /// ignored.
    DeleteExistingSubscriptions { organization_id: u128 },
    /// Record a usage-based subscription, starting from the organization's
    /// current usage.
    CreateUsageSubscription { stripe_subscription_id: String, plan_id: u128, organization_id: u128 },
    /// Record a flat subscription.
    CreateFlatSubscription { stripe_subscription_id: String, plan_id: u128, organization_id: u128 },
    /// Record the checkout's invoice for the organization.
    RecordInvoice { organization_id: u128, invoice_id: String },
}

/// `a` records a subscription of the given kind, with these ids.
pub open spec fn creates_subscription(a: CheckoutAction, kind: BillingKind, sub: Seq<char>, plan: u128, org: u128) -> bool {
    match a {
        CheckoutAction::CreateUsageSubscription { stripe_subscription_id, plan_id, organization_id } => kind
            == BillingKind::UsageBased && stripe_subscription_id@ == sub && plan_id == plan && organization_id == org,
        CheckoutAction::CreateFlatSubscription { stripe_subscription_id, plan_id, organization_id } => kind
            == BillingKind::Flat && stripe_subscription_id@ == sub && plan_id == plan && organization_id == org,
        _ => false,
    }
}

/// `a` records the invoice `inv` for the organization `org`.
pub open spec fn records_invoice(a: CheckoutAction, org: u128, inv: Seq<char>) -> bool {
    match a {
        CheckoutAction::RecordInvoice { organization_id, invoice_id } => organization_id == org && invoice_id@ == inv,
        _ => false,
    }
}

/// The steps a completed subscription checkout calls for: for a usage-based
/// plan, delete the organization's subscriptions and record the new one
/// with its current usage; for a flat plan, the same with a flat
/// subscription, then record the invoice when the checkout has one; for any
/// other plan type, nothing. A failed step other than the deletion ends the
/// handling with its error.
pub fn checkout_actions(c: SubscriptionCheckout, invoice_id: Option<String>) -> (r: Vec<CheckoutAction>)
    ensures
        c.kind is None ==> r@.len() == 0,
        c.kind matches Some(k) ==> {
            &&& r@.len() == (if k == BillingKind::Flat && invoice_id is Some { 3int } else { 2int })
            &&& r@[0] == (CheckoutAction::DeleteExistingSubscriptions { organization_id: c.organization_id })
            &&& creates_subscription(r@[1], k, c.stripe_subscription_id@, c.plan_id, c.organization_id)
        },
        c.kind == Some(BillingKind::Flat) ==> (invoice_id matches Some(inv) ==> records_invoice(r@[2], c.organization_id, inv@)),
{
    let mut r: Vec<CheckoutAction> = Vec::new();
    match c.kind {
        None => {},
        Some(BillingKind::UsageBased) => {
            r.push(CheckoutAction::DeleteExistingSubscriptions { organization_id: c.organization_id });
            r.push(CheckoutAction::CreateUsageSubscription {
                stripe_subscription_id: c.stripe_subscription_id,
                plan_id: c.plan_id,
                organization_id: c.organization_id,
            });
        },
        Some(BillingKind::Flat) => {
            r.push(CheckoutAction::DeleteExistingSubscriptions { organization_id: c.organization_id });
            r.push(CheckoutAction::CreateFlatSubscription {
                stripe_subscription_id: c.stripe_subscription_id,
                plan_id: c.plan_id,
                organization_id: c.organization_id,
            });
            match invoice_id {
                Some(inv) => {
                    r.push(CheckoutAction::RecordInvoice { organization_id: c.organization_id, invoice_id: inv });
                },
                None => {},
            }
        },
    }
    r
}

/// What changing a subscription to a new plan records.
#[derive(Debug, Clone, Copy, PartialEq, Eq)]
pub enum PlanChange {
    /// A flat subscription moves to another flat plan.
    UpdateFlat,
    /// A usage-based subscription is replaced by a flat one.
    UsageToFlat,
    /// A usage-based subscription moves to another usage-based plan.
    UpdateUsage,
    /// A flat subscription is replaced by a usage-based one, seeded with the
    /// organization's current usage.
    FlatToUsage,
}

/// Decides a change of plan: only an owner of the subscription's
/// organization may change it; what is recorded depends on the kinds of the
/// current subscription and of the new plan.
pub fn plan_change(is_owner: bool, current: BillingKind, new_plan: BillingKind) -> (r: Result<PlanChange, ServiceError>)
    ensures
        !is_owner ==> r == Err::<PlanChange, ServiceError>(ServiceError::Forbidden),
        is_owner ==> r == Ok::<PlanChange, ServiceError>(match (current, new_plan) {
            (BillingKind::Flat, BillingKind::Flat) => PlanChange::UpdateFlat,
            (BillingKind::UsageBased, BillingKind::Flat) => PlanChange::UsageToFlat,
            (BillingKind::UsageBased, BillingKind::UsageBased) => PlanChange::UpdateUsage,
            (BillingKind::Flat, BillingKind::UsageBased) => PlanChange::FlatToUsage,
        }),
{
    if !is_owner {
        return Err(ServiceError::Forbidden);
    }
    match new_plan {
        BillingKind::Flat => match current {
            BillingKind::Flat => Ok(PlanChange::UpdateFlat),
            BillingKind::UsageBased => Ok(PlanChange::UsageToFlat),
        },
        BillingKind::UsageBased => match current {
            BillingKind::UsageBased => Ok(PlanChange::UpdateUsage),
            BillingKind::Flat => Ok(PlanChange::FlatToUsage),
        },
    }
}

/// Whether a checkout link is refused as a conflict: the organization
/// already has a subscription that has no end of period set.
pub fn payment_link_conflicts(current_period_end: Option<Option<i64>>) -> (b: bool)
    ensures
        b <==> current_period_end == Some(None::<i64>),
{
    match current_period_end {
        Some(None) => true,
        _ => false,
    }
}

/// The subscription whose payment method is updated: the flat one, else
/// the usage-based one; an organization with neither is refused.
pub fn payment_method_subscription(flat: Option<String>, usage_based: Option<String>) -> (r: Result<String, ServiceError>)
    ensures
        flat matches Some(f) ==> (r matches Ok(s) && s@ == f@),
        flat is None ==> (usage_based matches Some(u) ==> (r matches Ok(s) && s@ == u@)),
        flat is None && usage_based is None ==> fails_bad_request(
            r,
            "Organization does not have an active subscription"@,
        ),
{
    match flat {
        Some(f) => Ok(f),
        None => match usage_based {
            Some(u) => Ok(u),
            None => Err(bad_request("Organization does not have an active subscription")),
        },
    }
}

/// Refuses to estimate a bill for a plan that is not usage based.
pub fn check_usage_plan(plan: BillingKind) -> (r: Result<(), ServiceError>)
    ensures
        r is Ok <==> plan == BillingKind::UsageBased,
        r is Err ==> fails_bad_request(r, "Plan is not usage based"@),
{
    match plan {
        BillingKind::UsageBased => Ok(()),
        BillingKind::Flat => Err(bad_request("Plan is not usage based")),
    }
}

} // verus!
