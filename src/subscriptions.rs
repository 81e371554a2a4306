use vstd::prelude::*;

use crate::error::ApiError;

verus! {

/// The periodic jobs of the service.
#[derive(Clone, Copy, Debug, Default, PartialEq, Eq, Structural)]
pub enum TasksEnum {
    /// Deactivate the subscriptions that have expired.
    #[default]
    CheckSubscriptions,
}

/// A user's paid subscription.
#[derive(Clone, Copy, Debug, PartialEq, Eq, Structural)]
pub struct Subscription {
    pub user_id: u128,
    pub is_active: bool,
    pub is_deleted: bool,
    /// End of the subscription, in microseconds since the Unix epoch.
    pub expire_at: i64,
}

/// Whether `user` holds an active subscription that has not expired at `now`.
pub open spec fn subscribed(subs: Seq<Subscription>, user: u128, now: i64) -> bool {
    exists|k: int|
        0 <= k < subs.len() && (#[trigger] subs[k]).user_id == user && subs[k].is_active && subs[k].expire_at > now
}

/// Whether the expiry sweep deactivates a subscription at `now`.
pub open spec fn expired(s: Subscription, now: i64) -> bool {
    s.is_active && !s.is_deleted && s.expire_at < now
}

/// Access to a topic: free topics are open to all; one that requires a
/// subscription is open to a user with an active, unexpired subscription,
/// and otherwise asks for payment.
pub fn check_topic_access(subscription_required: bool, user_id: u128, subs: &Vec<Subscription>, now: i64) -> (r:
    Result<(), ApiError>)
    ensures
        r is Ok <==> !subscription_required || subscribed(subs@, user_id, now),
        r is Err ==> r == Err::<(), ApiError>(ApiError::PaymentRequired),
{
    if !subscription_required {
        return Ok(());
    }
    let mut i: usize = 0;
    while i < subs.len()
        invariant
            i <= subs.len(),
            forall|k: int|
                0 <= k < i ==> !((#[trigger] subs@[k]).user_id == user_id && subs@[k].is_active && subs@[k].expire_at
                    > now),
        decreases subs.len() - i,
    {
        let s = subs[i];
        if s.user_id == user_id && s.is_active && s.expire_at > now {
            assert(subs@[i as int].user_id == user_id);
            return Ok(());
        }
        i = i + 1;
    }
    Err(ApiError::PaymentRequired)
}

/// The expiry sweep: every active, undeleted subscription that expired
/// before `now` is deactivated; nothing else changes.
pub fn disable_expired_subscriptions(subs: &mut Vec<Subscription>, now: i64)
    ensures
        final(subs)@.len() == old(subs)@.len(),
        forall|k: int|
            0 <= k < old(subs)@.len() ==> #[trigger] final(subs)@[k] == if expired(old(subs)@[k], now) {
                Subscription { is_active: false, ..old(subs)@[k] }
            } else {
                old(subs)@[k]
            },
{
    let ghost before = subs@;
    let mut i: usize = 0;
    while i < subs.len()
        invariant
            i <= subs@.len() == before.len(),
            forall|k: int|
                0 <= k < i ==> #[trigger] subs@[k] == if expired(before[k], now) {
                    Subscription { is_active: false, ..before[k] }
                } else {
                    before[k]
                },
            forall|k: int| i <= k < subs@.len() ==> #[trigger] subs@[k] == before[k],
        decreases subs@.len() - i,
    {
        let s = subs[i];
        if s.is_active && !s.is_deleted && s.expire_at < now {
            subs.set(i, Subscription { is_active: false, ..s });
        }
        i = i + 1;
    }
}

} // verus!
