use crate::error::AppErrorKind;
use crate::json::json_parses;
use crate::oauth::is_success;
use crate::trans::{
    batch_of, count_for, json_array, keeps, selected, Batch, Pick, TransRepository, Transactions,
    DAY_US,
};
use crate::users::{lemma_id_unique, stored_token, UserRepository};
use vstd::prelude::*;

verus! {

/// What serving a user's transactions takes next.
#[derive(Debug)]
pub enum SyncStep {
    /// Batches are cached: answer with all of them.
    ServeCached(Transactions),
    /// Nothing is cached: fetch from upstream with this access token.
    FetchUpstream(String),
    /// Nothing is cached and no access token is stored.
    Fail(AppErrorKind),
}

/// Decides, for user `user_id`, between serving the cache and fetching upstream.
pub fn plan_transactions(users: &UserRepository, cache: &TransRepository, user_id: u128) -> (r: SyncStep)
    requires
        users.wf(),
        cache@.len() <= i64::MAX,
    ensures
        count_for(cache@, user_id) > 0 ==> (r matches SyncStep::ServeCached(t)
            && t.results@ == json_array(selected(cache@, user_id, Pick::All))),
        count_for(cache@, user_id) == 0 ==> match stored_token(users@, user_id) {
            Some(tok) => r matches SyncStep::FetchUpstream(a) && a@ == tok@,
            None => r matches SyncStep::Fail(k) && k == AppErrorKind::InternalError,
        },
{
    let cached = cache.check_cache(user_id);
    if cached.results > 0 {
        return SyncStep::ServeCached(cache.get_cache(user_id));
    }
    match users.get_token(user_id) {
        Some(t) => {
            proof {
                let k = choose|k: int| 0 <= k < users@.len() && users@[k].id == user_id
                    && users@[k].access_token == Some(t.access_token);
                lemma_id_unique(users@, k, user_id);
            }
            SyncStep::FetchUpstream(t.access_token)
        },
        None => {
            proof {
                if stored_token(users@, user_id) is Some {
                    let k = choose|k: int| 0 <= k < users@.len() && users@[k].id == user_id;
                    lemma_id_unique(users@, k, user_id);
                }
            }
            SyncStep::Fail(AppErrorKind::InternalError)
        },
    }
}

/// Completes an upstream fetch for `user_id` at `now` (microseconds): a
/// successful reply is stored as a new batch and returned; any other reply is
/// handed back unchanged and nothing is stored.
pub fn finish_fetch(cache: &mut TransRepository, user_id: u128, status: u16, body: String, now: i64) -> (r: Result<String, AppErrorKind>)
    requires
        old(cache)@.len() < i64::MAX,
    ensures
        !is_success(status) ==> r == Ok::<String, AppErrorKind>(body) && final(cache)@ == old(cache)@,
        is_success(status) && !json_parses(body@) ==> r == Err::<String, AppErrorKind>(AppErrorKind::InternalError)
            && final(cache)@ == old(cache)@,
        is_success(status) && json_parses(body@) ==> r == Ok::<String, AppErrorKind>(body)
            && final(cache)@.len() == old(cache)@.len() + 1
            && final(cache)@.drop_last() == old(cache)@
            && batch_of(final(cache)@.last(), user_id, body@, now),
{
    if !(200 <= status && status < 300) {
        return Ok(body);
    }
    let kept = body.clone();
    if cache.save_trans(user_id, kept, now) {
        Ok(body)
    } else {
        Err(AppErrorKind::InternalError)
    }
}

/// Cache-aside: when a user has no cached batch, one stored fetch leaves
/// exactly one, and the cached answer is then that payload alone, so the next
/// request is served from the cache.
pub proof fn lemma_cache_aside(before: Seq<Batch>, after: Seq<Batch>, user: u128, body: Seq<char>, now: i64)
    requires
        count_for(before, user) == 0,
        after.len() == before.len() + 1,
        after.drop_last() == before,
        batch_of(after.last(), user, body, now),
    ensures
        count_for(after, user) == 1,
        selected(after, user, Pick::All) == seq![body],
        json_array(selected(after, user, Pick::All)) == seq!['['] + body + seq![']'],
{
    assert(selected(before, user, Pick::All) =~= Seq::<Seq<char>>::empty());
    assert(selected(after, user, Pick::All) =~= seq![body]);
}

/// Windows are strict: whatever the store already holds, a batch stamped
/// exactly one day before `now` does not enter the daily view, and one
/// stamped a microsecond later does, after all earlier ones.
pub proof fn lemma_daily_boundary(s: Seq<Batch>, b: Batch, user: u128, t: i64, now: i64)
    requires
        b.user_id == user,
        b.timestamp == Some(t),
    ensures
        t == now - DAY_US ==> selected(s.push(b), user, Pick::After(now - DAY_US)) == selected(s, user, Pick::After(now - DAY_US)),
        t == now - DAY_US + 1 ==> selected(s.push(b), user, Pick::After(now - DAY_US))
            == selected(s, user, Pick::After(now - DAY_US)).push(b.results@),
{
    assert(s.push(b).drop_last() =~= s);
    assert(s.push(b).last() == b);
    if t == now - DAY_US + 1 {
        assert(keeps(b, user, Pick::After(now - DAY_US)));
    }
}

} // verus!
