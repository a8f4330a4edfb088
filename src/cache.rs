//! The build cache: the key of a cache slot, and the decisions of the cache
//! manager as a state machine. The caller performs each action (inspect the
//! slot, remove a dangling link, lock, build, publish, unlock) and reports
//! what happened as the next event.

use vstd::prelude::*;

verus! {

pub open spec fn digit_char(d: nat) -> char {
    "0123456789"@[d as int]
}

/// The decimal digits of `n`, most significant first.
pub open spec fn decimal(n: nat) -> Seq<char>
    decreases n,
{
    if n < 10 {
        seq![digit_char(n)]
    } else {
        decimal(n / 10) + seq![digit_char(n % 10)]
    }
}

/// The decimal digits of `n`.
pub fn decimal_string(n: u64) -> (r: String)
    ensures
        r@ == decimal(n as nat),
    decreases n,
{
    let digits = "0123456789";
    proof {
        reveal_strlit("0123456789");
    }
    let d = (n % 10) as usize;
    let last = digits.substring_char(d, d + 1);
    if n < 10 {
        let r = last.to_string();
        proof {
            assert(r@ =~= seq![digit_char(n as nat)]);
        }
        r
    } else {
        let mut r = decimal_string(n / 10);
        r.append(last);
        proof {
            assert(last@ =~= seq![digit_char((n % 10) as nat)]);
        }
        r
    }
}

/// The name of the cache slot of a script: `{hash}-{script name}`.
pub fn cache_key(hash: u64, script_name: &str) -> (r: String)
    ensures
        r@ == decimal(hash as nat) + seq!['-'] + script_name@,
{
    let mut r = decimal_string(hash);
    r.append("-");
    r.append(script_name);
    proof {
        reveal_strlit("-");
    }
    r
}

/// What the caller found at the cache slot, looking at the link itself.
#[derive(Debug, Clone, Copy, PartialEq, Eq, Structural)]
pub enum EntryStatus {
    /// Nothing is there.
    Missing,
    /// A usable entry is there.
    Present,
    /// A symbolic link whose destination no longer exists.
    Dangling,
}

/// Fatal failures of the cache manager.
#[derive(Debug, Clone, Copy, PartialEq, Eq, Structural)]
pub enum CacheError {
    /// The advisory lock could not be taken.
    LockAcquisitionFailure,
    /// The advisory lock could not be given back.
    LockReleaseFailure,
    BuildBackendFailure,
    CachePublishFailure,
    StaleLinkCleanupFailure,
}

/// Where the manager is.
#[derive(Debug, Clone, Copy, PartialEq, Eq, Structural)]
pub enum CacheState {
    /// The slot has not been looked at yet.
    Start,
    /// A dangling link is being removed.
    CleaningStale,
    /// Waiting for the exclusive lock.
    Locking,
    /// The lock is held and the backend is building.
    Building,
    /// The lock is held and the link to the artifact is being created.
    Publishing,
    /// The lock is being released.
    Releasing,
    /// The slot holds the artifact.
    Cached,
    Failed(CacheError),
}

/// What the caller reports back.
#[derive(Debug, Clone, Copy, PartialEq, Eq, Structural)]
pub enum CacheEvent {
    Inspected(EntryStatus),
    StaleRemoved,
    StaleRemoveFailed,
    LockAcquired,
    LockFailed,
    BuildSucceeded,
    BuildFailed,
    Published,
    /// Creating the link failed because another builder created it first.
    PublishRaced,
    PublishFailed,
    LockReleased,
    LockReleaseFailed,
}

/// What the caller is to do next.
#[derive(Debug, Clone, Copy, PartialEq, Eq, Structural)]
pub enum CacheAction {
    RemoveStaleLink,
    AcquireLock,
    RunBuild,
    PublishLink,
    ReleaseLock,
    /// Run the artifact the slot links to.
    UseTarget,
    Fail(CacheError),
    /// The event does not belong to the current state: nothing to do.
    Ignore,
}

pub open spec fn step(s: CacheState, e: CacheEvent) -> (CacheState, CacheAction) {
    match (s, e) {
        (CacheState::Start, CacheEvent::Inspected(EntryStatus::Present)) => (CacheState::Cached, CacheAction::UseTarget),
        (CacheState::Start, CacheEvent::Inspected(EntryStatus::Dangling)) => (CacheState::CleaningStale, CacheAction::RemoveStaleLink),
        (CacheState::Start, CacheEvent::Inspected(EntryStatus::Missing)) => (CacheState::Locking, CacheAction::AcquireLock),
        (CacheState::CleaningStale, CacheEvent::StaleRemoved) => (CacheState::Locking, CacheAction::AcquireLock),
        (CacheState::CleaningStale, CacheEvent::StaleRemoveFailed) =>
            (CacheState::Failed(CacheError::StaleLinkCleanupFailure), CacheAction::Fail(CacheError::StaleLinkCleanupFailure)),
        (CacheState::Locking, CacheEvent::LockAcquired) => (CacheState::Building, CacheAction::RunBuild),
        (CacheState::Locking, CacheEvent::LockFailed) =>
            (CacheState::Failed(CacheError::LockAcquisitionFailure), CacheAction::Fail(CacheError::LockAcquisitionFailure)),
        (CacheState::Building, CacheEvent::BuildSucceeded) => (CacheState::Publishing, CacheAction::PublishLink),
        (CacheState::Building, CacheEvent::BuildFailed) =>
            (CacheState::Failed(CacheError::BuildBackendFailure), CacheAction::Fail(CacheError::BuildBackendFailure)),
        (CacheState::Publishing, CacheEvent::Published) => (CacheState::Releasing, CacheAction::ReleaseLock),
        (CacheState::Publishing, CacheEvent::PublishRaced) => (CacheState::Releasing, CacheAction::ReleaseLock),
        (CacheState::Publishing, CacheEvent::PublishFailed) =>
            (CacheState::Failed(CacheError::CachePublishFailure), CacheAction::Fail(CacheError::CachePublishFailure)),
        (CacheState::Releasing, CacheEvent::LockReleased) => (CacheState::Cached, CacheAction::UseTarget),
        (CacheState::Releasing, CacheEvent::LockReleaseFailed) =>
            (CacheState::Failed(CacheError::LockReleaseFailure), CacheAction::Fail(CacheError::LockReleaseFailure)),
        _ => (s, CacheAction::Ignore),
    }
}

/// The decision of the cache manager on one event.
pub fn next_step(s: CacheState, e: CacheEvent) -> (r: (CacheState, CacheAction))
    ensures
        r == step(s, e),
{
    match (s, e) {
        (CacheState::Start, CacheEvent::Inspected(EntryStatus::Present)) => (CacheState::Cached, CacheAction::UseTarget),
        (CacheState::Start, CacheEvent::Inspected(EntryStatus::Dangling)) => (CacheState::CleaningStale, CacheAction::RemoveStaleLink),
        (CacheState::Start, CacheEvent::Inspected(EntryStatus::Missing)) => (CacheState::Locking, CacheAction::AcquireLock),
        (CacheState::CleaningStale, CacheEvent::StaleRemoved) => (CacheState::Locking, CacheAction::AcquireLock),
        (CacheState::CleaningStale, CacheEvent::StaleRemoveFailed) =>
            (CacheState::Failed(CacheError::StaleLinkCleanupFailure), CacheAction::Fail(CacheError::StaleLinkCleanupFailure)),
        (CacheState::Locking, CacheEvent::LockAcquired) => (CacheState::Building, CacheAction::RunBuild),
        (CacheState::Locking, CacheEvent::LockFailed) =>
            (CacheState::Failed(CacheError::LockAcquisitionFailure), CacheAction::Fail(CacheError::LockAcquisitionFailure)),
        (CacheState::Building, CacheEvent::BuildSucceeded) => (CacheState::Publishing, CacheAction::PublishLink),
        (CacheState::Building, CacheEvent::BuildFailed) =>
            (CacheState::Failed(CacheError::BuildBackendFailure), CacheAction::Fail(CacheError::BuildBackendFailure)),
        (CacheState::Publishing, CacheEvent::Published) => (CacheState::Releasing, CacheAction::ReleaseLock),
        (CacheState::Publishing, CacheEvent::PublishRaced) => (CacheState::Releasing, CacheAction::ReleaseLock),
        (CacheState::Publishing, CacheEvent::PublishFailed) =>
            (CacheState::Failed(CacheError::CachePublishFailure), CacheAction::Fail(CacheError::CachePublishFailure)),
        (CacheState::Releasing, CacheEvent::LockReleased) => (CacheState::Cached, CacheAction::UseTarget),
        (CacheState::Releasing, CacheEvent::LockReleaseFailed) =>
            (CacheState::Failed(CacheError::LockReleaseFailure), CacheAction::Fail(CacheError::LockReleaseFailure)),
        _ => (s, CacheAction::Ignore),
    }
}

/// The state reached from `Start` after the events, and the actions asked for.
pub open spec fn run(events: Seq<CacheEvent>) -> (CacheState, Seq<CacheAction>)
    decreases events.len(),
{
    if events.len() == 0 {
        (CacheState::Start, Seq::empty())
    } else {
        let (s, acts) = run(events.drop_last());
        let (s2, a) = step(s, events.last());
        (s2, acts.push(a))
    }
}

/// States in which this process holds the lock.
pub open spec fn holds_lock(s: CacheState) -> bool {
    s is Building || s is Publishing || s is Releasing
}

/// A dangling link at the slot is removed, and the build then goes ahead
/// (to the lock and the backend) instead of failing.
pub proof fn lemma_stale_link_removed_then_built()
    ensures
        run(seq![CacheEvent::Inspected(EntryStatus::Dangling)]).1
            == seq![CacheAction::RemoveStaleLink],
        run(seq![CacheEvent::Inspected(EntryStatus::Dangling), CacheEvent::StaleRemoved]).1
            == seq![CacheAction::RemoveStaleLink, CacheAction::AcquireLock],
        run(seq![CacheEvent::Inspected(EntryStatus::Dangling), CacheEvent::StaleRemoved, CacheEvent::LockAcquired])
            == (CacheState::Building, seq![CacheAction::RemoveStaleLink, CacheAction::AcquireLock, CacheAction::RunBuild]),
{
    let e1 = seq![CacheEvent::Inspected(EntryStatus::Dangling)];
    let e2 = seq![CacheEvent::Inspected(EntryStatus::Dangling), CacheEvent::StaleRemoved];
    let e3 = seq![CacheEvent::Inspected(EntryStatus::Dangling), CacheEvent::StaleRemoved, CacheEvent::LockAcquired];
    assert(e1.drop_last() =~= Seq::<CacheEvent>::empty());
    assert(e2.drop_last() =~= e1);
    assert(e3.drop_last() =~= e2);
    assert(e1.last() == CacheEvent::Inspected(EntryStatus::Dangling));
    assert(e2.last() == CacheEvent::StaleRemoved);
    assert(e3.last() == CacheEvent::LockAcquired);
    assert(run(Seq::<CacheEvent>::empty()) == (CacheState::Start, Seq::<CacheAction>::empty()));
    assert(run(e1).0 == CacheState::CleaningStale);
    assert(run(e2).0 == CacheState::Locking);
    assert(run(e1).1 =~= seq![CacheAction::RemoveStaleLink]);
    assert(run(e2).1 =~= seq![CacheAction::RemoveStaleLink, CacheAction::AcquireLock]);
    assert(run(e3).1 =~= seq![CacheAction::RemoveStaleLink, CacheAction::AcquireLock, CacheAction::RunBuild]);
}

/// Whatever the events, the link is published only while this process holds
/// the lock and right after the backend reported a successful build, so a
/// failed or unfinished build never leaves a link at the slot; and losing the
/// race to publish is not fatal: the lock is released and the slot used.
pub proof fn lemma_publish_only_after_build(events: Seq<CacheEvent>)
    ensures
        holds_lock(run(events).0) ==> events.contains(CacheEvent::LockAcquired),
        forall|i: int| 0 <= i < events.len() && (#[trigger] run(events).1[i]) == CacheAction::PublishLink ==> {
            &&& events[i] == CacheEvent::BuildSucceeded
            &&& run(events.take(i)).0 == CacheState::Building
            &&& events.take(i).contains(CacheEvent::LockAcquired)
        },
        run(events).0 == CacheState::Publishing ==> step(run(events).0, CacheEvent::PublishRaced)
            == (CacheState::Releasing, CacheAction::ReleaseLock),
        run(events).1.len() == events.len(),
    decreases events.len(),
{
    if events.len() > 0 {
        let prev = events.drop_last();
        lemma_publish_only_after_build(prev);
        let n = events.len() - 1;
        assert(events.take(n) =~= prev);
        if holds_lock(run(events).0) {
            if holds_lock(run(prev).0) {
                assert(prev.contains(CacheEvent::LockAcquired));
                let k = choose|k: int| 0 <= k < prev.len() && prev[k] == CacheEvent::LockAcquired;
                assert(events[k] == CacheEvent::LockAcquired);
            } else {
                assert(events[n] == CacheEvent::LockAcquired);
            }
        }
        assert forall|i: int| 0 <= i < events.len() && (#[trigger] run(events).1[i]) == CacheAction::PublishLink implies {
            &&& events[i] == CacheEvent::BuildSucceeded
            &&& run(events.take(i)).0 == CacheState::Building
            &&& events.take(i).contains(CacheEvent::LockAcquired)
        } by {
            if i < n {
                assert(run(events).1[i] == run(prev).1[i]);
                assert(prev.take(i) =~= events.take(i));
                assert(prev[i] == events[i]);
            } else {
                assert(holds_lock(run(prev).0));
                assert(prev.contains(CacheEvent::LockAcquired));
            }
        }
    }
}

} // verus!
