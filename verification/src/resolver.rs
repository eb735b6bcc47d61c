//! Looking a node up: once over the network, or in a resident cache.
use vstd::prelude::*;
use vstd::string::*;

verus! {

/// Looks a node up over the network every time.
#[derive(Debug, Clone, Copy, PartialEq, Eq)]
pub struct OneShotResolver;

/// How long a miss of the cache waits for the next announcement, in
/// milliseconds. Announcements come about every thirty seconds.
pub const CACHE_MISS_TIMEOUT_MS: u64 = 35_000;

/// How often the cache is looked at while waiting, in milliseconds.
pub const CACHE_POLL_MS: u64 = 500;

/// The name under which a node is cached.
pub fn cache_key(instance: &str) -> (s: String)
    ensures
        s@ == instance@ + "._matter._tcp.local"@,
{
    instance.to_owned().concat("._matter._tcp.local")
}

/// What a lookup in the cache does next.
#[derive(Debug, Clone, Copy, PartialEq, Eq, Structural)]
pub enum CacheAction {
    /// Look into the cache.
    Look,
    /// Ask the listener to provoke an announcement.
    Request,
    /// Read the clock.
    ReadClock,
    /// Sleep for so many milliseconds.
    Sleep(u64),
    /// The node is in the cache.
    Found,
    /// The node did not announce itself in time.
    TimedOut,
}

/// What came back from an action of a lookup.
#[derive(Debug, Clone, Copy, PartialEq, Eq, Structural)]
pub enum CacheEvent {
    /// Whether the node was in the cache.
    Looked(bool),
    Requested,
    /// The time in milliseconds.
    Clock(u64),
    Slept,
}

/// How far a lookup is.
#[derive(Debug, Clone, Copy, PartialEq, Eq, Structural)]
pub enum CachePhase {
    First,
    Requested,
    /// The wait begins with this reading of the clock.
    Start,
    /// Waiting until this time.
    Check(u64),
    Sleeping(u64),
    Poll(u64),
    Over,
}

/// One step of a lookup.
pub open spec fn cache_step(p: CachePhase, ev: CacheEvent) -> (CachePhase, CacheAction) {
    match (p, ev) {
        (CachePhase::First, CacheEvent::Looked(true)) => (CachePhase::Over, CacheAction::Found),
        (CachePhase::First, CacheEvent::Looked(false)) => (
            CachePhase::Requested,
            CacheAction::Request,
        ),
        (CachePhase::Requested, CacheEvent::Requested) => (
            CachePhase::Start,
            CacheAction::ReadClock,
        ),
        (CachePhase::Start, CacheEvent::Clock(now)) => (
            CachePhase::Check(
                if now <= u64::MAX - CACHE_MISS_TIMEOUT_MS {
                    (now + CACHE_MISS_TIMEOUT_MS) as u64
                } else {
                    u64::MAX
                },
            ),
            CacheAction::ReadClock,
        ),
        (CachePhase::Check(deadline), CacheEvent::Clock(now)) => if now < deadline {
            (CachePhase::Sleeping(deadline), CacheAction::Sleep(CACHE_POLL_MS))
        } else {
            (CachePhase::Over, CacheAction::TimedOut)
        },
        (CachePhase::Sleeping(deadline), CacheEvent::Slept) => (
            CachePhase::Poll(deadline),
            CacheAction::Look,
        ),
        (CachePhase::Poll(_), CacheEvent::Looked(true)) => (CachePhase::Over, CacheAction::Found),
        (CachePhase::Poll(deadline), CacheEvent::Looked(false)) => (
            CachePhase::Check(deadline),
            CacheAction::ReadClock,
        ),
        _ => (CachePhase::Over, CacheAction::TimedOut),
    }
}

/// A lookup in the resident cache.
pub struct CachingResolver {
    pub phase: CachePhase,
}

impl CachingResolver {
    /// Begins by looking into the cache.
    pub fn new() -> (r: (CachingResolver, CacheAction))
        ensures
            r.0.phase == CachePhase::First,
            r.1 == CacheAction::Look,
    {
        (CachingResolver { phase: CachePhase::First }, CacheAction::Look)
    }

    /// Takes what came back and says what to do next.
    pub fn step(&mut self, ev: CacheEvent) -> (a: CacheAction)
        ensures
            (final(self).phase, a) == cache_step(old(self).phase, ev),
    {
        let (phase, action) = match (self.phase, ev) {
            (CachePhase::First, CacheEvent::Looked(hit)) => if hit {
                (CachePhase::Over, CacheAction::Found)
            } else {
                (CachePhase::Requested, CacheAction::Request)
            },
            (CachePhase::Requested, CacheEvent::Requested) => (
                CachePhase::Start,
                CacheAction::ReadClock,
            ),
            (CachePhase::Start, CacheEvent::Clock(now)) => {
                let deadline: u64 = if now <= u64::MAX - CACHE_MISS_TIMEOUT_MS {
                    now + CACHE_MISS_TIMEOUT_MS
                } else {
                    u64::MAX
                };
                (CachePhase::Check(deadline), CacheAction::ReadClock)
            },
            (CachePhase::Check(deadline), CacheEvent::Clock(now)) => if now < deadline {
                (CachePhase::Sleeping(deadline), CacheAction::Sleep(CACHE_POLL_MS))
            } else {
                (CachePhase::Over, CacheAction::TimedOut)
            },
            (CachePhase::Sleeping(deadline), CacheEvent::Slept) => (
                CachePhase::Poll(deadline),
                CacheAction::Look,
            ),
            (CachePhase::Poll(deadline), CacheEvent::Looked(hit)) => if hit {
                (CachePhase::Over, CacheAction::Found)
            } else {
                (CachePhase::Check(deadline), CacheAction::ReadClock)
            },
            _ => (CachePhase::Over, CacheAction::TimedOut),
        };
        self.phase = phase;
        action
    }
}

/// The deadline of a phase that waits.
pub open spec fn cache_deadline(p: CachePhase) -> Option<u64> {
    match p {
        CachePhase::Check(d) | CachePhase::Sleeping(d) | CachePhase::Poll(d) => Some(d),
        _ => None,
    }
}

/// A hit is returned at once; the deadline is set once and never moves; and a
/// wait is given up only at a reading of the clock that reached it.
pub proof fn law_cache_wait(p: CachePhase, ev: CacheEvent)
    ensures
        p == CachePhase::First && ev == CacheEvent::Looked(true) ==> cache_step(p, ev).1
            == CacheAction::Found,
        cache_deadline(p) matches Some(d) ==> (cache_deadline(cache_step(p, ev).0) matches Some(e)
            ==> e == d),
        p matches CachePhase::Check(d) ==> (ev matches CacheEvent::Clock(now) ==> (cache_step(
            p,
            ev,
        ).1 == CacheAction::TimedOut <==> now >= d)),
{
}

/// A search looks again every half second, for 35 seconds from its start on, and
/// ends with the first hit.
pub proof fn law_search_lasts_its_time(now: u64, deadline: u64, later: u64)
    requires
        now <= u64::MAX - 35_000,
    ensures
        cache_step(CachePhase::First, CacheEvent::Looked(false)) == (
            CachePhase::Requested,
            CacheAction::Request,
        ),
        cache_step(CachePhase::Start, CacheEvent::Clock(now)).0 == CachePhase::Check(
            (now + 35_000) as u64,
        ),
        later < deadline ==> cache_step(CachePhase::Check(deadline), CacheEvent::Clock(later)) == (
            CachePhase::Sleeping(deadline),
            CacheAction::Sleep(500),
        ),
        later >= deadline ==> cache_step(CachePhase::Check(deadline), CacheEvent::Clock(later)).1
            == CacheAction::TimedOut,
        cache_step(CachePhase::Sleeping(deadline), CacheEvent::Slept) == (
            CachePhase::Poll(deadline),
            CacheAction::Look,
        ),
        cache_step(CachePhase::Poll(deadline), CacheEvent::Looked(true)).1 == CacheAction::Found,
        cache_step(CachePhase::Poll(deadline), CacheEvent::Looked(false)) == (
            CachePhase::Check(deadline),
            CacheAction::ReadClock,
        ),
{
}

/// A search that starts at the end of time has no more of it.
pub proof fn law_search_deadline_does_not_wrap(now: u64)
    requires
        now > u64::MAX - 35_000,
    ensures
        cache_step(CachePhase::Start, CacheEvent::Clock(now)).0 == CachePhase::Check(u64::MAX),
{
}

} // verus!
