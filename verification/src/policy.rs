//! The two outbound-network policies the host hands to the network
//! capability at link time: an optional allow-list of permitted
//! destinations, and an optional bound on concurrently in-flight
//! requests.
//!
//! No allow-list, or an allow-list with zero entries, denies every
//! outbound attempt; this exact behaviour is deliberate. No concurrency
//! bound means unbounded.

use vstd::prelude::*;
use crate::errors::HostError;

verus! {

/// The view of an optional allow-list: each destination as its text.
pub open spec fn spec_allow_view(a: Option<Vec<String>>) -> Option<Seq<Seq<char>>> {
    match a {
        Option::None => Option::None,
        Option::Some(v) => Option::Some(v.deep_view()),
    }
}

/// Whether an outbound request to `dest` is permitted: there is an
/// allow-list and it names `dest`.
pub open spec fn spec_outbound_permitted(allowed: Option<Seq<Seq<char>>>, dest: Seq<char>) -> bool {
    allowed matches Option::Some(list) && list.contains(dest)
}

/// Decides whether the configured allow-list permits `dest`.
pub fn outbound_permitted(allowed: &Option<Vec<String>>, dest: &String) -> (r: bool)
    ensures
        r == spec_outbound_permitted(spec_allow_view(*allowed), dest@),
{
    match allowed {
        Option::None => false,
        Option::Some(list) => {
            let ghost lv = list.deep_view();
            proof {
                assert(spec_allow_view(*allowed) == Option::Some(lv));
            }
            let mut i: usize = 0;
            while i < list.len()
                invariant
                    i <= list@.len(),
                    lv == list.deep_view(),
                    spec_allow_view(*allowed) == Option::Some(lv),
                    forall|j: int| 0 <= j < i ==> lv[j] != dest@,
                decreases list@.len() - i,
            {
                if list[i] == *dest {
                    proof {
                        assert(lv[i as int] == dest@);
                        assert(lv.contains(dest@));
                        assert(spec_allow_view(*allowed) == Option::Some(lv));
                    }
                    return true;
                }
                i = i + 1;
            }
            proof {
                assert(forall|j: int| 0 <= j < lv.len() ==> lv[j] != dest@);
                assert(!lv.contains(dest@));
            }
            false
        },
    }
}

/// Screens one guest outbound request against the allow-list, as the
/// network capability does at run time: a permitted destination passes,
/// anything else fails the call.
pub fn screen_request(allowed: &Option<Vec<String>>, dest: &String) -> (r: Result<(), HostError>)
    ensures
        r is Ok <==> spec_outbound_permitted(spec_allow_view(*allowed), dest@),
        r is Err ==> r == Err::<(), HostError>(HostError::CapabilityRuntimeError),
{
    if outbound_permitted(allowed, dest) {
        Ok(())
    } else {
        Err(HostError::CapabilityRuntimeError)
    }
}

/// With no allow-list, or an allow-list of length zero, every outbound
/// destination is denied.
pub proof fn lemma_empty_allow_list_denies_all(allowed: Option<Seq<Seq<char>>>, dest: Seq<char>)
    requires
        allowed is None || allowed->0.len() == 0,
    ensures
        !spec_outbound_permitted(allowed, dest),
{
}

/// A non-empty allow-list that names the exact destination the guest
/// calls permits the request.
pub proof fn lemma_listed_destination_permitted(allowed: Seq<Seq<char>>, dest: Seq<char>)
    requires
        allowed.contains(dest),
    ensures
        spec_outbound_permitted(Option::Some(allowed), dest),
{
}

/// The capability's concurrency limiter: a count of in-flight outbound
/// requests against an optional maximum. A slot must be acquired before
/// a request departs and is released when it resolves; an acquire
/// beyond the bound blocks (the caller waits, the request does not
/// fail).
pub struct ConcurrencyLimiter {
    /// Requests currently in flight.
    pub in_flight: u64,
    /// The configured maximum; absence means unbounded.
    pub max: Option<u32>,
}

impl ConcurrencyLimiter {
    /// The limiter's invariant: the configured bound is never exceeded.
    pub open spec fn wf(self) -> bool {
        self.max matches Option::Some(m) ==> self.in_flight <= m
    }

    /// A fresh limiter with nothing in flight.
    pub fn new(max: Option<u32>) -> (r: ConcurrencyLimiter)
        ensures
            r.wf(),
            r.in_flight == 0,
            r.max == max,
    {
        ConcurrencyLimiter { in_flight: 0, max }
    }

    /// Tries to take one slot. Granted exactly when the bound (if any)
    /// leaves room; a denied caller holds no slot and must wait.
    pub fn try_acquire(&mut self) -> (granted: bool)
        requires
            old(self).wf(),
            old(self).in_flight < u64::MAX,
        ensures
            final(self).wf(),
            final(self).max == old(self).max,
            granted <==> match old(self).max {
                Option::Some(m) => old(self).in_flight < m,
                Option::None => true,
            },
            granted ==> final(self).in_flight == old(self).in_flight + 1,
            !granted ==> final(self).in_flight == old(self).in_flight,
    {
        match self.max {
            Option::Some(m) => {
                if self.in_flight < m as u64 {
                    self.in_flight = self.in_flight + 1;
                    true
                } else {
                    false
                }
            },
            Option::None => {
                self.in_flight = self.in_flight + 1;
                true
            },
        }
    }

    /// Returns one slot when a request resolves.
    pub fn release(&mut self)
        requires
            old(self).wf(),
            old(self).in_flight > 0,
        ensures
            final(self).wf(),
            final(self).max == old(self).max,
            final(self).in_flight == old(self).in_flight - 1,
    {
        self.in_flight = self.in_flight - 1;
    }
}

/// With a configured maximum of `m`, a well-formed limiter never has
/// more than `m` requests in flight, however many were attempted.
pub proof fn lemma_concurrency_bounded(l: ConcurrencyLimiter, m: u32)
    requires
        l.wf(),
        l.max == Option::Some(m),
    ensures
        l.in_flight <= m,
{
}

} // verus!
