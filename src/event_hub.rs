//! Listener registration, gated by a role, and the choice of the listeners
//! that receive an event.
use vstd::prelude::*;

use crate::access::{holds_role, is_controller, Controllers};
use crate::account::Account;
use crate::tasks::has_id;

verus! {

/// The kinds of event that listeners subscribe to.
#[derive(Debug, Clone, Copy, PartialEq, Eq, Structural)]
pub enum EventKind {
    TokenMove,
    VotingPowerUpdate,
    TotalVotingPowerUpdate,
    TotalSupplyUpdate,
    ControllersUpdate,
    InfoUpdate,
    MembershipStatusUpdate,
}

/// A subscriber: the method `method_name` of `endpoint`, called with every
/// event of kind `kind`.
#[derive(Debug)]
pub struct Listener {
    pub id: u64,
    pub endpoint: Account,
    pub method_name: String,
    pub kind: EventKind,
}

/// Why the listener set was not changed.
#[derive(Debug, Clone, Copy, PartialEq, Eq, Structural)]
pub enum ListenerError {
    AccessDenied,
    /// Every listener identifier has been handed out.
    IdsExhausted,
}

/// The registered listeners. Identifiers are handed out in increasing order
/// and never reused.
#[derive(Debug)]
pub struct EventHub {
    pub listeners: Vec<Listener>,
    pub next_id: u64,
}

/// Whether a listener with identifier `id` is in `s`.
pub open spec fn has_listener(s: Seq<Listener>, id: u64) -> bool {
    exists|i: int| 0 <= i < s.len() && (#[trigger] s[i]).id == id
}

/// Whether listener `id` in `s` subscribes to `kind`.
pub open spec fn listens_to(s: Seq<Listener>, id: u64, kind: EventKind) -> bool {
    exists|i: int| 0 <= i < s.len() && (#[trigger] s[i]).id == id && s[i].kind == kind
}

impl EventHub {
    /// Every identifier is below `next_id` and used once.
    pub open spec fn wf(&self) -> bool {
        &&& forall|i: int| 0 <= i < self.listeners@.len() ==> (#[trigger] self.listeners@[i]).id < self.next_id
        &&& forall|i: int, j: int|
            0 <= i < self.listeners@.len() && 0 <= j < self.listeners@.len() && i != j ==> (
            #[trigger] self.listeners@[i]).id != (#[trigger] self.listeners@[j]).id
    }

    pub fn new() -> (r: EventHub)
        ensures
            r.wf(),
            r.listeners@.len() == 0,
            r.next_id == 0,
    {
        EventHub { listeners: Vec::new(), next_id: 0 }
    }

    /// Subscribes `endpoint`'s method `method_name` to events of `kind`, on
    /// behalf of `caller`, who must hold the role `controllers`. Returns the
    /// new listener's identifier.
    pub fn register_listener(
        &mut self,
        controllers: &Controllers,
        caller: &Account,
        endpoint: Account,
        method_name: String,
        kind: EventKind,
    ) -> (r: Result<u64, ListenerError>)
        requires
            old(self).wf(),
        ensures
            final(self).wf(),
            !holds_role(controllers@, caller@) <==> r == Err::<u64, ListenerError>(
                ListenerError::AccessDenied,
            ),
            holds_role(controllers@, caller@) && old(self).next_id == u64::MAX ==> r == Err::<
                u64,
                ListenerError,
            >(ListenerError::IdsExhausted),
            holds_role(controllers@, caller@) && old(self).next_id < u64::MAX ==> r is Ok,
            r is Err ==> *final(self) == *old(self),
            r matches Ok(id) ==> {
                &&& id == old(self).next_id
                &&& !has_listener(old(self).listeners@, id)
                &&& final(self).listeners@.drop_last() == old(self).listeners@
                &&& final(self).listeners@.last().id == id
                &&& final(self).listeners@.last().endpoint@ == endpoint@
                &&& final(self).listeners@.last().method_name@ == method_name@
                &&& final(self).listeners@.last().kind == kind
            },
    {
        if !is_controller(controllers, caller) {
            return Err(ListenerError::AccessDenied);
        }
        if self.next_id == u64::MAX {
            return Err(ListenerError::IdsExhausted);
        }
        let id = self.next_id;
        let ghost s0 = self.listeners@;
        self.listeners.push(Listener { id, endpoint, method_name, kind });
        self.next_id = id + 1;
        assert(self.listeners@.drop_last() =~= s0);
        assert forall|i: int, j: int|
            0 <= i < self.listeners@.len() && 0 <= j < self.listeners@.len() && i != j implies (
            #[trigger] self.listeners@[i]).id != (#[trigger] self.listeners@[j]).id by {
            if i < s0.len() {
                assert(self.listeners@[i] == s0[i]);
            }
            if j < s0.len() {
                assert(self.listeners@[j] == s0[j]);
            }
        }
        assert forall|i: int| 0 <= i < self.listeners@.len() implies (
        #[trigger] self.listeners@[i]).id < self.next_id by {
            if i < s0.len() {
                assert(self.listeners@[i] == s0[i]);
            }
        }
        proof {
            if has_listener(s0, id) {
                let i = choose|i: int| 0 <= i < s0.len() && (#[trigger] s0[i]).id == id;
            }
        }
        Ok(id)
    }

    /// Removes listener `id` on behalf of `caller`, who must hold the role
    /// `controllers`. Tells whether such a listener was registered; every
    /// other listener stays.
    pub fn unregister_listener(&mut self, controllers: &Controllers, caller: &Account, id: u64) -> (r:
        Result<bool, ListenerError>)
        requires
            old(self).wf(),
        ensures
            final(self).wf(),
            final(self).next_id == old(self).next_id,
            !holds_role(controllers@, caller@) <==> r == Err::<bool, ListenerError>(
                ListenerError::AccessDenied,
            ),
            holds_role(controllers@, caller@) ==> r is Ok,
            r is Err ==> *final(self) == *old(self),
            r matches Ok(found) ==> {
                &&& found == has_listener(old(self).listeners@, id)
                &&& !has_listener(final(self).listeners@, id)
                &&& forall|x: u64, k: EventKind| x != id ==> #[trigger] listens_to(
                    final(self).listeners@,
                    x,
                    k,
                ) == listens_to(old(self).listeners@, x, k)
                &&& forall|x: u64| x != id ==> #[trigger] has_listener(final(self).listeners@, x)
                    == has_listener(old(self).listeners@, x)
            },
    {
        if !is_controller(controllers, caller) {
            return Err(ListenerError::AccessDenied);
        }
        let ghost s0 = self.listeners@;
        let ghost n0 = self.next_id;
        let mut i: usize = 0;
        while i < self.listeners.len()
            invariant
                self.wf(),
                self.next_id == n0,
                n0 == old(self).next_id,
                holds_role(controllers@, caller@),
                *old(self) == *self,
                self.listeners@ == s0,
                0 <= i <= s0.len(),
                forall|j: int| 0 <= j < i ==> (#[trigger] s0[j]).id != id,
            decreases s0.len() - i,
        {
            if self.listeners[i].id == id {
                self.listeners.remove(i);
                let ghost s1 = self.listeners@;
                assert forall|a: int, b: int|
                    0 <= a < s1.len() && 0 <= b < s1.len() && a != b implies (#[trigger] s1[a]).id
                    != (#[trigger] s1[b]).id by {
                    let a2 = if a < i { a } else { a + 1 };
                    let b2 = if b < i { b } else { b + 1 };
                    assert(s1[a] == s0[a2] && s1[b] == s0[b2]);
                }
                assert forall|a: int| 0 <= a < s1.len() implies (#[trigger] s1[a]).id < self.next_id by {
                    let a2 = if a < i { a } else { a + 1 };
                    assert(s1[a] == s0[a2]);
                }
                proof {
                    if has_listener(s1, id) {
                        let a = choose|a: int| 0 <= a < s1.len() && (#[trigger] s1[a]).id == id;
                        let a2 = if a < i { a } else { a + 1 };
                        assert(s1[a] == s0[a2]);
                    }
                }
                assert forall|x: u64, k: EventKind| x != id implies #[trigger] listens_to(s1, x, k)
                    == listens_to(s0, x, k) by {
                    if listens_to(s0, x, k) {
                        let a = choose|a: int| 0 <= a < s0.len() && (#[trigger] s0[a]).id == x && s0[a].kind == k;
                        assert(a != i);
                        let a2 = if a < i { a } else { a - 1 };
                        assert(s1[a2] == s0[a]);
                    }
                    if listens_to(s1, x, k) {
                        let a = choose|a: int| 0 <= a < s1.len() && (#[trigger] s1[a]).id == x && s1[a].kind == k;
                        let a2 = if a < i { a } else { a + 1 };
                        assert(s1[a] == s0[a2]);
                    }
                }
                assert forall|x: u64| x != id implies #[trigger] has_listener(s1, x) == has_listener(s0, x) by {
                    if has_listener(s0, x) {
                        let a = choose|a: int| 0 <= a < s0.len() && (#[trigger] s0[a]).id == x;
                        assert(a != i);
                        let a2 = if a < i { a } else { a - 1 };
                        assert(s1[a2] == s0[a]);
                    }
                    if has_listener(s1, x) {
                        let a = choose|a: int| 0 <= a < s1.len() && (#[trigger] s1[a]).id == x;
                        let a2 = if a < i { a } else { a + 1 };
                        assert(s1[a] == s0[a2]);
                    }
                }
                assert(s0[i as int].id == id);
                return Ok(true);
            }
            i += 1;
        }
        Ok(false)
    }

    /// The identifiers of the listeners subscribed to `kind`, to which an
    /// event of that kind is delivered.
    pub fn recipients(&self, kind: EventKind) -> (r: Vec<u64>)
        ensures
            forall|x: u64| has_id(r@, x) == listens_to(self.listeners@, x, kind),
    {
        let mut out: Vec<u64> = Vec::new();
        let mut i: usize = 0;
        while i < self.listeners.len()
            invariant
                0 <= i <= self.listeners.len(),
                forall|x: u64| has_id(out@, x) == (exists|j: int| 0 <= j < i && (#[trigger] self.listeners@[j]).id == x && self.listeners@[j].kind == kind),
            decreases self.listeners.len() - i,
        {
            let ghost o0 = out@;
            if self.listeners[i].kind == kind {
                out.push(self.listeners[i].id);
            }
            assert forall|x: u64| has_id(out@, x) == (exists|j: int| 0 <= j < i + 1 && (#[trigger] self.listeners@[j]).id == x && self.listeners@[j].kind == kind) by {
                if has_id(o0, x) {
                    let k = choose|k: int| 0 <= k < o0.len() && o0[k] == x;
                    assert(out@[k] == o0[k]);
                }
                if has_id(out@, x) {
                    let k = choose|k: int| 0 <= k < out@.len() && out@[k] == x;
                    if k < o0.len() {
                        assert(out@[k] == o0[k]);
                    }
                }
                if self.listeners@[i as int].id == x && self.listeners@[i as int].kind == kind {
                    assert(out@[o0.len() as int] == x);
                }
            }
            i += 1;
        }
        out
    }
}

} // verus!
