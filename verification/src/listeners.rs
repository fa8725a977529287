//! The listener registry: an ordered list of subscriptions. The registry
//! decides, for one inbound payload, which listeners are invoked and in
//! what order; the callbacks themselves live with the runtime that owns
//! them.

use vstd::prelude::*;
use crate::payload::Payload;

verus! {

/// What one registered listener asked for.
#[derive(Debug, PartialEq)]
pub enum Subscription {
    /// Every payload, whole.
    AllPayloads,
    /// Only Dispatch payloads carrying this event name and a data field;
    /// such a listener receives the data field alone.
    Event(String),
}

/// Whether a payload is delivered to a subscription: every payload goes to
/// `AllPayloads`; a payload goes to `Event(name)` exactly when its opcode
/// is Dispatch, its event name is `name`, and it carries data.
pub open spec fn spec_matches(s: Subscription, p: Payload) -> bool {
    match s {
        Subscription::AllPayloads => true,
        Subscription::Event(name) => p.op == crate::payload::Op::Dispatch && (p.t matches Some(t)
            && t@ == name@) && p.d is Some,
    }
}

/// The indices of the subscriptions among the first `n` that match `p`,
/// in registration order.
pub open spec fn spec_plan(subs: Seq<Subscription>, p: Payload, n: int) -> Seq<usize>
    decreases n,
{
    if n <= 0 {
        Seq::empty()
    } else if spec_matches(subs[n - 1], p) {
        spec_plan(subs, p, n - 1).push((n - 1) as usize)
    } else {
        spec_plan(subs, p, n - 1)
    }
}

/// The ordered list of subscriptions.
#[derive(Debug)]
pub struct Listeners {
    pub subs: Vec<Subscription>,
}

impl Listeners {
    /// An empty registry.
    pub fn new() -> (r: Listeners)
        ensures
            r.subs@ == Seq::<Subscription>::empty(),
    {
        Listeners { subs: Vec::new() }
    }

    /// Appends a subscription; listeners are never removed.
    pub fn add(&mut self, s: Subscription)
        ensures
            final(self).subs@ == old(self).subs@.push(s),
    {
        self.subs.push(s);
    }

    /// The number of registered listeners.
    pub fn len(&self) -> (r: usize)
        ensures
            r == self.subs@.len(),
    {
        self.subs.len()
    }

    /// Which listeners one inbound payload reaches, in registration order.
    pub fn notify_plan(&self, p: &Payload) -> (r: Vec<usize>)
        ensures
            r@ == spec_plan(self.subs@, *p, self.subs@.len() as int),
    {
        let mut r: Vec<usize> = Vec::new();
        let mut i: usize = 0;
        while i < self.subs.len()
            invariant
                i <= self.subs@.len(),
                r@ == spec_plan(self.subs@, *p, i as int),
            decreases self.subs@.len() - i,
        {
            let hit: bool = match &self.subs[i] {
                Subscription::AllPayloads => true,
                Subscription::Event(name) => {
                    match (&p.t, &p.d) {
                        (Some(t), Some(_)) => {
                            p.op == crate::payload::Op::Dispatch && crate::text::str_eq(
                                t.as_str(),
                                name.as_str(),
                            )
                        }
                        _ => false,
                    }
                }
            };
            if hit {
                r.push(i);
            }
            i = i + 1;
        }
        r
    }

    /// Whether listener `i` receives the data field alone rather than the
    /// whole payload.
    pub fn delivers_data(&self, i: usize) -> (r: bool)
        requires
            i < self.subs@.len(),
        ensures
            r == (self.subs@[i as int] matches Subscription::Event(_)),
    {
        match &self.subs[i] {
            Subscription::Event(_) => true,
            Subscription::AllPayloads => false,
        }
    }
}

/// The plan is strictly increasing: listeners run in registration order.
pub proof fn lemma_plan_ordered(subs: Seq<Subscription>, p: Payload, n: int)
    requires
        n <= usize::MAX,
    ensures
        forall|a: int, b: int|
            0 <= a < b < spec_plan(subs, p, n).len() ==> spec_plan(subs, p, n)[a] < spec_plan(
                subs,
                p,
                n,
            )[b],
        forall|a: int|
            0 <= a < spec_plan(subs, p, n).len() ==> spec_plan(subs, p, n)[a] < n,
    decreases n,
{
    if n > 0 {
        lemma_plan_ordered(subs, p, n - 1);
        let prev = spec_plan(subs, p, n - 1);
        let cur = spec_plan(subs, p, n);
        if spec_matches(subs[n - 1], p) {
            assert(cur == prev.push((n - 1) as usize));
            assert forall|a: int| 0 <= a < cur.len() implies cur[a] < n by {
                if a < prev.len() {
                    assert(cur[a] == prev[a]);
                } else {
                    assert(cur[a] == (n - 1) as usize);
                }
            }
            assert forall|a: int, b: int| 0 <= a < b < cur.len() implies cur[a] < cur[b] by {
                assert(cur[a] == prev[a]);
                if b < prev.len() {
                    assert(cur[b] == prev[b]);
                } else {
                    assert(cur[b] == (n - 1) as usize);
                    assert(prev[a] < n - 1);
                }
            }
        }
    }
}

/// The plan holds an index exactly when that subscription matches the
/// payload: every matching listener is invoked, and no other.
pub proof fn lemma_plan_complete(subs: Seq<Subscription>, p: Payload, n: int, k: int)
    requires
        0 <= k < n <= subs.len(),
        n <= usize::MAX,
    ensures
        spec_plan(subs, p, n).contains(k as usize) <==> spec_matches(subs[k], p),
    decreases n,
{
    let prev = spec_plan(subs, p, n - 1);
    let cur = spec_plan(subs, p, n);
    lemma_plan_ordered(subs, p, n - 1);
    if k < n - 1 {
        lemma_plan_complete(subs, p, n - 1, k);
        if prev.contains(k as usize) {
            let a = choose|a: int|
                0 <= a < prev.len() && (#[trigger] prev[a]) == (k as usize);
            assert(cur[a] == (k as usize));
            assert(cur.contains(k as usize));
        }
        if cur.contains(k as usize) {
            let a = choose|a: int|
                0 <= a < cur.len() && (#[trigger] cur[a]) == (k as usize);
            if a < prev.len() {
                assert(prev[a] == (k as usize));
                assert(prev.contains(k as usize));
            } else {
                assert(spec_matches(subs[n - 1], p) && cur == prev.push((n - 1) as usize));
                assert(cur[a] == ((n - 1) as usize));
            }
        }
    } else {
        assert(k == n - 1);
        if spec_matches(subs[k], p) {
            assert(cur == prev.push((n - 1) as usize));
            assert(cur[cur.len() - 1] == (k as usize));
            assert(cur.contains(k as usize));
        } else {
            assert(cur == prev);
            if cur.contains(k as usize) {
                let a = choose|a: int|
                    0 <= a < cur.len() && (#[trigger] cur[a]) == (k as usize);
                assert(prev[a] < n - 1);
            }
        }
    }
}

} // verus!
