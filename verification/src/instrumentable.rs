//! Instrumented events and who is told of them.
//!
//! Timing an action and the process-wide notification centre belong to the
//! caller; here are the event record, the subscriptions by event name and
//! the order in which subscribers are told.

use vstd::prelude::*;
use crate::keyed::{keyed_map, distinct_keyed, get_keyed};
use crate::text::{copy_str, str_eq};

verus! {

/// An instrumented event: its name, how long it took, and its payload.
#[derive(Debug, Clone)]
pub struct InstrumentInfo {
    pub name: String,
    pub duration_ms: Option<u64>,
    pub payload: Vec<(String, String)>,
}

impl InstrumentInfo {
    /// No payload key occurs twice.
    pub open spec fn wf(&self) -> bool {
        distinct_keyed(self.payload@)
    }
}

/// Is told of events. Implemented by each subscriber; nothing is assumed
/// of what it does.
pub trait Subscriber {
    /// Handles one event.
    fn handle_event(&self, info: &InstrumentInfo);
}

/// The subscribers, by the event name they wait for; `*` waits for all.
pub struct NotificationCenter<S> {
    subscribers: Vec<(String, Vec<S>)>,
}

/// The number of subscribers listed under a name.
pub open spec fn count_under<S>(s: Seq<(String, Vec<S>)>, name: Seq<char>) -> nat {
    if keyed_map(s).contains_key(name) { keyed_map(s)[name]@.len() } else { 0 }
}

impl<S: Subscriber> NotificationCenter<S> {
    /// No event name is listed twice.
    pub closed spec fn wf(&self) -> bool {
        distinct_keyed(self.subscribers@)
    }

    /// How many subscribers wait for the event name.
    pub closed spec fn count_view(&self, event: Seq<char>) -> nat {
        count_under(self.subscribers@, event)
    }

    /// A centre without subscribers.
    pub fn new() -> (res: Self)
        ensures
            res.wf(),
            forall|e: Seq<char>| res.count_view(e) == 0,
    {
        NotificationCenter { subscribers: Vec::new() }
    }

    /// Adds a subscriber for an event name, after those already there.
    pub fn subscribe(&mut self, event: &str, callback: S)
        requires
            old(self).wf(),
        ensures
            final(self).wf(),
            final(self).count_view(event@) == old(self).count_view(event@) + 1,
            forall|e: Seq<char>| e != event@ ==> final(self).count_view(e) == old(self).count_view(e),
    {
        let mut j: usize = 0;
        while j < self.subscribers.len()
            invariant
                0 <= j <= self.subscribers.len(),
                self.subscribers@ == old(self).subscribers@,
                distinct_keyed(self.subscribers@),
                forall|i: int| 0 <= i < j ==> self.subscribers@[i].0@ != event@,
            decreases self.subscribers.len() - j,
        {
            if str_eq(self.subscribers[j].0.as_str(), event) {
                let ghost s0 = self.subscribers@;
                let (k, mut list) = self.subscribers.remove(j);
                list.push(callback);
                self.subscribers.insert(j, (k, list));
                proof {
                    let s1 = self.subscribers@;
                    assert forall|a: int| 0 <= a < s1.len() implies #[trigger] s1[a].0@ == s0[a].0@ by {}
                    assert(distinct_keyed(s1));
                    assert(s0[j as int].0@ == event@);
                    assert forall|e: Seq<char>| #![auto] keyed_map(s1).contains_key(e) == keyed_map(s0).contains_key(e) by {
                        if keyed_map(s0).contains_key(e) {
                            let i = choose|i: int| 0 <= i < s0.len() && s0[i].0@ == e;
                            assert(s1[i].0@ == e);
                        }
                        if keyed_map(s1).contains_key(e) {
                            let i = choose|i: int| 0 <= i < s1.len() && s1[i].0@ == e;
                            assert(s0[i].0@ == e);
                        }
                    }
                    assert forall|e: Seq<char>| keyed_map(s1).contains_key(e) implies
                        #[trigger] keyed_map(s1)[e]@.len() == keyed_map(s0)[e]@.len() + (if e == event@ { 1int } else { 0int }) by {
                        let i1 = choose|i: int| 0 <= i < s1.len() && s1[i].0@ == e;
                        let i0 = choose|i: int| 0 <= i < s0.len() && s0[i].0@ == e;
                        if i1 != i0 {
                            if i1 < i0 { assert(s0[i1].0@ != s0[i0].0@); } else { assert(s0[i0].0@ != s0[i1].0@); }
                        }
                        if i1 != j {
                            assert(s1[i1] == s0[i1]);
                            if e == event@ {
                                if i1 < j { assert(s0[i1].0@ != s0[j as int].0@); } else { assert(s0[j as int].0@ != s0[i1].0@); }
                            }
                        } else {
                            assert(e == event@);
                        }
                    }
                }
                return;
            }
            j = j + 1;
        }
        let ghost s0 = self.subscribers@;
        let mut list: Vec<S> = Vec::new();
        list.push(callback);
        self.subscribers.push((copy_str(event), list));
        proof {
            let s1 = self.subscribers@;
            assert(s1.drop_last() =~= s0);
            assert forall|a: int, b: int| 0 <= a < b < s1.len() implies s1[a].0@ != s1[b].0@ by {
                if b == s0.len() {
                    assert(s1[a] == s0[a]);
                } else {
                    assert(s1[a] == s0[a] && s1[b] == s0[b]);
                }
            }
            assert forall|e: Seq<char>| #![auto] keyed_map(s1).contains_key(e) == (keyed_map(s0).contains_key(e) || e == event@) by {
                if keyed_map(s0).contains_key(e) {
                    let i = choose|i: int| 0 <= i < s0.len() && s0[i].0@ == e;
                    assert(s1[i] == s0[i]);
                }
                if e == event@ {
                    assert(s1[s0.len() as int].0@ == e);
                }
                if keyed_map(s1).contains_key(e) {
                    let i = choose|i: int| 0 <= i < s1.len() && s1[i].0@ == e;
                    if i < s0.len() { assert(s1[i] == s0[i]); }
                }
            }
            assert forall|e: Seq<char>| keyed_map(s1).contains_key(e) implies
                #[trigger] keyed_map(s1)[e]@.len() == (if e == event@ { 1int } else { keyed_map(s0)[e]@.len() as int }) by {
                let i1 = choose|i: int| 0 <= i < s1.len() && s1[i].0@ == e;
                if e == event@ {
                    if i1 < s0.len() {
                        assert(s1[i1] == s0[i1]);
                        assert(s0[i1].0@ == event@);
                    }
                } else {
                    let i0 = choose|i: int| 0 <= i < s0.len() && s0[i].0@ == e;
                    assert(s1[i0] == s0[i0]);
                    if i1 != i0 {
                        if i1 == s0.len() {
                            assert(s1[i1].0@ == event@);
                        } else {
                            assert(s1[i1] == s0[i1]);
                            if i1 < i0 { assert(s0[i1].0@ != s0[i0].0@); } else { assert(s0[i0].0@ != s0[i1].0@); }
                        }
                    }
                }
            }
        }
    }

    /// How many subscribers wait for the event name.
    pub fn subscriber_count(&self, event: &str) -> (r: usize)
        requires
            self.wf(),
        ensures
            r == self.count_view(event@),
    {
        match get_keyed(&self.subscribers, event) {
            Some(list) => list.len(),
            None => 0,
        }
    }

    /// Tells the subscribers of the event's name, in the order they came,
    /// then those waiting for all events; gives how many were told.
    pub fn publish(&self, info: &InstrumentInfo) -> (told: usize)
        requires
            self.wf(),
            self.count_view(info.name@) + self.count_view("*"@) <= usize::MAX,
        ensures
            told == self.count_view(info.name@) + self.count_view("*"@),
    {
        let mut told: usize = 0;
        match get_keyed(&self.subscribers, info.name.as_str()) {
            Some(list) => {
                let mut i: usize = 0;
                while i < list.len()
                    invariant
                        0 <= i <= list.len(),
                        told == i,
                    decreases list.len() - i,
                {
                    list[i].handle_event(info);
                    told = told + 1;
                    i = i + 1;
                }
            },
            None => {},
        }
        let first = told;
        match get_keyed(&self.subscribers, "*") {
            Some(list) => {
                let mut i: usize = 0;
                while i < list.len()
                    invariant
                        0 <= i <= list.len(),
                        told == first + i,
                        first + list@.len() <= usize::MAX,
                    decreases list.len() - i,
                {
                    list[i].handle_event(info);
                    told = told + 1;
                    i = i + 1;
                }
            },
            None => {},
        }
        told
    }
}

} // verus!
