//! Sending many requests: the queue of URLs, which one goes next, and the
//! callbacks run on each response. The requests themselves are sent, in
//! batches of at most `max_concurrency`, by the caller.

use vstd::prelude::*;
use crate::request::{RequestOptions, DEFAULT_USER_AGENT, DEFAULT_CONNECT_TIMEOUT};
use crate::text::{to_lowercase, lowercase, str_eq};

verus! {

/// The batch size used when none is given.
pub const DEFAULT_MAX_CONCURRENCY: usize = 20;

/// The character views of a list of strings.
pub open spec fn views(s: Seq<String>) -> Seq<Seq<char>> {
    s.map_values(|x: String| x@)
}

/// A URL counts as processed when its lower-cased form is recorded.
pub open spec fn is_processed(processed: Seq<Seq<char>>, url: Seq<char>) -> bool {
    processed.contains(lowercase(url))
}

/// `k` is the first queued URL not yet processed.
pub open spec fn first_unprocessed(queue: Seq<Seq<char>>, processed: Seq<Seq<char>>, k: int) -> bool {
    0 <= k < queue.len() && !is_processed(processed, queue[k])
        && forall|j: int| 0 <= j < k ==> is_processed(processed, #[trigger] queue[j])
}

/// The first queued URL not yet processed, with the queue left after it is
/// taken out; none when every queued URL is processed.
pub open spec fn take_next(queue: Seq<Seq<char>>, processed: Seq<Seq<char>>) -> Option<(Seq<char>, Seq<Seq<char>>)>
    decreases queue.len(),
{
    if queue.len() == 0 {
        None
    } else if !is_processed(processed, queue[0]) {
        Some((queue[0], queue.skip(1)))
    } else {
        match take_next(queue.skip(1), processed) {
            Some((u, rest)) => Some((u, seq![queue[0]] + rest)),
            None => None,
        }
    }
}

/// Up to `n` URLs taken out of the queue one after another, each the first
/// one not yet processed, with the queue left after them.
pub open spec fn batch_taken(queue: Seq<Seq<char>>, processed: Seq<Seq<char>>, n: nat) -> (Seq<Seq<char>>, Seq<Seq<char>>)
    decreases n,
{
    if n == 0 {
        (Seq::empty(), queue)
    } else {
        match take_next(queue, processed) {
            Some((u, rest)) => {
                let (b, q) = batch_taken(rest, processed, (n - 1) as nat);
                (seq![u] + b, q)
            },
            None => (Seq::empty(), queue),
        }
    }
}

/// Taking out the first unprocessed URL, at `k`, leaves the queue without it.
proof fn lemma_take_next_at(queue: Seq<Seq<char>>, processed: Seq<Seq<char>>, k: int)
    requires
        first_unprocessed(queue, processed, k),
    ensures
        take_next(queue, processed) == Some((queue[k], queue.remove(k))),
    decreases k,
{
    if k == 0 {
        assert(queue.remove(0) =~= queue.skip(1));
    } else {
        let rest = queue.skip(1);
        assert forall|j: int| 0 <= j < k - 1 implies is_processed(processed, #[trigger] rest[j]) by {
            assert(rest[j] == queue[j + 1]);
        }
        assert(rest[k - 1] == queue[k]);
        lemma_take_next_at(rest, processed, k - 1);
        assert(seq![queue[0]] + rest.remove(k - 1) =~= queue.remove(k));
    }
}

/// Nothing is taken out of a queue whose URLs are all processed.
proof fn lemma_take_next_none(queue: Seq<Seq<char>>, processed: Seq<Seq<char>>)
    requires
        forall|j: int| 0 <= j < queue.len() ==> is_processed(processed, #[trigger] queue[j]),
    ensures
        take_next(queue, processed) is None,
    decreases queue.len(),
{
    if queue.len() > 0 {
        let rest = queue.skip(1);
        assert(is_processed(processed, queue[0]));
        assert forall|j: int| 0 <= j < rest.len() implies is_processed(processed, #[trigger] rest[j]) by {
            assert(rest[j] == queue[j + 1]);
        }
        lemma_take_next_none(rest, processed);
    }
}

/// Whether `x` is in the list.
fn contains_string(v: &Vec<String>, x: &str) -> (r: bool)
    ensures
        r == views(v@).contains(x@),
{
    let mut i: usize = 0;
    while i < v.len()
        invariant
            0 <= i <= v.len(),
            forall|j: int| 0 <= j < i ==> v@[j]@ != x@,
        decreases v.len() - i,
    {
        if str_eq(v[i].as_str(), x) {
            assert(views(v@)[i as int] == x@);
            return true;
        }
        i = i + 1;
    }
    proof {
        if views(v@).contains(x@) {
            let j = choose|j: int| 0 <= j < views(v@).len() && views(v@)[j] == x@;
            assert(v@[j]@ == x@);
        }
    }
    false
}

/// Takes out of the queue the first URL not yet processed.
pub fn get_next_url(queue: &mut Vec<String>, processed: &Vec<String>) -> (res: Option<String>)
    ensures
        match res {
            Some(u) => exists|k: int| first_unprocessed(views(old(queue)@), views(processed@), k)
                && u@ == views(old(queue)@)[k] && views(final(queue)@) == views(old(queue)@).remove(k),
            None => final(queue)@ == old(queue)@
                && forall|j: int| 0 <= j < old(queue)@.len() ==> is_processed(views(processed@), #[trigger] views(old(queue)@)[j]),
        },
        take_next(views(old(queue)@), views(processed@)) == match res {
            Some(u) => Some((u@, views(final(queue)@))),
            None => None::<(Seq<char>, Seq<Seq<char>>)>,
        },
{
    let mut k: usize = 0;
    while k < queue.len()
        invariant
            0 <= k <= queue.len(),
            queue@ == old(queue)@,
            forall|j: int| 0 <= j < k ==> is_processed(views(processed@), #[trigger] views(queue@)[j]),
        decreases queue.len() - k,
    {
        let low = to_lowercase(queue[k].as_str());
        if !contains_string(processed, low.as_str()) {
            let ghost q0 = views(queue@);
            assert(q0[k as int] == queue@[k as int]@);
            let u = queue.remove(k);
            assert(first_unprocessed(q0, views(processed@), k as int));
            assert(views(queue@) =~= q0.remove(k as int));
            proof { lemma_take_next_at(q0, views(processed@), k as int); }
            return Some(u);
        }
        assert(views(queue@)[k as int] == queue@[k as int]@);
        k = k + 1;
    }
    proof { lemma_take_next_none(views(queue@), views(processed@)); }
    None
}

/// Records a URL as processed, by its lower-cased form.
pub fn mark_processed(processed: &mut Vec<String>, url: &str)
    ensures
        views(final(processed)@).to_set() == views(old(processed)@).to_set().insert(lowercase(url@)),
        is_processed(views(final(processed)@), url@),
{
    let low = to_lowercase(url);
    if !contains_string(processed, low.as_str()) {
        let ghost before = views(processed@);
        processed.push(low);
        assert(views(processed@) =~= before.push(lowercase(url@)));
        proof { before.lemma_push_to_set_commute(lowercase(url@)); }
        assert(views(processed@)[before.len() as int] == lowercase(url@));
    } else {
        assert(views(processed@).to_set() =~= views(processed@).to_set().insert(lowercase(url@)));
    }
}

/// The requests' options, the batch size, and the callbacks run on each response.
pub struct Requester<C> {
    request_options: RequestOptions,
    max_concurrency: usize,
    on_response: Vec<C>,
}

impl<C> Requester<C> {
    /// The options every request is sent with.
    pub closed spec fn options_view(&self) -> RequestOptions {
        self.request_options
    }

    /// How many requests go out together.
    pub closed spec fn concurrency_view(&self) -> usize {
        self.max_concurrency
    }

    /// The callbacks, in the order they were added.
    pub closed spec fn callbacks_view(&self) -> Seq<C> {
        self.on_response@
    }

    /// A requester with no callbacks, the given batch size or 20, and the
    /// given options or the default ones.
    pub fn new(max_concurrency: Option<usize>, options: Option<RequestOptions>) -> (res: Self)
        ensures
            res.concurrency_view() == match max_concurrency { Some(m) => m, None => DEFAULT_MAX_CONCURRENCY },
            match options {
                Some(o) => res.options_view() == o,
                None => res.options_view().wf() && res.options_view().follow_redirects
                    && res.options_view().headers_map()
                        == Map::<Seq<char>, Seq<char>>::empty().insert("User-Agent"@, DEFAULT_USER_AGENT@)
                    && res.options_view().connect_timeout == DEFAULT_CONNECT_TIMEOUT
                    && res.options_view().timeout is None,
            },
            res.callbacks_view().len() == 0,
    {
        let request_options = match options {
            Some(o) => o,
            None => RequestOptions::default(),
        };
        let max_concurrency = match max_concurrency {
            Some(m) => m,
            None => DEFAULT_MAX_CONCURRENCY,
        };
        Requester { request_options, max_concurrency, on_response: Vec::new() }
    }

    /// How many requests go out together.
    pub fn max_concurrency(&self) -> (r: usize)
        ensures
            r == self.concurrency_view(),
    {
        self.max_concurrency
    }

    /// The number of callbacks.
    pub fn on_response_count(&self) -> (r: usize)
        ensures
            r == self.callbacks_view().len(),
    {
        self.on_response.len()
    }

    /// Adds a callback, run after those already added.
    pub fn on_response(&mut self, callback: C)
        ensures
            final(self).callbacks_view() == old(self).callbacks_view().push(callback),
            final(self).options_view() == old(self).options_view(),
            final(self).concurrency_view() == old(self).concurrency_view(),
    {
        self.on_response.push(callback);
    }

    /// The callbacks, in order.
    pub fn callbacks(&self) -> (res: &Vec<C>)
        ensures
            res@ == self.callbacks_view(),
    {
        &self.on_response
    }

    /// The options every request is sent with.
    pub fn request_options(&self) -> (res: &RequestOptions)
        ensures
            *res == self.options_view(),
    {
        &self.request_options
    }

    /// Takes out of the queue the first URL not yet processed.
    pub fn get_next_url_for_test(queue: &mut Vec<String>, processed: &Vec<String>) -> (res: Option<String>)
        ensures
            match res {
                Some(u) => exists|k: int| first_unprocessed(views(old(queue)@), views(processed@), k)
                    && u@ == views(old(queue)@)[k] && views(final(queue)@) == views(old(queue)@).remove(k),
                None => final(queue)@ == old(queue)@
                    && forall|j: int| 0 <= j < old(queue)@.len() ==> is_processed(views(processed@), #[trigger] views(old(queue)@)[j]),
            },
            take_next(views(old(queue)@), views(processed@)) == match res {
                Some(u) => Some((u@, views(final(queue)@))),
                None => None::<(Seq<char>, Seq<Seq<char>>)>,
            },
    {
        get_next_url(queue, processed)
    }

    /// The next batch: up to `max_concurrency` URLs taken out of the queue,
    /// one after another, each the first one not yet processed.
    pub fn next_batch(&self, queue: &mut Vec<String>, processed: &Vec<String>) -> (batch: Vec<String>)
        ensures
            batch@.len() <= self.concurrency_view(),
            views(batch@).len() + views(final(queue)@).len() == views(old(queue)@).len(),
            forall|i: int| 0 <= i < batch@.len() ==> !is_processed(views(processed@), #[trigger] batch@[i]@),
            batch@.len() < self.concurrency_view() ==> forall|j: int| 0 <= j < final(queue)@.len()
                ==> is_processed(views(processed@), #[trigger] views(final(queue)@)[j]),
            (views(batch@), views(final(queue)@))
                == batch_taken(views(old(queue)@), views(processed@), self.concurrency_view() as nat),
    {
        let mut batch: Vec<String> = Vec::new();
        let mut n: usize = 0;
        let ghost total = batch_taken(views(queue@), views(processed@), self.concurrency_view() as nat);
        assert(views(batch@) + total.0 =~= total.0);
        while n < self.max_concurrency
            invariant
                n == batch@.len(),
                n <= self.concurrency_view(),
                self.max_concurrency == self.concurrency_view(),
                batch@.len() + queue@.len() == old(queue)@.len(),
                forall|i: int| 0 <= i < batch@.len() ==> !is_processed(views(processed@), #[trigger] batch@[i]@),
                total == batch_taken(views(old(queue)@), views(processed@), self.concurrency_view() as nat),
                ({
                    let r = batch_taken(views(queue@), views(processed@), (self.concurrency_view() - n) as nat);
                    total == (views(batch@) + r.0, r.1)
                }),
            decreases self.max_concurrency - n,
        {
            let ghost q0 = queue@;
            let ghost b0 = views(batch@);
            match get_next_url(queue, processed) {
                Some(u) => {
                    proof {
                        let rest = batch_taken(views(queue@), views(processed@), (self.concurrency_view() - n - 1) as nat);
                        assert(batch_taken(views(q0), views(processed@), (self.concurrency_view() - n) as nat)
                            == (seq![u@] + rest.0, rest.1));
                        assert(b0 + (seq![u@] + rest.0) =~= b0.push(u@) + rest.0);
                    }
                    proof {
                        let k = choose|k: int| first_unprocessed(views(q0), views(processed@), k)
                            && u@ == views(q0)[k] && views(queue@) == views(q0).remove(k);
                        assert(views(queue@).len() == views(q0).len() - 1);
                    }
                    let ghost uv = u@;
                    batch.push(u);
                    assert(views(batch@) =~= b0.push(uv));
                    n = n + 1;
                },
                None => {
                    proof {
                        assert(b0 + Seq::<Seq<char>>::empty() =~= b0);
                    }
                    return batch;
                },
            }
        }
        proof {
            let r = batch_taken(views(queue@), views(processed@), 0);
            assert(views(batch@) + r.0 =~= views(batch@));
        }
        batch
    }
}

} // verus!
