//! In-memory values of the dedup store's two collections: the set of
//! listing URLs already reported (grows monotonically, never shrinks) and
//! the registered subscribers. The durable storage engine behind them is
//! an external collaborator; a caller loads these values from it at the
//! start of a cycle and writes the appended URLs back at the end.

use crate::bytes::bytes_eq;
use vstd::prelude::*;

verus! {

/// The set of listing URLs already reported, keyed by exact URL bytes.
#[derive(Debug)]
pub struct SeenSet {
    urls: Vec<Vec<u8>>,
}

impl View for SeenSet {
    type V = Set<Seq<u8>>;

    closed spec fn view(&self) -> Set<Seq<u8>> {
        Set::new(|u: Seq<u8>| exists|i: int| 0 <= i < self.urls@.len() && self.urls@[i]@ == u)
    }
}

impl SeenSet {
    /// The empty set: the store's state at first run.
    pub fn new() -> (s: SeenSet)
        ensures
            s@ == Set::<Seq<u8>>::empty(),
    {
        let s = SeenSet { urls: Vec::new() };
        proof {
            assert(s@ =~= Set::<Seq<u8>>::empty());
        }
        s
    }

    /// Whether `url` has been reported before.
    pub fn contains_url(&self, url: &[u8]) -> (b: bool)
        ensures
            b == self@.contains(url@),
    {
        let mut i: usize = 0;
        while i < self.urls.len()
            invariant
                i <= self.urls@.len(),
                forall|j: int| 0 <= j < i ==> self.urls@[j]@ != url@,
            decreases self.urls@.len() - i,
        {
            if bytes_eq(self.urls[i].as_slice(), url) {
                return true;
            }
            i = i + 1;
        }
        false
    }

    /// Record `url` as reported. The set only ever grows.
    pub fn record_seen(&mut self, url: Vec<u8>)
        ensures
            final(self)@ == old(self)@.insert(url@),
    {
        let ghost old_urls = self.urls@;
        self.urls.push(url);
        proof {
            assert(final(self)@ =~= old(self)@.insert(url@)) by {
                assert(forall|j: int|
                    0 <= j < old_urls.len() ==> self.urls@[j] == #[trigger] old_urls[j]);
                assert(self.urls@[old_urls.len() as int]@ == url@);
            }
        }
    }
}

/// The registered notification targets, in registration order.
#[derive(Debug)]
pub struct SubscriberSet {
    ids: Vec<i64>,
}

impl View for SubscriberSet {
    type V = Seq<i64>;

    closed spec fn view(&self) -> Seq<i64> {
        self.ids@
    }
}

impl SubscriberSet {
    /// No subscribers yet.
    pub fn new() -> (s: SubscriberSet)
        ensures
            s@ == Seq::<i64>::empty(),
    {
        SubscriberSet { ids: Vec::new() }
    }

    /// Register one subscriber (append-only).
    pub fn add_subscriber(&mut self, id: i64)
        ensures
            final(self)@ == old(self)@.push(id),
    {
        self.ids.push(id);
    }

    /// How many subscribers are registered.
    pub fn len(&self) -> (n: usize)
        ensures
            n == self@.len(),
    {
        self.ids.len()
    }

    /// The subscriber at position `i`.
    pub fn subscriber_at(&self, i: usize) -> (id: i64)
        requires
            i < self@.len(),
        ensures
            id == self@[i as int],
    {
        self.ids[i]
    }
}

} // verus!
