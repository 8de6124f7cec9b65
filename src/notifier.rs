//! A synchronous, ordered change-notification bus.
//!
//! Subscribers register once and receive an identifier. Each `notify`
//! delivers one notification to every registered subscriber, in the order
//! in which they registered. Deliveries wait in an outbox until the owner
//! hands them to whoever runs the subscribers' handlers, so that no handler
//! ever runs while the state that changed is still borrowed.

use vstd::multiset::Multiset;
use vstd::prelude::*;

verus! {

/// Identifies one subscriber of a [`Notifier`]: the number of subscribers
/// that registered before it.
pub type SubscriberId = usize;

/// The ordered list of every subscriber of a notifier with `n` subscribers:
/// what one notification delivers.
pub open spec fn round(n: nat) -> Seq<SubscriberId> {
    Seq::new(n, |i: int| i as SubscriberId)
}

/// What a notifier is, abstractly.
pub struct NotifierView {
    /// How many subscribers have registered.
    pub subscribers: nat,
    /// Deliveries made and not yet taken, oldest first.
    pub pending: Seq<SubscriberId>,
}

impl NotifierView {
    /// The same notifier after one more notification.
    pub open spec fn notified(self) -> NotifierView {
        NotifierView { subscribers: self.subscribers, pending: self.pending + round(self.subscribers) }
    }
}

pub struct Notifier {
    subscribers: usize,
    pending: Vec<SubscriberId>,
}

impl View for Notifier {
    type V = NotifierView;

    closed spec fn view(&self) -> NotifierView {
        NotifierView { subscribers: self.subscribers as nat, pending: self.pending@ }
    }
}

impl Notifier {
    /// A notifier with no subscribers and nothing pending.
    pub fn new() -> (r: Notifier)
        ensures
            r@.subscribers == 0,
            r@.pending == Seq::<SubscriberId>::empty(),
    {
        Notifier { subscribers: 0, pending: Vec::new() }
    }

    /// Adds a subscriber after all earlier ones; there is no way to remove one.
    pub fn register(&mut self) -> (id: SubscriberId)
        requires
            old(self)@.subscribers < usize::MAX,
        ensures
            id == old(self)@.subscribers,
            final(self)@.subscribers == old(self)@.subscribers + 1,
            final(self)@.pending == old(self)@.pending,
    {
        let id = self.subscribers;
        self.subscribers = self.subscribers + 1;
        id
    }

    /// Delivers one notification to every registered subscriber, once each,
    /// in registration order.
    pub fn notify(&mut self)
        ensures
            final(self)@ == old(self)@.notified(),
    {
        let n = self.subscribers;
        let mut i: usize = 0;
        while i < n
            invariant
                i <= n,
                n == self.subscribers,
                n == old(self).subscribers,
                self.pending@ == old(self).pending@ + round(i as nat),
            decreases n - i,
        {
            self.pending.push(i);
            i = i + 1;
            assert(self.pending@ =~= old(self).pending@ + round(i as nat));
        }
        assert(self.pending@ =~= old(self).pending@ + round(n as nat));
    }

    /// How many subscribers have registered.
    pub fn subscriber_count(&self) -> (r: usize)
        ensures
            r == self@.subscribers,
    {
        self.subscribers
    }

    /// Hands out every delivery made since the last call, oldest first, and
    /// empties the outbox.
    pub fn take_pending(&mut self) -> (r: Vec<SubscriberId>)
        ensures
            r@ == old(self)@.pending,
            final(self)@.subscribers == old(self)@.subscribers,
            final(self)@.pending == Seq::<SubscriberId>::empty(),
    {
        let mut taken = Vec::new();
        std::mem::swap(&mut taken, &mut self.pending);
        taken
    }
}

/// One notification reaches each registered subscriber exactly once, and
/// the deliveries come in registration order.
pub proof fn lemma_round_delivers_each_once_in_order(n: nat)
    requires
        n <= usize::MAX,
    ensures
        round(n).len() == n,
        forall|id: SubscriberId| id < n ==> #[trigger] round(n).to_multiset().count(id) == 1,
        forall|i: int, j: int| 0 <= i < j < n ==> round(n)[i] < round(n)[j],
{
    assert forall|id: SubscriberId| id < n implies #[trigger] round(n).to_multiset().count(id) == 1 by {
        lemma_round_count(n, id);
    }
    assert forall|i: int, j: int| 0 <= i < j < n implies round(n)[i] < round(n)[j] by {
        assert(round(n)[i] == i);
        assert(round(n)[j] == j);
    }
}

proof fn lemma_round_count(n: nat, id: SubscriberId)
    requires
        n <= usize::MAX,
    ensures
        round(n).to_multiset().count(id) == if id < n { 1nat } else { 0nat },
    decreases n,
{
    if n == 0 {
        broadcast use vstd::seq_lib::group_to_multiset_ensures;
        assert(round(0) =~= Seq::<SubscriberId>::empty());
        assert(round(0).to_multiset() =~= Multiset::empty());
    } else {
        let m = (n - 1) as nat;
        lemma_round_count(m, id);
        assert(round(n) =~= round(m).push(m as SubscriberId));
        vstd::seq_lib::to_multiset_build(round(m), m as SubscriberId);
    }
}

} // verus!
