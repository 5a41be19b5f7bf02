use crate::interaction::{Interaction, InteractionView};
use vstd::prelude::*;
use vstd::string::StringExecFns;

verus! {

/// The key of an ordered pair of actors: the requester's name, a hyphen,
/// the responder's name.
pub open spec fn pair_key_text(requester: Seq<char>, responder: Seq<char>) -> Seq<char> {
    requester + "-"@ + responder
}

/// The key under which a request of `requester` to `responder` is registered.
pub fn pair_key(requester: &str, responder: &str) -> (key: String)
    ensures
        key@ == pair_key_text(requester@, responder@),
{
    let mut key = String::from_str(requester);
    key.append("-");
    key.append(responder);
    key
}

/// A request that is under way: who asked whom, the key of that pair, and
/// the ticket that stands for the background exchange.
#[derive(Debug)]
pub struct PendingRequest {
    pub key: String,
    pub requester: String,
    pub responder: String,
    pub ticket: u64,
}

/// A `PendingRequest` as plain mathematical values.
pub struct PendingView {
    pub key: Seq<char>,
    pub requester: Seq<char>,
    pub responder: Seq<char>,
    pub ticket: int,
}

impl View for PendingRequest {
    type V = PendingView;

    open spec fn view(&self) -> PendingView {
        PendingView {
            key: self.key@,
            requester: self.requester@,
            responder: self.responder@,
            ticket: self.ticket as int,
        }
    }
}

impl Clone for PendingRequest {
    fn clone(&self) -> (copy: PendingRequest)
        ensures
            copy == *self,
    {
        PendingRequest {
            key: self.key.clone(),
            requester: self.requester.clone(),
            responder: self.responder.clone(),
            ticket: self.ticket,
        }
    }
}

/// The views of a sequence of requests, in order.
pub open spec fn pending_view(entries: Seq<PendingRequest>) -> Seq<PendingView> {
    Seq::new(entries.len(), |i: int| entries[i]@)
}

/// Whether a request is registered under `key`.
pub open spec fn key_pending(entries: Seq<PendingView>, key: Seq<char>) -> bool {
    exists|i: int| 0 <= i < entries.len() && #[trigger] entries[i].key == key
}

/// The position of the request registered under `key`, where there is one.
pub open spec fn key_position(entries: Seq<PendingView>, key: Seq<char>) -> int {
    choose|i: int| 0 <= i < entries.len() && #[trigger] entries[i].key == key
}

/// Whether a request is registered with `ticket`.
pub open spec fn ticket_pending(entries: Seq<PendingView>, ticket: int) -> bool {
    exists|i: int| 0 <= i < entries.len() && #[trigger] entries[i].ticket == ticket
}

/// The position of the request registered with `ticket`, where there is one.
pub open spec fn ticket_position(entries: Seq<PendingView>, ticket: int) -> int {
    choose|i: int| 0 <= i < entries.len() && #[trigger] entries[i].ticket == ticket
}

/// Every request sits under the key of its pair with a ticket that was
/// issued, and no two requests share a key or a ticket.
pub open spec fn registry_wf(entries: Seq<PendingView>, next: int) -> bool {
    &&& forall|i: int|
        0 <= i < entries.len() ==> (#[trigger] entries[i]).key == pair_key_text(
            entries[i].requester,
            entries[i].responder,
        ) && 0 <= entries[i].ticket < next
    &&& forall|i: int, j: int|
        0 <= i < j < entries.len() ==> (#[trigger] entries[i]).key != (#[trigger] entries[j]).key
            && entries[i].ticket != entries[j].ticket
}

/// The registry after a request of `requester` to `responder` was submitted
/// with `ticket`: the request takes the place of the one registered under
/// the same key, or comes last where there was none.
pub open spec fn after_submit(
    entries: Seq<PendingView>,
    requester: Seq<char>,
    responder: Seq<char>,
    ticket: int,
) -> Seq<PendingView> {
    let key = pair_key_text(requester, responder);
    let request = PendingView { key, requester, responder, ticket };
    if key_pending(entries, key) {
        entries.update(key_position(entries, key), request)
    } else {
        entries.push(request)
    }
}

/// The ticket that a submission detaches: that of the request registered
/// under the same key, if there is one.
pub open spec fn detached_by_submit(
    entries: Seq<PendingView>,
    requester: Seq<char>,
    responder: Seq<char>,
) -> Option<int> {
    let key = pair_key_text(requester, responder);
    if key_pending(entries, key) {
        Some(entries[key_position(entries, key)].ticket)
    } else {
        None
    }
}

/// The registry after the exchange with `ticket` was seen to be complete:
/// its request is gone; for a ticket that is not registered nothing changes.
pub open spec fn after_complete(entries: Seq<PendingView>, ticket: int) -> Seq<PendingView> {
    if ticket_pending(entries, ticket) {
        entries.remove(ticket_position(entries, ticket))
    } else {
        entries
    }
}

/// The registry after the exchanges with `tickets` were seen to be
/// complete, one after the other.
pub open spec fn after_completions(entries: Seq<PendingView>, tickets: Seq<int>) -> Seq<
    PendingView,
>
    decreases tickets.len(),
{
    if tickets.len() == 0 {
        entries
    } else {
        after_complete(after_completions(entries, tickets.drop_last()), tickets.last())
    }
}

/// A background exchange that has ended, with what it decoded.
#[derive(Debug)]
pub struct Completion {
    pub ticket: u64,
    pub interaction: Interaction,
}

/// A result that the registry hands out: the request and what came of it.
#[derive(Debug)]
pub struct Delivery {
    pub request: PendingRequest,
    pub interaction: Interaction,
}

/// A `Delivery` as plain mathematical values.
pub struct DeliveryView {
    pub request: PendingView,
    pub interaction: InteractionView,
}

/// The tickets of a sequence of completions, in order.
pub open spec fn tickets_of(completions: Seq<Completion>) -> Seq<int> {
    Seq::new(completions.len(), |i: int| completions[i].ticket as int)
}

/// The views of a sequence of deliveries, in order.
pub open spec fn deliveries_view(deliveries: Seq<Delivery>) -> Seq<DeliveryView> {
    Seq::new(
        deliveries.len(),
        |i: int| DeliveryView { request: deliveries[i].request@, interaction: deliveries[i].interaction@ },
    )
}

/// What is handed out for a sequence of completions: for each one whose
/// ticket is still registered when its turn comes, the request and the
/// completion's interaction, in the order of the completions.
pub open spec fn deliveries_for(entries: Seq<PendingView>, completions: Seq<Completion>) -> Seq<
    DeliveryView,
>
    decreases completions.len(),
{
    if completions.len() == 0 {
        Seq::empty()
    } else {
        let earlier = completions.drop_last();
        let now = after_completions(entries, tickets_of(earlier));
        let ticket = completions.last().ticket as int;
        if ticket_pending(now, ticket) {
            deliveries_for(entries, earlier).push(
                DeliveryView {
                    request: now[ticket_position(now, ticket)],
                    interaction: completions.last().interaction@,
                },
            )
        } else {
            deliveries_for(entries, earlier)
        }
    }
}

/// A submission never makes a second entry for a key: where the key was
/// registered the number of entries stays, and afterwards exactly one
/// entry, the new one, sits under the key.
pub proof fn law_one_entry_per_key(
    entries: Seq<PendingView>,
    next: int,
    requester: Seq<char>,
    responder: Seq<char>,
)
    requires
        registry_wf(entries, next),
        0 <= next,
    ensures
        ({
            let key = pair_key_text(requester, responder);
            let after = after_submit(entries, requester, responder, next);
            &&& registry_wf(after, next + 1)
            &&& key_pending(entries, key) ==> after.len() == entries.len()
            &&& !key_pending(entries, key) ==> after.len() == entries.len() + 1
            &&& key_pending(after, key)
            &&& after[key_position(after, key)].ticket == next
            &&& forall|i: int, j: int|
                0 <= i < after.len() && 0 <= j < after.len() && after[i].key == key && after[j].key
                    == key ==> i == j
        }),
{
    let key = pair_key_text(requester, responder);
    let request = PendingView { key, requester, responder, ticket: next };
    let after = after_submit(entries, requester, responder, next);
    if key_pending(entries, key) {
        let at = key_position(entries, key);
        assert(after[at] == request);
        assert(after[at].key == key);
        assert forall|i: int, j: int| 0 <= i < j < after.len() implies (#[trigger] after[i]).key != (
        #[trigger] after[j]).key && after[i].ticket != after[j].ticket by {
            assert(entries[i].key != entries[j].key);
            if i != at {
                assert(after[i] == entries[i]);
            }
            if j != at {
                assert(after[j] == entries[j]);
            }
        }
        assert forall|i: int| 0 <= i < after.len() implies (#[trigger] after[i]).key
            == pair_key_text(after[i].requester, after[i].responder) && 0 <= after[i].ticket < next
            + 1 by {
            if i != at {
                assert(after[i] == entries[i]);
            }
        }
    } else {
        let at = entries.len() as int;
        assert(after[at] == request);
        assert(after[at].key == key);
        assert forall|i: int, j: int| 0 <= i < j < after.len() implies (#[trigger] after[i]).key != (
        #[trigger] after[j]).key && after[i].ticket != after[j].ticket by {
            assert(after[i] == entries[i]);
            if j < at {
                assert(after[j] == entries[j]);
            }
        }
        assert forall|i: int| 0 <= i < after.len() implies (#[trigger] after[i]).key
            == pair_key_text(after[i].requester, after[i].responder) && 0 <= after[i].ticket < next
            + 1 by {
            if i < at {
                assert(after[i] == entries[i]);
            }
        }
    }
    let found = key_position(after, key);
    assert(0 <= found < after.len() && after[found].key == key);
    assert forall|i: int, j: int|
        0 <= i < after.len() && 0 <= j < after.len() && after[i].key == key && after[j].key
            == key implies i == j by {
        if i < j {
            assert(after[i].key != after[j].key);
        } else if j < i {
            assert(after[j].key != after[i].key);
        }
    }
    assert(after[found] == request) by {
        if key_pending(entries, key) {
            let at = key_position(entries, key);
            assert(after[at].key == key);
        } else {
            assert(after[entries.len() as int].key == key);
        }
    }
}

/// Once the completion of a request is seen, its key is no longer
/// registered, and neither is its ticket: a result is handed out once.
pub proof fn law_completed_is_absent(entries: Seq<PendingView>, next: int, at: int)
    requires
        registry_wf(entries, next),
        0 <= at < entries.len(),
    ensures
        ({
            let after = after_complete(entries, entries[at].ticket);
            &&& registry_wf(after, next)
            &&& after == entries.remove(at)
            &&& !key_pending(after, entries[at].key)
            &&& !ticket_pending(after, entries[at].ticket)
        }),
{
    let ticket = entries[at].ticket;
    assert(entries[at].ticket == ticket);
    let found = ticket_position(entries, ticket);
    assert(0 <= found < entries.len() && entries[found].ticket == ticket);
    if found < at {
        assert(entries[found].ticket != entries[at].ticket);
    } else if at < found {
        assert(entries[at].ticket != entries[found].ticket);
    }
    let after = entries.remove(at);
    let shift = |i: int| if i < at { i } else { i + 1 };
    assert forall|i: int| 0 <= i < after.len() implies after[i] == entries[shift(i)] by {}
    assert forall|i: int, j: int| 0 <= i < j < after.len() implies (#[trigger] after[i]).key != (
    #[trigger] after[j]).key && after[i].ticket != after[j].ticket by {
        assert(entries[shift(i)].key != entries[shift(j)].key);
    }
    assert forall|i: int| 0 <= i < after.len() implies (#[trigger] after[i]).key == pair_key_text(
        after[i].requester,
        after[i].responder,
    ) && 0 <= after[i].ticket < next by {
        assert(after[i] == entries[shift(i)]);
    }
    assert forall|i: int| 0 <= i < after.len() implies (#[trigger] after[i]).key != entries[at].key
        && after[i].ticket != ticket by {
        let k = shift(i);
        if k < at {
            assert(entries[k].key != entries[at].key);
        } else {
            assert(entries[at].key != entries[k].key);
        }
    }
}

/// What a submission did.
#[derive(Clone, Copy, Debug, PartialEq, Eq, Structural)]
pub enum SubmitOutcome {
    /// The request is registered with `ticket`. Where a request was already
    /// registered under the same key, its ticket is `detached`: it is no
    /// longer registered and its result will not be handed out.
    Registered { ticket: u64, detached: Option<u64> },
    /// No ticket is left to issue; the registry is as it was.
    Exhausted,
}

/// The requests that are under way, at most one per ordered pair of actors.
pub struct TaskRegistry {
    entries: Vec<PendingRequest>,
    next_ticket: u64,
}

impl View for TaskRegistry {
    type V = Seq<PendingView>;

    closed spec fn view(&self) -> Seq<PendingView> {
        pending_view(self.entries@)
    }
}

impl TaskRegistry {
    /// The ticket that the next submission gets.
    pub closed spec fn next_ticket(&self) -> int {
        self.next_ticket as int
    }

    /// The registry's invariant.
    pub open spec fn wf(&self) -> bool {
        registry_wf(self@, self.next_ticket())
    }

    /// An empty registry whose first ticket is zero.
    pub fn new() -> (registry: TaskRegistry)
        ensures
            registry.wf(),
            registry@ == Seq::<PendingView>::empty(),
            registry.next_ticket() == 0,
    {
        TaskRegistry::starting_at(0)
    }

    /// An empty registry whose first ticket is `first`.
    pub fn starting_at(first: u64) -> (registry: TaskRegistry)
        ensures
            registry.wf(),
            registry@ == Seq::<PendingView>::empty(),
            registry.next_ticket() == first,
    {
        let registry = TaskRegistry { entries: Vec::new(), next_ticket: first };
        assert(registry@ =~= Seq::<PendingView>::empty());
        registry
    }

    /// How many requests are under way.
    pub fn len(&self) -> (count: usize)
        ensures
            count == self@.len(),
    {
        self.entries.len()
    }

    fn find_key(&self, key: &String) -> (found: Option<usize>)
        ensures
            match found {
                Some(i) => i < self@.len() && self@[i as int].key == key@,
                None => !key_pending(self@, key@),
            },
    {
        let mut i: usize = 0;
        while i < self.entries.len()
            invariant
                i <= self.entries.len(),
                forall|j: int| 0 <= j < i ==> self@[j].key != key@,
            decreases self.entries.len() - i,
        {
            if self.entries[i].key == *key {
                return Some(i);
            }
            i += 1;
        }
        None
    }

    fn find_ticket(&self, ticket: u64) -> (found: Option<usize>)
        ensures
            match found {
                Some(i) => i < self@.len() && self@[i as int].ticket == ticket,
                None => !ticket_pending(self@, ticket as int),
            },
    {
        let mut i: usize = 0;
        while i < self.entries.len()
            invariant
                i <= self.entries.len(),
                forall|j: int| 0 <= j < i ==> self@[j].ticket != ticket,
            decreases self.entries.len() - i,
        {
            if self.entries[i].ticket == ticket {
                return Some(i);
            }
            i += 1;
        }
        None
    }

    /// Whether a request of `requester` to `responder` is under way.
    pub fn is_pending(&self, requester: &str, responder: &str) -> (pending: bool)
        ensures
            pending == key_pending(self@, pair_key_text(requester@, responder@)),
    {
        let key = pair_key(requester, responder);
        self.find_key(&key).is_some()
    }

    /// The tickets of the requests that are under way, in order.
    pub fn pending_tickets(&self) -> (tickets: Vec<u64>)
        ensures
            tickets@.len() == self@.len(),
            forall|i: int| 0 <= i < tickets@.len() ==> tickets@[i] == self@[i].ticket,
    {
        let mut tickets: Vec<u64> = Vec::new();
        let mut i: usize = 0;
        while i < self.entries.len()
            invariant
                i <= self.entries.len(),
                tickets@.len() == i,
                forall|j: int| 0 <= j < i ==> tickets@[j] == self@[j].ticket,
            decreases self.entries.len() - i,
        {
            tickets.push(self.entries[i].ticket);
            i += 1;
        }
        tickets
    }

    /// Registers a request of `requester` to `responder` under the key of
    /// the pair and issues its ticket. A request already registered under
    /// that key is replaced, and its ticket is reported as detached.
    pub fn submit(&mut self, requester: &str, responder: &str) -> (outcome: SubmitOutcome)
        requires
            old(self).wf(),
        ensures
            final(self).wf(),
            old(self).next_ticket() == u64::MAX ==> {
                &&& outcome == SubmitOutcome::Exhausted
                &&& final(self)@ == old(self)@
                &&& final(self).next_ticket() == old(self).next_ticket()
            },
            old(self).next_ticket() < u64::MAX ==> {
                &&& outcome matches SubmitOutcome::Registered { ticket, detached }
                &&& ticket == old(self).next_ticket()
                &&& (match detached {
                    Some(t) => Some(t as int),
                    None => None,
                }) == detached_by_submit(old(self)@, requester@, responder@)
                &&& final(self)@ == after_submit(
                    old(self)@,
                    requester@,
                    responder@,
                    old(self).next_ticket(),
                )
                &&& final(self).next_ticket() == old(self).next_ticket() + 1
                &&& key_pending(final(self)@, pair_key_text(requester@, responder@))
                &&& final(self)@.len() == if key_pending(
                    old(self)@,
                    pair_key_text(requester@, responder@),
                ) {
                    old(self)@.len()
                } else {
                    old(self)@.len() + 1
                }
            },
    {
        if self.next_ticket == u64::MAX {
            return SubmitOutcome::Exhausted;
        }
        let ghost before = self@;
        let ticket = self.next_ticket;
        let key = pair_key(requester, responder);
        let found = self.find_key(&key);
        let request = PendingRequest {
            key,
            requester: String::from_str(requester),
            responder: String::from_str(responder),
            ticket,
        };
        proof {
            law_one_entry_per_key(before, ticket as int, requester@, responder@);
        }
        let detached = match found {
            Some(i) => {
                proof {
                    let k = key_position(before, request@.key);
                    assert(0 <= k < before.len() && before[k].key == request@.key);
                    if k < i {
                        assert(before[k].key != before[i as int].key);
                    } else if i < k {
                        assert(before[i as int].key != before[k].key);
                    }
                }
                let old_ticket = self.entries[i].ticket;
                self.entries.set(i, request);
                assert(self@ =~= before.update(i as int, request@));
                Some(old_ticket)
            },
            None => {
                self.entries.push(request);
                assert(self@ =~= before.push(request@));
                None
            },
        };
        self.next_ticket = ticket + 1;
        SubmitOutcome::Registered { ticket, detached }
    }

    /// Takes the request with `ticket` out of the registry and hands it
    /// out; `None`, and no change, where no such request is registered.
    pub fn complete(&mut self, ticket: u64) -> (request: Option<PendingRequest>)
        requires
            old(self).wf(),
        ensures
            final(self).wf(),
            final(self).next_ticket() == old(self).next_ticket(),
            final(self)@ == after_complete(old(self)@, ticket as int),
            !ticket_pending(final(self)@, ticket as int),
            match request {
                Some(r) => !key_pending(final(self)@, r@.key),
                None => true,
            },
            match request {
                Some(r) => ticket_pending(old(self)@, ticket as int) && r@ == old(self)@[ticket_position(
                    old(self)@,
                    ticket as int,
                )],
                None => !ticket_pending(old(self)@, ticket as int),
            },
    {
        let ghost before = self@;
        match self.find_ticket(ticket) {
            Some(i) => {
                proof {
                    law_completed_is_absent(before, self.next_ticket(), i as int);
                    let k = ticket_position(before, ticket as int);
                    assert(0 <= k < before.len() && before[k].ticket == ticket);
                    if k < i {
                        assert(before[k].ticket != before[i as int].ticket);
                    } else if i < k {
                        assert(before[i as int].ticket != before[k].ticket);
                    }
                }
                let request = self.entries.remove(i);
                assert(self@ =~= before.remove(i as int));
                Some(request)
            },
            None => None,
        }
    }

    /// Takes every request out of the registry and hands them out in
    /// order; none of their results will be handed out afterwards.
    pub fn drain(&mut self) -> (requests: Vec<PendingRequest>)
        requires
            old(self).wf(),
        ensures
            final(self).wf(),
            final(self)@ == Seq::<PendingView>::empty(),
            final(self).next_ticket() == old(self).next_ticket(),
            pending_view(requests@) == old(self)@,
    {
        let mut requests: Vec<PendingRequest> = Vec::new();
        std::mem::swap(&mut self.entries, &mut requests);
        assert(self@ =~= Seq::<PendingView>::empty());
        requests
    }

    /// One tick of polling, given the exchanges that were seen to have
    /// ended since the last tick. Each completion whose ticket is still
    /// registered takes its request out of the registry and is handed out
    /// with it; a completion for a ticket that is not registered, or no
    /// longer, is dropped. Requests without a completion stay.
    pub fn poll_tick(&mut self, completions: Vec<Completion>) -> (deliveries: Vec<Delivery>)
        requires
            old(self).wf(),
        ensures
            final(self).wf(),
            final(self).next_ticket() == old(self).next_ticket(),
            final(self)@ == after_completions(old(self)@, tickets_of(completions@)),
            deliveries_view(deliveries@) == deliveries_for(old(self)@, completions@),
    {
        let ghost before = self@;
        let ghost all = completions@;
        let mut completions = completions;
        let mut stack: Vec<Completion> = Vec::new();
        while completions.len() > 0
            invariant
                stack@.len() + completions@.len() == all.len(),
                forall|i: int| 0 <= i < completions@.len() ==> completions@[i] == all[i],
                forall|i: int|
                    0 <= i < stack@.len() ==> stack@[i] == all[all.len() - 1 - i],
            decreases completions@.len(),
        {
            let last = completions.pop().unwrap();
            stack.push(last);
        }
        let mut deliveries: Vec<Delivery> = Vec::new();
        let ghost mut done: int = 0;
        assert(all.take(0) =~= Seq::<Completion>::empty());
        assert(tickets_of(all.take(0)) =~= Seq::<int>::empty());
        assert(deliveries_view(deliveries@) =~= Seq::<DeliveryView>::empty());
        while stack.len() > 0
            invariant
                self.wf(),
                self.next_ticket() == old(self).next_ticket(),
                0 <= done,
                done + stack@.len() == all.len(),
                forall|i: int|
                    0 <= i < stack@.len() ==> stack@[i] == all[all.len() - 1 - i],
                self@ == after_completions(before, tickets_of(all.take(done))),
                deliveries_view(deliveries@) == deliveries_for(before, all.take(done)),
            decreases stack@.len(),
        {
            let ghost earlier = all.take(done);
            let ghost upto = all.take(done + 1);
            let completion = stack.pop().unwrap();
            assert(completion == all[done]);
            assert(upto.drop_last() =~= earlier);
            assert(upto.last() == completion);
            assert(tickets_of(upto).drop_last() =~= tickets_of(earlier));
            assert(tickets_of(upto).last() == completion.ticket as int);
            let ghost shown = deliveries_view(deliveries@);
            match self.complete(completion.ticket) {
                Some(request) => {
                    let ghost added = DeliveryView {
                        request: request@,
                        interaction: completion.interaction@,
                    };
                    deliveries.push(Delivery { request, interaction: completion.interaction });
                    assert(deliveries_view(deliveries@) =~= shown.push(added));
                },
                None => {},
            }
            proof {
                done = done + 1;
            }
        }
        assert(all.take(done) =~= all);
        deliveries
    }
}

} // verus!
