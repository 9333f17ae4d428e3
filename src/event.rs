use vstd::prelude::*;

use crate::base::Author;
use vstd::std_specs::cmp::OrdSpec;
use crate::time::GlobalTime;

verus! {

/// An event of the simulation.
#[derive(Clone, Debug, PartialEq, Eq, PartialOrd, Ord)]
pub enum Event<Notification, Request, Response> {
    DataSyncNotifyEvent { receiver: Author, sender: Author, notification: Notification },
    DataSyncRequestEvent { receiver: Author, sender: Author, request: Request },
    DataSyncResponseEvent { receiver: Author, sender: Author, response: Response },
    UpdateTimerEvent { author: Author },
}

impl<N, Rq, Rs> Event<N, Rq, Rs> {
    /// Every author named by the event is below `n`.
    pub open spec fn authors_below(&self, n: nat) -> bool {
        match self {
            Event::DataSyncNotifyEvent { receiver, sender, .. } => receiver.0 < n && sender.0 < n,
            Event::DataSyncRequestEvent { receiver, sender, .. } => receiver.0 < n && sender.0 < n,
            Event::DataSyncResponseEvent { receiver, sender, .. } => receiver.0 < n && sender.0
                < n,
            Event::UpdateTimerEvent { author } => author.0 < n,
        }
    }

    /// Whether this is a timer event of `author`.
    pub open spec fn is_timer_of(&self, author: Author) -> bool {
        self == (Event::<N, Rq, Rs>::UpdateTimerEvent { author })
    }

    /// Position of the variant in the order of events.
    fn rank(&self) -> (r: u8)
        ensures
            r == spec_rank(*self),
    {
        match self {
            Event::DataSyncNotifyEvent { .. } => 0,
            Event::DataSyncRequestEvent { .. } => 1,
            Event::DataSyncResponseEvent { .. } => 2,
            Event::UpdateTimerEvent { .. } => 3,
        }
    }
}

/// An event due at `deadline`.
#[derive(Clone, Debug, PartialEq, Eq)]
pub struct ScheduledEvent<Notification, Request, Response> {
    pub deadline: GlobalTime,
    pub event: Event<Notification, Request, Response>,
}

fn cmp_authors(a: Author, b: Author) -> (r: core::cmp::Ordering)
    ensures
        (r == core::cmp::Ordering::Less) == (a.0 < b.0),
        (r == core::cmp::Ordering::Equal) == (a.0 == b.0),
{
    if a.0 < b.0 {
        core::cmp::Ordering::Less
    } else if a.0 == b.0 {
        core::cmp::Ordering::Equal
    } else {
        core::cmp::Ordering::Greater
    }
}

fn cmp_pair(a: (Author, Author), b: (Author, Author)) -> (r: core::cmp::Ordering)
    ensures
        (r == core::cmp::Ordering::Less) == (a.0.0 < b.0.0 || (a.0.0 == b.0.0 && a.1.0 < b.1.0)),
        (r == core::cmp::Ordering::Equal) == (a.0.0 == b.0.0 && a.1.0 == b.1.0),
{
    match cmp_authors(a.0, b.0) {
        core::cmp::Ordering::Equal => cmp_authors(a.1, b.1),
        other => other,
    }
}

/// Position of an event's variant in the order of events.
pub open spec fn spec_rank<N, Rq, Rs>(e: Event<N, Rq, Rs>) -> int {
    match e {
        Event::DataSyncNotifyEvent { .. } => 0,
        Event::DataSyncRequestEvent { .. } => 1,
        Event::DataSyncResponseEvent { .. } => 2,
        Event::UpdateTimerEvent { .. } => 3,
    }
}

/// Lexicographic order on (receiver, sender, payload), the payload ordered by `cmp`.
pub open spec fn triple_less<T: Ord>(r1: Author, s1: Author, v1: T, r2: Author, s2: Author, v2: T) -> bool {
    r1.0 < r2.0 || (r1.0 == r2.0 && (s1.0 < s2.0 || (s1.0 == s2.0 && v1.cmp_spec(&v2)
        == core::cmp::Ordering::Less)))
}

/// Whether `a` comes strictly before `b` in the order of events.
pub open spec fn spec_precedes<N: Ord, Rq: Ord, Rs: Ord>(a: Event<N, Rq, Rs>, b: Event<N, Rq, Rs>) -> bool {
    if spec_rank(a) != spec_rank(b) {
        spec_rank(a) < spec_rank(b)
    } else {
        match (a, b) {
            (
                Event::DataSyncNotifyEvent { receiver: r1, sender: s1, notification: v1 },
                Event::DataSyncNotifyEvent { receiver: r2, sender: s2, notification: v2 },
            ) => triple_less(r1, s1, v1, r2, s2, v2),
            (
                Event::DataSyncRequestEvent { receiver: r1, sender: s1, request: v1 },
                Event::DataSyncRequestEvent { receiver: r2, sender: s2, request: v2 },
            ) => triple_less(r1, s1, v1, r2, s2, v2),
            (
                Event::DataSyncResponseEvent { receiver: r1, sender: s1, response: v1 },
                Event::DataSyncResponseEvent { receiver: r2, sender: s2, response: v2 },
            ) => triple_less(r1, s1, v1, r2, s2, v2),
            (Event::UpdateTimerEvent { author: a1 }, Event::UpdateTimerEvent { author: a2 }) => a1.0
                < a2.0,
            _ => false,
        }
    }
}

/// Whether `a` comes before `b` in the order of events: by variant, then by receiver,
/// sender and payload (or author), as the derived order of `Event` compares them.
pub fn event_precedes<N: Ord, Rq: Ord, Rs: Ord>(a: &Event<N, Rq, Rs>, b: &Event<N, Rq, Rs>) -> (r:
    bool)
    ensures
        N::obeys_cmp_spec() && Rq::obeys_cmp_spec() && Rs::obeys_cmp_spec() ==> r == spec_precedes(
            *a,
            *b,
        ),
{
    let (ra, rb) = (a.rank(), b.rank());
    if ra != rb {
        return ra < rb;
    }
    let ord = match (a, b) {
        (
            Event::DataSyncNotifyEvent { receiver: r1, sender: s1, notification: v1 },
            Event::DataSyncNotifyEvent { receiver: r2, sender: s2, notification: v2 },
        ) => match cmp_pair((*r1, *s1), (*r2, *s2)) {
            core::cmp::Ordering::Equal => v1.cmp(v2),
            other => other,
        },
        (
            Event::DataSyncRequestEvent { receiver: r1, sender: s1, request: v1 },
            Event::DataSyncRequestEvent { receiver: r2, sender: s2, request: v2 },
        ) => match cmp_pair((*r1, *s1), (*r2, *s2)) {
            core::cmp::Ordering::Equal => v1.cmp(v2),
            other => other,
        },
        (
            Event::DataSyncResponseEvent { receiver: r1, sender: s1, response: v1 },
            Event::DataSyncResponseEvent { receiver: r2, sender: s2, response: v2 },
        ) => match cmp_pair((*r1, *s1), (*r2, *s2)) {
            core::cmp::Ordering::Equal => v1.cmp(v2),
            other => other,
        },
        (Event::UpdateTimerEvent { author: a1 }, Event::UpdateTimerEvent { author: a2 }) => {
            cmp_authors(*a1, *a2)
        },
        _ => core::cmp::Ordering::Equal,
    };
    matches!(ord, core::cmp::Ordering::Less)
}

/// `cmp` on `T` follows its specification, and its `Less` is irreflexive and transitive.
pub open spec fn orders_by_cmp<T: Ord>() -> bool {
    &&& T::obeys_cmp_spec()
    &&& forall|x: T| #[trigger] x.cmp_spec(&x) != core::cmp::Ordering::Less
    &&& forall|x: T, y: T, z: T|
        #[trigger] x.cmp_spec(&y) == core::cmp::Ordering::Less && #[trigger] y.cmp_spec(&z)
            == core::cmp::Ordering::Less ==> x.cmp_spec(&z) == core::cmp::Ordering::Less
}

/// Every payload type orders by `cmp`.
pub open spec fn payloads_ordered<N: Ord, Rq: Ord, Rs: Ord>() -> bool {
    orders_by_cmp::<N>() && orders_by_cmp::<Rq>() && orders_by_cmp::<Rs>()
}

/// The order of events is transitive when the payloads are ordered by `cmp`.
pub proof fn lemma_precedes_transitive<N: Ord, Rq: Ord, Rs: Ord>(
    a: Event<N, Rq, Rs>,
    b: Event<N, Rq, Rs>,
    c: Event<N, Rq, Rs>,
)
    requires
        payloads_ordered::<N, Rq, Rs>(),
        spec_precedes(a, b),
        spec_precedes(b, c),
    ensures
        spec_precedes(a, c),
{
}

/// No event comes before itself when the payloads are ordered by `cmp`.
pub proof fn lemma_precedes_irreflexive<N: Ord, Rq: Ord, Rs: Ord>(a: Event<N, Rq, Rs>)
    requires
        payloads_ordered::<N, Rq, Rs>(),
    ensures
        !spec_precedes(a, a),
{
}

/// No event of `events` is due before the one at `i`.
pub open spec fn is_earliest<N, Rq, Rs>(events: Seq<ScheduledEvent<N, Rq, Rs>>, i: int) -> bool {
    &&& 0 <= i < events.len()
    &&& forall|j: int| 0 <= j < events.len() ==> events[i].deadline.0 <= events[j].deadline.0
}

/// The event at `i` is the one to handle next: none is due earlier, and, when the payloads
/// are ordered by `cmp`, none due at the same time comes before it.
pub open spec fn is_next<N: Ord, Rq: Ord, Rs: Ord>(events: Seq<ScheduledEvent<N, Rq, Rs>>, i: int) -> bool {
    &&& is_earliest(events, i)
    &&& payloads_ordered::<N, Rq, Rs>() ==> forall|j: int|
        0 <= j < events.len() && events[j].deadline == events[i].deadline ==> !spec_precedes(
            #[trigger] events[j].event,
            events[i].event,
        )
}

/// Position of the event to handle next: the earliest deadline, and among equal deadlines
/// the first event in the order of events.
pub fn earliest_index<N: Ord, Rq: Ord, Rs: Ord>(events: &Vec<ScheduledEvent<N, Rq, Rs>>) -> (r:
    usize)
    requires
        events@.len() > 0,
    ensures
        is_next(events@, r as int),
{
    let mut best: usize = 0;
    let mut i: usize = 1;
    proof {
        if payloads_ordered::<N, Rq, Rs>() {
            lemma_precedes_irreflexive(events@[0].event);
        }
    }
    while i < events.len()
        invariant
            0 <= best < i <= events@.len(),
            forall|j: int| 0 <= j < i ==> events@[best as int].deadline.0 <= events@[j].deadline.0,
            payloads_ordered::<N, Rq, Rs>() ==> forall|j: int|
                0 <= j < i && events@[j].deadline == events@[best as int].deadline
                    ==> !spec_precedes(#[trigger] events@[j].event, events@[best as int].event),
        decreases events@.len() - i,
    {
        let (d, b) = (events[i].deadline.0, events[best].deadline.0);
        if d < b || (d == b && event_precedes(&events[i].event, &events[best].event)) {
            proof {
                if payloads_ordered::<N, Rq, Rs>() {
                    lemma_precedes_irreflexive(events@[i as int].event);
                }
                if payloads_ordered::<N, Rq, Rs>() && d == b {
                    assert forall|j: int|
                        0 <= j < i && events@[j].deadline == events@[i as int].deadline implies !spec_precedes(
                        #[trigger] events@[j].event,
                        events@[i as int].event,
                    ) by {
                        if spec_precedes(events@[j].event, events@[i as int].event) {
                            lemma_precedes_transitive(
                                events@[j].event,
                                events@[i as int].event,
                                events@[best as int].event,
                            );
                        }
                    }
                }
            }
            best = i;
        }
        i = i + 1;
    }
    best
}

} // verus!
