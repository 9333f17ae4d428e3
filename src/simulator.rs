use vstd::prelude::*;

use crate::base::{Author, Round};
use crate::event::{earliest_index, is_next, Event, ScheduledEvent};
use crate::node::{ActiveRound, ConsensusNode, DataSyncNode, DelaySampler, NodeUpdateActions};
use crate::time::{clamp_time, Duration, GlobalTime, NodeTime};

verus! {

/// Observer of the simulation, told of every event that is handled.
pub trait StatisticsSink<Notification, Request, Response> {
    /// The clock of the event about to be handled, and the round of every node.
    fn update_round_number(&mut self, clock: GlobalTime, rounds: &Vec<Round>);

    /// The event about to be handled.
    fn add_message_counter(&mut self, event: &Event<Notification, Request, Response>);
}

/// A sink that records nothing.
pub struct NoStatistics;

impl<N, Rq, Rs> StatisticsSink<N, Rq, Rs> for NoStatistics {
    fn update_round_number(&mut self, _clock: GlobalTime, _rounds: &Vec<Round>) {
    }

    fn add_message_counter(&mut self, _event: &Event<N, Rq, Rs>) {
    }
}

/// A node of the simulation, with its context, its startup time and the time up to which
/// its scheduled updates are cancelled.
#[derive(Debug)]
pub struct SimulatedNode<Node, Context> {
    startup_time: GlobalTime,
    ignore_scheduled_updates_until: GlobalTime,
    node: Node,
    context: Context,
}

impl<Node, Context> SimulatedNode<Node, Context> {
    pub closed spec fn spec_startup_time(&self) -> GlobalTime {
        self.startup_time
    }

    pub closed spec fn spec_watermark(&self) -> GlobalTime {
        self.ignore_scheduled_updates_until
    }

    pub closed spec fn spec_node(&self) -> Node {
        self.node
    }

    pub closed spec fn spec_context(&self) -> Context {
        self.context
    }

    /// Global time at which the node started.
    pub fn startup_time(&self) -> (r: GlobalTime)
        ensures
            r == self.spec_startup_time(),
    {
        self.startup_time
    }

    /// Timer events due at or before this time are cancelled.
    pub fn ignore_scheduled_updates_until(&self) -> (r: GlobalTime)
        ensures
            r == self.spec_watermark(),
    {
        self.ignore_scheduled_updates_until
    }

    pub fn node(&self) -> (r: &Node)
        ensures
            *r == self.spec_node(),
    {
        &self.node
    }

    pub fn context(&self) -> (r: &Context)
        ensures
            *r == self.spec_context(),
    {
        &self.context
    }
}

impl<Node: ConsensusNode<Context>, Context> SimulatedNode<Node, Context> {
    /// Runs the node's update step at the local time of `global_clock`.
    pub fn update(&mut self, global_clock: GlobalTime) -> (r: NodeUpdateActions)
        requires
            old(self).spec_startup_time().0 >= 1,
            global_clock.0 >= 0,
        ensures
            final(self).spec_startup_time() == old(self).spec_startup_time(),
            final(self).spec_watermark() == old(self).spec_watermark(),
    {
        let local_clock = global_clock.to_node_time(self.startup_time);
        self.node.update_node(local_clock, &mut self.context)
    }
}

impl<Node: ActiveRound, Context> SimulatedNode<Node, Context> {
    /// The round the node is in, as the node reports it.
    pub fn active_round(&self) -> (r: Round)
        ensures
            call_ensures(Node::active_round, (&self.spec_node(),), r),
    {
        self.node.active_round()
    }
}

/// `a + b`, held within the range of the clock.
fn clamped_sum(a: i64, b: i64) -> (r: i64)
    ensures
        r == clamp_time(a + b),
{
    if b >= 0 && a > i64::MAX - b {
        i64::MAX
    } else if b < 0 && a < i64::MIN - b {
        i64::MIN
    } else {
        a + b
    }
}

/// Startup time of a node whose start was delayed by the sample `delay`: one tick after
/// the delay (a negative sample counting as none), held at the end of the clock.
pub open spec fn startup_of(delay: i64) -> int {
    if delay <= 0 {
        1
    } else if delay == i64::MAX {
        i64::MAX as int
    } else {
        delay + 1
    }
}

/// The startup time of a node, from clock zero and the sampled delay `delay`.
pub fn startup_time_after(delay: Duration) -> (r: GlobalTime)
    ensures
        r.0 == startup_of(delay),
        r.0 >= 1,
{
    let d = if delay < 0 {
        0
    } else {
        delay
    };
    let sampled = GlobalTime(0).add_delay(d);
    GlobalTime(clamped_sum(sampled.0, 1))
}

/// A fresh network delay: the sample, or zero for a negative one.
fn sample_nonnegative<D: DelaySampler>(delay: &mut D) -> (r: i64)
    ensures
        r >= 0,
{
    let d = delay.sample_delay();
    if d < 0 {
        0
    } else {
        d
    }
}

/// When a timer asked for at local time `next` by a node started at `startup` is due, if
/// the request is handled at `clock`: that time, but strictly after `clock`.
pub open spec fn timer_deadline(next: NodeTime, startup: GlobalTime, clock: GlobalTime) -> int {
    let requested = clamp_time(next.0 + startup.0);
    let floor = clamp_time(clock.0 + 1);
    if requested >= floor {
        requested
    } else {
        floor
    }
}

/// Whether node `idx` is notified after `author`'s update returned `actions` (only nodes
/// below the number of nodes are ever asked about).
pub open spec fn is_notified(actions: NodeUpdateActions, author: Author, idx: int) -> bool {
    actions.should_send@.contains(Author(idx as usize)) || (actions.should_broadcast && idx
        != author.0)
}

/// The nodes below `k` that are notified, in increasing order, each once.
pub open spec fn notified_below(actions: NodeUpdateActions, author: Author, k: int) -> Seq<Author>
    decreases k,
{
    if k <= 0 {
        Seq::empty()
    } else if is_notified(actions, author, k - 1) {
        notified_below(actions, author, k - 1).push(Author((k - 1) as usize))
    } else {
        notified_below(actions, author, k - 1)
    }
}

/// The nodes below `k` that are queried, in increasing order: all but `author` when
/// `query_all` holds, none otherwise.
pub open spec fn queried_below(query_all: bool, author: Author, k: int) -> Seq<Author>
    decreases k,
{
    if k <= 0 {
        Seq::empty()
    } else if query_all && k - 1 != author.0 {
        queried_below(query_all, author, k - 1).push(Author((k - 1) as usize))
    } else {
        queried_below(query_all, author, k - 1)
    }
}

/// A notification of `receiver` by `sender`, carrying a clone of `source`, due no earlier
/// than `clock`.
pub open spec fn is_notification<N: Clone, Rq, Rs>(
    e: ScheduledEvent<N, Rq, Rs>,
    receiver: Author,
    sender: Author,
    source: N,
    clock: GlobalTime,
) -> bool {
    &&& e.deadline.0 >= clock.0
    &&& match e.event {
        Event::DataSyncNotifyEvent { receiver: r, sender: s, notification } => r == receiver && s
            == sender && cloned(source, notification),
        _ => false,
    }
}

/// A request from `receiver` to `sender`, carrying a clone of `source`, due no earlier than
/// `clock`.
pub open spec fn is_request<N, Rq: Clone, Rs>(
    e: ScheduledEvent<N, Rq, Rs>,
    receiver: Author,
    sender: Author,
    source: Rq,
    clock: GlobalTime,
) -> bool {
    &&& e.deadline.0 >= clock.0
    &&& match e.event {
        Event::DataSyncRequestEvent { receiver: r, sender: s, request } => r == receiver && s
            == sender && cloned(source, request),
        _ => false,
    }
}

/// A response for `receiver` from `sender`, due no earlier than `clock`.
pub open spec fn is_response<N, Rq, Rs>(
    e: ScheduledEvent<N, Rq, Rs>,
    receiver: Author,
    sender: Author,
    clock: GlobalTime,
) -> bool {
    &&& e.deadline.0 >= clock.0
    &&& match e.event {
        Event::DataSyncResponseEvent { receiver: r, sender: s, .. } => r == receiver && s == sender,
        _ => false,
    }
}

/// A request for `receiver` to `sender`, due no earlier than `clock`.
pub open spec fn is_request_for<N, Rq, Rs>(
    e: ScheduledEvent<N, Rq, Rs>,
    receiver: Author,
    sender: Author,
    clock: GlobalTime,
) -> bool {
    &&& e.deadline.0 >= clock.0
    &&& match e.event {
        Event::DataSyncRequestEvent { receiver: r, sender: s, .. } => r == receiver && s == sender,
        _ => false,
    }
}

/// What carrying out `author`'s update at `clock`, which returned `actions`, did to the
/// events (from `events_before` to `events_after`) and to the nodes: the events before are
/// kept, then come the author's new timer, due strictly after `clock` (unless the clock is
/// at its limit), the notifications and the queries; the author's cancellation time is one
/// tick before the new timer; every other node, and the author's startup time, are kept.
pub open spec fn reacted<Node: DataSyncNode<Context, N, Rq, Rs>, Context, N: Clone, Rq: Clone, Rs>(
    events_before: Seq<ScheduledEvent<N, Rq, Rs>>,
    events_after: Seq<ScheduledEvent<N, Rq, Rs>>,
    nodes_before: Seq<SimulatedNode<Node, Context>>,
    nodes_after: Seq<SimulatedNode<Node, Context>>,
    author: Author,
    clock: GlobalTime,
    actions: NodeUpdateActions,
) -> bool {
    let base = events_before.len() as int;
    let n = nodes_before.len() as int;
    let a = author.0 as int;
    let deadline = timer_deadline(
        actions.next_scheduled_update,
        nodes_before[a].spec_startup_time(),
        clock,
    );
    let receivers = notified_below(actions, author, n);
    let senders = queried_below(actions.should_query_all, author, n);
    &&& 0 <= a < n
    &&& nodes_after.len() == n
    &&& forall|k: int| 0 <= k < n && k != a ==> #[trigger] nodes_after[k] == nodes_before[k]
    &&& nodes_after[a].spec_startup_time() == nodes_before[a].spec_startup_time()
    &&& nodes_after[a].spec_watermark().0 == deadline - 1
    &&& clock.0 < i64::MAX ==> deadline > clock.0
    &&& events_after.len() == base + 1 + receivers.len() + senders.len()
    &&& events_after.subrange(0, base) == events_before
    &&& events_after[base] == (ScheduledEvent {
        deadline: GlobalTime(deadline as i64),
        event: Event::<N, Rq, Rs>::UpdateTimerEvent { author },
    })
    &&& exists|x: N|
        #[trigger] notifications_from(events_after, base + 1, receivers, author, x, clock)
            && call_ensures(Node::create_notification, (&nodes_after[a].spec_node(),), x)
    &&& exists|y: Rq|
        #[trigger] requests_to(events_after, base + 1 + receivers.len(), author, senders, y, clock)
            && call_ensures(Node::create_request, (&nodes_after[a].spec_node(),), y)
}

/// A reaction stated against intermediate nodes also holds against earlier ones that
/// differ from them only in the author's node and context.
proof fn lemma_reacted_rebase<Node: DataSyncNode<Context, N, Rq, Rs>, Context, N: Clone, Rq: Clone, Rs>(
    events_before: Seq<ScheduledEvent<N, Rq, Rs>>,
    events_after: Seq<ScheduledEvent<N, Rq, Rs>>,
    nodes_earlier: Seq<SimulatedNode<Node, Context>>,
    nodes_before: Seq<SimulatedNode<Node, Context>>,
    nodes_after: Seq<SimulatedNode<Node, Context>>,
    author: Author,
    clock: GlobalTime,
    actions: NodeUpdateActions,
)
    requires
        reacted(events_before, events_after, nodes_before, nodes_after, author, clock, actions),
        nodes_earlier.len() == nodes_before.len(),
        forall|k: int|
            0 <= k < nodes_before.len() && k != author.0 ==> #[trigger] nodes_before[k]
                == nodes_earlier[k],
        nodes_before[author.0 as int].spec_startup_time() == nodes_earlier[author.0 as int].spec_startup_time(),
    ensures
        reacted(events_before, events_after, nodes_earlier, nodes_after, author, clock, actions),
{
    assert forall|k: int|
        0 <= k < nodes_earlier.len() && k != author.0 implies #[trigger] nodes_after[k]
        == nodes_earlier[k] by {
        assert(nodes_after[k] == nodes_before[k]);
    }
}

/// The events from `start` on notify each of `receivers` in turn, from `sender`, with a
/// clone of `source`, no earlier than `clock`.
pub open spec fn notifications_from<N: Clone, Rq, Rs>(
    events: Seq<ScheduledEvent<N, Rq, Rs>>,
    start: int,
    receivers: Seq<Author>,
    sender: Author,
    source: N,
    clock: GlobalTime,
) -> bool {
    forall|k: int|
        0 <= k < receivers.len() ==> is_notification(
            #[trigger] events[start + k],
            receivers[k],
            sender,
            source,
            clock,
        )
}

/// The events from `start` ask each of `senders` in turn for a clone of `source` on behalf
/// of `receiver`, no earlier than `clock`.
pub open spec fn requests_to<N, Rq: Clone, Rs>(
    events: Seq<ScheduledEvent<N, Rq, Rs>>,
    start: int,
    receiver: Author,
    senders: Seq<Author>,
    source: Rq,
    clock: GlobalTime,
) -> bool {
    forall|k: int|
        0 <= k < senders.len() ==> is_request(
            #[trigger] events[start + k],
            receiver,
            senders[k],
            source,
            clock,
        )
}

/// A timer is always scheduled strictly after the clock at which it is asked for, so the
/// cancellation time it sets, one tick before it, does not cancel it.
pub proof fn lemma_timer_strictly_future(next: NodeTime, startup: GlobalTime, clock: GlobalTime)
    requires
        clock.0 < i64::MAX,
    ensures
        timer_deadline(next, startup, clock) > clock.0,
        timer_deadline(next, startup, clock) - 1 >= clock.0,
{
}

/// When a node's new timer is due after every timer of that node already pending, it is
/// the only one left after its cancellation time: every other is dropped when it is taken.
pub proof fn lemma_latest_timer_is_only_effective<N, Rq, Rs>(
    pending: Seq<ScheduledEvent<N, Rq, Rs>>,
    author: Author,
    deadline: GlobalTime,
)
    requires
        forall|j: int|
            0 <= j < pending.len() && #[trigger] pending[j].event.is_timer_of(author)
                ==> pending[j].deadline.0 < deadline.0,
    ensures
        ({
            let after = pending.push(
                ScheduledEvent { deadline, event: Event::UpdateTimerEvent { author } },
            );
            forall|j: int|
                0 <= j < after.len() && #[trigger] after[j].event.is_timer_of(author)
                    && after[j].deadline.0 > deadline.0 - 1 ==> j == pending.len()
        }),
{
    let after = pending.push(ScheduledEvent { deadline, event: Event::UpdateTimerEvent { author } });
    assert forall|j: int|
        0 <= j < after.len() && #[trigger] after[j].event.is_timer_of(author) && after[j].deadline.0
            > deadline.0 - 1 implies j == pending.len() by {
        if j < pending.len() {
            assert(after[j] == pending[j]);
        }
    }
}

/// The simulation: a global clock, the pending events, and the nodes.
pub struct Simulator<Node, Context, Notification, Request, Response, Delay> {
    clock: GlobalTime,
    network_delay: Delay,
    pending_events: Vec<ScheduledEvent<Notification, Request, Response>>,
    nodes: Vec<SimulatedNode<Node, Context>>,
    /// Number of events taken from the queue and handled so far.
    handled: Ghost<nat>,
}

impl<Node, Context, N, Rq, Rs, Delay> Simulator<Node, Context, N, Rq, Rs, Delay> {
    pub closed spec fn spec_handled(&self) -> nat {
        self.handled@
    }

    pub closed spec fn spec_clock(&self) -> GlobalTime {
        self.clock
    }

    pub closed spec fn spec_pending(&self) -> Seq<ScheduledEvent<N, Rq, Rs>> {
        self.pending_events@
    }

    pub closed spec fn spec_nodes(&self) -> Seq<SimulatedNode<Node, Context>> {
        self.nodes@
    }

    /// The clock is not negative, every node started at a positive time, and every pending
    /// event names existing nodes only.
    pub closed spec fn wf(&self) -> bool {
        &&& self.clock.0 >= 0
        &&& forall|i: int| 0 <= i < self.nodes@.len() ==> #[trigger] self.nodes@[i].startup_time.0 >= 1
        &&& forall|i: int|
            0 <= i < self.pending_events@.len() ==> #[trigger] self.pending_events@[i].event.authors_below(
                self.nodes@.len() as nat,
            )
    }

    /// The current global clock.
    pub fn clock(&self) -> (r: GlobalTime)
        ensures
            r == self.spec_clock(),
    {
        self.clock
    }

    /// Number of events waiting to be handled.
    pub fn pending_count(&self) -> (r: usize)
        ensures
            r == self.spec_pending().len(),
    {
        self.pending_events.len()
    }

    /// The events waiting to be handled, in no particular order.
    pub fn pending_events(&self) -> (r: &Vec<ScheduledEvent<N, Rq, Rs>>)
        ensures
            r@ == self.spec_pending(),
    {
        &self.pending_events
    }

    /// Schedules `event` at `deadline`.
    pub fn schedule_event(&mut self, deadline: GlobalTime, event: Event<N, Rq, Rs>)
        requires
            old(self).wf(),
            event.authors_below(old(self).spec_nodes().len() as nat),
        ensures
            final(self).wf(),
            final(self).spec_clock() == old(self).spec_clock(),
            final(self).spec_nodes() == old(self).spec_nodes(),
            final(self).spec_pending() == old(self).spec_pending().push(
                ScheduledEvent { deadline, event },
            ),
    {
        self.pending_events.push(ScheduledEvent { deadline, event });
    }

    /// The node of `author`.
    pub fn simulated_node(&self, author: Author) -> (r: &SimulatedNode<Node, Context>)
        requires
            author.0 < self.spec_nodes().len(),
        ensures
            *r == self.spec_nodes()[author.0 as int],
    {
        &self.nodes[author.0]
    }

    /// The contexts of all nodes, in the order of their authors.
    pub fn contexts(&self) -> (r: Vec<&Context>)
        ensures
            r@.len() == self.spec_nodes().len(),
            forall|i: int| 0 <= i < r@.len() ==> *r@[i] == self.spec_nodes()[i].spec_context(),
    {
        let mut r: Vec<&Context> = Vec::new();
        let mut i: usize = 0;
        while i < self.nodes.len()
            invariant
                i <= self.nodes@.len(),
                r@.len() == i,
                forall|j: int| 0 <= j < i ==> *r@[j] == self.nodes@[j].context,
            decreases self.nodes@.len() - i,
        {
            r.push(&self.nodes[i].context);
            i = i + 1;
        }
        r
    }
}

impl<Node, Context, N, Rq, Rs, Delay: DelaySampler> Simulator<Node, Context, N, Rq, Rs, Delay> {
    /// A simulation of `num_nodes` nodes at clock zero. Each node starts after a sampled
    /// delay plus one tick, with its first update scheduled at its startup time and every
    /// earlier update cancelled.
    pub fn new<F, G>(num_nodes: usize, network_delay: Delay, context_factory: F, node_factory: G) -> (r:
        Self) where F: Fn(Author, usize) -> Context, G: Fn(Author, &Context, NodeTime) -> Node
        requires
            forall|a: Author, n: usize| context_factory.requires((a, n)),
            forall|a: Author, c: &Context, t: NodeTime| node_factory.requires((a, c, t)),
        ensures
            r.wf(),
            r.spec_clock().0 == 0,
            r.spec_handled() == 0,
            r.spec_nodes().len() == num_nodes,
            r.spec_pending().len() == num_nodes,
            forall|i: int|
                0 <= i < num_nodes ==> {
                    let node = #[trigger] r.spec_nodes()[i];
                    &&& node.spec_startup_time().0 >= 1
                    &&& node.spec_watermark().0 == node.spec_startup_time().0 - 1
                    &&& context_factory.ensures((Author(i as usize), num_nodes), node.spec_context())
                    &&& node_factory.ensures(
                        (Author(i as usize), &node.spec_context(), NodeTime(0)),
                        node.spec_node(),
                    )
                    &&& r.spec_pending()[i] == (ScheduledEvent {
                        deadline: node.spec_startup_time(),
                        event: Event::<N, Rq, Rs>::UpdateTimerEvent { author: Author(i as usize) },
                    })
                },
    {
        let mut network_delay = network_delay;
        let clock = GlobalTime(0);
        let mut pending_events: Vec<ScheduledEvent<N, Rq, Rs>> = Vec::new();
        let mut nodes: Vec<SimulatedNode<Node, Context>> = Vec::new();
        let mut index: usize = 0;
        while index < num_nodes
            invariant
                clock.0 == 0,
                index <= num_nodes,
                nodes@.len() == index,
                pending_events@.len() == index,
                forall|a: Author, n: usize| context_factory.requires((a, n)),
                forall|a: Author, c: &Context, t: NodeTime| node_factory.requires((a, c, t)),
                forall|i: int|
                    0 <= i < index ==> {
                        let node = #[trigger] nodes@[i];
                        &&& node.startup_time.0 >= 1
                        &&& node.ignore_scheduled_updates_until.0 == node.startup_time.0 - 1
                        &&& context_factory.ensures((Author(i as usize), num_nodes), node.context)
                        &&& node_factory.ensures(
                            (Author(i as usize), &node.context, NodeTime(0)),
                            node.node,
                        )
                        &&& pending_events@[i] == (ScheduledEvent {
                            deadline: node.startup_time,
                            event: Event::<N, Rq, Rs>::UpdateTimerEvent { author: Author(i as usize) },
                        })
                    },
            decreases num_nodes - index,
        {
            let ghost old_nodes = nodes@;
            let author = Author(index);
            let context = context_factory(author, num_nodes);
            let delay = network_delay.sample_delay();
            let startup_time = startup_time_after(delay);
            let node_time = NodeTime(0);
            let deadline = GlobalTime::from_node_time(node_time, startup_time);
            pending_events.push(
                ScheduledEvent { deadline, event: Event::UpdateTimerEvent { author } },
            );
            let node = node_factory(author, &context, node_time);
            nodes.push(
                SimulatedNode {
                    startup_time,
                    ignore_scheduled_updates_until: startup_time.add(-1),
                    node,
                    context,
                },
            );
            proof {
                assert forall|i: int| 0 <= i < index + 1 implies {
                    let node = #[trigger] nodes@[i];
                    &&& node.startup_time.0 >= 1
                    &&& node.ignore_scheduled_updates_until.0 == node.startup_time.0 - 1
                    &&& context_factory.ensures((Author(i as usize), num_nodes), node.context)
                    &&& node_factory.ensures(
                        (Author(i as usize), &node.context, NodeTime(0)),
                        node.node,
                    )
                    &&& pending_events@[i] == (ScheduledEvent {
                        deadline: node.startup_time,
                        event: Event::<N, Rq, Rs>::UpdateTimerEvent { author: Author(i as usize) },
                    })
                } by {
                    if i < index {
                        assert(old_nodes[i] == nodes@[i]);
                    }
                }
            }
            index = index + 1;
        }
        let r = Simulator { clock, network_delay, pending_events, nodes, handled: Ghost(0) };
        assert forall|i: int| 0 <= i < r.pending_events@.len() implies #[trigger] r.pending_events@[i].event.authors_below(
            r.nodes@.len() as nat,
        ) by {
            assert(r.nodes@[i].startup_time.0 >= 1);
        }
        r
    }

    /// Schedules `event` after a fresh network delay.
    fn schedule_network_event(&mut self, event: Event<N, Rq, Rs>)
        requires
            old(self).wf(),
            event.authors_below(old(self).nodes@.len() as nat),
        ensures
            final(self).wf(),
            final(self).clock == old(self).clock,
            final(self).nodes == old(self).nodes,
            final(self).pending_events@.len() == old(self).pending_events@.len() + 1,
            final(self).pending_events@.drop_last() == old(self).pending_events@,
            final(self).pending_events@.last().event == event,
            final(self).pending_events@.last().deadline.0 >= old(self).clock.0,
    {
        let delay = sample_nonnegative(&mut self.network_delay);
        let deadline = self.clock.add_delay(delay);
        self.pending_events.push(ScheduledEvent { deadline, event });
        assert(self.pending_events@.drop_last() =~= old(self).pending_events@);
    }
}

/// Whether `authors` holds `a`.
fn contains_author(authors: &Vec<Author>, a: Author) -> (r: bool)
    ensures
        r == authors@.contains(a),
{
    let mut i: usize = 0;
    while i < authors.len()
        invariant
            i <= authors@.len(),
            forall|j: int| 0 <= j < i ==> authors@[j] != a,
        decreases authors@.len() - i,
    {
        if authors[i].0 == a.0 {
            return true;
        }
        i = i + 1;
    }
    false
}

impl<Node, Context, N: Clone, Rq: Clone, Rs, Delay: DelaySampler> Simulator<
    Node,
    Context,
    N,
    Rq,
    Rs,
    Delay,
> {
    /// Sends a clone of `notification` from `author` to every node that `actions` names,
    /// in increasing order of receivers, each once, after a fresh network delay. An author
    /// in `should_send` that is not a node of the simulation (not below the number of
    /// nodes) is a fault of the node that asked; it is skipped rather than scheduled.
    pub fn fan_out_notifications(
        &mut self,
        author: Author,
        actions: &NodeUpdateActions,
        notification: N,
    )
        requires
            old(self).wf(),
            author.0 < old(self).spec_nodes().len(),
        ensures
            final(self).wf(),
            final(self).spec_clock() == old(self).spec_clock(),
            final(self).spec_nodes() == old(self).spec_nodes(),
            ({
                let base = old(self).spec_pending().len();
                let receivers = notified_below(*actions, author, old(self).spec_nodes().len() as int);
                &&& final(self).spec_pending().len() == base + receivers.len()
                &&& final(self).spec_pending().subrange(0, base as int) == old(self).spec_pending()
                &&& forall|k: int|
                    0 <= k < receivers.len() ==> is_notification(
                        #[trigger] final(self).spec_pending()[base + k],
                        receivers[k],
                        author,
                        notification,
                        old(self).spec_clock(),
                    )
            }),
    {
        let ghost base = self.pending_events@.len();
        let n = self.nodes.len();
        let mut idx: usize = 0;
        while idx < n
            invariant
                n == self.nodes@.len(),
                idx <= n,
                author.0 < n,
                self.wf(),
                self.clock == old(self).clock,
                self.nodes == old(self).nodes,
                self.pending_events@.len() == base + notified_below(*actions, author, idx as int).len(),
                self.pending_events@.subrange(0, base as int) == old(self).pending_events@,
                forall|k: int|
                    0 <= k < notified_below(*actions, author, idx as int).len() ==> is_notification(
                        #[trigger] self.pending_events@[base + k],
                        notified_below(*actions, author, idx as int)[k],
                        author,
                        notification,
                        old(self).clock,
                    ),
            decreases n - idx,
        {
            let ghost before = self.pending_events@;
            let receiver = Author(idx);
            let selected = contains_author(&actions.should_send, receiver) || (
            actions.should_broadcast && idx != author.0);
            if selected {
                let payload = notification.clone();
                assert(cloned(notification, payload));
                self.schedule_network_event(
                    Event::DataSyncNotifyEvent { receiver, sender: author, notification: payload },
                );
                proof {
                    assert(self.pending_events@ == before.push(self.pending_events@.last()));
                    assert(self.pending_events@.subrange(0, base as int) =~= before.subrange(0, base as int));
                }
            }
            idx = idx + 1;
        }
    }
}

impl<Node, Context, N: Clone, Rq: Clone, Rs, Delay: DelaySampler> Simulator<
    Node,
    Context,
    N,
    Rq,
    Rs,
    Delay,
> {
    /// Asks every node but `author` for a clone of `request` on behalf of `author`, when
    /// `query_all` holds, in increasing order, each after a fresh network delay.
    pub fn fan_out_requests(&mut self, author: Author, query_all: bool, request: Rq)
        requires
            old(self).wf(),
            author.0 < old(self).spec_nodes().len(),
        ensures
            final(self).wf(),
            final(self).spec_clock() == old(self).spec_clock(),
            final(self).spec_nodes() == old(self).spec_nodes(),
            ({
                let base = old(self).spec_pending().len();
                let senders = queried_below(query_all, author, old(self).spec_nodes().len() as int);
                &&& final(self).spec_pending().len() == base + senders.len()
                &&& final(self).spec_pending().subrange(0, base as int) == old(self).spec_pending()
                &&& forall|k: int|
                    0 <= k < senders.len() ==> is_request(
                        #[trigger] final(self).spec_pending()[base + k],
                        author,
                        senders[k],
                        request,
                        old(self).spec_clock(),
                    )
            }),
    {
        let ghost base = self.pending_events@.len();
        let n = self.nodes.len();
        let mut idx: usize = 0;
        while idx < n
            invariant
                n == self.nodes@.len(),
                idx <= n,
                author.0 < n,
                self.wf(),
                self.clock == old(self).clock,
                self.nodes == old(self).nodes,
                self.pending_events@.len() == base + queried_below(query_all, author, idx as int).len(),
                self.pending_events@.subrange(0, base as int) == old(self).pending_events@,
                forall|k: int|
                    0 <= k < queried_below(query_all, author, idx as int).len() ==> is_request(
                        #[trigger] self.pending_events@[base + k],
                        author,
                        queried_below(query_all, author, idx as int)[k],
                        request,
                        old(self).clock,
                    ),
            decreases n - idx,
        {
            let ghost before = self.pending_events@;
            if query_all && idx != author.0 {
                let payload = request.clone();
                self.schedule_network_event(
                    Event::DataSyncRequestEvent { receiver: author, sender: Author(idx), request: payload },
                );
                proof {
                    assert(self.pending_events@ == before.push(self.pending_events@.last()));
                    assert(self.pending_events@.subrange(0, base as int) =~= before.subrange(0, base as int));
                }
            }
            idx = idx + 1;
        }
    }
}

impl<Node, Context, N: Clone, Rq: Clone, Rs, Delay: DelaySampler> Simulator<
    Node,
    Context,
    N,
    Rq,
    Rs,
    Delay,
> where Node: DataSyncNode<Context, N, Rq, Rs> {
    /// Carries out what `author`'s update returned at `clock`: its next timer, strictly
    /// after `clock`, cancels the earlier ones; then the notifications and the queries.
    fn process_node_actions(&mut self, clock: GlobalTime, author: Author, actions: NodeUpdateActions)
        requires
            old(self).wf(),
            author.0 < old(self).nodes@.len(),
            clock == old(self).clock,
        ensures
            final(self).wf(),
            final(self).clock == old(self).clock,
            ({
                let base = old(self).pending_events@.len();
                let old_node = old(self).nodes@[author.0 as int];
                let deadline = timer_deadline(
                    actions.next_scheduled_update,
                    old_node.startup_time,
                    clock,
                );
                let receivers = notified_below(actions, author, old(self).nodes@.len() as int);
                let senders = queried_below(
                    actions.should_query_all,
                    author,
                    old(self).nodes@.len() as int,
                );
                &&& final(self).nodes@ == old(self).nodes@.update(
                    author.0 as int,
                    SimulatedNode {
                        ignore_scheduled_updates_until: GlobalTime((deadline - 1) as i64),
                        ..old_node
                    },
                )
                &&& final(self).pending_events@.len() == base + 1 + receivers.len() + senders.len()
                &&& final(self).pending_events@.subrange(0, base as int) == old(self).pending_events@
                &&& final(self).pending_events@[base as int] == (ScheduledEvent {
                    deadline: GlobalTime(deadline as i64),
                    event: Event::<N, Rq, Rs>::UpdateTimerEvent { author },
                })
                &&& reacted(
                    old(self).pending_events@,
                    final(self).pending_events@,
                    old(self).nodes@,
                    final(self).nodes@,
                    author,
                    clock,
                    actions,
                )
                &&& exists|x: N|
                    #[trigger] notifications_from(
                        final(self).pending_events@,
                        (base + 1) as int,
                        receivers,
                        author,
                        x,
                        clock,
                    )
                &&& exists|y: Rq|
                    #[trigger] requests_to(
                        final(self).pending_events@,
                        (base + 1 + receivers.len()) as int,
                        author,
                        senders,
                        y,
                        clock,
                    )
            }),
    {
        let ghost base = self.pending_events@.len();
        let startup = self.nodes[author.0].startup_time;
        let requested = clamped_sum(actions.next_scheduled_update.0, startup.0);
        let floor = clamped_sum(clock.0, 1);
        let new_deadline = GlobalTime(
            if requested >= floor {
                requested
            } else {
                floor
            },
        );
        self.nodes[author.0].ignore_scheduled_updates_until = GlobalTime(new_deadline.0 - 1);
        self.pending_events.push(
            ScheduledEvent { deadline: new_deadline, event: Event::UpdateTimerEvent { author } },
        );
        let ghost after_timer = self.pending_events@;
        assert(self.wf()) by {
            assert forall|i: int| 0 <= i < self.nodes@.len() implies #[trigger] self.nodes@[i].startup_time.0 >= 1 by {
                assert(old(self).nodes@[i].startup_time.0 >= 1);
            }
            assert forall|i: int| 0 <= i < self.pending_events@.len() implies #[trigger] self.pending_events@[i].event.authors_below(
                self.nodes@.len() as nat,
            ) by {
                if i < base {
                    assert(old(self).pending_events@[i] == self.pending_events@[i]);
                }
            }
        }
        let notification = self.nodes[author.0].node.create_notification();
        self.fan_out_notifications(author, &actions, notification);
        let ghost after_notify = self.pending_events@;
        let request = self.nodes[author.0].node.create_request();
        self.fan_out_requests(author, actions.should_query_all, request);
        proof {
            let n = self.nodes@.len() as int;
            let receivers = notified_below(actions, author, n);
            let senders = queried_below(actions.should_query_all, author, n);
            assert forall|k: int| 0 <= k < receivers.len() implies is_notification(
                #[trigger] self.pending_events@[base + 1 + k],
                receivers[k],
                author,
                notification,
                clock,
            ) by {
                let m = after_timer.len() + k;
                assert(self.pending_events@.subrange(0, after_notify.len() as int)[m] == self.pending_events@[m]);
                assert(is_notification(after_notify[after_timer.len() + k], receivers[k], author, notification, clock));
            }
            assert forall|k: int| 0 <= k < senders.len() implies is_request(
                #[trigger] self.pending_events@[base + 1 + receivers.len() + k],
                author,
                senders[k],
                request,
                clock,
            ) by {
                assert(is_request(self.pending_events@[after_notify.len() + k], author, senders[k], request, clock));
            }
            if clock.0 < i64::MAX {
                lemma_timer_strictly_future(actions.next_scheduled_update, startup, clock);
            }
            assert forall|k: int| 0 <= k < n && k != author.0 implies #[trigger] self.nodes@[k]
                == old(self).nodes@[k] by {}
            assert(after_timer.subrange(0, base as int) =~= old(self).pending_events@);
            assert(after_notify.subrange(0, (base + 1) as int) =~= after_timer);
            assert(self.pending_events@.subrange(0, base as int) =~= after_notify.subrange(0, base as int));
            assert(self.pending_events@[base as int] == after_notify.subrange(0, after_timer.len() as int)[base as int]);
            let b = old(self).pending_events@.len() as int;
            assert(notifications_from(self.pending_events@, b + 1, receivers, author, notification, clock));
            assert(requests_to(self.pending_events@, b + 1 + receivers.len(), author, senders, request, clock));
            let dl = timer_deadline(actions.next_scheduled_update, old(self).nodes@[author.0 as int].spec_startup_time(), clock);
            assert(dl >= 1);
            assert(self.nodes@[author.0 as int].spec_watermark().0 == dl - 1);
            assert(clock.0 < i64::MAX ==> dl > clock.0);
            assert(self.pending_events@.subrange(0, b) == old(self).pending_events@);
            assert(reacted(old(self).pending_events@, self.pending_events@, old(self).nodes@, self.nodes@, author, clock, actions));
        }
    }
}

impl<Node, Context, N: Ord + Clone, Rq: Ord + Clone, Rs: Ord, Delay: DelaySampler> Simulator<
    Node,
    Context,
    N,
    Rq,
    Rs,
    Delay,
> where Node: ConsensusNode<Context> + DataSyncNode<Context, N, Rq, Rs> + ActiveRound {
    /// The round of every node, in the order of their authors.
    fn active_rounds(&self) -> (r: Vec<Round>)
        ensures
            r@.len() == self.nodes@.len(),
    {
        let mut r: Vec<Round> = Vec::new();
        let mut i: usize = 0;
        while i < self.nodes.len()
            invariant
                i <= self.nodes@.len(),
                r@.len() == i,
            decreases self.nodes@.len() - i,
        {
            r.push(self.nodes[i].active_round());
            i = i + 1;
        }
        r
    }

    /// One step of the simulation, from `before` to `after`, with the sink going from
    /// `sink_before` to `sink_after`: what `process_next_event` does when it returns `r`.
    pub open spec fn stepped<S>(
        before: Self,
        after: Self,
        max_clock: GlobalTime,
        r: bool,
        sink_before: S,
        sink_after: S,
    ) -> bool {
        &&& after.spec_clock().0 >= before.spec_clock().0
        &&& after.spec_clock() == before.spec_clock() || after.spec_clock().0
            <= max_clock.0
        &&& after.spec_nodes().len() == before.spec_nodes().len()
        &&& forall|k: int|
            0 <= k < before.spec_nodes().len() ==> #[trigger] after.spec_nodes()[k].spec_startup_time()
                == before.spec_nodes()[k].spec_startup_time()
        &&& r ==> after.spec_handled() == before.spec_handled() + 1
        &&& !r ==> after.spec_handled() == before.spec_handled()
        &&& before.spec_pending().len() == 0 ==> !r && after.spec_clock() == before.spec_clock()
            && after.spec_pending() == before.spec_pending() && after.spec_nodes()
            == before.spec_nodes()
        &&& before.spec_pending().len() > 0 ==> exists|i: int|
            #![trigger before.spec_pending()[i]]
            {
                let deadline = before.spec_pending()[i].deadline.0;
                &&& is_next(before.spec_pending(), i)
                &&& r == (deadline <= max_clock.0)
                &&& r ==> after.spec_clock().0 == if deadline > before.spec_clock().0 {
                    deadline
                } else {
                    before.spec_clock().0
                }
                &&& !r ==> after.spec_clock() == before.spec_clock()
                    && after.spec_pending() == before.spec_pending().remove(i)
                &&& match before.spec_pending()[i].event {
                    Event::UpdateTimerEvent { author } => {
                        let cancelled_until = before.spec_nodes()[author.0 as int].spec_watermark().0;
                        let w = after.spec_nodes()[author.0 as int].spec_watermark().0;
                        &&& r && after.spec_clock().0 <= cancelled_until ==> after.spec_nodes() == before.spec_nodes() && after.spec_pending()
                            == before.spec_pending().remove(i)
                        &&& r && after.spec_clock().0 > cancelled_until ==> {
                            &&& after.spec_pending().contains(
                                ScheduledEvent {
                                    deadline: GlobalTime((w + 1) as i64),
                                    event: Event::UpdateTimerEvent { author },
                                },
                            )
                            &&& after.spec_clock().0 < i64::MAX ==> w >= after.spec_clock().0
                        }
                    },
                    Event::DataSyncRequestEvent { receiver, sender, request } => r ==> {
                        &&& after.spec_nodes() == before.spec_nodes()
                        &&& match after.spec_pending().last().event {
                            Event::DataSyncResponseEvent { response, .. } => call_ensures(
                                Node::handle_request,
                                (&before.spec_nodes()[sender.0 as int].spec_node(), request),
                                response,
                            ),
                            _ => false,
                        }
                        &&& after.spec_pending().len() == before.spec_pending().len()
                        &&& after.spec_pending().drop_last() == before.spec_pending().remove(i)
                        &&& is_response(
                            after.spec_pending().last(),
                            receiver,
                            sender,
                            after.spec_clock(),
                        )
                    },
                    _ => true,
                }
                &&& match before.spec_pending()[i].event {
                    Event::UpdateTimerEvent { author } => r && after.spec_clock().0
                        > before.spec_nodes()[author.0 as int].spec_watermark().0
                        ==> exists|a: NodeUpdateActions|
                        #[trigger] reacted(
                            before.spec_pending().remove(i),
                            after.spec_pending(),
                            before.spec_nodes(),
                            after.spec_nodes(),
                            author,
                            after.spec_clock(),
                            a,
                        ),
                    Event::DataSyncNotifyEvent { receiver, sender, .. } => r ==> (exists|
                        a: NodeUpdateActions,
                    |
                        #[trigger] reacted(
                            before.spec_pending().remove(i),
                            after.spec_pending(),
                            before.spec_nodes(),
                            after.spec_nodes(),
                            receiver,
                            after.spec_clock(),
                            a,
                        )) || ({
                        let kept = before.spec_pending().len() - 1;
                        &&& after.spec_pending().subrange(0, kept) == before.spec_pending().remove(i)
                        &&& is_request_for(after.spec_pending()[kept], sender, receiver, after.spec_clock())
                        &&& exists|a: NodeUpdateActions|
                            #[trigger] reacted(
                                after.spec_pending().subrange(0, kept + 1),
                                after.spec_pending(),
                                before.spec_nodes(),
                                after.spec_nodes(),
                                receiver,
                                after.spec_clock(),
                                a,
                            )
                    }),
                    Event::DataSyncResponseEvent { receiver, .. } => r ==> exists|
                        a: NodeUpdateActions,
                    |
                        #[trigger] reacted(
                            before.spec_pending().remove(i),
                            after.spec_pending(),
                            before.spec_nodes(),
                            after.spec_nodes(),
                            receiver,
                            after.spec_clock(),
                            a,
                        ),
                    _ => true,
                }
            }
        &&& !r ==> forall|j: int|
            0 <= j < after.spec_pending().len()
                ==> #[trigger] after.spec_pending()[j].deadline.0 > max_clock.0
        &&& !r ==> sink_after == sink_before
    }

    /// Takes the pending event to handle next (the earliest, and among equal deadlines the
    /// first in the order of events). If it is due after `max_clock` it is dropped and
    /// the result is `false`. Otherwise the clock moves up to its deadline (never back),
    /// `sink` is told of it, it is handled, and the result is `true`. A timer event due at
    /// or before its node's cancellation time is dropped without an update.
    #[verifier::spinoff_prover]
    pub fn process_next_event<S: StatisticsSink<N, Rq, Rs>>(
        &mut self,
        max_clock: GlobalTime,
        sink: &mut S,
    ) -> (r: bool)
        requires
            old(self).wf(),
        ensures
            final(self).wf(),
            Self::stepped(*old(self), *final(self), max_clock, r, *old(sink), *final(sink)),
    {
        if self.pending_events.len() == 0 {
            return false;
        }
        let ghost handled_before = self.handled@;
        let ghost nodes0 = self.nodes@;
        let i = earliest_index(&self.pending_events);
        let scheduled = self.pending_events.remove(i);
        assert(self.wf()) by {
            assert forall|j: int| 0 <= j < self.pending_events@.len() implies #[trigger] self.pending_events@[j].event.authors_below(
                self.nodes@.len() as nat,
            ) by {
                if j < i {
                    assert(self.pending_events@[j] == old(self).pending_events@[j]);
                } else {
                    assert(self.pending_events@[j] == old(self).pending_events@[j + 1]);
                }
            }
        }
        assert(scheduled.event.authors_below(self.nodes@.len() as nat));
        let ScheduledEvent { deadline, event } = scheduled;
        if deadline.0 > max_clock.0 {
            assert forall|j: int| 0 <= j < self.pending_events@.len() implies #[trigger] self.pending_events@[j].deadline.0
                > max_clock.0 by {
                if j < i {
                    assert(self.pending_events@[j] == old(self).pending_events@[j]);
                } else {
                    assert(self.pending_events@[j] == old(self).pending_events@[j + 1]);
                }
            }
            return false;
        }
        let clock = if deadline.0 > self.clock.0 {
            deadline
        } else {
            self.clock
        };
        let rounds = self.active_rounds();
        sink.update_round_number(clock, &rounds);
        sink.add_message_counter(&event);
        self.clock = clock;
        match event {
            Event::UpdateTimerEvent { author } => {
                if clock.0 <= self.nodes[author.0].ignore_scheduled_updates_until.0 {
                    self.handled = Ghost(handled_before + 1);
                    return true;
                }
                let actions = self.nodes[author.0].update(clock);
                let ghost base = self.pending_events@.len();
                let ghost next = actions.next_scheduled_update;
                let ghost acts = actions;
                let ghost mid = self.pending_events@;
                let ghost nodes_mid = self.nodes@;
                self.process_node_actions(clock, author, actions);
                proof {
                    assert(mid == old(self).pending_events@.remove(i as int));
                    lemma_reacted_rebase(mid, self.pending_events@, nodes0, nodes_mid, self.nodes@, author, clock, acts);
                    assert(reacted(old(self).spec_pending().remove(i as int), self.spec_pending(), old(self).spec_nodes(), self.spec_nodes(), author, self.spec_clock(), acts));
                    let w = self.nodes@[author.0 as int].ignore_scheduled_updates_until.0;
                    assert(self.pending_events@[base as int].deadline.0 == w + 1);
                    assert(self.pending_events@.contains(self.pending_events@[base as int]));
                    if clock.0 < i64::MAX {
                        lemma_timer_strictly_future(
                            next,
                            self.nodes@[author.0 as int].startup_time,
                            clock,
                        );
                    }
                }
            },
            Event::DataSyncNotifyEvent { receiver, sender, notification } => {
                let ghost rest = self.pending_events@;
                let node = &mut self.nodes[receiver.0];
                let result = node.node.handle_notification(notification, &mut node.context);
                if let Some(request) = result {
                    self.schedule_network_event(
                        Event::DataSyncRequestEvent { receiver: sender, sender: receiver, request },
                    );
                }
                let actions = self.nodes[receiver.0].update(clock);
                let ghost acts = actions;
                let ghost mid = self.pending_events@;
                let ghost nodes_mid = self.nodes@;
                self.process_node_actions(clock, receiver, actions);
                proof {
                    lemma_reacted_rebase(mid, self.pending_events@, nodes0, nodes_mid, self.nodes@, receiver, clock, acts);
                    let rest = old(self).spec_pending().remove(i as int);
                    let kept = old(self).spec_pending().len() - 1;
                    if mid.len() == rest.len() {
                        assert(mid =~= rest);
                        assert(reacted(rest, self.spec_pending(), old(self).spec_nodes(), self.spec_nodes(), receiver, self.spec_clock(), acts));
                    } else {
                        assert(self.spec_pending().subrange(0, kept + 1) =~= mid);
                        assert(self.spec_pending().subrange(0, kept) =~= rest);
                        assert(self.spec_pending()[kept] == mid.last());
                        assert(reacted(self.spec_pending().subrange(0, kept + 1), self.spec_pending(), old(self).spec_nodes(), self.spec_nodes(), receiver, self.spec_clock(), acts));
                    }
                }
            },
            Event::DataSyncRequestEvent { receiver, sender, request } => {
                let ghost req = request;
                let response = self.nodes[sender.0].node.handle_request(request);
                assert(call_ensures(Node::handle_request, (&old(self).nodes@[sender.0 as int].node, req), response));
                self.schedule_network_event(
                    Event::DataSyncResponseEvent { receiver, sender, response },
                );
            },
            Event::DataSyncResponseEvent { receiver, response, .. } => {
                let node = &mut self.nodes[receiver.0];
                let local_clock = clock.to_node_time(node.startup_time);
                node.node.handle_response(response, &mut node.context, local_clock);
                let actions = node.update(clock);
                let ghost acts = actions;
                let ghost mid = self.pending_events@;
                let ghost nodes_mid = self.nodes@;
                self.process_node_actions(clock, receiver, actions);
                proof {
                    assert(mid == old(self).pending_events@.remove(i as int));
                    lemma_reacted_rebase(mid, self.pending_events@, nodes0, nodes_mid, self.nodes@, receiver, clock, acts);
                    assert(reacted(old(self).spec_pending().remove(i as int), self.spec_pending(), old(self).spec_nodes(), self.spec_nodes(), receiver, self.spec_clock(), acts));
                }
            },
        }
        self.handled = Ghost(handled_before + 1);
        true
    }

    /// `trace` is a run from `(before, sink_before)` that ends in `(after, sink_after)`:
    /// a chain of steps that each handled an event, then either a step that handled none
    /// or, after `u64::MAX` handled events, nothing more.
    pub open spec fn is_run<S>(
        trace: Seq<(Self, S)>,
        before: Self,
        after: Self,
        max_clock: GlobalTime,
        sink_before: S,
        sink_after: S,
    ) -> bool {
        &&& trace.len() >= 1
        &&& trace[0] == (before, sink_before)
        &&& forall|k: int|
            0 <= k < trace.len() - 1 ==> Self::stepped(
                #[trigger] trace[k].0,
                trace[k + 1].0,
                max_clock,
                true,
                trace[k].1,
                trace[k + 1].1,
            )
        &&& (trace.len() - 1 == u64::MAX && trace.last() == (after, sink_after)) || Self::stepped(
            trace.last().0,
            after,
            max_clock,
            false,
            trace.last().1,
            sink_after,
        )
    }

    /// Handles events in order until the earliest one is due after `max_clock` or none is
    /// left (or `u64::MAX` events were handled, which bounds the run), telling `sink` of
    /// each; returns the contexts of all nodes, in the order of their authors. On return
    /// every pending event is due after `max_clock` unless the bound was reached; the clock
    /// never moves back nor past `max_clock`, startup times are kept, and an empty queue
    /// leaves the simulation as it was.
    pub fn loop_until<S: StatisticsSink<N, Rq, Rs>>(
        &mut self,
        max_clock: GlobalTime,
        sink: &mut S,
    ) -> (r: Vec<&Context>)
        requires
            old(self).wf(),
        ensures
            final(self).wf(),
            final(self).spec_clock().0 >= old(self).spec_clock().0,
            final(self).spec_nodes().len() == old(self).spec_nodes().len(),
            r@.len() == final(self).spec_nodes().len(),
            forall|i: int| 0 <= i < r@.len() ==> *r@[i] == final(self).spec_nodes()[i].spec_context(),
            exists|trace: Seq<(Self, S)>|
                #[trigger] Self::is_run(trace, *old(self), *final(self), max_clock, *old(sink), *final(sink)),
            forall|k: int|
                0 <= k < old(self).spec_nodes().len() ==> #[trigger] final(self).spec_nodes()[k].spec_startup_time()
                    == old(self).spec_nodes()[k].spec_startup_time(),
            final(self).spec_clock() == old(self).spec_clock() || final(self).spec_clock().0
                <= max_clock.0,
            final(self).spec_handled() == old(self).spec_handled() + u64::MAX || forall|j: int|
                0 <= j < final(self).spec_pending().len()
                    ==> #[trigger] final(self).spec_pending()[j].deadline.0 > max_clock.0,
            old(self).spec_pending().len() == 0 ==> final(self).spec_clock() == old(self).spec_clock()
                && final(self).spec_pending() == old(self).spec_pending() && final(self).spec_nodes()
                == old(self).spec_nodes() && final(self).spec_handled() == old(self).spec_handled(),
    {
        let mut steps: u64 = 0;
        let ghost mut trace: Seq<(Self, S)> = seq![(*self, *sink)];
        loop
            invariant_except_break
                trace.last() == (*self, *sink),
            invariant
                trace.len() == steps + 1,
                trace[0] == (*old(self), *old(sink)),
                forall|k: int|
                    0 <= k < trace.len() - 1 ==> Self::stepped(
                        #[trigger] trace[k].0,
                        trace[k + 1].0,
                        max_clock,
                        true,
                        trace[k].1,
                        trace[k + 1].1,
                    ),
                self.wf(),
                self.clock.0 >= old(self).clock.0,
                self.clock == old(self).clock || self.clock.0 <= max_clock.0,
                self.nodes@.len() == old(self).nodes@.len(),
                forall|k: int|
                    0 <= k < old(self).nodes@.len() ==> #[trigger] self.spec_nodes()[k].spec_startup_time()
                        == old(self).spec_nodes()[k].spec_startup_time(),
                self.handled@ == old(self).handled@ + steps,
                old(self).pending_events@.len() == 0 ==> steps == 0 && self.clock == old(self).clock
                    && self.pending_events@ == old(self).pending_events@ && self.nodes@
                    == old(self).nodes@,
            ensures
                Self::is_run(trace, *old(self), *self, max_clock, *old(sink), *sink),
                self.wf(),
                self.clock.0 >= old(self).clock.0,
                self.clock == old(self).clock || self.clock.0 <= max_clock.0,
                self.nodes@.len() == old(self).nodes@.len(),
                forall|k: int|
                    0 <= k < old(self).nodes@.len() ==> #[trigger] self.spec_nodes()[k].spec_startup_time()
                        == old(self).spec_nodes()[k].spec_startup_time(),
                self.handled@ == old(self).handled@ + steps,
                steps == u64::MAX || forall|j: int|
                    0 <= j < self.pending_events@.len() ==> #[trigger] self.pending_events@[j].deadline.0
                        > max_clock.0,
                old(self).pending_events@.len() == 0 ==> steps == 0 && self.clock == old(self).clock
                    && self.pending_events@ == old(self).pending_events@ && self.nodes@
                    == old(self).nodes@,
            decreases u64::MAX - steps,
        {
            if steps == u64::MAX {
                break;
            }
            let ghost before = (*self, *sink);
            let handled = self.process_next_event(max_clock, sink);
            if !handled {
                break;
            }
            proof {
                trace = trace.push((*self, *sink));
                assert(trace[trace.len() - 2] == before);
            }
            steps = steps + 1;
        }
        self.contexts()
    }
}

} // verus!
