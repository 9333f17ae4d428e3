use bft_simulator::base::{Author, Round};
use bft_simulator::event::{Event, ScheduledEvent};
use bft_simulator::node::{ActiveRound, ConsensusNode, DataSyncNode, DelaySampler, NodeUpdateActions};
use bft_simulator::simulator::{NoStatistics, Simulator, StatisticsSink};
use bft_simulator::time::{Duration, GlobalTime, NodeTime};

#[derive(Debug, Clone, PartialEq, Default)]
struct Log {
    updates: Vec<i64>,
    notifications: Vec<u64>,
    responses: Vec<(u64, i64)>,
}

#[derive(Debug, Clone, Default)]
struct Script {
    period: i64,
    broadcast_first: bool,
    query_first: bool,
    ask_on_notify: Option<u64>,
    nexts: Vec<i64>,
}

#[derive(Debug)]
struct TestNode {
    author: usize,
    script: Script,
    updates: usize,
}

impl ConsensusNode<Log> for TestNode {
    fn update_node(&mut self, clock: NodeTime, context: &mut Log) -> NodeUpdateActions {
        context.updates.push(clock.0);
        let first = self.updates == 0;
        let next = match self.script.nexts.get(self.updates) {
            Some(n) => *n,
            None => clock.0 + self.script.period,
        };
        self.updates += 1;
        NodeUpdateActions {
            next_scheduled_update: NodeTime(next),
            should_send: vec![],
            should_broadcast: first && self.script.broadcast_first,
            should_query_all: first && self.script.query_first,
        }
    }
}

impl DataSyncNode<Log, u64, u64, u64> for TestNode {
    fn create_notification(&self) -> u64 {
        100 + self.author as u64
    }

    fn create_request(&self) -> u64 {
        200 + self.author as u64
    }

    fn handle_notification(&mut self, notification: u64, context: &mut Log) -> Option<u64> {
        context.notifications.push(notification);
        self.script.ask_on_notify
    }

    fn handle_request(&self, request: u64) -> u64 {
        request + 1000
    }

    fn handle_response(&mut self, response: u64, context: &mut Log, clock: NodeTime) {
        context.responses.push((response, clock.0));
    }
}

impl ActiveRound for TestNode {
    fn active_round(&self) -> Round {
        Round(self.updates as u64)
    }
}

struct Cycle {
    values: Vec<i64>,
    next: usize,
}

impl DelaySampler for Cycle {
    fn sample_delay(&mut self) -> Duration {
        let v = self.values[self.next % self.values.len()];
        self.next += 1;
        v
    }
}

fn fixed(d: i64) -> Cycle {
    Cycle { values: vec![d], next: 0 }
}

struct Lcg(u64);

impl DelaySampler for Lcg {
    fn sample_delay(&mut self) -> Duration {
        self.0 = self.0.wrapping_mul(6364136223846793005).wrapping_add(1442695040888963407);
        ((self.0 >> 33) % 20) as i64
    }
}

type Sim<D> = Simulator<TestNode, Log, u64, u64, u64, D>;

fn build<D: DelaySampler>(n: usize, delay: D, scripts: Vec<Script>) -> Sim<D> {
    Simulator::new(
        n,
        delay,
        |_a: Author, _n: usize| Log::default(),
        move |a: Author, _c: &Log, _t: NodeTime| TestNode {
            author: a.0,
            script: scripts[a.0].clone(),
            updates: 0,
        },
    )
}

fn periodic(period: i64) -> Script {
    Script { period, ..Script::default() }
}

#[test]
fn empty_run() {
    let mut sim: Sim<Cycle> = build(0, fixed(10), vec![]);
    let contexts = sim.loop_until(GlobalTime(1000), &mut NoStatistics);
    assert!(contexts.is_empty());
    assert_eq!(sim.clock(), GlobalTime(0));
}

#[test]
fn single_node_timer_walk() {
    let mut sim = build(1, fixed(10), vec![periodic(5)]);
    let startup = sim.simulated_node(Author(0)).startup_time();
    assert_eq!(startup, GlobalTime(11));
    assert_eq!(sim.simulated_node(Author(0)).ignore_scheduled_updates_until(), GlobalTime(10));
    let contexts = sim.loop_until(GlobalTime(100), &mut NoStatistics);
    let expected: Vec<i64> = (0..18).map(|k| 5 * k).collect();
    assert_eq!(contexts[0].updates, expected);
    assert_eq!(contexts[0].updates.len() as i64, (100 - 11) / 5 + 1);
    // The last timer was scheduled at 101.
    assert_eq!(sim.simulated_node(Author(0)).ignore_scheduled_updates_until(), GlobalTime(100));
    assert_eq!(sim.clock(), GlobalTime(96));
}

#[test]
fn broadcast_fan_out() {
    let mut scripts = vec![periodic(1000); 4];
    scripts[0].broadcast_first = true;
    let mut sim = build(4, Cycle { values: vec![5, 5, 5, 5, 3, 4, 7], next: 0 }, scripts);
    assert!(sim.process_next_event(GlobalTime(100), &mut NoStatistics));
    assert_eq!(sim.clock(), GlobalTime(6));
    assert_eq!(sim.simulated_node(Author(0)).context().updates, vec![0]);
    let mut notified: Vec<(usize, usize, u64, i64)> = sim
        .pending_events()
        .iter()
        .filter_map(|e| match &e.event {
            Event::DataSyncNotifyEvent { receiver, sender, notification } => {
                Some((receiver.0, sender.0, *notification, e.deadline.0))
            }
            _ => None,
        })
        .collect();
    notified.sort();
    assert_eq!(notified, vec![(1, 0, 100, 9), (2, 0, 100, 10), (3, 0, 100, 13)]);
    // Three timers left, the new one of node 0, and the three notifications.
    assert_eq!(sim.pending_count(), 7);
}

#[test]
fn notify_to_request_chain() {
    let mut scripts = vec![periodic(1000); 2];
    scripts[0].broadcast_first = true;
    scripts[1].ask_on_notify = Some(77);
    let mut sim = build(2, fixed(2), scripts);
    // Both timers at 3, then the notification at 5.
    assert!(sim.process_next_event(GlobalTime(100), &mut NoStatistics));
    assert!(sim.process_next_event(GlobalTime(100), &mut NoStatistics));
    assert!(sim.process_next_event(GlobalTime(100), &mut NoStatistics));
    assert_eq!(sim.clock(), GlobalTime(5));
    assert_eq!(sim.simulated_node(Author(1)).context().notifications, vec![100]);
    let requests: Vec<&ScheduledEvent<u64, u64, u64>> = sim
        .pending_events()
        .iter()
        .filter(|e| matches!(e.event, Event::DataSyncRequestEvent { .. }))
        .collect();
    assert_eq!(requests.len(), 1);
    assert_eq!(
        requests[0].event,
        Event::DataSyncRequestEvent { receiver: Author(0), sender: Author(1), request: 77 }
    );
    assert_eq!(requests[0].deadline, GlobalTime(7));
}

#[test]
fn superseded_timer() {
    let mut scripts = vec![periodic(1000)];
    scripts[0].nexts = vec![14, 18];
    let mut sim = build(1, fixed(1), scripts);
    assert_eq!(sim.simulated_node(Author(0)).startup_time(), GlobalTime(2));
    sim.schedule_event(GlobalTime(10), Event::UpdateTimerEvent { author: Author(0) });
    sim.schedule_event(GlobalTime(20), Event::UpdateTimerEvent { author: Author(0) });
    let updates = |s: &Sim<Cycle>| s.simulated_node(Author(0)).context().updates.len();

    assert!(sim.process_next_event(GlobalTime(100), &mut NoStatistics));
    assert_eq!(sim.simulated_node(Author(0)).ignore_scheduled_updates_until(), GlobalTime(15));
    assert_eq!(updates(&sim), 1);

    assert!(sim.process_next_event(GlobalTime(100), &mut NoStatistics));
    assert_eq!(sim.clock(), GlobalTime(10));
    assert_eq!(updates(&sim), 1);

    assert!(sim.process_next_event(GlobalTime(100), &mut NoStatistics));
    assert_eq!(sim.clock(), GlobalTime(16));
    assert_eq!(updates(&sim), 2);
    assert_eq!(sim.simulated_node(Author(0)).ignore_scheduled_updates_until(), GlobalTime(19));

    assert!(sim.process_next_event(GlobalTime(100), &mut NoStatistics));
    assert_eq!(sim.clock(), GlobalTime(20));
    assert_eq!(updates(&sim), 3);

    assert!(sim.process_next_event(GlobalTime(100), &mut NoStatistics));
    assert_eq!(updates(&sim), 3);
    assert_eq!(sim.simulated_node(Author(0)).context().updates, vec![0, 14, 18]);
}

#[test]
fn timers_are_strictly_future() {
    let mut scripts = vec![periodic(0)];
    scripts[0].nexts = vec![-50];
    let mut sim = build(1, fixed(4), scripts);
    assert!(sim.process_next_event(GlobalTime(100), &mut NoStatistics));
    let clock = sim.clock();
    assert_eq!(clock, GlobalTime(5));
    let watermark = sim.simulated_node(Author(0)).ignore_scheduled_updates_until();
    assert_eq!(watermark, clock);
    let timers: Vec<GlobalTime> = sim.pending_events().iter().map(|e| e.deadline).collect();
    assert_eq!(timers, vec![GlobalTime(6)]);
}

#[test]
fn query_all_and_responses() {
    let mut scripts = vec![periodic(1000); 3];
    scripts[0].query_first = true;
    let mut sim = build(3, fixed(2), scripts);
    let contexts = sim.loop_until(GlobalTime(20), &mut NoStatistics);
    // Requests of node 0 go to nodes 1 and 2, whose responses come back to node 0.
    assert_eq!(contexts[0].responses, vec![(1200, 4), (1200, 4)]);
    assert!(contexts[1].responses.is_empty());
}

#[test]
fn equal_deadlines_follow_event_order() {
    let mut sim = build(2, fixed(1000), vec![periodic(1000), periodic(1000)]);
    sim.schedule_event(GlobalTime(3), Event::UpdateTimerEvent { author: Author(1) });
    sim.schedule_event(
        GlobalTime(3),
        Event::DataSyncNotifyEvent { receiver: Author(1), sender: Author(0), notification: 5 },
    );
    sim.schedule_event(GlobalTime(3), Event::UpdateTimerEvent { author: Author(0) });
    assert!(sim.process_next_event(GlobalTime(3), &mut NoStatistics));
    assert_eq!(sim.simulated_node(Author(1)).context().notifications, vec![5]);
    // Node 1 was updated after the notification, at local time 3 - 1001.
    assert_eq!(sim.simulated_node(Author(1)).context().updates, vec![-998]);
    let timer_at_3 = |s: &Sim<Cycle>, a: usize| {
        s.pending_events().iter().any(|e| {
            e.deadline == GlobalTime(3) && e.event == Event::UpdateTimerEvent { author: Author(a) }
        })
    };
    assert!(timer_at_3(&sim, 0) && timer_at_3(&sim, 1));
    // Then the timer of node 0, which its startup cancels.
    assert!(sim.process_next_event(GlobalTime(3), &mut NoStatistics));
    assert!(!timer_at_3(&sim, 0) && timer_at_3(&sim, 1));
    assert!(sim.simulated_node(Author(0)).context().updates.is_empty());
    assert!(sim.process_next_event(GlobalTime(3), &mut NoStatistics));
    assert!(!timer_at_3(&sim, 1));
    assert_eq!(sim.simulated_node(Author(1)).context().updates.len(), 1);
}

#[test]
fn events_after_the_deadline_stop_the_loop() {
    let mut sim = build(1, fixed(50), vec![periodic(5)]);
    assert!(!sim.process_next_event(GlobalTime(10), &mut NoStatistics));
    assert_eq!(sim.clock(), GlobalTime(0));
    assert_eq!(sim.pending_count(), 0);
    assert!(!sim.process_next_event(GlobalTime(10), &mut NoStatistics));
}

fn busy_scripts(n: usize) -> Vec<Script> {
    (0..n)
        .map(|i| Script {
            period: 7 + i as i64,
            broadcast_first: i % 2 == 0,
            query_first: i == 1,
            ask_on_notify: Some(i as u64),
            nexts: vec![],
        })
        .collect()
}

#[test]
fn clock_is_monotone() {
    let mut sim = build(4, Lcg(7), busy_scripts(4));
    let mut last = sim.clock();
    let mut steps = 0;
    while sim.process_next_event(GlobalTime(300), &mut NoStatistics) {
        assert!(sim.clock() >= last);
        last = sim.clock();
        steps += 1;
    }
    assert!(steps > 50);
}

#[test]
fn runs_are_deterministic() {
    let mut a = build(4, Lcg(42), busy_scripts(4));
    let mut b = build(4, Lcg(42), busy_scripts(4));
    let ca: Vec<Log> = a.loop_until(GlobalTime(500), &mut NoStatistics).into_iter().cloned().collect();
    let cb: Vec<Log> = b.loop_until(GlobalTime(500), &mut NoStatistics).into_iter().cloned().collect();
    assert_eq!(ca, cb);
    assert!(!ca[0].updates.is_empty());
}

struct Counter {
    events: usize,
    timers: usize,
    last_rounds: Vec<Round>,
}

impl StatisticsSink<u64, u64, u64> for Counter {
    fn update_round_number(&mut self, _clock: GlobalTime, rounds: &Vec<Round>) {
        self.last_rounds = rounds.clone();
    }

    fn add_message_counter(&mut self, event: &Event<u64, u64, u64>) {
        self.events += 1;
        if matches!(event, Event::UpdateTimerEvent { .. }) {
            self.timers += 1;
        }
    }
}

#[test]
fn statistics_sink_sees_every_event() {
    let mut sim = build(2, fixed(10), vec![periodic(5), periodic(5)]);
    let mut counter = Counter { events: 0, timers: 0, last_rounds: vec![] };
    let contexts = sim.loop_until(GlobalTime(30), &mut counter);
    assert_eq!(contexts[0].updates, vec![0, 5, 10, 15]);
    assert_eq!(counter.events, 8);
    assert_eq!(counter.timers, 8);
    assert_eq!(counter.last_rounds, vec![Round(4), Round(3)]);
}
