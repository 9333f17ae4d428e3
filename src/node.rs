use vstd::prelude::*;

use crate::base::{Author, Round};
use crate::time::{Duration, NodeTime};

verus! {

/// What a node asks the simulator to do after an update step.
#[derive(Clone, Debug, PartialEq, Eq)]
pub struct NodeUpdateActions {
    /// Local time at which the node wishes to be updated again.
    pub next_scheduled_update: NodeTime,
    /// Nodes that should receive a notification.
    pub should_send: Vec<Author>,
    /// Whether every other node should receive a notification.
    pub should_broadcast: bool,
    /// Whether every other node should be queried.
    pub should_query_all: bool,
}

/// The protocol step of a consensus node.
pub trait ConsensusNode<Context> {
    /// Drives the protocol forward at local time `clock`.
    fn update_node(&mut self, clock: NodeTime, context: &mut Context) -> NodeUpdateActions;
}

/// Data synchronization between nodes: notifications, requests and responses.
pub trait DataSyncNode<Context, Notification, Request, Response> {
    /// The payload sent to the nodes that should be notified.
    fn create_notification(&self) -> Notification;

    /// The payload sent when querying other nodes.
    fn create_request(&self) -> Request;

    /// Consumes a notification, possibly asking the sender for more.
    fn handle_notification(&mut self, notification: Notification, context: &mut Context) -> Option<
        Request,
    >;

    /// Answers a request.
    fn handle_request(&self, request: Request) -> Response;

    /// Consumes a response at local time `clock`.
    fn handle_response(&mut self, response: Response, context: &mut Context, clock: NodeTime);
}

/// Reports the round a node is in.
pub trait ActiveRound {
    fn active_round(&self) -> Round;
}

/// The source of network delays: each call gives a fresh sample, in ticks.
pub trait DelaySampler {
    fn sample_delay(&mut self) -> Duration;
}

} // verus!
