//! A discrete-event simulator for BFT consensus protocols: a virtual global clock, a queue
//! of scheduled events with cancellable node timers, the reaction to what a node's update
//! step asks for, and the signed records that nodes exchange.

use vstd::prelude::*;

pub mod base;
pub mod event;
pub mod node;
pub mod record;
pub mod simulator;
pub mod time;

verus! {

} // verus!
