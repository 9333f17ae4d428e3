use bft_simulator::simulator::startup_time_after;
use bft_simulator::time::{GlobalTime, NodeTime};

#[test]
fn node_time_conversions_are_inverse() {
    let startup = GlobalTime(11);
    assert_eq!(GlobalTime(25).to_node_time(startup), NodeTime(14));
    assert_eq!(GlobalTime::from_node_time(NodeTime(14), startup), GlobalTime(25));
    assert_eq!(GlobalTime(3).to_node_time(startup), NodeTime(-8));
}

#[test]
fn add_and_delay() {
    assert_eq!(GlobalTime(10).add(-1), GlobalTime(9));
    assert_eq!(GlobalTime(10).add_delay(7), GlobalTime(17));
    assert_eq!(GlobalTime(i64::MAX - 1).add_delay(7), GlobalTime(i64::MAX));
    assert_eq!(GlobalTime(i64::MIN + 1).add_delay(-7), GlobalTime(i64::MIN));
}

#[test]
fn startup_is_one_tick_after_the_delay() {
    assert_eq!(startup_time_after(10), GlobalTime(11));
    assert_eq!(startup_time_after(0), GlobalTime(1));
    assert_eq!(startup_time_after(-4), GlobalTime(1));
    assert_eq!(startup_time_after(i64::MAX), GlobalTime(i64::MAX));
}
