use status_blocks::blocks::temperature::{Temperature, TemperatureConfig};
use status_blocks::blocks::time::{Time, TimeConfig};
use status_blocks::blocks::{BarBlock, Block, Interval};
use status_blocks::input::{I3BarEvent, MouseButton};
use status_blocks::scheduler::Scheduler;
use status_blocks::severity::State;
use status_blocks::widget::Spacing;

const SECOND: u128 = 1_000_000_000;

fn temperature(id: &str, seconds: u64) -> Temperature {
    let config = TemperatureConfig {
        interval: Interval::from_secs(seconds),
        collapsed: false,
        good: 20,
        idle: 45,
        info: 60,
        warning: 80,
        format: "{max}".to_string(),
        chip: None,
        inputs: None,
    };
    Temperature::with_identity(config, id.to_string()).unwrap()
}

fn clock(id: &str, command: Option<&str>) -> Time {
    let config = TimeConfig {
        format: "%s".to_string(),
        interval: Interval::from_secs(1),
        on_click: command.map(|c| c.to_string()),
        timezone: None,
        locale: None,
    };
    Time::with_identity(config, id.to_string()).unwrap()
}

fn report(degrees: i64) -> String {
    format!("{{\"chip\": {{\"in\": {{\"temp1_input\": {}}}}}}}", degrees)
}

fn left_click(target: &str) -> I3BarEvent {
    I3BarEvent { name: Some(target.to_string()), button: MouseButton::Left }
}

fn three() -> Scheduler<Temperature> {
    let mut scheduler = Scheduler::new();
    assert_eq!(scheduler.register(temperature("a", 5), 0).ok(), Some(0));
    assert_eq!(scheduler.register(temperature("b", 7), 0).ok(), Some(1));
    assert_eq!(scheduler.register(temperature("c", 5), 0).ok(), Some(2));
    scheduler
}

fn texts(scheduler: &Scheduler<Temperature>) -> Vec<String> {
    scheduler.view().iter().map(|w| w.text().to_string()).collect()
}

#[test]
fn scheduler_starts_empty() {
    let scheduler: Scheduler<Temperature> = Scheduler::new();
    assert_eq!(scheduler.len(), 0);
    assert_eq!(scheduler.next_due(), None);
    assert!(scheduler.due_blocks(u128::MAX).is_empty());
    assert!(scheduler.view().is_empty());
}

#[test]
fn scheduler_registers_in_order() {
    let scheduler = three();
    assert_eq!(scheduler.len(), 3);
    assert_eq!(scheduler.block(0).id(), "a");
    assert_eq!(scheduler.block(1).id(), "b");
    assert_eq!(scheduler.block(2).id(), "c");
    let ids: Vec<&str> = scheduler.view().iter().map(|w| w.id()).collect();
    assert_eq!(ids, vec!["a", "b", "c"]);
}

#[test]
fn scheduler_refuses_a_second_block_of_one_identity() {
    let mut scheduler = three();
    let back = scheduler.register(temperature("b", 1), 0).unwrap_err();
    assert_eq!(back.id(), "b");
    assert_eq!(scheduler.len(), 3);
}

#[test]
fn scheduler_new_blocks_are_due_at_once() {
    let mut scheduler = Scheduler::new();
    scheduler.register(temperature("a", 5), 10 * SECOND).ok().unwrap();
    assert_eq!(scheduler.next_due(), Some(10 * SECOND));
    assert!(scheduler.due_blocks(10 * SECOND - 1).is_empty());
    assert_eq!(scheduler.due_blocks(10 * SECOND), vec![0]);
}

#[test]
fn scheduler_due_blocks_follow_registration_order() {
    let mut scheduler = three();
    assert_eq!(scheduler.due_blocks(0), vec![0, 1, 2]);
    scheduler.update(1, 0, &report(30), None).unwrap();
    assert_eq!(scheduler.due_blocks(0), vec![0, 2]);
    scheduler.update(0, 0, &report(30), None).unwrap();
    scheduler.update(2, 0, &report(30), None).unwrap();
    assert!(scheduler.due_blocks(5 * SECOND - 1).is_empty());
    assert_eq!(scheduler.due_blocks(5 * SECOND), vec![0, 2]);
    assert_eq!(scheduler.due_blocks(7 * SECOND), vec![0, 1, 2]);
}

#[test]
fn scheduler_next_due_is_the_earliest() {
    let mut scheduler = three();
    scheduler.update(0, 100, &report(30), None).unwrap();
    scheduler.update(1, 100, &report(30), None).unwrap();
    scheduler.update(2, 50, &report(30), None).unwrap();
    assert_eq!(scheduler.next_due(), Some(50 + 5 * SECOND));
}

#[test]
fn scheduler_counts_the_delay_from_now() {
    let mut scheduler = three();
    let late = 1000 * SECOND + 17;
    scheduler.update(1, late, &report(30), None).unwrap();
    scheduler.update(0, late, &report(30), None).unwrap();
    scheduler.update(2, late, &report(30), None).unwrap();
    assert_eq!(scheduler.next_due(), Some(late + 5 * SECOND));
    assert!(scheduler.due_blocks(late + 5 * SECOND - 1).is_empty());
    assert_eq!(scheduler.due_blocks(late + 5 * SECOND), vec![0, 2]);
}

#[test]
fn scheduler_delay_stops_at_the_largest_time() {
    let mut scheduler = three();
    scheduler.update(0, u128::MAX - 1, &report(30), None).unwrap();
    scheduler.update(1, u128::MAX - 1, &report(30), None).unwrap();
    scheduler.update(2, u128::MAX - 1, &report(30), None).unwrap();
    assert_eq!(scheduler.next_due(), Some(u128::MAX));
}

#[test]
fn scheduler_update_changes_one_block() {
    let mut scheduler = three();
    let update = scheduler.update(1, 0, &report(61), None).unwrap();
    assert_eq!(update.next, Some(Interval::from_secs(7)));
    assert_eq!(texts(&scheduler), vec!["", "61", ""]);
    assert_eq!(scheduler.block(1).view()[0].state(), State::Warning);
    assert_eq!(scheduler.block(0).view()[0].state(), State::Idle);
}

#[test]
fn scheduler_failed_update_follows_the_retry_policy() {
    let mut scheduler = three();
    scheduler.update(0, 0, &report(30), None).unwrap();
    scheduler.update(2, 0, &report(30), None).unwrap();
    assert!(scheduler.update(1, 0, "garbage", Some(Interval::from_secs(2))).is_err());
    assert_eq!(scheduler.next_due(), Some(2 * SECOND));
    assert_eq!(scheduler.due_blocks(2 * SECOND), vec![1]);
    assert!(scheduler.update(1, 2 * SECOND, "garbage", None).is_err());
    assert_eq!(scheduler.next_due(), Some(5 * SECOND));
    assert_eq!(scheduler.due_blocks(u128::MAX), vec![0, 2]);
    assert_eq!(texts(&scheduler), vec!["30", "", "30"]);
}

#[test]
fn scheduler_probe_forwards_to_the_block() {
    let scheduler = three();
    let command = scheduler.probe(2).unwrap();
    assert_eq!(command.program, "sensors");
    assert_eq!(command.args, vec!["-j"]);
    let mut clocks = Scheduler::new();
    clocks.register(clock("t", None), 0).ok().unwrap();
    assert!(clocks.probe(0).is_none());
}

#[test]
fn scheduler_click_reaches_the_target_only() {
    let mut scheduler = three();
    for index in 0..3 {
        scheduler.update(index, 0, &report(30 + index as i64), None).unwrap();
    }
    assert!(scheduler.click(&left_click("b")).is_empty());
    assert_eq!(texts(&scheduler), vec!["30", "", "32"]);
    assert_eq!(scheduler.block(1).view()[0].spacing(), Spacing::Hidden);
    assert_eq!(scheduler.block(0).view()[0].spacing(), Spacing::Normal);
    assert!(scheduler.click(&left_click("b")).is_empty());
    assert_eq!(texts(&scheduler), vec!["30", "31", "32"]);
}

#[test]
fn scheduler_click_without_target_changes_nothing() {
    let mut scheduler = three();
    for index in 0..3 {
        scheduler.update(index, 0, &report(30 + index as i64), None).unwrap();
    }
    let due = scheduler.next_due();
    for event in [
        left_click("nobody"),
        left_click(""),
        I3BarEvent { name: None, button: MouseButton::Left },
        I3BarEvent { name: None, button: MouseButton::Right },
    ] {
        assert!(scheduler.click(&event).is_empty());
        assert_eq!(texts(&scheduler), vec!["30", "31", "32"]);
        assert!(!scheduler.block(0).collapsed());
        assert!(!scheduler.block(1).collapsed());
        assert!(!scheduler.block(2).collapsed());
        assert_eq!(scheduler.next_due(), due);
    }
}

#[test]
fn scheduler_click_does_not_reschedule() {
    let mut scheduler = three();
    scheduler.update(0, 0, &report(30), None).unwrap();
    scheduler.click(&left_click("a"));
    assert_eq!(scheduler.due_blocks(0), vec![1, 2]);
    assert_eq!(scheduler.due_blocks(5 * SECOND), vec![0, 1, 2]);
}

#[test]
fn scheduler_click_collects_commands() {
    let mut scheduler = Scheduler::new();
    scheduler.register(clock("one", Some("cal")), 0).ok().unwrap();
    scheduler.register(clock("two", Some("date")), 0).ok().unwrap();
    scheduler.register(clock("three", None), 0).ok().unwrap();
    let launched = scheduler.click(&left_click("two"));
    assert_eq!(launched.len(), 1);
    assert_eq!(launched[0].program, "sh");
    assert_eq!(launched[0].args, vec!["-c", "date"]);
    assert!(scheduler.click(&left_click("three")).is_empty());
    assert!(scheduler.click(&left_click("four")).is_empty());
}

#[test]
fn scheduler_polls_a_clock() {
    let mut scheduler = Scheduler::new();
    scheduler.register(clock("t", None), 0).ok().unwrap();
    let update = scheduler.update(0, 3 * SECOND, "", None).unwrap();
    assert_eq!(update.next, Some(Interval::from_secs(1)));
    assert_eq!(scheduler.next_due(), Some(4 * SECOND));
    let shown: i64 = scheduler.view()[0].text().parse().unwrap();
    assert!(shown > 1_700_000_000);
}

#[test]
fn scheduler_holds_blocks_of_both_kinds() {
    let mut scheduler = Scheduler::new();
    scheduler.register(BarBlock::Temperature(temperature("heat", 5)), 0).ok().unwrap();
    scheduler.register(BarBlock::Time(clock("clock", Some("cal"))), 0).ok().unwrap();
    assert!(scheduler.register(BarBlock::Time(clock("heat", None)), 0).is_err());
    assert_eq!(scheduler.len(), 2);
    assert_eq!(scheduler.probe(0).unwrap().program, "sensors");
    assert!(scheduler.probe(1).is_none());
    scheduler.update(0, 0, &report(50), None).unwrap();
    scheduler.update(1, 0, "", None).unwrap();
    let widgets = scheduler.view();
    assert_eq!(widgets.len(), 2);
    assert_eq!(widgets[0].text(), "50");
    assert_eq!(widgets[0].icon(), "thermometer");
    assert_eq!(widgets[0].state(), State::Info);
    assert_eq!(widgets[1].icon(), "time");
    assert!(widgets[1].text().parse::<i64>().unwrap() > 1_700_000_000);
    assert_eq!(scheduler.next_due(), Some(SECOND));
    let launched = scheduler.click(&left_click("clock"));
    assert_eq!(launched.len(), 1);
    assert_eq!(launched[0].args, vec!["-c", "cal"]);
    assert!(scheduler.click(&left_click("heat")).is_empty());
    assert_eq!(scheduler.view()[0].spacing(), Spacing::Hidden);
    assert_eq!(scheduler.block(0).id(), "heat");
    assert_eq!(scheduler.block(1).id(), "clock");
}
