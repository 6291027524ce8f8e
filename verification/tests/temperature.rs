use status_blocks::blocks::temperature::{Temperature, TemperatureConfig};
use status_blocks::blocks::{Block, Interval};
use status_blocks::errors::ErrorKind;
use status_blocks::input::{I3BarEvent, MouseButton};
use status_blocks::reading::Reading;
use status_blocks::sensors::{Chip, SensorInput, SubField};
use status_blocks::severity::State;
use status_blocks::widget::Spacing;

fn config() -> TemperatureConfig {
    TemperatureConfig {
        interval: TemperatureConfig::default_interval(),
        collapsed: TemperatureConfig::default_collapsed(),
        good: TemperatureConfig::default_good(),
        idle: TemperatureConfig::default_idle(),
        info: TemperatureConfig::default_info(),
        warning: TemperatureConfig::default_warning(),
        format: TemperatureConfig::default_format(),
        chip: TemperatureConfig::default_chip(),
        inputs: TemperatureConfig::default_inputs(),
    }
}

fn expanded() -> TemperatureConfig {
    TemperatureConfig { collapsed: false, ..config() }
}

fn block(config: TemperatureConfig) -> Temperature {
    Temperature::with_identity(config, "block-1".to_string()).unwrap()
}

fn chips(values: &[f64]) -> Vec<Chip> {
    let fields = values
        .iter()
        .enumerate()
        .map(|(i, v)| SubField { name: format!("temp{}_input", i), value: Reading::from_bits(v.to_bits()) })
        .collect();
    vec![Chip {
        name: "chip".to_string(),
        inputs: vec![SensorInput { name: "in".to_string(), fields: Some(fields) }],
    }]
}

fn left_click(target: &str) -> I3BarEvent {
    I3BarEvent { name: Some(target.to_string()), button: MouseButton::Left }
}

#[test]
fn defaults_are_the_documented_ones() {
    assert_eq!(TemperatureConfig::default_format(), "{average}° avg, {max}° max");
    assert_eq!(TemperatureConfig::default_interval(), Interval { nanos: 5_000_000_000 });
    assert!(TemperatureConfig::default_collapsed());
    assert_eq!(TemperatureConfig::default_good(), 20);
    assert_eq!(TemperatureConfig::default_idle(), 45);
    assert_eq!(TemperatureConfig::default_info(), 60);
    assert_eq!(TemperatureConfig::default_warning(), 80);
    assert_eq!(TemperatureConfig::default_chip(), None);
    assert_eq!(TemperatureConfig::default_inputs(), None);
}

#[test]
fn default_is_empty() {
    let config = TemperatureConfig::default();
    assert_eq!(config.interval, Interval { nanos: 0 });
    assert!(!config.collapsed);
    assert_eq!((config.good, config.idle, config.info, config.warning), (0, 0, 0, 0));
    assert_eq!(config.format, "");
    assert_eq!(config.chip, None);
    assert_eq!(config.inputs, None);
}

#[test]
fn new_block_is_collapsed_and_empty() {
    let temperature = block(config());
    assert_eq!(temperature.id(), "block-1");
    assert!(temperature.collapsed());
    assert_eq!(temperature.output(), "");
    let widgets = temperature.view();
    assert_eq!(widgets.len(), 1);
    assert_eq!(widgets[0].id(), "block-1");
    assert_eq!(widgets[0].icon(), "thermometer");
    assert_eq!(widgets[0].text(), "");
    assert_eq!(widgets[0].state(), State::Idle);
    assert_eq!(widgets[0].spacing(), Spacing::Hidden);
}

#[test]
fn new_block_expanded() {
    let temperature = block(expanded());
    assert!(!temperature.collapsed());
    assert_eq!(temperature.view()[0].spacing(), Spacing::Normal);
    assert_eq!(temperature.view()[0].text(), "");
}

#[test]
fn new_draws_an_identity() {
    let a = Temperature::new(config()).unwrap();
    let b = Temperature::new(config()).unwrap();
    assert_eq!(a.id().len(), 32);
    assert!(a.id().chars().all(|c| c.is_ascii_digit() || ('a'..='f').contains(&c)));
    assert_eq!(a.view()[0].id(), a.id());
    assert_ne!(a.id(), b.id());
}

#[test]
fn new_fails_on_unterminated_placeholder() {
    let broken = TemperatureConfig { format: "{average".to_string(), ..config() };
    let error = Temperature::new(broken).unwrap_err();
    assert_eq!(error.kind, ErrorKind::Construction);
    assert_eq!(error.block, "temperature");
    assert_eq!(error.message, "Invalid format specified for temperature");
    assert_eq!(error.describe(), "temperature: Invalid format specified for temperature");
}

#[test]
fn probe_asks_for_the_sensor_command() {
    let command = block(config()).probe().unwrap();
    assert_eq!(command.program, "sensors");
    assert_eq!(command.args, vec!["-j"]);
    let filtered = TemperatureConfig { chip: Some("coretemp-isa-0000".to_string()), ..config() };
    let command = block(filtered).probe().unwrap();
    assert_eq!(command.program, "sensors");
    assert_eq!(command.args, vec!["-j", "coretemp-isa-0000"]);
}

#[test]
fn apply_three_readings() {
    let mut temperature = block(expanded());
    let update = temperature.apply(&chips(&[18.0, 42.0, 61.0])).unwrap();
    assert_eq!(update.next, Some(Interval { nanos: 5_000_000_000 }));
    assert!(update.rejected.is_empty());
    assert_eq!(temperature.output(), "40° avg, 61° max");
    assert_eq!(temperature.view()[0].text(), "40° avg, 61° max");
    assert_eq!(temperature.view()[0].state(), State::Warning);
    assert_eq!(temperature.view()[0].spacing(), Spacing::Normal);
}

#[test]
fn apply_exposes_min() {
    let custom = TemperatureConfig { format: "{min}/{average}/{max}".to_string(), ..expanded() };
    let mut temperature = block(custom);
    temperature.apply(&chips(&[18.9, 42.2, 61.7, -3.5])).unwrap();
    assert_eq!(temperature.output(), "-3/30/61");
}

#[test]
fn apply_discards_readings_out_of_range() {
    let mut temperature = block(expanded());
    let update = temperature.apply(&chips(&[18.0, 151.0, 42.0, -101.0, 61.0, 5000.0])).unwrap();
    assert_eq!(temperature.output(), "40° avg, 61° max");
    let rejected: Vec<f64> = update.rejected.iter().map(|r| f64::from_bits(r.bits)).collect();
    assert_eq!(rejected, vec![151.0, -101.0, 5000.0]);
}

#[test]
fn apply_classifies_the_maximum() {
    for (max, state) in [
        (20.0, State::Good),
        (20.9, State::Good),
        (21.0, State::Idle),
        (45.0, State::Idle),
        (46.0, State::Info),
        (60.0, State::Info),
        (61.0, State::Warning),
        (80.0, State::Warning),
        (81.0, State::Critical),
        (150.0, State::Critical),
    ] {
        let mut temperature = block(expanded());
        temperature.apply(&chips(&[-20.0, max])).unwrap();
        assert_eq!(temperature.view()[0].state(), state, "maximum {}", max);
    }
}

#[test]
fn apply_collapsed_keeps_text_inside() {
    let mut temperature = block(config());
    temperature.apply(&chips(&[18.0, 42.0, 61.0])).unwrap();
    assert_eq!(temperature.output(), "40° avg, 61° max");
    assert_eq!(temperature.view()[0].text(), "");
    assert_eq!(temperature.view()[0].spacing(), Spacing::Hidden);
    assert_eq!(temperature.view()[0].state(), State::Warning);
}

#[test]
fn apply_without_valid_reading_changes_nothing() {
    let mut temperature = block(expanded());
    temperature.apply(&chips(&[18.0, 42.0, 61.0])).unwrap();
    for report in [chips(&[]), chips(&[900.0, -900.0]), Vec::new()] {
        let update = temperature.apply(&report).unwrap();
        assert_eq!(update.next, Some(Interval { nanos: 5_000_000_000 }));
        assert_eq!(temperature.output(), "40° avg, 61° max");
        assert_eq!(temperature.view()[0].text(), "40° avg, 61° max");
        assert_eq!(temperature.view()[0].state(), State::Warning);
        assert_eq!(temperature.view()[0].spacing(), Spacing::Normal);
    }
}

#[test]
fn apply_without_valid_reading_before_any_success() {
    let mut temperature = block(expanded());
    let update = temperature.apply(&chips(&[151.0])).unwrap();
    assert_eq!(update.next, Some(Interval { nanos: 5_000_000_000 }));
    assert_eq!(update.rejected.len(), 1);
    assert_eq!(temperature.output(), "");
    assert_eq!(temperature.view()[0].text(), "");
    assert_eq!(temperature.view()[0].state(), State::Idle);
}

#[test]
fn apply_hands_back_the_configured_interval() {
    let slow = TemperatureConfig { interval: Interval::from_secs(90), ..config() };
    let mut temperature = block(slow);
    let update = temperature.apply(&chips(&[30.0])).unwrap();
    assert_eq!(update.next, Some(Interval { nanos: 90_000_000_000 }));
}

#[test]
fn apply_fails_on_unknown_placeholder() {
    let custom = TemperatureConfig { format: "{average} {median}".to_string(), ..expanded() };
    let mut temperature = block(custom);
    let error = temperature.apply(&chips(&[18.0])).unwrap_err();
    assert_eq!(error.kind, ErrorKind::Render);
    assert_eq!(error.block, "temperature");
    assert_eq!(error.message, "Unknown placeholder in format string: median");
    assert_eq!(temperature.output(), "");
    assert_eq!(temperature.view()[0].text(), "");
    assert_eq!(temperature.view()[0].state(), State::Idle);
}

#[test]
fn apply_unknown_placeholder_does_not_matter_without_readings() {
    let custom = TemperatureConfig { format: "{median}".to_string(), ..expanded() };
    let mut temperature = block(custom);
    assert!(temperature.apply(&chips(&[])).is_ok());
}

#[test]
fn apply_respects_the_whitelist() {
    let listed = TemperatureConfig { inputs: Some(vec!["other".to_string()]), ..expanded() };
    let mut temperature = block(listed);
    temperature.apply(&chips(&[18.0, 42.0])).unwrap();
    assert_eq!(temperature.output(), "");
    let listed = TemperatureConfig { inputs: Some(vec!["in".to_string()]), ..expanded() };
    let mut temperature = block(listed);
    temperature.apply(&chips(&[18.0, 42.0])).unwrap();
    assert_eq!(temperature.output(), "30° avg, 42° max");
}

#[test]
fn update_decodes_the_report() {
    let mut temperature = block(expanded());
    let report = r#"{"coretemp-isa-0000": {"Adapter": "ISA adapter",
        "Core 0": {"temp2_input": 18.000, "temp2_max": 100.000},
        "Core 1": {"temp3_input": 42.000, "temp3_crit": 100.000},
        "Core 2": {"temp4_input": 61.000},
        "Fan": {"fan1_input": 1200.000}}}"#;
    let update = temperature.update(report).unwrap();
    assert_eq!(update.next, Some(Interval { nanos: 5_000_000_000 }));
    assert!(update.rejected.is_empty());
    assert_eq!(temperature.view()[0].text(), "40° avg, 61° max");
    assert_eq!(temperature.view()[0].state(), State::Warning);
}

#[test]
fn update_reports_readings_out_of_range() {
    let mut temperature = block(expanded());
    let report = r#"{"chip": {"a": {"temp1_input": 30.5}, "b": {"temp1_input": 65261.85}}}"#;
    let update = temperature.update(report).unwrap();
    assert_eq!(update.rejected, vec![Reading::from_bits(65261.85f64.to_bits())]);
    assert_eq!(temperature.view()[0].text(), "30° avg, 30° max");
}

#[test]
fn update_fails_on_invalid_report() {
    let mut temperature = block(expanded());
    temperature.update(r#"{"chip": {"a": {"temp1_input": 30.0}}}"#).unwrap();
    let error = temperature.update("No sensors found!").unwrap_err();
    assert_eq!(error.kind, ErrorKind::Parse);
    assert_eq!(error.block, "temperature");
    assert_eq!(error.message, "sensors output is invalid");
    assert_eq!(temperature.view()[0].text(), "30° avg, 30° max");
    assert_eq!(temperature.view()[0].state(), State::Idle);
}

#[test]
fn click_toggles() {
    let mut temperature = block(config());
    temperature.apply(&chips(&[18.0, 42.0, 61.0])).unwrap();
    assert!(temperature.click(&left_click("block-1")).is_none());
    assert!(!temperature.collapsed());
    assert_eq!(temperature.view()[0].text(), "40° avg, 61° max");
    assert_eq!(temperature.view()[0].spacing(), Spacing::Normal);
    assert!(temperature.click(&left_click("block-1")).is_none());
    assert!(temperature.collapsed());
    assert_eq!(temperature.view()[0].text(), "");
    assert_eq!(temperature.view()[0].spacing(), Spacing::Hidden);
    assert_eq!(temperature.output(), "40° avg, 61° max");
}

#[test]
fn click_twice_restores_text_and_spacing() {
    for start in [config(), expanded()] {
        let mut temperature = block(start);
        temperature.apply(&chips(&[18.0, 42.0, 61.0])).unwrap();
        let text = temperature.view()[0].text().to_string();
        let spacing = temperature.view()[0].spacing();
        let state = temperature.view()[0].state();
        temperature.click(&left_click("block-1"));
        temperature.click(&left_click("block-1"));
        assert_eq!(temperature.view()[0].text(), text);
        assert_eq!(temperature.view()[0].spacing(), spacing);
        assert_eq!(temperature.view()[0].state(), state);
        assert_eq!(temperature.output(), "40° avg, 61° max");
    }
}

#[test]
fn click_before_first_update_shows_empty_text() {
    let mut temperature = block(config());
    temperature.click(&left_click("block-1"));
    assert!(!temperature.collapsed());
    assert_eq!(temperature.view()[0].text(), "");
    assert_eq!(temperature.view()[0].spacing(), Spacing::Normal);
}

#[test]
fn click_elsewhere_changes_nothing() {
    let mut temperature = block(config());
    temperature.apply(&chips(&[18.0])).unwrap();
    let events = [
        left_click("block-2"),
        left_click(""),
        I3BarEvent { name: None, button: MouseButton::Left },
        I3BarEvent { name: Some("block-1".to_string()), button: MouseButton::Right },
        I3BarEvent { name: Some("block-1".to_string()), button: MouseButton::Middle },
        I3BarEvent { name: Some("block-1".to_string()), button: MouseButton::WheelUp },
        I3BarEvent { name: Some("block-1".to_string()), button: MouseButton::Unknown },
    ];
    for event in events.iter() {
        assert!(temperature.click(event).is_none());
        assert!(temperature.collapsed());
        assert_eq!(temperature.view()[0].text(), "");
        assert_eq!(temperature.view()[0].spacing(), Spacing::Hidden);
    }
}

#[test]
fn update_while_collapsed_then_expand() {
    let mut temperature = block(config());
    temperature.apply(&chips(&[10.0])).unwrap();
    temperature.apply(&chips(&[70.0, 72.4])).unwrap();
    temperature.click(&left_click("block-1"));
    assert_eq!(temperature.view()[0].text(), "71° avg, 72° max");
    assert_eq!(temperature.view()[0].state(), State::Warning);
}
