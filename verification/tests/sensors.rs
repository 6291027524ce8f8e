use status_blocks::reading::Reading;
use status_blocks::sensors::{
    is_admitted, is_temperature_field, read_sensors, sift, temperature_readings, Chip, SensorInput,
    SubField,
};

const REPORT: &str = r#"{
   "coretemp-isa-0000":{
      "Adapter": "ISA adapter",
      "Package id 0":{
         "temp1_input": 42.000,
         "temp1_max": 100.000,
         "temp1_crit": 100.000,
         "temp1_crit_alarm": 0.000
      },
      "Core 0":{
         "temp2_input": 18.500,
         "temp2_max": 100.000
      }
   },
   "acpitz-acpi-0":{
      "Adapter": "ACPI interface",
      "temp1":{
         "temp1_input": 61,
         "temp1_crit": 128.000
      }
   }
}"#;

fn reading(value: f64) -> Reading {
    Reading::from_bits(value.to_bits())
}

fn field(name: &str, value: f64) -> SubField {
    SubField { name: name.to_string(), value: reading(value) }
}

fn input(name: &str, fields: Option<Vec<SubField>>) -> SensorInput {
    SensorInput { name: name.to_string(), fields }
}

fn values_of(readings: &[Reading]) -> Vec<f64> {
    readings.iter().map(|r| f64::from_bits(r.bits)).collect()
}

#[test]
fn read_sensors_decodes_chips_in_name_order() {
    let chips = read_sensors(REPORT).unwrap();
    assert_eq!(chips.len(), 2);
    assert_eq!(chips[0].name, "acpitz-acpi-0");
    assert_eq!(chips[1].name, "coretemp-isa-0000");
    let names: Vec<&str> = chips[1].inputs.iter().map(|i| i.name.as_str()).collect();
    assert_eq!(names, vec!["Adapter", "Core 0", "Package id 0"]);
}

#[test]
fn read_sensors_skips_what_is_no_object_of_numbers() {
    let chips = read_sensors(REPORT).unwrap();
    let adapter = &chips[1].inputs[0];
    assert_eq!(adapter.name, "Adapter");
    assert!(adapter.fields.is_none());
    let mixed = read_sensors(r#"{"chip": {"in": {"temp1_input": 40.0, "label": "x"}}}"#).unwrap();
    assert!(mixed[0].inputs[0].fields.is_none());
    let nested = read_sensors(r#"{"chip": {"in": {"temp1_input": {"deep": 1}}}}"#).unwrap();
    assert!(nested[0].inputs[0].fields.is_none());
    let list = read_sensors(r#"{"chip": {"in": [1, 2]}}"#).unwrap();
    assert!(list[0].inputs[0].fields.is_none());
    let nothing = read_sensors(r#"{"chip": {"in": null}}"#).unwrap();
    assert!(nothing[0].inputs[0].fields.is_none());
}

#[test]
fn read_sensors_keeps_the_numbers_exactly() {
    let chips = read_sensors(REPORT).unwrap();
    let core = chips[1].inputs[1].fields.as_ref().unwrap();
    assert_eq!(core.len(), 2);
    assert_eq!(core[0].name, "temp2_input");
    assert_eq!(core[0].value.bits, 18.5f64.to_bits());
    assert_eq!(core[1].name, "temp2_max");
    assert_eq!(core[1].value.bits, 100f64.to_bits());
    let whole = chips[0].inputs[1].fields.as_ref().unwrap();
    assert_eq!(whole[1].name, "temp1_input");
    assert_eq!(whole[1].value.bits, 61f64.to_bits());
    let negative = read_sensors(r#"{"c": {"i": {"temp1_input": -7, "temp2_input": -0.25}}}"#).unwrap();
    let fields = negative[0].inputs[0].fields.as_ref().unwrap();
    assert_eq!(fields[0].value.bits, (-7f64).to_bits());
    assert_eq!(fields[1].value.bits, (-0.25f64).to_bits());
}

#[test]
fn read_sensors_refuses_what_is_no_report() {
    assert!(read_sensors("").is_none());
    assert!(read_sensors("sensors: command not found").is_none());
    assert!(read_sensors("[]").is_none());
    assert!(read_sensors("{\"chip\": 3}").is_none());
    assert!(read_sensors("{\"chip\": {}} trailing").is_none());
    assert!(read_sensors("{\"chip\": {\"in\": 1e999}}").is_none());
}

#[test]
fn read_sensors_accepts_an_empty_report() {
    assert_eq!(read_sensors("{}").unwrap().len(), 0);
    let chips = read_sensors("{\"chip\": {}}").unwrap();
    assert_eq!(chips.len(), 1);
    assert_eq!(chips[0].inputs.len(), 0);
}

#[test]
fn read_sensors_last_duplicate_wins() {
    let chips = read_sensors(r#"{"c": {"i": {"temp1_input": 1.0, "temp1_input": 2.0}}}"#).unwrap();
    let fields = chips[0].inputs[0].fields.as_ref().unwrap();
    assert_eq!(fields.len(), 1);
    assert_eq!(fields[0].value.bits, 2f64.to_bits());
}

#[test]
fn temperature_field_needs_prefix_and_suffix() {
    assert!(is_temperature_field("temp1_input"));
    assert!(is_temperature_field("tempinput"));
    assert!(is_temperature_field("temp_anything_input"));
    assert!(!is_temperature_field("temp1_max"));
    assert!(!is_temperature_field("fan1_input"));
    assert!(!is_temperature_field("temp"));
    assert!(!is_temperature_field("input"));
    assert!(!is_temperature_field("tempnput"));
    assert!(!is_temperature_field(""));
}

#[test]
fn admitted_without_whitelist() {
    assert!(is_admitted("Core 0", &None));
    assert!(is_admitted("", &None));
}

#[test]
fn admitted_by_whitelist() {
    let whitelist = Some(vec!["Core 0".to_string(), "Core 1".to_string()]);
    assert!(is_admitted("Core 0", &whitelist));
    assert!(is_admitted("Core 1", &whitelist));
    assert!(!is_admitted("Core 2", &whitelist));
    assert!(!is_admitted("core 0", &whitelist));
    assert!(!is_admitted("Core 0", &Some(Vec::new())));
}

#[test]
fn temperature_readings_of_a_report() {
    let chips = read_sensors(REPORT).unwrap();
    let found = temperature_readings(&chips, &None);
    assert_eq!(values_of(&found), vec![61.0, 18.5, 42.0]);
}

#[test]
fn temperature_readings_through_a_whitelist() {
    let chips = read_sensors(REPORT).unwrap();
    let found = temperature_readings(&chips, &Some(vec!["Core 0".to_string()]));
    assert_eq!(values_of(&found), vec![18.5]);
    let none = temperature_readings(&chips, &Some(vec!["Core 9".to_string()]));
    assert_eq!(none.len(), 0);
}

#[test]
fn temperature_readings_in_the_order_given() {
    let chips = vec![
        Chip {
            name: "b".to_string(),
            inputs: vec![
                input("x", Some(vec![field("temp1_input", 3.0), field("temp1_max", 90.0)])),
                input("Adapter", None),
                input("y", Some(vec![field("temp2_input", 1.0), field("temp3_input", 2.0)])),
            ],
        },
        Chip { name: "a".to_string(), inputs: vec![input("z", Some(vec![field("temp9_input", 200.0)]))] },
        Chip { name: "c".to_string(), inputs: Vec::new() },
    ];
    let found = temperature_readings(&chips, &None);
    assert_eq!(values_of(&found), vec![3.0, 1.0, 2.0, 200.0]);
}

#[test]
fn sift_keeps_readings_in_range() {
    let readings = vec![reading(18.9), reading(151.0), reading(-100.5), reading(-101.0), reading(150.5)];
    let (kept, dropped) = sift(&readings);
    assert_eq!(kept, vec![18, -100, 150]);
    assert_eq!(values_of(&dropped), vec![151.0, -101.0]);
}

#[test]
fn sift_of_nothing() {
    let (kept, dropped) = sift(&Vec::new());
    assert!(kept.is_empty());
    assert!(dropped.is_empty());
}

#[test]
fn sift_one_more_reading() {
    let mut readings = vec![reading(10.0), reading(999.0)];
    let (kept, dropped) = sift(&readings);
    readings.push(reading(20.7));
    let (kept_more, dropped_more) = sift(&readings);
    assert_eq!(kept_more[..kept.len()], kept[..]);
    assert_eq!(kept_more[kept.len()..], [20]);
    assert_eq!(dropped_more, dropped);
    readings.push(reading(-500.0));
    let (kept_last, dropped_last) = sift(&readings);
    assert_eq!(kept_last, kept_more);
    assert_eq!(dropped_last.len(), dropped_more.len() + 1);
    assert_eq!(dropped_last[dropped_more.len()], reading(-500.0));
}

#[test]
fn read_sensors_keeps_large_whole_numbers_as_binary64() {
    let chips =
        read_sensors(r#"{"c": {"i": {"temp1_input": 18446744073709551615, "temp2_input": -9223372036854775808}}}"#)
            .unwrap();
    let fields = chips[0].inputs[0].fields.as_ref().unwrap();
    assert_eq!(fields[0].value.bits, 18446744073709551615f64.to_bits());
    assert_eq!(fields[1].value.bits, (-9223372036854775808f64).to_bits());
}
