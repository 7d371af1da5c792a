use govee_bridge::hass_mqtt::work_mode::{
    label_override_for, make_preset_label, ParsedWorkMode, WorkMode, WorkModeError,
};
use govee_bridge::platform_api::{
    DeviceCapability, DeviceCapabilityKind, DeviceParameters, EnumOption, ModeOption, ModeRange,
    OptionExtras, StructField,
};
use govee_bridge::service::device::{Device, HttpDeviceInfo};
use serde_json::Value as JsonValue;

fn unnamed(values: &[i64]) -> OptionExtras {
    OptionExtras {
        range: None,
        options: Some(
            values.iter().map(|v| ModeOption { name: None, value: JsonValue::from(*v) }).collect(),
        ),
    }
}

fn named(values: &[(&str, i64)]) -> OptionExtras {
    OptionExtras {
        range: None,
        options: Some(
            values
                .iter()
                .map(|(n, v)| ModeOption { name: Some(n.to_string()), value: JsonValue::from(*v) })
                .collect(),
        ),
    }
}

fn ranged(min: i64, max: i64) -> OptionExtras {
    OptionExtras { range: Some(ModeRange { min, max }), options: None }
}

fn field(name: &str, options: Vec<EnumOption>) -> StructField {
    StructField {
        field_name: name.to_string(),
        field_type: DeviceParameters::Enum { options },
        default_value: None,
        required: true,
    }
}

fn capability(fields: Vec<StructField>) -> DeviceCapability {
    DeviceCapability {
        kind: DeviceCapabilityKind::WorkMode,
        instance: "workMode".to_string(),
        parameters: Some(DeviceParameters::Struct { fields }),
    }
}

fn work_mode_capability(modes: Vec<EnumOption>, mode_values: Vec<EnumOption>) -> DeviceCapability {
    capability(vec![field("workMode", modes), field("modeValue", mode_values)])
}

fn selector(name: &str, value: i64) -> EnumOption {
    EnumOption {
        name: name.to_string(),
        value: JsonValue::from(value),
        extras: OptionExtras::unknown(),
    }
}

fn describes(name: &str, extras: OptionExtras) -> EnumOption {
    EnumOption { name: name.to_string(), value: JsonValue::Null, extras }
}

fn mode<'a>(wm: &'a ParsedWorkMode, name: &str) -> &'a WorkMode {
    wm.mode_by_name(name).unwrap()
}

fn keys(wm: &ParsedWorkMode) -> Vec<String> {
    wm.modes.iter().map(|e| e.key.clone()).collect()
}

fn assert_bare(mode: &WorkMode, name: &str, value: i64) {
    assert_eq!(mode.name, name);
    assert_eq!(mode.value, JsonValue::from(value));
    assert_eq!(mode.label, "");
    assert!(mode.values.is_empty());
}

fn device_with(sku: &str, capabilities: Vec<DeviceCapability>) -> Device {
    let mut device = Device::new(sku, "AA:BB:CC:DD:EE:FF:00:11");
    device.set_http_device_info(HttpDeviceInfo {
        sku: sku.to_string(),
        device: "AA:BB:CC:DD:EE:FF:00:11".to_string(),
        device_name: "Bedroom".to_string(),
        capabilities,
    });
    device
}

#[test]
fn test_work_mode_parser() {
    let cap = work_mode_capability(
        vec![selector("Normal", 1)],
        vec![describes("Normal", unnamed(&[1, 2, 3, 4, 5, 6, 7, 8]))],
    );

    let wm = ParsedWorkMode::with_capability(&cap).unwrap();

    // We shouldn't show this as a set of preset buttons, because
    // we should get a contiguous range that we can show as a slider
    assert!(mode(&wm, "Normal").contiguous_value_range().is_some());
    assert!(!mode(&wm, "Normal").should_show_as_preset());

    assert_eq!(keys(&wm), vec!["Normal"]);
    let normal = mode(&wm, "Normal");
    assert_bare(normal, "Normal", 1);
    assert_eq!(normal.value_range, Some(1..9));
}

#[test]
fn test_work_mode_parser2() {
    let cap = work_mode_capability(
        vec![selector("Manual", 1), selector("Custom", 2), selector("Auto", 3)],
        vec![
            describes("Manual", unnamed(&[1, 2, 3, 4, 5, 6, 7, 8, 9])),
            describes("Custom", OptionExtras::unknown()),
            describes("Auto", ranged(40, 80)),
        ],
    );

    let wm = ParsedWorkMode::with_capability(&cap).unwrap();

    // We shouldn't show this as a set of preset buttons, because
    // we should get a contiguous range that we can show as a slider
    let auto_mode = wm.mode_by_name("Auto").unwrap();
    assert!(auto_mode.contiguous_value_range().is_some());

    assert_eq!(keys(&wm), vec!["Auto", "Custom", "Manual"]);
    assert_bare(mode(&wm, "Auto"), "Auto", 3);
    assert_eq!(mode(&wm, "Auto").value_range, Some(40..81));
    assert_bare(mode(&wm, "Custom"), "Custom", 2);
    assert_eq!(mode(&wm, "Custom").value_range, None);
    assert_bare(mode(&wm, "Manual"), "Manual", 1);
    assert_eq!(mode(&wm, "Manual").value_range, Some(1..10));
}

#[test]
fn test_work_mode_parser3() {
    let cap = work_mode_capability(
        vec![selector("Normal", 1)],
        // hole at 3
        vec![describes("Normal", unnamed(&[1, 2, 4]))],
    );

    let wm = ParsedWorkMode::with_capability(&cap).unwrap();

    assert!(mode(&wm, "Normal").contiguous_value_range().is_none());

    assert_eq!(keys(&wm), vec!["Normal"]);
    let normal = mode(&wm, "Normal");
    assert_eq!(normal.name, "Normal");
    assert_eq!(normal.value, JsonValue::from(1));
    assert_eq!(normal.label, "");
    assert_eq!(normal.value_range, None);
    assert_eq!(normal.values.len(), 3);
    let expected = [
        (1, "Activate Normal Preset 1"),
        (2, "Activate Normal Preset 2"),
        (4, "Activate Normal Preset 4"),
    ];
    for (held, (value, label)) in normal.values.iter().zip(expected) {
        assert_eq!(held.value, JsonValue::from(value));
        assert_eq!(held.name, None);
        assert_eq!(held.computed_label, label);
    }
}

#[test]
fn test_work_mode_parser4() {
    let cap = work_mode_capability(
        vec![
            selector("FanSpeed", 1),
            selector("Custom", 2),
            selector("Auto", 3),
            selector("Sleep", 5),
            selector("Nature", 6),
            selector("Storm", 7),
        ],
        vec![
            describes("FanSpeed", unnamed(&[1, 2, 3, 4, 5, 6, 7, 8])),
            describes("Custom", OptionExtras::unknown()),
            describes("Auto", OptionExtras::unknown()),
            describes("Sleep", OptionExtras::unknown()),
            describes("Nature", OptionExtras::unknown()),
            describes("Storm", OptionExtras::unknown()),
        ],
    );

    let wm = ParsedWorkMode::with_capability(&cap).unwrap();

    assert!(!wm.mode_by_name("FanSpeed").unwrap().should_show_as_preset());
    assert!(wm.mode_by_name("Auto").unwrap().should_show_as_preset());

    assert_eq!(keys(&wm), vec!["Auto", "Custom", "FanSpeed", "Nature", "Sleep", "Storm"]);
    let expected = [
        ("Auto", 3, None),
        ("Custom", 2, None),
        ("FanSpeed", 1, Some(1..9)),
        ("Nature", 6, None),
        ("Sleep", 5, None),
        ("Storm", 7, None),
    ];
    for (name, value, range) in expected {
        assert_bare(mode(&wm, name), name, value);
        assert_eq!(mode(&wm, name).value_range, range);
    }
}

#[test]
fn contiguous_values_in_any_order_are_a_slider() {
    let mut m = WorkMode::new("Normal".to_string(), JsonValue::from(1));
    m.add_values(&describes("Normal", unnamed(&[4, 2, 1, 3])));
    assert_eq!(m.value_range, Some(1..5));
    assert!(m.values.is_empty());
    assert_eq!(m.contiguous_value_range(), Some(1..5));
    assert!(!m.should_show_as_preset());
}

#[test]
fn a_single_unnamed_value_is_a_slider_of_one() {
    let mut m = WorkMode::new("Normal".to_string(), JsonValue::from(1));
    m.add_values(&describes("Normal", unnamed(&[-7])));
    assert_eq!(m.value_range, Some(-7..-6));
}

#[test]
fn repeated_values_are_presets() {
    let mut m = WorkMode::new("Normal".to_string(), JsonValue::from(1));
    m.add_values(&describes("Normal", unnamed(&[1, 1, 2])));
    assert_eq!(m.value_range, None);
    assert_eq!(m.values.len(), 3);
    assert_eq!(m.contiguous_value_range(), None);
    assert!(!m.should_show_as_preset());
}

#[test]
fn named_values_are_presets_even_when_contiguous() {
    let mut m = WorkMode::new("Normal".to_string(), JsonValue::from(1));
    m.add_values(&describes("Normal", named(&[("Low", 1), ("Medium", 2), ("High", 3)])));
    assert_eq!(m.contiguous_value_range(), None);
    assert_eq!(m.value_range, None);
    let labels: Vec<&str> = m.values.iter().map(|v| v.computed_label.as_str()).collect();
    assert_eq!(
        labels,
        vec![
            "Activate Normal Preset Low",
            "Activate Normal Preset Medium",
            "Activate Normal Preset High"
        ]
    );
}

#[test]
fn one_named_value_among_unnamed_ones_rules_the_slider_out() {
    let mut m = WorkMode::new("Normal".to_string(), JsonValue::from(1));
    m.add_values(&describes(
        "Normal",
        OptionExtras {
            range: None,
            options: Some(vec![
                ModeOption { name: None, value: JsonValue::from(1) },
                ModeOption { name: Some("Two".to_string()), value: JsonValue::from(2) },
            ]),
        },
    ));
    assert_eq!(m.contiguous_value_range(), None);
    assert_eq!(m.values[0].computed_label, "Activate Normal Preset 1");
    assert_eq!(m.values[1].computed_label, "Activate Normal Preset Two");
}

#[test]
fn values_that_are_no_integers_are_presets_labelled_with_their_json_text() {
    let mut m = WorkMode::new("Scene".to_string(), JsonValue::from(4));
    m.add_values(&describes(
        "Scene",
        OptionExtras {
            range: None,
            options: Some(vec![
                ModeOption { name: None, value: JsonValue::from("warm") },
                ModeOption { name: None, value: JsonValue::Bool(true) },
                ModeOption { name: None, value: JsonValue::Null },
                ModeOption { name: None, value: JsonValue::from(u64::MAX) },
            ]),
        },
    ));
    assert_eq!(m.contiguous_value_range(), None);
    let labels: Vec<&str> = m.values.iter().map(|v| v.computed_label.as_str()).collect();
    assert_eq!(
        labels,
        vec![
            "Activate Scene Preset \"warm\"",
            "Activate Scene Preset true",
            "Activate Scene Preset null",
            "Activate Scene Preset 18446744073709551615"
        ]
    );
}

#[test]
fn preset_label_has_the_exact_format() {
    assert_eq!(make_preset_label("Normal", "4"), "Activate Normal Preset 4");
    assert_eq!(make_preset_label("", ""), "Activate  Preset ");
}

#[test]
fn a_declared_range_wins_over_options_beside_it() {
    let mut m = WorkMode::new("Auto".to_string(), JsonValue::from(3));
    let mut extras = named(&[("Low", 1), ("High", 7)]);
    extras.range = Some(ModeRange { min: 40, max: 80 });
    m.add_values(&describes("Auto", extras));
    assert_eq!(m.value_range, Some(40..81));
    assert!(m.values.is_empty());
    assert_eq!(m.contiguous_value_range(), Some(40..81));
}

#[test]
fn unknown_extras_change_nothing() {
    let mut m = WorkMode::new("Custom".to_string(), JsonValue::from(2));
    m.add_values(&describes("Custom", OptionExtras::unknown()));
    assert_bare(&m, "Custom", 2);
    assert_eq!(m.value_range, None);
    assert!(m.should_show_as_preset());
}

#[test]
fn an_empty_option_list_leaves_a_bare_selector() {
    let mut m = WorkMode::new("Custom".to_string(), JsonValue::from(2));
    m.add_values(&describes("Custom", unnamed(&[])));
    assert!(m.values.is_empty());
    assert_eq!(m.value_range, None);
    assert!(m.should_show_as_preset());
}

#[test]
fn a_mode_without_mode_value_entry_is_a_bare_selector() {
    let cap = work_mode_capability(vec![selector("Normal", 1), selector("Sleep", 2)], vec![]);
    let wm = ParsedWorkMode::with_capability(&cap).unwrap();
    let normal = mode(&wm, "Normal");
    assert!(normal.values.is_empty());
    assert_eq!(normal.value_range, None);
    assert!(normal.should_show_as_preset());
}

#[test]
fn a_capability_without_mode_value_field_parses() {
    let cap = capability(vec![field("workMode", vec![selector("Normal", 1)])]);
    let wm = ParsedWorkMode::with_capability(&cap).unwrap();
    assert_eq!(keys(&wm), vec!["Normal"]);
    assert!(mode(&wm, "Normal").should_show_as_preset());
}

#[test]
fn mode_values_for_unknown_modes_are_passed_over() {
    let cap = work_mode_capability(
        vec![selector("Normal", 1)],
        vec![describes("Turbo", ranged(1, 3)), describes("Normal", ranged(5, 6))],
    );
    let wm = ParsedWorkMode::with_capability(&cap).unwrap();
    assert_eq!(keys(&wm), vec!["Normal"]);
    assert_eq!(mode(&wm, "Normal").value_range, Some(5..7));
    assert!(wm.mode_by_name("Turbo").is_none());
}

#[test]
fn range_and_values_are_never_both_there() {
    let cap = work_mode_capability(
        vec![selector("A", 1), selector("B", 2), selector("C", 3), selector("D", 4)],
        vec![
            describes("A", unnamed(&[3, 4, 5])),
            describes("B", unnamed(&[3, 5])),
            describes("C", ranged(0, 100)),
            describes("D", named(&[("x", 1)])),
        ],
    );
    let wm = ParsedWorkMode::with_capability(&cap).unwrap();
    for entry in wm.modes.iter() {
        assert!(!(entry.mode.value_range.is_some() && !entry.mode.values.is_empty()));
    }
    assert_eq!(mode(&wm, "A").value_range, Some(3..6));
    assert_eq!(mode(&wm, "B").values.len(), 2);
    assert_eq!(mode(&wm, "C").value_range, Some(0..101));
    assert_eq!(mode(&wm, "D").values.len(), 1);
}

#[test]
fn options_after_a_declared_range_are_dropped_in_favour_of_the_range() {
    let mut m = WorkMode::new("Auto".to_string(), JsonValue::from(3));
    m.add_values(&describes("Auto", ranged(40, 80)));
    m.add_values(&describes("Auto", unnamed(&[1, 5])));
    assert_eq!(m.value_range, Some(40..81));
    assert!(m.values.is_empty());
}

#[test]
fn later_options_are_judged_together_with_earlier_ones() {
    let mut m = WorkMode::new("Normal".to_string(), JsonValue::from(1));
    m.add_values(&describes("Normal", unnamed(&[1, 3])));
    assert_eq!(m.values.len(), 2);
    m.add_values(&describes("Normal", unnamed(&[2])));
    assert_eq!(m.value_range, Some(1..4));
    assert!(m.values.is_empty());
}

#[test]
fn parsing_fails_without_work_mode_field() {
    let cap = capability(vec![field("modeValue", vec![describes("Normal", ranged(1, 2))])]);
    assert_eq!(
        ParsedWorkMode::with_capability(&cap).unwrap_err(),
        WorkModeError::WorkModeFieldMissing
    );
    let no_parameters = DeviceCapability {
        kind: DeviceCapabilityKind::WorkMode,
        instance: "workMode".to_string(),
        parameters: None,
    };
    assert_eq!(
        ParsedWorkMode::with_capability(&no_parameters).unwrap_err(),
        WorkModeError::WorkModeFieldMissing
    );
    let enum_parameters = DeviceCapability {
        kind: DeviceCapabilityKind::WorkMode,
        instance: "workMode".to_string(),
        parameters: Some(DeviceParameters::Enum { options: vec![selector("workMode", 1)] }),
    };
    assert_eq!(
        ParsedWorkMode::with_capability(&enum_parameters).unwrap_err(),
        WorkModeError::WorkModeFieldMissing
    );
}

#[test]
fn a_work_mode_field_that_is_a_struct_declares_no_modes() {
    let cap = capability(vec![StructField {
        field_name: "workMode".to_string(),
        field_type: DeviceParameters::Struct { fields: vec![] },
        default_value: None,
        required: true,
    }]);
    let wm = ParsedWorkMode::with_capability(&cap).unwrap();
    assert!(wm.modes.is_empty());
}

#[test]
fn with_device_fails_without_platform_state() {
    let device = Device::new("H7131", "AA");
    assert_eq!(ParsedWorkMode::with_device(&device).unwrap_err(), WorkModeError::NoPlatformState);
}

#[test]
fn with_device_fails_without_work_mode_capability() {
    let mut other = work_mode_capability(vec![selector("Normal", 1)], vec![]);
    other.instance = "powerSwitch".to_string();
    let device = device_with("H7131", vec![other]);
    assert_eq!(
        ParsedWorkMode::with_device(&device).unwrap_err(),
        WorkModeError::NoWorkModeCapability
    );
}

#[test]
fn with_device_fails_without_work_mode_field() {
    let device = device_with("H7131", vec![capability(vec![])]);
    assert_eq!(
        ParsedWorkMode::with_device(&device).unwrap_err(),
        WorkModeError::WorkModeFieldMissing
    );
}

#[test]
fn error_messages() {
    assert_eq!(
        WorkModeError::NoPlatformState.message(),
        "no platform state, so no known work mode"
    );
    assert_eq!(WorkModeError::NoWorkModeCapability.message(), "device has no workMode capability");
    assert_eq!(
        WorkModeError::WorkModeFieldMissing.message(),
        "workMode not found in the capability"
    );
}

#[test]
fn heater_gear_mode_is_labelled_heat() {
    let cap = work_mode_capability(vec![selector("gearMode", 1), selector("Fan", 9)], vec![]);
    let wm = ParsedWorkMode::with_device(&device_with("H7131", vec![cap])).unwrap();
    assert_eq!(mode(&wm, "gearMode").label, "Heat");
    assert_eq!(mode(&wm, "gearMode").label(), "Heat");
    assert_eq!(mode(&wm, "Fan").label, "");
    assert_eq!(mode(&wm, "Fan").label(), "Fan");
}

#[test]
fn other_models_label_each_mode_with_its_name() {
    let cap = work_mode_capability(vec![selector("gearMode", 1), selector("Fan", 9)], vec![]);
    let wm = ParsedWorkMode::with_device(&device_with("H7130", vec![cap])).unwrap();
    assert_eq!(mode(&wm, "gearMode").label, "gearMode");
    assert_eq!(mode(&wm, "Fan").label, "Fan");
}

#[test]
fn humidifier_manual_mode_is_labelled_mist_level() {
    for sku in ["H7160", "H7143"] {
        let mut wm = ParsedWorkMode::new();
        wm.add("Manual".to_string(), JsonValue::from(1));
        wm.add("Auto".to_string(), JsonValue::from(3));
        wm.adjust_for_device(sku);
        assert_eq!(mode(&wm, "Manual").label(), "Manual: Mist Level");
        assert_eq!(mode(&wm, "Auto").label, "");
    }
}

#[test]
fn a_listed_model_without_the_listed_mode_is_left_alone() {
    let mut wm = ParsedWorkMode::new();
    wm.add("Auto".to_string(), JsonValue::from(3));
    wm.adjust_for_device("H7131");
    assert_eq!(mode(&wm, "Auto").label, "");
}

#[test]
fn the_label_table() {
    assert_eq!(label_override_for("H7160"), Some(("Manual", "Manual: Mist Level")));
    assert_eq!(label_override_for("H7143"), Some(("Manual", "Manual: Mist Level")));
    assert_eq!(label_override_for("H7131"), Some(("gearMode", "Heat")));
    assert_eq!(label_override_for("h7131"), None);
    assert_eq!(label_override_for(""), None);
}

#[test]
fn add_keeps_the_keys_in_order_and_replaces_a_mode_of_the_same_name() {
    let mut wm = ParsedWorkMode::new();
    for (name, value) in [("Sleep", 5), ("Auto", 3), ("auto", 4), ("Custom", 2), ("Zen", 1)] {
        wm.add(name.to_string(), JsonValue::from(value));
    }
    assert_eq!(keys(&wm), vec!["Auto", "Custom", "Sleep", "Zen", "auto"]);
    wm.get_mut("Auto").unwrap().add_values(&describes("Auto", ranged(1, 2)));
    assert_eq!(mode(&wm, "Auto").value_range, Some(1..3));
    wm.add("Auto".to_string(), JsonValue::from(30));
    assert_eq!(keys(&wm), vec!["Auto", "Custom", "Sleep", "Zen", "auto"]);
    assert_bare(mode(&wm, "Auto"), "Auto", 30);
    assert_eq!(mode(&wm, "Auto").value_range, None);
}

#[test]
fn keys_are_ordered_by_their_bytes() {
    let mut wm = ParsedWorkMode::new();
    for name in ["b", "ab", "a", "", "é", "z", "B"] {
        wm.add(name.to_string(), JsonValue::Null);
    }
    assert_eq!(keys(&wm), vec!["", "B", "a", "ab", "b", "z", "é"]);
}

#[test]
fn get_mut_reaches_the_mode_in_place() {
    let mut wm = ParsedWorkMode::new();
    wm.add("Auto".to_string(), JsonValue::from(3));
    wm.add("Sleep".to_string(), JsonValue::from(5));
    assert!(wm.get_mut("Nap").is_none());
    wm.get_mut("Sleep").unwrap().label = "Night".to_string();
    assert_eq!(mode(&wm, "Sleep").label(), "Night");
    assert_eq!(mode(&wm, "Auto").label(), "Auto");
    assert_eq!(keys(&wm), vec!["Auto", "Sleep"]);
}

#[test]
fn mode_for_value_finds_the_first_in_key_order() {
    let mut wm = ParsedWorkMode::new();
    wm.add("Sleep".to_string(), JsonValue::from(5));
    wm.add("Auto".to_string(), JsonValue::from(3));
    wm.add("Boost".to_string(), JsonValue::from(5));
    assert_eq!(wm.mode_for_value(&JsonValue::from(5)).unwrap().name, "Boost");
    assert_eq!(wm.mode_for_value(&JsonValue::from(3)).unwrap().name, "Auto");
    assert!(wm.mode_for_value(&JsonValue::from(4)).is_none());
    assert!(wm.mode_for_value(&JsonValue::from("5")).is_none());
}

#[test]
fn mode_by_label_goes_by_the_displayed_label() {
    let mut wm = ParsedWorkMode::new();
    wm.add("gearMode".to_string(), JsonValue::from(1));
    wm.add("Fan".to_string(), JsonValue::from(9));
    wm.adjust_for_device("H7131");
    assert_eq!(wm.mode_by_label("Heat").unwrap().name, "gearMode");
    assert_eq!(wm.mode_by_label("Fan").unwrap().name, "Fan");
    assert!(wm.mode_by_label("gearMode").is_none());
}

#[test]
fn names_and_labels_come_sorted() {
    let mut wm = ParsedWorkMode::new();
    wm.add("gearMode".to_string(), JsonValue::from(1));
    wm.add("Fan".to_string(), JsonValue::from(9));
    wm.add("Auto".to_string(), JsonValue::from(3));
    wm.adjust_for_device("H7131");
    assert_eq!(wm.get_mode_names(), vec!["Auto", "Fan", "gearMode"]);
    assert_eq!(wm.get_mode_labels(), vec!["Auto", "Fan", "Heat"]);
    wm.get_mut("Auto").unwrap().label = "Zzz".to_string();
    wm.get_mut("Auto").unwrap().name = "zero".to_string();
    assert_eq!(wm.get_mode_names(), vec!["Fan", "gearMode", "zero"]);
    assert_eq!(wm.get_mode_labels(), vec!["Fan", "Heat", "Zzz"]);
}

#[test]
fn modes_with_values_are_those_with_presets() {
    let cap = work_mode_capability(
        vec![selector("A", 1), selector("B", 2), selector("C", 3), selector("D", 4)],
        vec![
            describes("D", named(&[("x", 1)])),
            describes("A", unnamed(&[3, 4, 5])),
            describes("B", unnamed(&[3, 5])),
        ],
    );
    let wm = ParsedWorkMode::with_capability(&cap).unwrap();
    let names: Vec<&str> = wm.modes_with_values().iter().map(|m| m.name.as_str()).collect();
    assert_eq!(names, vec!["B", "D"]);
}

#[test]
fn a_run_that_ends_at_the_largest_integer_does_not_fit() {
    let mut m = WorkMode::new("Normal".to_string(), JsonValue::from(1));
    let too_far = describes("Normal", unnamed(&[i64::MAX, i64::MAX - 1]));
    assert!(!m.try_add_values(&too_far));
    assert_bare(&m, "Normal", 1);
    assert_eq!(m.value_range, None);
    assert!(m.range_fits());

    assert!(!m.try_add_values(&describes("Normal", ranged(0, i64::MAX))));
    assert_eq!(m.value_range, None);

    assert!(m.try_add_values(&describes("Normal", unnamed(&[i64::MAX, 5]))));
    assert_eq!(m.values.len(), 2);
    assert_eq!(m.values[0].computed_label, "Activate Normal Preset 9223372036854775807");
    assert_eq!(m.checked_contiguous_value_range(), Some(None));

    let mut n = WorkMode::new("Normal".to_string(), JsonValue::from(1));
    assert!(n.try_add_values(&describes("Normal", unnamed(&[i64::MAX - 1, i64::MAX - 2]))));
    assert_eq!(n.value_range, Some(i64::MAX - 2..i64::MAX));
}

#[test]
fn values_put_in_by_hand_are_checked_before_the_range_is_taken() {
    let mut m = WorkMode::new("Normal".to_string(), JsonValue::from(1));
    m.values.push(govee_bridge::hass_mqtt::work_mode::WorkModeValue {
        value: JsonValue::from(i64::MAX),
        name: None,
        computed_label: String::new(),
    });
    assert!(!m.range_fits());
    assert_eq!(m.checked_contiguous_value_range(), None);
    m.values[0].value = JsonValue::from(i64::MIN);
    assert!(m.range_fits());
    assert_eq!(m.checked_contiguous_value_range(), Some(Some(i64::MIN..i64::MIN + 1)));
}

#[test]
fn try_with_capability_agrees_with_with_capability() {
    let cap = work_mode_capability(
        vec![selector("Normal", 1)],
        vec![describes("Normal", unnamed(&[1, 2, 4]))],
    );
    let wm = ParsedWorkMode::try_with_capability(&cap).unwrap().unwrap();
    assert_eq!(mode(&wm, "Normal").values.len(), 3);

    let too_far = work_mode_capability(
        vec![selector("Normal", 1)],
        vec![describes("Normal", ranged(1, i64::MAX))],
    );
    assert!(ParsedWorkMode::try_with_capability(&too_far).is_none());
    assert!(ParsedWorkMode::try_with_device(&device_with("H7131", vec![too_far])).is_none());

    let missing = capability(vec![]);
    assert_eq!(
        ParsedWorkMode::try_with_capability(&missing).unwrap().unwrap_err(),
        WorkModeError::WorkModeFieldMissing
    );
    assert_eq!(
        ParsedWorkMode::try_with_device(&Device::new("H7131", "AA")).unwrap().unwrap_err(),
        WorkModeError::NoPlatformState
    );
}

#[test]
fn the_default_collection_is_empty() {
    let wm = ParsedWorkMode::default();
    assert!(wm.modes.is_empty());
    assert!(wm.mode_by_name("Normal").is_none());
    assert!(wm.get_mode_names().is_empty());
    assert!(wm.get_mode_labels().is_empty());
    assert!(wm.modes_with_values().is_empty());
    assert!(wm.mode_for_value(&JsonValue::Null).is_none());
}

#[test]
fn with_device_takes_the_first_work_mode_capability() {
    let first = work_mode_capability(vec![selector("Low", 1)], vec![]);
    let second = work_mode_capability(vec![selector("High", 2)], vec![]);
    let device = device_with("H7102", vec![first, second]);
    let wm = ParsedWorkMode::with_device(&device).unwrap();
    assert_eq!(keys(&wm), vec!["Low"]);
    let info = device.http_device_info.as_ref().unwrap();
    assert!(info.capability_by_instance("workMode").is_some());
    assert!(info.capability_by_instance("powerSwitch").is_none());
}
