use webcam_controls::device::{
    append_control, build_control, disabled_flags, encode_value, get_device_by_path,
    get_device_controls, get_device_save_data, get_devices, menu_items, menu_label,
    reads_live_value, set_control_val, BooleanControl, ButtonControl, Control, ControlData,
    ControlGroup, DeviceControls, DeviceError, DeviceErrorKind, IntegerControl, MenuControl,
    MenuItem, VideoDevice,
};
use webcam_controls::hardware::{
    Capabilities, CapabilityFlags, ControlDefinition, ControlFlags, ControlReading, ControlType,
    ControlValue, DeviceProbe, DriverVersion, MenuEntry, CAPABILITY_META_CAPTURE,
    CAPABILITY_STREAMING, CAPABILITY_VIDEO_CAPTURE, CONTROL_DISABLED, CONTROL_GRABBED,
    CONTROL_INACTIVE, CONTROL_READ_ONLY, CONTROL_SLIDER, CONTROL_UPDATE, CONTROL_VOLATILE,
    CONTROL_WRITE_ONLY,
};

const USER_CLASS: u32 = 0x0098_0001;
const BRIGHTNESS: u32 = 0x0098_0900;
const CONTRAST: u32 = 0x0098_0901;
const AUTO_WHITE_BALANCE: u32 = 0x0098_090c;
const POWER_LINE: u32 = 0x0098_0918;
const CAMERA_CLASS: u32 = 0x009a_0001;
const EXPOSURE_AUTO: u32 = 0x009a_0901;
const FOCUS_START: u32 = 0x009a_091a;
const PRIVACY: u32 = 0x009a_0910;

fn definition(id: u32, typ: ControlType, name: &str) -> ControlDefinition {
    ControlDefinition {
        id,
        typ,
        name: name.to_string(),
        minimum: 0,
        maximum: 255,
        step: 1,
        default: 128,
        flags: ControlFlags { bits: 0 },
        items: None,
    }
}

fn reading(id: u32, typ: ControlType, name: &str, live: Option<ControlValue>) -> ControlReading {
    ControlReading { definition: definition(id, typ, name), live }
}

fn marker(id: u32, name: &str) -> ControlReading {
    let mut definition = definition(id, ControlType::CtrlClass, name);
    definition.minimum = 0;
    definition.maximum = 0;
    definition.step = 0;
    definition.default = 0;
    definition.flags = ControlFlags { bits: CONTROL_READ_ONLY | CONTROL_WRITE_ONLY };
    ControlReading { definition, live: None }
}

fn integer(id: u32, name: &str, value: i64) -> DeviceControls {
    DeviceControls::Integer(IntegerControl {
        id,
        name: name.to_string(),
        min: 0,
        max: 255,
        step: 1,
        default: 128,
        value,
        flags: ControlFlags { bits: 0 },
    })
}

fn group(id: u32, name: &str, controls: Vec<DeviceControls>) -> DeviceControls {
    DeviceControls::ControlGroup(ControlGroup {
        id,
        name: name.to_string(),
        controls,
        flags: ControlFlags { bits: CONTROL_READ_ONLY | CONTROL_WRITE_ONLY },
    })
}

fn capabilities(bus: &str, bits: u32) -> Capabilities {
    Capabilities {
        driver: "uvcvideo".to_string(),
        card: "HD Webcam".to_string(),
        bus: bus.to_string(),
        version: DriverVersion { major: 6, minor: 1, patch: 0 },
        capabilities: CapabilityFlags { bits },
        summary: format!("Driver : uvcvideo\nBus : {}\n", bus),
    }
}

fn probe(index: usize, name: &str, path: &str, bits: u32) -> DeviceProbe {
    DeviceProbe {
        index,
        name: Some(name.to_string()),
        path: Some(path.to_string()),
        capabilities: Some(capabilities("usb-0000:00:14.0-1", bits)),
    }
}

fn device(name: &str, path: &str, index: usize, bits: u32) -> VideoDevice {
    VideoDevice {
        name: name.to_string(),
        path: path.to_string(),
        index,
        capabilities: capabilities("usb-0000:00:14.0-1", bits),
        controls: Vec::new(),
    }
}

const CAPTURE: u32 = CAPABILITY_VIDEO_CAPTURE | CAPABILITY_STREAMING;

#[test]
fn disabled_flags_are_read_only_disabled_and_inactive() {
    assert_eq!(disabled_flags().bits, 0x0015);
    assert_eq!(
        disabled_flags().bits,
        CONTROL_READ_ONLY | CONTROL_DISABLED | CONTROL_INACTIVE
    );
}

#[test]
fn flags_intersect_when_they_share_a_bit() {
    let flags = ControlFlags { bits: CONTROL_SLIDER | CONTROL_INACTIVE };
    assert!(flags.intersects(ControlFlags { bits: CONTROL_INACTIVE | CONTROL_DISABLED }));
    assert!(!flags.intersects(ControlFlags { bits: CONTROL_READ_ONLY | CONTROL_DISABLED }));
    assert!(!flags.intersects(ControlFlags { bits: 0 }));
    assert!(flags.has(CONTROL_SLIDER));
    assert!(!flags.has(CONTROL_GRABBED));
}

#[test]
fn capability_flags_contain_all_bits_of_the_other() {
    let flags = CapabilityFlags { bits: CAPTURE };
    assert!(flags.contains(CapabilityFlags { bits: CAPABILITY_VIDEO_CAPTURE }));
    assert!(flags.contains(CapabilityFlags { bits: CAPTURE }));
    assert!(!flags.contains(CapabilityFlags { bits: CAPABILITY_META_CAPTURE }));
    assert!(!flags.contains(CapabilityFlags { bits: CAPTURE | CAPABILITY_META_CAPTURE }));
}

#[test]
fn disabled_iff_one_of_the_three_flags_for_every_combination() {
    let others = [
        0,
        CONTROL_GRABBED,
        CONTROL_UPDATE | CONTROL_SLIDER,
        CONTROL_WRITE_ONLY | CONTROL_VOLATILE | CONTROL_GRABBED,
        0x8000_0000,
    ];
    for read_only in [false, true] {
        for disabled in [false, true] {
            for inactive in [false, true] {
                for other in others {
                    let mut bits = other;
                    if read_only {
                        bits |= CONTROL_READ_ONLY;
                    }
                    if disabled {
                        bits |= CONTROL_DISABLED;
                    }
                    if inactive {
                        bits |= CONTROL_INACTIVE;
                    }
                    let expected = read_only || disabled || inactive;
                    let flags = ControlFlags { bits };
                    for typ in [ControlType::Integer, ControlType::Boolean, ControlType::Menu] {
                        let mut definition = definition(BRIGHTNESS, typ, "Control");
                        definition.flags = flags;
                        let built = build_control(ControlReading { definition, live: None });
                        let shown = match &built {
                            DeviceControls::Integer(control) => control.is_disabled(),
                            DeviceControls::Boolean(control) => control.is_disabled(),
                            DeviceControls::Menu(control) => control.is_disabled(),
                            other => panic!("unexpected descriptor {:?}", other),
                        };
                        assert_eq!(shown, expected, "bits {:#x}", bits);
                    }
                }
            }
        }
    }
}

#[test]
fn buttons_and_unrecognized_controls_are_disabled_by_the_same_flags() {
    let button = ButtonControl {
        id: FOCUS_START,
        name: "Focus".to_string(),
        default: 0,
        value: None,
        flags: ControlFlags { bits: CONTROL_INACTIVE },
    };
    assert!(button.is_disabled());
    let raw = Control {
        id: 1,
        name: "Raw".to_string(),
        min: 0,
        max: 0,
        step: 0,
        default: 0,
        value: ControlValue::Trigger,
        control_type: ControlType::Bitmask,
        menu_items: None,
        flags: ControlFlags { bits: CONTROL_WRITE_ONLY },
    };
    assert!(!raw.is_disabled());
}

#[test]
fn integer_descriptor_takes_the_value_that_was_read() {
    let built = build_control(reading(
        BRIGHTNESS,
        ControlType::Integer,
        "Brightness",
        Some(ControlValue::Integer(42)),
    ));
    assert_eq!(
        built,
        DeviceControls::Integer(IntegerControl {
            id: BRIGHTNESS,
            name: "Brightness".to_string(),
            min: 0,
            max: 255,
            step: 1,
            default: 128,
            value: 42,
            flags: ControlFlags { bits: 0 },
        })
    );
}

#[test]
fn integer_descriptor_falls_back_to_the_default() {
    let failed = build_control(reading(BRIGHTNESS, ControlType::Integer, "Brightness", None));
    assert_eq!(failed, integer(BRIGHTNESS, "Brightness", 128));
    let wrong_kind = build_control(reading(
        BRIGHTNESS,
        ControlType::Integer,
        "Brightness",
        Some(ControlValue::Boolean(true)),
    ));
    assert_eq!(wrong_kind, integer(BRIGHTNESS, "Brightness", 128));
}

#[test]
fn boolean_descriptor_takes_the_value_or_the_default() {
    let mut on_by_default = definition(AUTO_WHITE_BALANCE, ControlType::Boolean, "White Balance");
    on_by_default.default = 1;
    on_by_default.maximum = 1;
    let read = build_control(ControlReading {
        definition: on_by_default.clone(),
        live: Some(ControlValue::Boolean(false)),
    });
    assert_eq!(
        read,
        DeviceControls::Boolean(BooleanControl {
            id: AUTO_WHITE_BALANCE,
            name: "White Balance".to_string(),
            default: true,
            value: false,
            flags: ControlFlags { bits: 0 },
        })
    );
    let failed = build_control(ControlReading { definition: on_by_default.clone(), live: None });
    match failed {
        DeviceControls::Boolean(control) => assert!(control.value && control.default),
        other => panic!("unexpected descriptor {:?}", other),
    }
    let wrong_kind = build_control(ControlReading {
        definition: on_by_default,
        live: Some(ControlValue::Integer(0)),
    });
    match wrong_kind {
        DeviceControls::Boolean(control) => assert!(control.value),
        other => panic!("unexpected descriptor {:?}", other),
    }
    let mut off_by_default = definition(PRIVACY, ControlType::Boolean, "Privacy");
    off_by_default.default = 0;
    match build_control(ControlReading { definition: off_by_default, live: None }) {
        DeviceControls::Boolean(control) => assert!(!control.value && !control.default),
        other => panic!("unexpected descriptor {:?}", other),
    }
}

#[test]
fn menu_labels_use_names_and_well_known_numbers() {
    assert_eq!(menu_label(MenuEntry::Name("50 Hz".to_string())), "50 Hz");
    assert_eq!(menu_label(MenuEntry::Value(0)), "Off");
    assert_eq!(menu_label(MenuEntry::Value(1)), "On");
    assert_eq!(menu_label(MenuEntry::Value(2)), "2");
    assert_eq!(menu_label(MenuEntry::Value(-3)), "-3");
    assert_eq!(menu_label(MenuEntry::Value(4000)), "4000");
    assert_eq!(menu_label(MenuEntry::Name(String::new())), "");
}

#[test]
fn menu_items_keep_the_order_and_the_identifiers() {
    let items = menu_items(Some(vec![
        (0, MenuEntry::Name("Disabled".to_string())),
        (1, MenuEntry::Name("50 Hz".to_string())),
        (3, MenuEntry::Value(1)),
        (7, MenuEntry::Value(60)),
    ]));
    assert_eq!(
        items,
        vec![
            MenuItem { id: 0, label: "Disabled".to_string() },
            MenuItem { id: 1, label: "50 Hz".to_string() },
            MenuItem { id: 3, label: "On".to_string() },
            MenuItem { id: 7, label: "60".to_string() },
        ]
    );
    assert_eq!(items[1].as_ref(), "50 Hz");
    assert_eq!(menu_items(None), Vec::<MenuItem>::new());
    assert_eq!(menu_items(Some(Vec::new())), Vec::<MenuItem>::new());
}

#[test]
fn menu_descriptor_selects_the_value_or_the_default() {
    let mut power_line = definition(POWER_LINE, ControlType::Menu, "Power Line Frequency");
    power_line.maximum = 2;
    power_line.default = 1;
    power_line.items = Some(vec![
        (0, MenuEntry::Name("Disabled".to_string())),
        (1, MenuEntry::Name("50 Hz".to_string())),
        (2, MenuEntry::Name("60 Hz".to_string())),
    ]);
    let read = build_control(ControlReading {
        definition: power_line.clone(),
        live: Some(ControlValue::Integer(2)),
    });
    assert_eq!(
        read,
        DeviceControls::Menu(MenuControl {
            id: POWER_LINE,
            name: "Power Line Frequency".to_string(),
            default: 1,
            value: Some(2),
            menu_items: vec![
                MenuItem { id: 0, label: "Disabled".to_string() },
                MenuItem { id: 1, label: "50 Hz".to_string() },
                MenuItem { id: 2, label: "60 Hz".to_string() },
            ],
            flags: ControlFlags { bits: 0 },
        })
    );
    match build_control(ControlReading { definition: power_line, live: None }) {
        DeviceControls::Menu(control) => assert_eq!(control.value, Some(1)),
        other => panic!("unexpected descriptor {:?}", other),
    }
}

#[test]
fn button_descriptor_holds_no_value() {
    let built = build_control(reading(
        FOCUS_START,
        ControlType::Button,
        "Focus, Start",
        Some(ControlValue::Integer(1)),
    ));
    assert_eq!(
        built,
        DeviceControls::Button(ButtonControl {
            id: FOCUS_START,
            name: "Focus, Start".to_string(),
            default: 128,
            value: None,
            flags: ControlFlags { bits: 0 },
        })
    );
}

#[test]
fn unrecognized_type_is_kept_with_its_raw_values() {
    let built = build_control(reading(
        77,
        ControlType::Bitmask,
        "Mask",
        Some(ControlValue::Integer(5)),
    ));
    assert_eq!(
        built,
        DeviceControls::Control(Control {
            id: 77,
            name: "Mask".to_string(),
            min: 0,
            max: 255,
            step: 1,
            default: 128,
            value: ControlValue::Integer(5),
            control_type: ControlType::Bitmask,
            menu_items: Some(vec![(0, String::new())]),
            flags: ControlFlags { bits: 0 },
        })
    );
    match build_control(reading(78, ControlType::IntegerMenu, "Sizes", None)) {
        DeviceControls::Control(control) => {
            assert_eq!(control.value, ControlValue::Trigger);
            assert_eq!(control.control_type, ControlType::IntegerMenu);
        }
        other => panic!("unexpected descriptor {:?}", other),
    }
}

#[test]
fn class_marker_becomes_an_empty_group() {
    assert_eq!(build_control(marker(USER_CLASS, "User Controls")), group(USER_CLASS, "User Controls", vec![]));
}

#[test]
fn live_values_are_read_for_all_but_markers_and_buttons() {
    assert!(!reads_live_value(&definition(USER_CLASS, ControlType::CtrlClass, "User Controls")));
    assert!(!reads_live_value(&definition(FOCUS_START, ControlType::Button, "Focus")));
    for typ in [
        ControlType::Integer,
        ControlType::Boolean,
        ControlType::Menu,
        ControlType::Integer64,
        ControlType::String,
        ControlType::Bitmask,
        ControlType::IntegerMenu,
        ControlType::U8,
        ControlType::U16,
        ControlType::U32,
        ControlType::Area,
    ] {
        assert!(reads_live_value(&definition(1, typ, "Control")));
    }
}

#[test]
fn append_control_joins_the_last_group() {
    let mut tree = vec![group(USER_CLASS, "User Controls", vec![])];
    append_control(&mut tree, integer(BRIGHTNESS, "Brightness", 1));
    append_control(&mut tree, integer(CONTRAST, "Contrast", 2));
    assert_eq!(
        tree,
        vec![group(
            USER_CLASS,
            "User Controls",
            vec![integer(BRIGHTNESS, "Brightness", 1), integer(CONTRAST, "Contrast", 2)]
        )]
    );
    append_control(&mut tree, group(CAMERA_CLASS, "Camera Controls", vec![]));
    append_control(&mut tree, integer(EXPOSURE_AUTO, "Exposure", 3));
    assert_eq!(
        tree,
        vec![
            group(
                USER_CLASS,
                "User Controls",
                vec![integer(BRIGHTNESS, "Brightness", 1), integer(CONTRAST, "Contrast", 2)]
            ),
            group(CAMERA_CLASS, "Camera Controls", vec![integer(EXPOSURE_AUTO, "Exposure", 3)]),
        ]
    );
}

#[test]
fn append_control_stays_at_the_top_without_a_group() {
    let mut tree = Vec::new();
    append_control(&mut tree, integer(BRIGHTNESS, "Brightness", 1));
    append_control(&mut tree, integer(CONTRAST, "Contrast", 2));
    assert_eq!(
        tree,
        vec![integer(BRIGHTNESS, "Brightness", 1), integer(CONTRAST, "Contrast", 2)]
    );
}

fn flatten(tree: &[DeviceControls]) -> Vec<u32> {
    let mut ids = Vec::new();
    for entry in tree {
        match entry {
            DeviceControls::ControlGroup(group) => {
                ids.push(group.id);
                for member in &group.controls {
                    match member {
                        DeviceControls::ControlGroup(_) => panic!("a group inside a group"),
                        DeviceControls::Integer(control) => ids.push(control.id),
                        DeviceControls::Boolean(control) => ids.push(control.id),
                        DeviceControls::Menu(control) => ids.push(control.id),
                        DeviceControls::Button(control) => ids.push(control.id),
                        DeviceControls::Control(control) => ids.push(control.id),
                    }
                }
            }
            DeviceControls::Integer(control) => ids.push(control.id),
            DeviceControls::Boolean(control) => ids.push(control.id),
            DeviceControls::Menu(control) => ids.push(control.id),
            DeviceControls::Button(control) => ids.push(control.id),
            DeviceControls::Control(control) => ids.push(control.id),
        }
    }
    ids
}

fn webcam_readings() -> Vec<ControlReading> {
    vec![
        marker(USER_CLASS, "User Controls"),
        reading(BRIGHTNESS, ControlType::Integer, "Brightness", Some(ControlValue::Integer(100))),
        reading(CONTRAST, ControlType::Integer, "Contrast", None),
        reading(
            AUTO_WHITE_BALANCE,
            ControlType::Boolean,
            "White Balance, Automatic",
            Some(ControlValue::Boolean(true)),
        ),
        marker(CAMERA_CLASS, "Camera Controls"),
        reading(EXPOSURE_AUTO, ControlType::Menu, "Auto Exposure", Some(ControlValue::Integer(3))),
        reading(FOCUS_START, ControlType::Button, "Focus, Start", None),
    ]
}

#[test]
fn tree_groups_every_control_under_the_marker_before_it() {
    let tree = get_device_controls(webcam_readings());
    assert_eq!(tree.len(), 2);
    match (&tree[0], &tree[1]) {
        (DeviceControls::ControlGroup(user), DeviceControls::ControlGroup(camera)) => {
            assert_eq!(user.id, USER_CLASS);
            assert_eq!(user.name, "User Controls");
            assert_eq!(camera.id, CAMERA_CLASS);
            assert_eq!(flatten(&user.controls), vec![BRIGHTNESS, CONTRAST, AUTO_WHITE_BALANCE]);
            assert_eq!(flatten(&camera.controls), vec![EXPOSURE_AUTO, FOCUS_START]);
            assert_eq!(user.controls[0], integer(BRIGHTNESS, "Brightness", 100));
            assert_eq!(user.controls[1], integer(CONTRAST, "Contrast", 128));
        }
        other => panic!("unexpected tree {:?}", other),
    }
}

#[test]
fn flat_tree_gives_back_the_readings_in_order() {
    let readings = webcam_readings();
    let ids: Vec<u32> = readings.iter().map(|r| r.definition.id).collect();
    let markers = readings
        .iter()
        .filter(|r| r.definition.typ == ControlType::CtrlClass)
        .count();
    let tree = get_device_controls(readings);
    assert_eq!(flatten(&tree), ids);
    let groups = tree
        .iter()
        .filter(|entry| matches!(entry, DeviceControls::ControlGroup(_)))
        .count();
    assert_eq!(groups, markers);
}

#[test]
fn controls_before_the_first_marker_stay_at_the_top() {
    let tree = get_device_controls(vec![
        reading(BRIGHTNESS, ControlType::Integer, "Brightness", Some(ControlValue::Integer(1))),
        reading(CONTRAST, ControlType::Integer, "Contrast", Some(ControlValue::Integer(2))),
        marker(CAMERA_CLASS, "Camera Controls"),
        reading(PRIVACY, ControlType::Boolean, "Privacy", Some(ControlValue::Boolean(false))),
    ]);
    assert_eq!(tree.len(), 3);
    assert_eq!(tree[0], integer(BRIGHTNESS, "Brightness", 1));
    assert_eq!(tree[1], integer(CONTRAST, "Contrast", 2));
    assert_eq!(flatten(&tree), vec![BRIGHTNESS, CONTRAST, CAMERA_CLASS, PRIVACY]);
}

#[test]
fn markers_in_a_row_open_empty_groups() {
    let tree = get_device_controls(vec![
        marker(USER_CLASS, "User Controls"),
        marker(CAMERA_CLASS, "Camera Controls"),
    ]);
    assert_eq!(
        tree,
        vec![
            group(USER_CLASS, "User Controls", vec![]),
            group(CAMERA_CLASS, "Camera Controls", vec![]),
        ]
    );
}

#[test]
fn no_readings_give_an_empty_tree() {
    assert_eq!(get_device_controls(Vec::new()), Vec::<DeviceControls>::new());
}

#[test]
fn one_failed_read_does_not_stop_the_query() {
    let tree = get_device_controls(vec![
        marker(USER_CLASS, "User Controls"),
        reading(BRIGHTNESS, ControlType::Integer, "Brightness", None),
        reading(CONTRAST, ControlType::Integer, "Contrast", Some(ControlValue::Integer(7))),
    ]);
    assert_eq!(
        tree,
        vec![group(
            USER_CLASS,
            "User Controls",
            vec![integer(BRIGHTNESS, "Brightness", 128), integer(CONTRAST, "Contrast", 7)]
        )]
    );
}

#[test]
fn enumerate_leaves_out_the_meta_capture_device() {
    let devices = get_devices(vec![
        probe(0, "HD Webcam", "/dev/video0", CAPTURE),
        probe(1, "HD Webcam", "/dev/video1", CAPABILITY_META_CAPTURE | CAPABILITY_STREAMING),
    ]);
    assert_eq!(devices, vec![device("HD Webcam", "/dev/video0", 0, CAPTURE)]);
}

#[test]
fn enumerate_keeps_the_order_of_the_system() {
    let devices = get_devices(vec![
        probe(2, "Second", "/dev/video2", CAPTURE),
        probe(0, "First", "/dev/video0", CAPTURE),
        probe(4, "Third", "/dev/video4", CAPABILITY_VIDEO_CAPTURE),
    ]);
    let paths: Vec<&str> = devices.iter().map(|d| d.path.as_str()).collect();
    assert_eq!(paths, vec!["/dev/video2", "/dev/video0", "/dev/video4"]);
    let indexes: Vec<usize> = devices.iter().map(|d| d.index).collect();
    assert_eq!(indexes, vec![2, 0, 4]);
}

#[test]
fn enumerate_skips_what_cannot_be_read() {
    let mut nameless = probe(1, "x", "/dev/video1", CAPTURE);
    nameless.name = None;
    let mut pathless = probe(2, "No Path", "x", CAPTURE);
    pathless.path = None;
    let mut silent = probe(3, "Silent", "/dev/video3", CAPTURE);
    silent.capabilities = None;
    let devices = get_devices(vec![
        nameless,
        probe(0, "HD Webcam", "/dev/video0", CAPTURE),
        pathless,
        silent,
    ]);
    assert_eq!(devices, vec![device("HD Webcam", "/dev/video0", 0, CAPTURE)]);
    assert_eq!(get_devices(Vec::new()), Vec::<VideoDevice>::new());
}

#[test]
fn enumerated_devices_have_paths_of_their_own() {
    let devices = get_devices(vec![
        probe(0, "HD Webcam", "/dev/video0", CAPTURE),
        probe(1, "HD Webcam", "/dev/video1", CAPABILITY_META_CAPTURE),
        probe(2, "HD Webcam", "/dev/video2", CAPTURE),
        probe(3, "Other", "/dev/video3", CAPTURE),
    ]);
    for i in 0..devices.len() {
        for j in (i + 1)..devices.len() {
            assert_ne!(devices[i].path, devices[j].path);
        }
    }
    assert_eq!(devices.len(), 3);
}

#[test]
fn resolve_finds_the_device_and_builds_its_tree() {
    let probes = vec![
        probe(0, "Front", "/dev/video0", CAPTURE),
        probe(2, "Back", "/dev/video2", CAPTURE),
    ];
    let resolved = get_device_by_path(probes, "/dev/video2", Ok(webcam_readings()));
    let found = resolved.expect("the device is listed");
    assert_eq!(found.name, "Back");
    assert_eq!(found.path, "/dev/video2");
    assert_eq!(found.index, 2);
    assert_eq!(found.capabilities, capabilities("usb-0000:00:14.0-1", CAPTURE));
    assert_eq!(found.controls, get_device_controls(webcam_readings()));
}

#[test]
fn resolve_reports_a_path_that_is_not_listed() {
    let probes = vec![
        probe(0, "Front", "/dev/video0", CAPTURE),
        probe(1, "Meta", "/dev/video1", CAPABILITY_META_CAPTURE),
    ];
    let missing = get_device_by_path(probes.clone(), "/dev/video9", Ok(Vec::new()));
    let error = missing.expect_err("no such device");
    assert_eq!(error.kind, DeviceErrorKind::NotFound);
    assert_eq!(error.detail, "/dev/video9");
    assert_eq!(error.message(), "Device not found: /dev/video9");
    let hidden = get_device_by_path(probes, "/dev/video1", Ok(Vec::new()));
    assert_eq!(hidden.expect_err("not listed").kind, DeviceErrorKind::NotFound);
    let nothing = get_device_by_path(Vec::new(), "/dev/video0", Ok(Vec::new()));
    assert_eq!(nothing.expect_err("nothing listed").message(), "Device not found: /dev/video0");
}

#[test]
fn resolve_takes_the_first_device_with_the_path() {
    let probes = vec![
        probe(0, "First", "/dev/video0", CAPTURE),
        probe(5, "Second", "/dev/video0", CAPTURE),
    ];
    let found = get_device_by_path(probes, "/dev/video0", Ok(Vec::new())).expect("listed");
    assert_eq!(found.name, "First");
    assert_eq!(found.index, 0);
}

#[test]
fn failed_control_query_is_an_error_and_the_device_stays_listed() {
    let probes = vec![probe(0, "HD Webcam", "/dev/video0", CAPTURE)];
    let failure = DeviceError {
        kind: DeviceErrorKind::QueryFailed,
        detail: "Inappropriate ioctl for device (os error 25)".to_string(),
    };
    let resolved = get_device_by_path(probes.clone(), "/dev/video0", Err(failure.clone()));
    assert_eq!(resolved, Err(failure));
    let listed = get_devices(probes);
    assert_eq!(listed, vec![device("HD Webcam", "/dev/video0", 0, CAPTURE)]);
}

#[test]
fn device_that_cannot_be_opened_is_an_error() {
    let probes = vec![probe(0, "HD Webcam", "/dev/video0", CAPTURE)];
    let failure = DeviceError {
        kind: DeviceErrorKind::Unavailable,
        detail: "Permission denied (os error 13)".to_string(),
    };
    let resolved = get_device_by_path(probes, "/dev/video0", Err(failure));
    let error = resolved.expect_err("cannot be opened");
    assert_eq!(error.kind, DeviceErrorKind::Unavailable);
    assert_eq!(error.message(), "Permission denied (os error 13)");
}

#[test]
fn missing_device_wins_over_a_failed_query() {
    let failure = DeviceError {
        kind: DeviceErrorKind::Unavailable,
        detail: "No such file or directory (os error 2)".to_string(),
    };
    let resolved = get_device_by_path(
        vec![probe(0, "HD Webcam", "/dev/video0", CAPTURE)],
        "/dev/video3",
        Err(failure),
    );
    assert_eq!(
        resolved,
        Err(DeviceError { kind: DeviceErrorKind::NotFound, detail: "/dev/video3".to_string() })
    );
}

#[test]
fn error_text_of_every_kind() {
    let text = |kind| DeviceError { kind, detail: "reason".to_string() }.message();
    assert_eq!(text(DeviceErrorKind::NotFound), "Device not found: reason");
    assert_eq!(text(DeviceErrorKind::Unavailable), "reason");
    assert_eq!(text(DeviceErrorKind::QueryFailed), "reason");
    assert_eq!(text(DeviceErrorKind::WriteRejected), "reason");
}

#[test]
fn values_are_encoded_as_unsigned_numbers() {
    assert_eq!(encode_value(&ControlValue::Integer(128)), Some(128));
    assert_eq!(encode_value(&ControlValue::Integer(0)), Some(0));
    assert_eq!(encode_value(&ControlValue::Integer(-1)), Some(4294967295));
    assert_eq!(encode_value(&ControlValue::Integer(4294967296 + 5)), Some(5));
    assert_eq!(encode_value(&ControlValue::Boolean(true)), Some(1));
    assert_eq!(encode_value(&ControlValue::Boolean(false)), Some(0));
    assert_eq!(encode_value(&ControlValue::Trigger), None);
    assert_eq!(encode_value(&ControlValue::String("x".to_string())), None);
    assert_eq!(encode_value(&ControlValue::CompoundU8(vec![1, 2])), None);
}

#[test]
fn profile_holds_integer_boolean_and_menu_controls_only() {
    let mut readings = webcam_readings();
    readings[6].live = Some(ControlValue::Integer(1));
    readings[0].live = Some(ControlValue::Integer(9));
    let dev = device("HD Webcam", "/dev/video0", 0, CAPTURE);
    let data = get_device_save_data(&dev, &readings);
    assert_eq!(data.device_name, "HD Webcam");
    assert_eq!(data.bus, "usb-0000:00:14.0-1");
    assert_eq!(data.controls.len(), 3);
    assert_eq!(data.controls.get(&BRIGHTNESS), Some(&100));
    assert_eq!(data.controls.get(&AUTO_WHITE_BALANCE), Some(&1));
    assert_eq!(data.controls.get(&EXPOSURE_AUTO), Some(&3));
    assert!(!data.controls.contains_key(&FOCUS_START));
    assert!(!data.controls.contains_key(&USER_CLASS));
    assert!(!data.controls.contains_key(&CONTRAST));
}

#[test]
fn profile_of_nothing_is_empty() {
    let dev = device("HD Webcam", "/dev/video0", 0, CAPTURE);
    assert!(get_device_save_data(&dev, &Vec::new()).controls.is_empty());
}

#[test]
fn profile_keeps_the_last_reading_of_an_identifier() {
    let dev = device("HD Webcam", "/dev/video0", 0, CAPTURE);
    let data = get_device_save_data(&dev, &vec![
        reading(BRIGHTNESS, ControlType::Integer, "Brightness", Some(ControlValue::Integer(1))),
        reading(BRIGHTNESS, ControlType::Integer, "Brightness", Some(ControlValue::Integer(-2))),
        reading(BRIGHTNESS, ControlType::Integer, "Brightness", None),
    ]);
    assert_eq!(data.controls.len(), 1);
    assert_eq!(data.controls.get(&BRIGHTNESS), Some(&4294967294));
}

#[test]
fn write_names_the_device_by_its_path() {
    let dev = device("HD Webcam", "/dev/video0", 0, CAPTURE);
    let write = set_control_val(&dev, BRIGHTNESS, ControlValue::Integer(128));
    assert_eq!(write.path, "/dev/video0");
    assert_eq!(write.id, BRIGHTNESS);
    assert_eq!(write.value, ControlValue::Integer(128));
    let press = set_control_val(&dev, FOCUS_START, ControlValue::Trigger);
    assert_eq!(press.value, ControlValue::Trigger);
    assert_eq!(press.id, FOCUS_START);
}
