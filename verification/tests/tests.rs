use usbg::config::UsbGadgetConfig;
use usbg::errors::FsFailure;
use usbg::errors::StateError;
use usbg::fmt::dec_u64;
use usbg::fmt::hex4;
use usbg::fsop::FsOp;
use usbg::function::FunctionKey;
use usbg::function::HIDFunction;
use usbg::function::UsbGadgetFunction;
use usbg::function::hid_keyboard_report_desc;
use usbg::function::HID_PROTOCOL_KEYBOARD;
use usbg::function::HID_SUBCLASS_BOOT;
use usbg::gadget::UsbGadget;
use usbg::gadget::LANGID_EN_US;
use usbg::state::UsbGadgetState;

fn segs(op: &FsOp) -> Vec<String> {
    match op {
        FsOp::CreateDir { path } => path.segments.clone(),
        FsOp::WriteFile { path, .. } => path.segments.clone(),
        FsOp::CreateSymlink { link, .. } => link.segments.clone(),
        FsOp::RemoveLink { path } => path.segments.clone(),
        FsOp::RemoveDir { path } => path.segments.clone(),
    }
}

fn is_path(op: &FsOp, want: &[&str]) -> bool {
    let got = segs(op);
    got.len() == want.len() && got.iter().zip(want.iter()).all(|(a, b)| a == b)
}

fn find_write<'a>(ops: &'a [FsOp], want: &[&str]) -> Option<&'a Vec<u8>> {
    for op in ops {
        if let FsOp::WriteFile { path: _, contents } = op {
            if is_path(op, want) {
                return Some(contents);
            }
        }
    }
    None
}

fn sample_gadget() -> UsbGadget {
    let mut g1 = UsbGadget::new(
        "g1",
        0x1d6b, // Linux Foundation
        0x0104, // Multifunction Composite Gadget
        LANGID_EN_US,
        "USB Armory",
        "Inverse Path",
        "0123456789",
    );
    g1.bcd_device = Some(0x0100);
    g1.bcd_usb = Some(0x0200);
    let report = hid_keyboard_report_desc();
    let hid = HIDFunction::new(
        "usb0",
        HID_PROTOCOL_KEYBOARD,
        HID_SUBCLASS_BOOT,
        8,
        report.as_slice(),
    );
    g1.functions.push(UsbGadgetFunction::Hid(hid));
    g1.configs.push(UsbGadgetConfig {
        id: 1,
        name: "c".to_owned(),
        description: "USB ECM + HID".to_owned(),
        functions: vec![FunctionKey {
            func_type: "hid".to_owned(),
            instance_name: "usb0".to_owned(),
        }],
        max_power: None,
    });
    g1
}

#[test]
fn test_enable() {
    let g1 = sample_gadget();
    let mut usb_state = UsbGadgetState::new(
        Some("/tmp/configfs/usb_gadget".to_owned()),
        Some("124800.hsotg".to_owned()),
    );
    let ops = usb_state.enable(&g1, true).expect("enable must plan");
    assert_eq!(usb_state.configfs_root(), "/tmp/configfs/usb_gadget");
    assert!(find_write(&ops, &["g1", "idVendor"]).is_some());
    usb_state
        .finish_enable(Ok(()))
        .expect("a successful report must bind");
    assert!(usb_state.is_bound());
}

#[test]
fn enable_plans_expected_tree() {
    // vendor 0x1d6b, product 0x0104, one HID function "usb0", one config
    // {id: 1, name: "c"} referencing it.
    let g1 = sample_gadget();
    let state = UsbGadgetState::new(None, Some("dummy_udc".to_owned()));
    let ops = state.enable(&g1, true).expect("enable must plan");

    assert_eq!(
        find_write(&ops, &["g1", "idVendor"]).expect("idVendor written"),
        b"0x1d6b"
    );
    assert_eq!(
        find_write(&ops, &["g1", "idProduct"]).expect("idProduct written"),
        b"0x0104"
    );
    assert_eq!(
        find_write(&ops, &["g1", "functions", "hid.usb0", "protocol"]).expect("protocol written"),
        b"1"
    );
    assert_eq!(
        find_write(&ops, &["g1", "functions", "hid.usb0", "report_desc"])
            .expect("report_desc written"),
        &hid_keyboard_report_desc()
    );
    let link = ops
        .iter()
        .find(|op| matches!(op, FsOp::CreateSymlink { .. }))
        .expect("one symlink planned");
    if let FsOp::CreateSymlink { target, link } = link {
        assert_eq!(target.segments, vec!["g1", "functions", "hid.usb0"]);
        assert_eq!(link.segments, vec!["g1", "configs", "c.1", "hid.usb0"]);
    }
}

#[test]
fn enable_orders_functions_before_configs_and_udc_last() {
    let g1 = sample_gadget();
    let state = UsbGadgetState::new(None, Some("dummy_udc".to_owned()));
    let ops = state.enable(&g1, true).expect("enable must plan");

    let fn_dir = ops
        .iter()
        .position(|op| is_path(op, &["g1", "functions", "hid.usb0"]))
        .expect("function directory created");
    let link = ops
        .iter()
        .position(|op| matches!(op, FsOp::CreateSymlink { .. }))
        .expect("symlink created");
    assert!(fn_dir < link, "functions must be created before configs");

    let last = ops.last().expect("plan is not empty");
    assert!(is_path(last, &["g1", "UDC"]));
    if let FsOp::WriteFile { contents, .. } = last {
        assert_eq!(contents, b"dummy_udc");
    } else {
        panic!("the last operation must write the UDC attribute");
    }
}

#[test]
fn enable_twice_fails_already_bound() {
    let g1 = sample_gadget();
    let mut state = UsbGadgetState::new(None, Some("udc0".to_owned()));
    state.enable(&g1, true).expect("first enable must plan");
    state.finish_enable(Ok(())).expect("bind succeeds");
    let again = state.enable(&g1, true);
    assert!(matches!(again, Err(StateError::AlreadyBound)));
}

#[test]
fn dangling_reference_fails_before_any_operation() {
    let mut g1 = sample_gadget();
    g1.configs[0].functions.push(FunctionKey {
        func_type: "ecm".to_owned(),
        instance_name: "usb1".to_owned(),
    });
    let state = UsbGadgetState::new(None, Some("udc0".to_owned()));
    let r = state.enable(&g1, true);
    match r {
        Err(StateError::DanglingFunctionReference {
            func_type,
            instance_name,
        }) => {
            assert_eq!(func_type, "ecm");
            assert_eq!(instance_name, "usb1");
        }
        _ => panic!("a dangling reference must fail validation"),
    }
}

#[test]
fn duplicate_function_key_is_rejected() {
    let mut g1 = sample_gadget();
    let report = hid_keyboard_report_desc();
    let hid = HIDFunction::new("usb0", HID_PROTOCOL_KEYBOARD, HID_SUBCLASS_BOOT, 8, &report);
    g1.functions.push(UsbGadgetFunction::Hid(hid));
    let state = UsbGadgetState::new(None, Some("udc0".to_owned()));
    let r = state.enable(&g1, true);
    match r {
        Err(StateError::DuplicateFunction {
            func_type,
            instance_name,
        }) => {
            assert_eq!(func_type, "hid");
            assert_eq!(instance_name, "usb0");
        }
        _ => panic!("a duplicate identity key must fail validation"),
    }
}

#[test]
fn invalid_gadget_name_is_rejected() {
    let mut g1 = sample_gadget();
    g1.name = "a/b".to_owned();
    let state = UsbGadgetState::new(None, Some("udc0".to_owned()));
    let r = state.enable(&g1, true);
    match r {
        Err(StateError::InvalidName { name }) => assert_eq!(name, "a/b"),
        _ => panic!("a name with a slash must fail validation"),
    }
}

#[test]
fn missing_configfs_root_is_fatal() {
    let g1 = sample_gadget();
    let state = UsbGadgetState::new(None, Some("udc0".to_owned()));
    let r = state.enable(&g1, false);
    assert!(matches!(r, Err(StateError::ConfigFsUnavailable)));
}

#[test]
fn disable_when_unbound_fails_not_bound() {
    let g1 = sample_gadget();
    let state = UsbGadgetState::new(None, Some("udc0".to_owned()));
    let r = state.disable(&g1, true);
    assert!(matches!(r, Err(StateError::NotBound)));
}

#[test]
fn filesystem_failure_keeps_state_and_surfaces() {
    let g1 = sample_gadget();
    let mut state = UsbGadgetState::new(None, Some("udc0".to_owned()));
    state.enable(&g1, true).expect("enable must plan");
    let r = state.finish_enable(Err(FsFailure {
        path: "g1/idVendor".to_owned(),
        os_error: 13,
    }));
    match r {
        Err(StateError::FilesystemError { path, os_error }) => {
            assert_eq!(path, "g1/idVendor");
            assert_eq!(os_error, 13);
        }
        _ => panic!("a filesystem failure must surface"),
    }
    assert!(!state.is_bound());
}

#[test]
fn disable_unbinds_first_and_removes_everything_in_reverse() {
    let g1 = sample_gadget();
    let mut state = UsbGadgetState::new(None, Some("udc0".to_owned()));
    let enable_ops = state.enable(&g1, true).expect("enable must plan");
    state.finish_enable(Ok(())).expect("bind succeeds");
    let disable_ops = state.disable(&g1, true).expect("disable must plan");

    // The unbind write comes first and clears the UDC attribute.
    let first = &disable_ops[0];
    assert!(is_path(first, &["g1", "UDC"]));
    if let FsOp::WriteFile { contents, .. } = first {
        assert!(contents.is_empty());
    } else {
        panic!("the first operation must clear the UDC attribute");
    }

    // Everything enable created is removed, children before parents: the
    // removal paths are exactly the creation paths reversed.
    let mut created: Vec<Vec<String>> = Vec::new();
    for op in &enable_ops {
        match op {
            FsOp::CreateDir { .. } | FsOp::CreateSymlink { .. } => created.push(segs(op)),
            _ => {}
        }
    }
    let mut removed: Vec<Vec<String>> = Vec::new();
    for op in &disable_ops {
        match op {
            FsOp::RemoveDir { .. } | FsOp::RemoveLink { .. } => removed.push(segs(op)),
            _ => {}
        }
    }
    created.reverse();
    assert_eq!(created, removed);

    // The gadget root goes last.
    assert!(is_path(disable_ops.last().unwrap(), &["g1"]));

    state.finish_disable(Ok(())).expect("unbind succeeds");
    assert!(!state.is_bound());
}

#[test]
fn hex_rendering_is_prefixed_padded_lowercase() {
    assert_eq!(hex4(0x1d6b), "0x1d6b");
    assert_eq!(hex4(0x0104), "0x0104");
    assert_eq!(hex4(0x0409), "0x0409");
    assert_eq!(hex4(0), "0x0000");
    assert_eq!(hex4(0xffff), "0xffff");
}

#[test]
fn decimal_rendering_is_plain_ascii() {
    assert_eq!(dec_u64(0), "0");
    assert_eq!(dec_u64(8), "8");
    assert_eq!(dec_u64(250), "250");
    assert_eq!(dec_u64(u64::MAX), "18446744073709551615");
}

#[test]
fn strings_are_written_as_raw_bytes() {
    let g1 = sample_gadget();
    let state = UsbGadgetState::new(None, Some("udc0".to_owned()));
    let ops = state.enable(&g1, true).expect("enable must plan");
    assert_eq!(
        find_write(&ops, &["g1", "strings", "0x0409", "serialnumber"]).expect("serial written"),
        b"0123456789"
    );
    assert_eq!(
        find_write(&ops, &["g1", "strings", "0x0409", "manufacturer"])
            .expect("manufacturer written"),
        b"Inverse Path"
    );
    assert_eq!(
        find_write(&ops, &["g1", "strings", "0x0409", "product"]).expect("product written"),
        b"USB Armory"
    );
    assert_eq!(
        find_write(&ops, &["g1", "bcdDevice"]).expect("bcdDevice written"),
        b"0x0100"
    );
    assert_eq!(
        find_write(&ops, &["g1", "bcdUSB"]).expect("bcdUSB written"),
        b"0x0200"
    );
    assert_eq!(
        find_write(&ops, &["g1", "configs", "c.1", "strings", "0x0409", "configuration"])
            .expect("configuration written"),
        b"USB ECM + HID"
    );
}

#[test]
fn ecm_function_writes_mac_addresses() {
    let mut g1 = sample_gadget();
    g1.functions.push(UsbGadgetFunction::Ecm(usbg::function::ECMFunction {
        instance_name: "usb1".to_owned(),
        dev_addr: "1a:55:89:a2:69:41".to_owned(),
        host_addr: "1a:55:89:a2:69:42".to_owned(),
    }));
    let state = UsbGadgetState::new(None, Some("udc0".to_owned()));
    let ops = state.enable(&g1, true).expect("enable must plan");
    assert_eq!(
        find_write(&ops, &["g1", "functions", "ecm.usb1", "dev_addr"]).expect("dev_addr written"),
        b"1a:55:89:a2:69:41"
    );
    assert_eq!(
        find_write(&ops, &["g1", "functions", "ecm.usb1", "host_addr"]).expect("host_addr written"),
        b"1a:55:89:a2:69:42"
    );
}

#[test]
fn max_power_is_written_in_decimal() {
    let mut g1 = sample_gadget();
    g1.configs[0].max_power = Some(250);
    let state = UsbGadgetState::new(None, Some("udc0".to_owned()));
    let ops = state.enable(&g1, true).expect("enable must plan");
    assert_eq!(
        find_write(&ops, &["g1", "configs", "c.1", "MaxPower"]).expect("MaxPower written"),
        b"250"
    );
}

#[test]
fn empty_gadget_still_plans_skeleton_and_udc() {
    let g1 = UsbGadget::new(
        "g0",
        0x0000,
        0xffff,
        LANGID_EN_US,
        "p",
        "m",
        "s",
    );
    let state = UsbGadgetState::new(None, Some("udc0".to_owned()));
    let ops = state.enable(&g1, true).expect("enable must plan");
    assert!(ops.iter().any(|op| is_path(op, &["g0"])));
    assert!(ops.iter().any(|op| is_path(op, &["g0", "functions"])));
    assert!(ops.iter().any(|op| is_path(op, &["g0", "configs"])));
    assert_eq!(find_write(&ops, &["g0", "idVendor"]).expect("idVendor"), b"0x0000");
    assert_eq!(find_write(&ops, &["g0", "idProduct"]).expect("idProduct"), b"0xffff");
    assert!(find_write(&ops, &["g0", "bcdDevice"]).is_none());
    assert!(is_path(ops.last().unwrap(), &["g0", "UDC"]));
}

#[test]
fn rndis_function_writes_mac_addresses() {
    let mut g1 = sample_gadget();
    g1.functions.push(UsbGadgetFunction::Rndis(usbg::function::RNDISFunction::new(
        "usb2",
        "02:00:00:00:00:01",
        "02:00:00:00:00:02",
    )));
    let state = UsbGadgetState::new(None, Some("udc0".to_owned()));
    let ops = state.enable(&g1, true).expect("enable must plan");
    assert_eq!(
        find_write(&ops, &["g1", "functions", "rndis.usb2", "dev_addr"]).expect("dev_addr"),
        b"02:00:00:00:00:01"
    );
    assert_eq!(
        find_write(&ops, &["g1", "functions", "rndis.usb2", "host_addr"]).expect("host_addr"),
        b"02:00:00:00:00:02"
    );
}
