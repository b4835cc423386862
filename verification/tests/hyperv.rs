use std::time::Duration;
use qwanban::hyperv::guid::parse_guid;
use qwanban::hyperv::mock::MockHyperVDriver;
use qwanban::hyperv::{VmSpec, VmState};
use qwanban::proto::config::ResourceCaps;
use qwanban::proto::error::QwanCode;
use qwanban::proto::id::CaseId;

#[test]
fn parse_guid_roundtrips() {
    let g = parse_guid("3045196F-2A11-4D65-BCC7-3F9EAB09B7ED").unwrap();
    assert_eq!(&g[0..4], &[0x6F, 0x19, 0x45, 0x30]); // LE first field
}

#[test]
fn parse_guid_full_layout() {
    let g = parse_guid("3045196F-2A11-4D65-BCC7-3F9EAB09B7ED").unwrap();
    assert_eq!(
        g,
        [0x6F, 0x19, 0x45, 0x30, 0x11, 0x2A, 0x65, 0x4D, 0xBC, 0xC7, 0x3F, 0x9E, 0xAB, 0x09, 0xB7, 0xED]
    );
    let h = parse_guid("3045196f2a114d65bcc73f9eab09b7ed").unwrap();
    assert_eq!(g, h);
}

#[test]
fn parse_guid_refusals() {
    let e = parse_guid("1234").unwrap_err();
    assert_eq!(e.message, "bad GUID: 1234");
    let e = parse_guid("3045196G-2A11-4D65-BCC7-3F9EAB09B7ED").unwrap_err();
    assert_eq!(e.message, "invalid digit found in string");
}

fn spec() -> VmSpec {
    VmSpec {
        case_id: CaseId::from_str_inner("case_1"),
        base_vhd_path: "/tmp/base.vhdx".into(),
        caps: ResourceCaps::default(),
        vswitch: "qwan-internal".into(),
    }
}

#[test]
fn create_start_destroy_lifecycle() {
    let mut d = MockHyperVDriver::new();
    let vm = d.create_case_vm(spec()).unwrap();
    assert_eq!(vm.vm_id.as_str(), "mock-vm-0000");
    d.start_vm(&vm).unwrap();
    d.await_state(&vm, VmState::Running, Duration::from_secs(1)).unwrap();
    assert_eq!(d.live_vm_count().unwrap(), 1);
    d.stop_vm(&vm).unwrap();
    assert_eq!(d.live_vm_count().unwrap(), 0);
    d.destroy_case_vm(&vm).unwrap();
    assert!(!d.has_vm(&vm.vm_id));
}

#[test]
fn destroy_removes_vm() {
    let mut d = MockHyperVDriver::new();
    let vm = d.create_case_vm(spec()).unwrap();
    d.destroy_case_vm(&vm).unwrap();
    // now gone — stop returns Ok but does nothing; await_state errors
    assert!(d.stop_vm(&vm).is_ok());
    let err = d.await_state(&vm, VmState::Off, Duration::from_secs(1)).unwrap_err();
    assert_eq!(err.code(), QwanCode::NotFound);
}

#[test]
fn await_wrong_state_names_both_states() {
    let mut d = MockHyperVDriver::new();
    let _first = d.create_case_vm(spec()).unwrap();
    let vm = d.create_case_vm(spec()).unwrap();
    assert_eq!(vm.vm_id.as_str(), "mock-vm-0001");
    let err = d.await_state(&vm, VmState::Running, Duration::from_secs(1)).unwrap_err();
    assert_eq!(err.code(), QwanCode::Internal);
    assert_eq!(err.message(), "vm mock-vm-0001 is Off, not Running");
    assert_eq!(d.checkpoint(&vm, "pre").unwrap().as_str(), "ckpt-pre");
    assert!(d.ensure_switch("qwan-internal").is_ok());
}

#[test]
fn parse_guid_refuses_non_ascii_pairs() {
    let s = "a€€€€€€€€€€b";
    assert_eq!(s.len(), 32);
    let e = parse_guid(s).unwrap_err();
    assert_eq!(e.message, "invalid digit found in string");
}

#[test]
fn parse_guid_refuses_sign_characters() {
    let s = "+F".repeat(16);
    let e = parse_guid(&s).unwrap_err();
    assert_eq!(e.message, "invalid digit found in string");
}
