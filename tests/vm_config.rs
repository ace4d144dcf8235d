use spare::vm_config::{
    invocation_vm_config, ActionType, FullVmConfiguration, InstanceActionInfo, Level, Logger, PartialDrive,
    SnapshotCreateParams, SnapshotType,
};

#[test]
fn empty_models() {
    let c = FullVmConfiguration::new();
    assert!(c.boot_source.is_none() && c.drives.is_none() && c.network_interfaces.is_none());
    let l = Logger::new();
    assert!(l.level.is_none() && l.log_path.is_none() && l.module.is_none());
    assert_eq!(Level::default(), Level::Error);
    assert_eq!(ActionType::default(), ActionType::FlushMetrics);
    assert_eq!(SnapshotType::default(), SnapshotType::Full);
    assert_eq!(InstanceActionInfo::new(ActionType::InstanceStart).action_type, ActionType::InstanceStart);
    let d = PartialDrive::new("rootfs".to_string());
    assert_eq!(d.drive_id, "rootfs");
    assert!(d.path_on_host.is_none());
    let s = SnapshotCreateParams::new("mem".to_string(), "snap".to_string());
    assert_eq!((s.mem_file_path.as_str(), s.snapshot_path.as_str()), ("mem", "snap"));
    assert!(s.snapshot_type.is_none());
}

#[test]
fn invocation_config() {
    let c = invocation_vm_config(
        &"/k/kernel.img".to_string(),
        &"/img/f".to_string(),
        2,
        256,
        &"fc-1234abcd-tap".to_string(),
        "console=ttyS0".to_string(),
    );
    let b = c.boot_source.unwrap();
    assert_eq!(b.kernel_image_path, "/k/kernel.img");
    assert_eq!(b.boot_args.as_deref(), Some("console=ttyS0"));
    let d = c.drives.unwrap();
    assert_eq!(d.len(), 1);
    assert_eq!(d[0].drive_id, "rootfs");
    assert_eq!(d[0].is_read_only, Some(false));
    assert_eq!(d[0].path_on_host.as_deref(), Some("/img/f"));
    let n = c.network_interfaces.unwrap();
    assert_eq!(n[0].host_dev_name, "fc-1234abcd-tap");
    assert_eq!(n[0].iface_id, "eth0");
    let m = c.machine_config.unwrap();
    assert_eq!((m.vcpu_count, m.mem_size_mib), (2, 256));
}
