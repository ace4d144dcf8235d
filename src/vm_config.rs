//! MicroVM monitor configuration models and the configuration of one
//! invocation's microVM.
use vstd::prelude::*;
use vstd::string::StringExecFns;

verus! {

/// Kernel image and its command line.
pub struct BootSource {
    pub boot_args: Option<String>,
    pub initrd_path: Option<String>,
    pub kernel_image_path: String,
}

/// A block device.
pub struct Drive {
    pub drive_id: String,
    pub is_root_device: bool,
    pub is_read_only: Option<bool>,
    pub path_on_host: Option<String>,
}

/// vCPU and memory sizing of a microVM.
pub struct MachineConfiguration {
    pub vcpu_count: i32,
    pub mem_size_mib: i32,
    pub smt: Option<bool>,
    pub track_dirty_pages: Option<bool>,
}

/// A network interface backed by a host TAP device.
pub struct NetworkInterface {
    pub guest_mac: Option<String>,
    pub host_dev_name: String,
    pub iface_id: String,
}

/// The vsock device of a microVM.
pub struct Vsock {
    pub guest_cid: i32,
    pub uds_path: String,
}

/// Set the level. The possible values are case-insensitive.
#[derive(Debug, Clone, Copy, PartialEq, Eq, Structural)]
pub enum Level {
    Error,
    Warning,
    Info,
    Debug,
    Trace,
}

impl Default for Level {
    fn default() -> (r: Level)
        ensures
            r == Level::Error,
    {
        Level::Error
    }
}

/// Logging configuration of the monitor.
pub struct Logger {
    pub level: Option<Level>,
    pub log_path: Option<String>,
    pub show_level: Option<bool>,
    pub show_log_origin: Option<bool>,
    pub module: Option<String>,
}

impl Logger {
    /// A logger configuration with every option unset.
    pub fn new() -> (r: Logger)
        ensures
            r.level is None,
            r.log_path is None,
            r.show_level is None,
            r.show_log_origin is None,
            r.module is None,
    {
        Logger { level: None, log_path: None, show_level: None, show_log_origin: None, module: None }
    }
}

/// Type of an action sent to a running microVM.
#[derive(Debug, Clone, Copy, PartialEq, Eq, Structural)]
pub enum ActionType {
    FlushMetrics,
    InstanceStart,
    SendCtrlAltDel,
}

impl Default for ActionType {
    fn default() -> (r: ActionType)
        ensures
            r == ActionType::FlushMetrics,
    {
        ActionType::FlushMetrics
    }
}

/// Variant wrapper containing the real action.
pub struct InstanceActionInfo {
    pub action_type: ActionType,
}

impl InstanceActionInfo {
    /// Wrap `action_type`.
    pub fn new(action_type: ActionType) -> (r: InstanceActionInfo)
        ensures
            r.action_type == action_type,
    {
        InstanceActionInfo { action_type }
    }
}

/// An update of a block device's backing file.
pub struct PartialDrive {
    pub drive_id: String,
    pub path_on_host: Option<String>,
}

impl PartialDrive {
    /// An update of drive `drive_id` that changes nothing yet.
    pub fn new(drive_id: String) -> (r: PartialDrive)
        ensures
            r.drive_id == drive_id,
            r.path_on_host is None,
    {
        PartialDrive { drive_id, path_on_host: None }
    }
}

/// Kind of snapshot to create; a full one unless asked otherwise.
#[derive(Debug, Clone, Copy, PartialEq, Eq, Structural)]
pub enum SnapshotType {
    Full,
    Diff,
}

impl Default for SnapshotType {
    fn default() -> (r: SnapshotType)
        ensures
            r == SnapshotType::Full,
    {
        SnapshotType::Full
    }
}

/// Where to write a snapshot of a microVM.
pub struct SnapshotCreateParams {
    pub mem_file_path: String,
    pub snapshot_path: String,
    pub snapshot_type: Option<SnapshotType>,
}

impl SnapshotCreateParams {
    /// Snapshot the guest memory to `mem_file_path` and the state to `snapshot_path`.
    pub fn new(mem_file_path: String, snapshot_path: String) -> (r: SnapshotCreateParams)
        ensures
            r.mem_file_path == mem_file_path,
            r.snapshot_path == snapshot_path,
            r.snapshot_type is None,
    {
        SnapshotCreateParams { mem_file_path, snapshot_path, snapshot_type: None }
    }
}

/// The full configuration of a microVM.
pub struct FullVmConfiguration {
    pub boot_source: Option<BootSource>,
    pub drives: Option<Vec<Drive>>,
    pub logger: Option<Logger>,
    pub machine_config: Option<MachineConfiguration>,
    pub network_interfaces: Option<Vec<NetworkInterface>>,
    pub vsock: Option<Vsock>,
}

impl FullVmConfiguration {
    /// A configuration with nothing set.
    pub fn new() -> (r: FullVmConfiguration)
        ensures
            r.boot_source is None,
            r.drives is None,
            r.logger is None,
            r.machine_config is None,
            r.network_interfaces is None,
            r.vsock is None,
    {
        FullVmConfiguration {
            boot_source: None,
            drives: None,
            logger: None,
            machine_config: None,
            network_interfaces: None,
            vsock: None,
        }
    }
}

/// The characters of `s`.
pub open spec fn chars(s: &str) -> Seq<char> {
    s@
}

/// The configuration of an invocation's microVM: the kernel with
/// `boot_args`, the function image as a writable root drive, one interface
/// on the TAP device `tap_name`, and the requested vCPUs and memory.
pub fn invocation_vm_config(
    kernel: &String,
    image: &String,
    vcpus: i32,
    memory_mib: i32,
    tap_name: &String,
    boot_args: String,
) -> (r: FullVmConfiguration)
    ensures
        r.boot_source matches Some(b) && b.kernel_image_path@ == kernel@ && b.boot_args == Some(boot_args)
            && b.initrd_path is None,
        r.drives matches Some(d) && d@.len() == 1 && d@[0].drive_id@ == chars("rootfs") && d@[0].is_root_device
            && d@[0].is_read_only == Some(false) && d@[0].path_on_host is Some && d@[0].path_on_host.unwrap()@ == image@,
        r.network_interfaces matches Some(n) && n@.len() == 1 && n@[0].host_dev_name@ == tap_name@
            && n@[0].iface_id@ == chars("eth0") && n@[0].guest_mac is Some
            && n@[0].guest_mac.unwrap()@ == chars("AA:FC:00:00:00:00"),
        r.machine_config matches Some(m) && m.vcpu_count == vcpus && m.mem_size_mib == memory_mib
            && m.smt == Some(true) && m.track_dirty_pages == Some(true),
        r.logger is None,
        r.vsock is None,
{
    let boot = BootSource { boot_args: Some(boot_args), initrd_path: None, kernel_image_path: kernel.clone() };
    let disk = Drive {
        drive_id: String::from_str("rootfs"),
        is_root_device: true,
        is_read_only: Some(false),
        path_on_host: Some(image.clone()),
    };
    let net = NetworkInterface {
        guest_mac: Some(String::from_str("AA:FC:00:00:00:00")),
        host_dev_name: tap_name.clone(),
        iface_id: String::from_str("eth0"),
    };
    let machine = MachineConfiguration {
        vcpu_count: vcpus,
        mem_size_mib: memory_mib,
        smt: Some(true),
        track_dirty_pages: Some(true),
    };
    let mut drives: Vec<Drive> = Vec::new();
    drives.push(disk);
    let mut nics: Vec<NetworkInterface> = Vec::new();
    nics.push(net);
    FullVmConfiguration {
        boot_source: Some(boot),
        drives: Some(drives),
        logger: None,
        machine_config: Some(machine),
        network_interfaces: Some(nics),
        vsock: None,
    }
}

} // verus!
