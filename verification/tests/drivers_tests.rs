use aurora_kernel::drivers::graphics::PlaceholderDevice;
use aurora_kernel::drivers::registry::DeviceRegistry;
use aurora_kernel::drivers::storage::{AhciController, NvmeController, StorageControllerType, StorageDeviceInfo};
use aurora_kernel::drivers::{Device, DeviceType};

#[test]
fn placeholder_device() {
    let d = PlaceholderDevice::new("fb0");
    assert_eq!(d.name(), "fb0");
    assert_eq!(d.device_type(), DeviceType::Other);
    assert!(d.initialize().is_ok());
    assert!(d.is_present());
}

#[test]
fn controllers_not_found() {
    assert!(AhciController::new(0x1f0).is_none());
    assert!(NvmeController::new(0xfebf_0000).is_none());
}

#[test]
fn storage_info_fields() {
    let info = StorageDeviceInfo {
        name: "sda".to_string(),
        controller_type: StorageControllerType::AHCI,
        model: "m".to_string(),
        serial: "s".to_string(),
        capacity_bytes: 1 << 30,
        removable: false,
    };
    assert_eq!(info.controller_type, StorageControllerType::AHCI);
    assert_eq!(info.capacity_bytes, 1 << 30);
}

#[test]
fn registry_by_name() {
    let mut r: DeviceRegistry<PlaceholderDevice> = DeviceRegistry::new();
    r.register("tty".to_string(), PlaceholderDevice::new("tty0"));
    r.register("disk".to_string(), PlaceholderDevice::new("sda"));
    r.register("net".to_string(), PlaceholderDevice::new("eth0"));
    assert_eq!(r.list(), vec!["disk".to_string(), "net".to_string(), "tty".to_string()]);
    assert_eq!(r.get("disk").map(|d| d.name().to_string()), Some("sda".to_string()));
    assert!(r.get("none").is_none());
    r.register("disk".to_string(), PlaceholderDevice::new("sdb"));
    assert_eq!(r.get("disk").map(|d| d.name().to_string()), Some("sdb".to_string()));
    assert_eq!(r.list().len(), 3);
}
