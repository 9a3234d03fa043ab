use trmnl_server::repository::{InMemoryDeviceRepo, RepoError};
use trmnl_server::telemetry::Decimal;

fn repo_with(devices: &[(&str, Option<&str>, &str)]) -> InMemoryDeviceRepo {
    let mut repo = InMemoryDeviceRepo::new();
    for (id, mac, api_key) in devices {
        repo.create(id, *mac, api_key).unwrap();
    }
    repo
}

#[test]
fn success_create_with_mac() {
    let mut repo = InMemoryDeviceRepo::new();
    let result = repo.create("dev123", Some("AA:BB:CC:DD:EE:FF"), "apikey123");
    assert!(result.is_ok());

    let device = repo.get_by_id("dev123").unwrap();
    assert_eq!(device.id, "dev123");
    assert_eq!(device.mac.unwrap(), "AA:BB:CC:DD:EE:FF");
    assert_eq!(device.api_key, "apikey123");
}

#[test]
fn success_create_without_mac() {
    let mut repo = InMemoryDeviceRepo::new();
    let result = repo.create("dev456", None, "apikey456");
    assert!(result.is_ok());

    let device = repo.get_by_id("dev456").unwrap();
    assert_eq!(device.id, "dev456");
    assert!(device.mac.is_none());
    assert_eq!(device.api_key, "apikey456");
}

#[test]
fn error_duplicate_id() {
    let mut repo = InMemoryDeviceRepo::new();
    repo.create("dev789", Some("AA:BB:CC:DD:EE:01"), "apikey789").unwrap();

    let result = repo.create("dev789", Some("AA:BB:CC:DD:EE:02"), "apikey999");
    assert!(result.is_err());
}

#[test]
fn create_refuses_duplicate_mac_and_changes_nothing() {
    let mut repo = repo_with(&[("dev1", Some("AA:BB:CC:DD:EE:01"), "key1")]);
    let result = repo.create("dev2", Some("AA:BB:CC:DD:EE:01"), "key2");
    assert_eq!(result, Err(RepoError::Conflict));
    assert_eq!(repo.list().len(), 1);
    assert!(repo.get_by_id("dev2").is_none());
}

#[test]
fn create_allows_many_virtual_devices() {
    let repo = repo_with(&[("dev1", None, "key1"), ("dev2", None, "key2")]);
    assert_eq!(repo.list().len(), 2);
}

#[test]
fn created_device_starts_without_telemetry() {
    let repo = repo_with(&[("dev1", None, "key1")]);
    let device = repo.get_by_id("dev1").unwrap();
    assert_eq!(device.rssi, None);
    assert_eq!(device.battery_voltage, None);
    assert_eq!(device.fw_version, None);
    assert_eq!(device.refresh_rate, None);
    assert!(device.images.is_empty());
}

#[test]
fn success_true() {
    let repo = repo_with(&[("dev123", Some("AA:BB:CC:DD:EE:FF"), "apikey123")]);
    assert!(repo.exists_by_mac("AA:BB:CC:DD:EE:FF"));
}

#[test]
fn success_false() {
    let repo = InMemoryDeviceRepo::new();
    assert!(!repo.exists_by_mac("11:22:33:44:55:66"));
}

#[test]
fn get_by_api_key_success_found() {
    let repo = repo_with(&[("dev123", Some("AA:BB:CC:DD:EE:FF"), "apikey123")]);
    let device = repo.get_by_api_key("apikey123").unwrap();

    assert_eq!(device.id, "dev123");
    assert_eq!(device.mac.unwrap(), "AA:BB:CC:DD:EE:FF");
    assert_eq!(device.api_key, "apikey123");
    assert!(device.images.is_empty());
}

#[test]
fn get_by_api_key_success_not_found() {
    let repo = InMemoryDeviceRepo::new();
    assert!(repo.get_by_api_key("nonexistent").is_none());
}

#[test]
fn get_by_api_key_returns_first_of_a_shared_key() {
    let repo = repo_with(&[("devB", None, "shared"), ("devA", None, "shared")]);
    assert_eq!(repo.get_by_api_key("shared").unwrap().id, "devA");
}

#[test]
fn success_multiple_devices() {
    let repo = repo_with(&[
        ("dev1", Some("AA:BB:CC:DD:EE:01"), "key1"),
        ("dev2", Some("AA:BB:CC:DD:EE:02"), "key2"),
        ("dev3", None, "key3"),
    ]);
    let list = repo.list();

    assert_eq!(list.len(), 3);
    assert_eq!(list[0].id, "dev1");
    assert_eq!(list[1].id, "dev2");
    assert_eq!(list[2].id, "dev3");
}

#[test]
fn list_is_ordered_by_id_whatever_the_creation_order() {
    let repo = repo_with(&[("C3", None, "k1"), ("A1", None, "k2"), ("B2", None, "k3"), ("A10", None, "k4")]);
    let ids: Vec<String> = repo.list().into_iter().map(|d| d.id).collect();
    assert_eq!(ids, vec!["A1", "A10", "B2", "C3"]);
}

#[test]
fn success_empty_table() {
    let repo = InMemoryDeviceRepo::new();
    assert!(repo.list().is_empty());
}

#[test]
fn success_update_existing_device() {
    let mut repo = repo_with(&[("dev123", Some("AA:BB:CC:DD:EE:FF"), "apikey123")]);
    let images = vec!["image1.jpg".to_string(), "image2.jpg".to_string()];
    repo.update_images("dev123", &images);

    let stored = repo.get_by_id("dev123").unwrap().images;
    assert_eq!(stored, images);
}

#[test]
fn update_images_success_update_nonexistent_device() {
    let mut repo = InMemoryDeviceRepo::new();
    let images = vec!["image1.jpg".to_string()];
    repo.update_images("nonexistent", &images);
    assert_eq!(repo.list().len(), 0);
}

fn device_with_telemetry() -> InMemoryDeviceRepo {
    let mut repo = repo_with(&[("dev123", Some("AA:BB:CC:DD:EE:FF"), "apikey123")]);
    repo.update_status(
        "dev123",
        Some(-50),
        Some(Decimal { mantissa: 37, scale: 1 }),
        Some("1.0.0"),
        Some(60),
    );
    repo
}

#[test]
fn success_update_all_fields() {
    let mut repo = device_with_telemetry();
    repo.update_status(
        "dev123",
        Some(-70),
        Some(Decimal { mantissa: 39, scale: 1 }),
        Some("1.1.0"),
        Some(30),
    );
    let device = repo.get_by_id("dev123").unwrap();

    assert_eq!(device.rssi, Some(-70));
    assert_eq!(device.battery_voltage, Some(Decimal { mantissa: 39, scale: 1 }));
    assert_eq!(device.fw_version.as_deref(), Some("1.1.0"));
    assert_eq!(device.refresh_rate, Some(30));
}

#[test]
fn success_partial_update() {
    let mut repo = device_with_telemetry();
    repo.update_status("dev123", Some(-60), None, Some("1.0.1"), None);
    let device = repo.get_by_id("dev123").unwrap();

    assert_eq!(device.rssi, Some(-60));
    assert_eq!(device.battery_voltage, Some(Decimal { mantissa: 37, scale: 1 }));
    assert_eq!(device.fw_version.as_deref(), Some("1.0.1"));
    assert_eq!(device.refresh_rate, Some(60));
}

#[test]
fn merge_keeps_omitted_fields() {
    let mut repo = device_with_telemetry();
    repo.update_status("dev123", Some(-70), None, Some("1.1.0"), None);
    let device = repo.get_by_id("dev123").unwrap();

    assert_eq!(device.rssi, Some(-70));
    assert_eq!(device.battery_voltage, Some(Decimal { mantissa: 37, scale: 1 }));
    assert_eq!(device.fw_version.as_deref(), Some("1.1.0"));
    assert_eq!(device.refresh_rate, Some(60));
}

#[test]
fn update_status_success_update_nonexistent_device() {
    let mut repo = InMemoryDeviceRepo::new();
    repo.update_status(
        "nonexistent",
        Some(-70),
        Some(Decimal { mantissa: 39, scale: 1 }),
        Some("1.1.0"),
        Some(30),
    );
    assert_eq!(repo.list().len(), 0);
}

#[test]
fn update_status_touches_only_the_named_device() {
    let mut repo = repo_with(&[("dev1", None, "key1"), ("dev2", None, "key2")]);
    repo.update_status("dev2", Some(-40), None, None, None);
    assert_eq!(repo.get_by_id("dev1").unwrap().rssi, None);
    assert_eq!(repo.get_by_id("dev2").unwrap().rssi, Some(-40));
}
