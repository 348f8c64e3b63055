use wgbind::{
    create_status_result, encode_name, fetch_result, list_device_names, status_result, DeviceFlags,
    DeviceRecord, Lifecycle, RawDevice, WgError, WireguardDevice, EEXIST,
};

fn record_named(name: &str) -> DeviceRecord {
    DeviceRecord::blank(encode_name(name).unwrap())
}

fn created(name: &str) -> WireguardDevice {
    let mut dev = WireguardDevice::unbound();
    let field = dev.create_request(name).unwrap();
    dev.create_interface(field, 0, 0).unwrap();
    dev
}

#[test]
fn it_should_return_a_list_of_two_strings() {
    // the buffer the native library hands back once "wg11" and "wg10" exist
    let device = "wg11";
    let result = list_device_names(Some(&b"wg11\0wg10\0\0"[..])).unwrap();
    assert!(matches!(result, Some(_)), "list should never return none");
    assert_eq!(result.unwrap().first().unwrap().as_str(), device);
}

#[test]
fn it_adds_a_device() {
    let device = "wg11";
    let mut dev = WireguardDevice::unbound();
    let field = dev.create_request(device).unwrap();
    let result = dev.create_interface(field, 0, 0);
    match result {
        Ok(r) => {
            assert!(matches!(r, ()), "{:?}", result);
        }
        Err(e) => {
            assert_eq!(e, WgError::AlreadyExists)
        }
    }
    assert_eq!(dev.interface_name(), Ok(field));
    let result = dev.remove_interface(0, 0);
    assert!(matches!(result, Ok(None)), "{:?}", result);
}

#[test]
fn it_gets_a_device() {
    let device = "wg11";
    let dev = WireguardDevice::new(RawDevice { addr: 0x1000, record: record_named(device) });
    assert!(matches!(dev.name(), Ok(x) if x == device));
}

#[test]
fn create_on_taken_name_is_already_exists() {
    let mut dev = WireguardDevice::unbound();
    let field = dev.create_request("wg-test").unwrap();
    assert_eq!(dev.create_interface(field, -EEXIST, EEXIST), Err(WgError::AlreadyExists));
    assert_eq!(dev.state(), Lifecycle::Unbound);
    assert_eq!(create_status_result(-1, 1), Err(WgError::Os(1)));
    assert_eq!(create_status_result(0, EEXIST), Ok(()));
}

#[test]
fn delete_of_missing_name_is_native_failure() {
    let mut dev = created("wg-test");
    // ENODEV
    assert_eq!(dev.remove_interface(-19, 19), Err(WgError::Os(19)));
    assert_eq!(dev.state(), Lifecycle::Created);
    assert_eq!(status_result(-19, 19), Err(WgError::Os(19)));
    assert_eq!(status_result(0, 19), Ok(()));
}

#[test]
fn refresh_discards_local_fwmark() {
    let mut dev = created("wg0");
    let mut first = record_named("wg0");
    first.fwmark = 7;
    assert_eq!(dev.refresh_device(Ok(RawDevice { addr: 0x10, record: first })), Ok(None));
    assert_eq!(dev.fwmark(), Ok(7));
    dev.set_fwmark(99).unwrap();
    assert_eq!(dev.fwmark(), Ok(99));
    assert_eq!(dev.state(), Lifecycle::Modified);
    assert_eq!(dev.refresh_device(Ok(RawDevice { addr: 0x20, record: first })), Ok(Some(0x10)));
    assert_eq!(dev.fwmark(), Ok(7));
    assert_eq!(dev.state(), Lifecycle::Synchronized);
}

#[test]
fn failed_refresh_changes_nothing() {
    let mut dev = created("wg0");
    let mut rec = record_named("wg0");
    rec.fwmark = 3;
    dev.refresh_device(Ok(RawDevice { addr: 0x10, record: rec })).unwrap();
    dev.set_fwmark(4).unwrap();
    assert_eq!(dev.refresh_device(Err(WgError::Os(19))), Err(WgError::Os(19)));
    assert_eq!(dev.fwmark(), Ok(4));
    assert_eq!(dev.raw_device_ptr(), Some(0x10));
    assert_eq!(dev.state(), Lifecycle::Modified);
}

#[test]
fn release_is_idempotent() {
    let mut dev = created("wg0");
    let mut freed: Vec<usize> = Vec::new();
    if let Ok(Some(a)) = dev.refresh_device(Ok(RawDevice { addr: 0x10, record: record_named("wg0") })) {
        freed.push(a);
    }
    if let Ok(Some(a)) = dev.refresh_device(Ok(RawDevice { addr: 0x20, record: record_named("wg0") })) {
        freed.push(a);
    }
    // explicit release, then the release at scope exit
    if let Some(a) = dev.release() {
        freed.push(a);
    }
    if let Some(a) = dev.release() {
        freed.push(a);
    }
    assert_eq!(freed, vec![0x10, 0x20]);
    assert_eq!(dev.raw_device_ptr(), None);
    assert_eq!(dev.state(), Lifecycle::Created);
}

#[test]
fn release_of_unbound_handle_is_noop() {
    let mut dev = WireguardDevice::unbound();
    assert_eq!(dev.release(), None);
    assert_eq!(dev.state(), Lifecycle::Unbound);
}

#[test]
fn remove_releases_owned_record_once() {
    let mut dev = WireguardDevice::new(RawDevice { addr: 0x40, record: record_named("wg5") });
    assert_eq!(dev.remove_interface(0, 0), Ok(Some(0x40)));
    assert_eq!(dev.state(), Lifecycle::Removed);
    assert_eq!(dev.release(), None);
    assert_eq!(dev.interface_name(), Err(WgError::InvalidState));
    assert_eq!(dev.update_request(), Err(WgError::InvalidState));
}

#[test]
fn push_builds_record_from_logical_fields() {
    let mut fetched = record_named("wg1");
    fetched.listen_port = 4242;
    fetched.ifindex = 9;
    fetched.private_key[0] = b'k';
    let mut dev = WireguardDevice::new(RawDevice { addr: 0x10, record: fetched });
    dev.set_fwmark(42).unwrap();
    dev.set_flags(DeviceFlags::empty().with(wgbind::record::WGDEVICE_HAS_FWMARK)).unwrap();
    let rec = dev.update_request().unwrap();
    assert_eq!(rec.name, encode_name("wg1").unwrap());
    assert_eq!(rec.fwmark, 42);
    assert_eq!(rec.flags.bits, 16);
    assert_eq!(rec.listen_port, 4242);
    assert_eq!(rec.ifindex, 0);
    assert_eq!(rec.private_key, fetched.private_key);
    assert_eq!(rec.public_key, [0u8; 32]);
    assert_eq!(dev.update_device(0x30, 0, 0), Ok(Some(0x10)));
    assert_eq!(dev.raw_device_ptr(), Some(0x30));
    assert_eq!(dev.state(), Lifecycle::Synchronized);
    assert_eq!(dev.name(), Ok(String::from("wg1")));
    assert_eq!(dev.fwmark(), Ok(42));
    assert_eq!(dev.private_key(), Ok(Some(String::from("k"))));
}

#[test]
fn pushed_name_is_padded_with_nul() {
    let mut rec = record_named("w");
    rec.name[2] = 1;
    rec.name[15] = b'x';
    let mut dev = WireguardDevice::new(RawDevice { addr: 0x10, record: rec });
    assert_eq!(dev.name(), Ok(String::from("w")));
    let pushed = dev.update_request().unwrap();
    assert_eq!(pushed.name, encode_name("w").unwrap());
    assert_eq!(dev.update_device(0x20, 0, 0), Ok(Some(0x10)));
    assert_eq!(dev.update_request().unwrap().name, encode_name("w").unwrap());
}

#[test]
fn failed_push_changes_nothing() {
    let mut dev = WireguardDevice::new(RawDevice { addr: 0x10, record: record_named("wg1") });
    dev.set_fwmark(42).unwrap();
    assert_eq!(dev.update_device(0x30, -1, 1), Err(WgError::Os(1)));
    assert_eq!(dev.raw_device_ptr(), Some(0x10));
    assert_eq!(dev.state(), Lifecycle::Modified);
}

#[test]
fn push_needs_an_owned_record() {
    let dev = created("wg2");
    assert_eq!(dev.update_request(), Err(WgError::NotBound));
}

#[test]
fn interface_name_refuses_unterminated_field() {
    let mut rec = record_named("wg0");
    rec.name = *b"sixteen-bytes-xx";
    let dev = WireguardDevice::new(RawDevice { addr: 0x10, record: rec });
    assert_eq!(dev.interface_name(), Err(WgError::NameTooLong));
}

#[test]
fn fetch_status_is_mapped() {
    assert_eq!(fetch_result(0, 0x10, 0), Ok(0x10));
    assert_eq!(fetch_result(0, 0, 12), Err(WgError::Os(12)));
    assert_eq!(fetch_result(-19, 0x10, 19), Err(WgError::Os(19)));
}

#[test]
fn accessors_on_unbound_record_fail() {
    let mut dev = created("wg0");
    assert_eq!(dev.name(), Err(WgError::NotBound));
    assert_eq!(dev.flags(), Err(WgError::NotBound));
    assert_eq!(dev.fwmark(), Err(WgError::NotBound));
    assert_eq!(dev.private_key(), Err(WgError::NotBound));
    assert_eq!(dev.public_key(), Err(WgError::NotBound));
    assert_eq!(dev.set_fwmark(1), Err(WgError::NotBound));
    assert_eq!(dev.set_flags(DeviceFlags::empty()), Err(WgError::NotBound));
}

#[test]
fn create_needs_unbound_handle() {
    let dev = created("wg0");
    assert_eq!(dev.create_request("wg1"), Err(WgError::InvalidState));
    let fresh = WireguardDevice::unbound();
    assert_eq!(fresh.create_request("a-name-too-long-x"), Err(WgError::NameTooLong));
    assert_eq!(fresh.interface_name(), Err(WgError::InvalidState));
}

#[test]
fn keys_read_from_record() {
    let mut rec = record_named("wg0");
    rec.private_key[..4].copy_from_slice(b"abc=");
    rec.public_key[0] = 0x01;
    let dev = WireguardDevice::new(RawDevice { addr: 1, record: rec });
    assert_eq!(dev.private_key(), Ok(Some(String::from("abc="))));
    assert_eq!(dev.public_key(), Err(WgError::Decode));
    assert_eq!(dev.flags(), Ok(DeviceFlags::empty()));
}

#[test]
fn push_refuses_unterminated_name_field() {
    let mut rec = record_named("wg0");
    rec.name = *b"sixteen-bytes-xx";
    let dev = WireguardDevice::new(RawDevice { addr: 0x10, record: rec });
    assert_eq!(dev.name(), Err(WgError::Decode));
    assert_eq!(dev.update_request(), Err(WgError::NameTooLong));
}
