use gpu_tree::cl::{bus_id_from_info, find_device_by_bus_id, first_device, PlatformDevices};
use gpu_tree::pool::{
    parse_setting, pool_size, DEFAULT_HASH_RETRY, DEFAULT_KERNELS_PER_DEVICE,
    MAX_CONTEXTS,
};
use gpu_tree::{to_u32, ClError, ContextPool, Selector};

#[test]
fn settings_fall_back_to_defaults() {
    assert_eq!(parse_setting(&Some("8".to_string()), 1), 8);
    assert_eq!(parse_setting(&Some("+12".to_string()), 1), 12);
    assert_eq!(parse_setting(&Some("".to_string()), 4), 4);
    assert_eq!(parse_setting(&Some(" 8".to_string()), 4), 4);
    assert_eq!(parse_setting(&Some("-1".to_string()), 4), 4);
    assert_eq!(parse_setting(&Some("99999999999999999999999".to_string()), 4), 4);
    assert_eq!(parse_setting(&None, DEFAULT_HASH_RETRY), 3600);
}

#[test]
fn pool_size_is_capped() {
    assert_eq!(pool_size(1, DEFAULT_KERNELS_PER_DEVICE, MAX_CONTEXTS), 4);
    assert_eq!(pool_size(10, 4, 32), 32);
    assert_eq!(pool_size(8, 4, 32), 32);
    assert_eq!(pool_size(0, 4, 32), 0);
    assert_eq!(pool_size(usize::MAX, usize::MAX, 32), 32);
}

#[test]
fn contexts_are_assigned_round_robin() {
    let mut p = ContextPool::new(1, 3);
    assert_eq!(p.size(), 3);
    let got: Vec<usize> = (0..7).map(|_| p.acquire_next()).collect();
    assert_eq!(got, vec![0, 1, 2, 0, 1, 2, 0]);
}

#[test]
fn bus_ids_are_little_endian() {
    assert_eq!(to_u32(&[1, 2, 3, 4]), 0x0403_0201);
    assert_eq!(to_u32(&[255, 255, 255, 255, 9]), u32::MAX);
    assert_eq!(bus_id_from_info(0, 4, &[5, 0, 0, 0]), Ok(5));
    assert_eq!(bus_id_from_info(0, 2, &[5, 0, 0, 0]), Err(ClError::BusIdNotAvailable));
    assert_eq!(bus_id_from_info(-1, 4, &[5, 0, 0, 0]), Err(ClError::BusIdNotAvailable));
}

#[test]
fn devices_are_found_in_order() {
    let ps: Vec<PlatformDevices> = vec![Ok(vec![]), Ok(vec![Ok(7), Ok(9)]), Ok(vec![Ok(3)])];
    assert_eq!(first_device(&ps), Ok((1, 0)));
    assert_eq!(find_device_by_bus_id(&ps, 3), Ok((2, 0)));
    assert_eq!(find_device_by_bus_id(&ps, 9), Ok((1, 1)));
    assert_eq!(find_device_by_bus_id(&ps, 4), Err(ClError::DeviceNotFound));
    let broken: Vec<PlatformDevices> =
        vec![Ok(vec![Err(ClError::BusIdNotAvailable), Ok(3)])];
    assert_eq!(find_device_by_bus_id(&broken, 3), Err(ClError::BusIdNotAvailable));
    assert_eq!(first_device(&vec![Err(ClError::DeviceNotFound)]), Err(ClError::DeviceNotFound));
    assert_eq!(first_device(&vec![]), Err(ClError::DeviceNotFound));
}

#[test]
fn selectors_resolve_to_bus_ids() {
    let ps: Result<Vec<PlatformDevices>, ClError> = Ok(vec![Ok(vec![Ok(7), Ok(9)])]);
    assert_eq!(Selector::BusId(5).get_bus_id(&ps), Ok(5));
    assert_eq!(Selector::Default.get_bus_id(&ps), Ok(7));
    assert_eq!(
        Selector::Default.get_bus_id(&Err(ClError::PlatformNotFound)),
        Err(ClError::PlatformNotFound)
    );
    let none: Result<Vec<PlatformDevices>, ClError> = Ok(vec![Ok(vec![])]);
    assert_eq!(Selector::Default.get_bus_id(&none), Err(ClError::DeviceNotFound));
}
