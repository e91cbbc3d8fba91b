use desc_alloc::device_select::{select_compute_device, QUEUE_COMPUTE_BIT};

#[test]
fn picks_first_compute_capable_family() {
    // Device 0 has only a transfer-style family; device 1 has a graphics
    // family first and a compute family second.
    let devices = vec![vec![4u32], vec![1u32, 1 | QUEUE_COMPUTE_BIT, QUEUE_COMPUTE_BIT]];
    assert_eq!(select_compute_device(&devices), Some((1, 1)));
}

#[test]
fn picks_first_device_even_if_later_ones_match() {
    let devices = vec![vec![QUEUE_COMPUTE_BIT], vec![QUEUE_COMPUTE_BIT]];
    assert_eq!(select_compute_device(&devices), Some((0, 0)));
}

#[test]
fn no_compute_capable_device_yields_none() {
    let devices = vec![vec![1u32, 4u32], vec![], vec![8u32]];
    assert_eq!(select_compute_device(&devices), None);
}

#[test]
fn no_devices_at_all_yields_none() {
    let devices: Vec<Vec<u32>> = Vec::new();
    assert_eq!(select_compute_device(&devices), None);
}
