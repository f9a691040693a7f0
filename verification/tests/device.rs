use neuro_bridge::{decimal, describe, device_response, BridgeResponse};

#[test]
fn decimal_of_small_and_large_numbers() {
    assert_eq!(decimal(0), "0");
    assert_eq!(decimal(7), "7");
    assert_eq!(decimal(10), "10");
    assert_eq!(decimal(4_206_592), "4206592");
    assert_eq!(decimal(1_000_000_000), "1000000000");
    assert_eq!(decimal(u32::MAX), "4294967295");
}

#[test]
fn decimal_agrees_with_the_standard_formatting() {
    for n in [1u32, 9, 11, 99, 100, 101, 65_535, 65_536, 999_999_999, 4_294_967_290] {
        assert_eq!(decimal(n), n.to_string());
    }
}

#[test]
fn first_device_is_described_by_name_and_version() {
    assert_eq!(
        describe(Some(("Adreno (TM) 650".to_string(), 2_150_432_768))),
        ("Adreno (TM) 650".to_string(), "2150432768".to_string()),
    );
}

#[test]
fn missing_device_is_described_as_none_found() {
    assert_eq!(describe(None), ("No GPU Found".to_string(), "0".to_string()));
}

#[test]
fn description_of_no_device_is_still_a_gpu_info_response() {
    assert_eq!(
        device_response(Ok(describe(None))),
        BridgeResponse::GpuInfo {
            device_name: "No GPU Found".to_string(),
            driver_version: "0".to_string(),
        },
    );
}
