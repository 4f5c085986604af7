use katcp::messages::sensor::SensorStatus;

#[test]
fn buh_status_validity() {
    assert!(!SensorStatus::Unknown.is_valid());
    assert!(SensorStatus::Nominal.is_valid());
    assert!(SensorStatus::Warn.is_valid());
    assert!(SensorStatus::Error.is_valid());
    assert!(!SensorStatus::Failure.is_valid());
    assert!(!SensorStatus::Unreachable.is_valid());
    assert!(!SensorStatus::Inactive.is_valid());
}

#[test]
fn sensor_status_validity() {
    assert!(!SensorStatus::Unknown.is_valid());
    assert!(SensorStatus::Nominal.is_valid());
    assert!(SensorStatus::Warn.is_valid());
    assert!(SensorStatus::Error.is_valid());
    assert!(!SensorStatus::Failure.is_valid());
    assert!(!SensorStatus::Unreachable.is_valid());
    assert!(!SensorStatus::Inactive.is_valid());
}
