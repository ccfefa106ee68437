use sonic_platform::fan::{pwm_value_for, FaultCounter};
use sonic_platform::thermal::{MlnxThermal, TemperatureStatus};
use sonic_platform::units::{parse_i32_exec, parse_u32, parse_usize, percentage_to_pwm, pwm_to_percentage, rpm_to_percentage};
use sonic_platform::{detect_platform, FanDirection, FanDrawer, FanStatus, LedColor, MlnxFan};

fn fan(pwm: Option<usize>) -> MlnxFan {
    MlnxFan::new("Fan 1".to_string(), "/d".to_string(), 1, pwm)
}

#[test]
fn converts_units() {
    assert_eq!(rpm_to_percentage(12500), 50);
    assert_eq!(rpm_to_percentage(25000), 100);
    assert_eq!(rpm_to_percentage(40000), 100);
    assert_eq!(rpm_to_percentage(0), 0);
    assert_eq!(pwm_to_percentage(128), 50);
    assert_eq!(pwm_to_percentage(255), 100);
    assert_eq!(percentage_to_pwm(50), 127);
    assert_eq!(percentage_to_pwm(100), 255);
    assert_eq!(percentage_to_pwm(250), 255);
    assert_eq!(pwm_value_for(20), 51);
}

#[test]
fn parses_numbers() {
    assert_eq!(parse_u32("12500"), Some(12500));
    assert_eq!(parse_u32("+3"), Some(3));
    assert_eq!(parse_u32("4294967295"), Some(u32::MAX));
    assert_eq!(parse_u32("4294967296"), None);
    assert_eq!(parse_u32(""), None);
    assert_eq!(parse_u32("+"), None);
    assert_eq!(parse_u32("-1"), None);
    assert_eq!(parse_u32("12a"), None);
    assert_eq!(parse_usize("007"), Some(7));
    assert_eq!(parse_i32_exec("45230"), Some(45230));
    assert_eq!(parse_i32_exec("-5000"), Some(-5000));
    assert_eq!(parse_i32_exec("-2147483648"), Some(i32::MIN));
    assert_eq!(parse_i32_exec("2147483648"), None);
    assert_eq!(parse_i32_exec("-"), None);
}

#[test]
fn fan_speed_example() {
    let f = fan(Some(1));
    let speed = f.get_speed("12500").unwrap();
    assert_eq!(speed, 50);
    assert_eq!(f.get_target_speed(speed, Some("128")), Some(50));
    assert_eq!(f.get_target_speed(speed, None), None);
    assert_eq!(f.get_target_speed(speed, Some("x")), None);
    assert_eq!(f.get_speed("fast"), None);
    let unpaired = fan(None);
    assert_eq!(unpaired.get_target_speed(37, Some("255")), Some(37));
    assert_eq!(unpaired.pwm_file(), None);
    assert_eq!(f.pwm_file(), Some("pwm1".to_string()));
    assert_eq!(f.input_file(), "fan1_input");
    assert_eq!(f.fault_file(), "fan1_fault");
}

#[test]
fn speed_bands_saturate() {
    let f = fan(None);
    assert!(f.is_under_speed(29, 50));
    assert!(!f.is_under_speed(30, 50));
    assert!(!f.is_under_speed(0, 10));
    assert!(f.is_over_speed(71, 50));
    assert!(!f.is_over_speed(70, 50));
    assert!(!f.is_over_speed(u32::MAX, u32::MAX - 5));
}

#[test]
fn fan_health_from_fault_attribute() {
    let f = fan(None);
    assert!(f.get_presence(Some("0")));
    assert!(!f.get_presence(Some("1")));
    assert!(f.get_presence(None));
    assert!(f.get_presence(Some("garbage")));
    assert!(!f.get_status(Some("3")));
    assert_eq!(f.get_status_led(Some("0")), LedColor::Green);
    assert_eq!(f.get_status_led(Some("1")), LedColor::Red);
}

#[test]
fn fan_fixed_answers() {
    let f = fan(None);
    assert_eq!(f.get_direction(), FanDirection::Intake);
    assert_eq!(f.get_direction().to_string(), "intake");
    assert_eq!(FanDirection::NotApplicable.to_string(), "N/A");
    assert_eq!(f.get_serial(), "N/A");
    assert!(f.is_replaceable());
    assert!(f.set_status_led(LedColor::Amber));
    assert_eq!(f.get_model(None), "Mellanox Fan");
    assert_eq!(f.get_model(Some("mlxsw")), "mlxsw");
}

#[test]
fn drawer_reports() {
    let d = FanDrawer::new("drawer1".to_string(), vec![fan(None), fan(Some(2))]);
    assert_eq!(d.get_name(), "drawer1");
    assert_eq!(d.get_all_fans().len(), 2);
    assert!(d.get_presence());
    assert!(d.get_status(&[true, true]));
    assert!(!d.get_status(&[true, false]));
    assert!(d.get_status(&[]));
    assert_eq!(d.get_model(), "Unknown");
    assert_eq!(d.get_serial(), "Unknown");
    assert!(d.is_replaceable());
    assert!(d.set_status_led(LedColor::Red));
    assert_eq!(d.get_status_led(), LedColor::Green);
}

#[test]
fn fan_status_flags_and_counter() {
    let mut counter = FaultCounter::new();
    let mut s = FanStatus::new();
    assert!(s.is_ok());
    assert!(!s.set_presence(true, &mut counter));
    assert!(s.set_presence(false, &mut counter));
    assert_eq!(FanStatus::get_bad_fan_count(&counter), 1);
    assert!(!s.is_ok());
    assert!(s.set_fault_status(false, &mut counter));
    assert_eq!(FanStatus::get_bad_fan_count(&counter), 2);
    assert!(s.set_presence(true, &mut counter));
    assert!(s.set_fault_status(true, &mut counter));
    assert_eq!(FanStatus::get_bad_fan_count(&counter), 0);
    assert!(s.set_under_speed(true));
    assert!(!s.set_under_speed(true));
    assert_eq!(FanStatus::get_bad_fan_count(&counter), 0);
    assert!(!s.is_ok());
    assert!(s.set_under_speed(false));
    assert!(s.set_over_speed(true));
    assert!(!s.is_ok());
    FanStatus::reset_fan_counter(&mut counter);
    assert_eq!(counter.get(), 0);
}

#[test]
fn counter_follows_flips_across_trackers() {
    let mut counter = FaultCounter::new();
    let mut a = FanStatus::new();
    let mut b = FanStatus::new();
    a.set_presence(false, &mut counter);
    b.set_presence(false, &mut counter);
    a.set_presence(true, &mut counter);
    b.set_presence(false, &mut counter);
    a.set_presence(false, &mut counter);
    // three falls and one rise so far: two fans are unhealthy
    assert_eq!(counter.get(), 2);
    b.set_presence(true, &mut counter);
    a.set_presence(true, &mut counter);
    assert_eq!(counter.get(), 0);
}

#[test]
fn counter_does_not_go_below_zero() {
    let mut counter = FaultCounter::new();
    let mut s = FanStatus::new();
    s.set_presence(false, &mut counter);
    FanStatus::reset_fan_counter(&mut counter);
    s.set_presence(true, &mut counter);
    assert_eq!(counter.get(), 0);
}

#[test]
fn temperature_example() {
    let t = MlnxThermal::new("Thermal 1".to_string(), "/d".to_string(), 1);
    let reading = t.get_temperature("45230").unwrap();
    assert_eq!(reading, 45230);
    assert_eq!(reading as f32 / 1000.0, 45.23);
    let mut s = TemperatureStatus::new();
    assert!(s.set_temperature(reading));
    assert!(s.set_over_temperature(reading, 40000));
    assert!(s.over_temperature);
    assert!(!s.set_over_temperature(reading, 40000));
    assert!(s.over_temperature);
}

#[test]
fn temperature_deadband() {
    let mut s = TemperatureStatus::new();
    assert!(s.set_temperature(30000));
    assert!(!s.set_temperature(30100));
    assert!(s.set_temperature(30201));
    assert!(!s.is_rapid_change(40201));
    assert!(s.is_rapid_change(40202));
    assert_eq!(s.temperature, Some(30201));
}

#[test]
fn threshold_evaluation_repeats_quietly() {
    let mut s = TemperatureStatus::new();
    assert!(s.set_under_temperature(-5000, 0));
    assert!(!s.set_under_temperature(-5000, 0));
    assert!(s.under_temperature);
    assert!(!s.set_over_temperature(10000, 20000));
    assert!(!s.set_over_temperature(10000, 20000));
}

#[test]
fn sentinel_suppresses_evaluation() {
    let mut s = TemperatureStatus::new();
    assert!(!s.set_over_temperature(-999000, 40000));
    assert!(!s.over_temperature);
    assert!(s.set_over_temperature(50000, 40000));
    assert!(!s.set_over_temperature(10000, -999000));
    assert!(!s.set_over_temperature(10000, -999050));
    assert!(s.over_temperature);
    assert!(!s.set_under_temperature(-999099, 0));
    assert!(!s.under_temperature);
    assert!(s.set_under_temperature(-998900, 0));
}

#[test]
fn thermal_thresholds_and_extrema() {
    let mut t = MlnxThermal::new("coretemp Thermal 2".to_string(), "/d".to_string(), 2);
    assert_eq!(t.get_high_threshold(None), 85000);
    assert_eq!(t.get_high_threshold(Some("90000")), 90000);
    assert_eq!(t.get_low_threshold(Some("bad")), 0);
    assert_eq!(t.get_high_critical_threshold(None), 100000);
    assert_eq!(t.get_low_critical_threshold(), -10000);
    assert_eq!(t.get_minimum_recorded(None), 1000000);
    assert_eq!(t.get_maximum_recorded(None), -1000000);
    t.update_min_max(42000);
    t.update_min_max(38000);
    assert_eq!(t.get_minimum_recorded(None), 38000);
    assert_eq!(t.get_maximum_recorded(None), 42000);
    assert_eq!(t.get_maximum_recorded(Some("50000")), 50000);
    assert_eq!(t.get_name(Some("CPU")), "CPU");
    assert_eq!(t.get_name(None), "coretemp Thermal 2");
    assert!(!t.is_replaceable());
    assert_eq!(t.get_position_in_parent(), 2);
    assert_eq!(t.input_file(), "temp2_input");
    assert_eq!(t.attribute_file("max"), "temp2_max");
}

#[test]
fn detects_vendor_platform() {
    let none: Vec<String> = Vec::new();
    assert!(detect_platform(Some("Mellanox Technologies"), None, &none));
    assert!(detect_platform(None, Some("NVIDIA"), &none));
    assert!(!detect_platform(Some("Dell Inc."), Some("Dell"), &none));
    assert!(detect_platform(None, None, &vec!["coretemp".to_string(), "mlxsw".to_string()]));
    assert!(!detect_platform(None, None, &vec!["coretemp".to_string()]));
}
