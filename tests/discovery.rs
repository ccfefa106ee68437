use sonic_platform::channel::{channel_filename, parse_channel, scan_channels, ChannelKind};
use sonic_platform::chassis::{classify, contains, DiscoveryStrategy};
use sonic_platform::MlnxChassis;

fn names(list: &[&str]) -> Vec<String> {
    list.iter().map(|s| s.to_string()).collect()
}

#[test]
fn parses_channel_file_names() {
    assert_eq!(parse_channel("temp1_input"), Some((ChannelKind::Temp, 1)));
    assert_eq!(parse_channel("fan12_input"), Some((ChannelKind::Fan, 12)));
    assert_eq!(parse_channel("pwm3"), Some((ChannelKind::Pwm, 3)));
    assert_eq!(parse_channel("temp+7_input"), Some((ChannelKind::Temp, 7)));
}

#[test]
fn skips_unrelated_file_names() {
    assert_eq!(parse_channel("temp1_label"), None);
    assert_eq!(parse_channel("temp_input"), None);
    assert_eq!(parse_channel("tempx_input"), None);
    assert_eq!(parse_channel("pwm1_enable"), None);
    assert_eq!(parse_channel("pwm"), None);
    assert_eq!(parse_channel("name"), None);
    assert_eq!(parse_channel("fan1_fault"), None);
    assert_eq!(parse_channel("fan99999999999999999999_input"), None);
    assert_eq!(parse_channel(""), None);
}

#[test]
fn channel_names_round_trip() {
    for (kind, index) in [(ChannelKind::Temp, 0usize), (ChannelKind::Fan, 7), (ChannelKind::Pwm, 123), (ChannelKind::Temp, usize::MAX)] {
        let name = channel_filename(kind, index);
        assert_eq!(parse_channel(&name), Some((kind, index)));
    }
    assert_eq!(channel_filename(ChannelKind::Temp, 10), "temp10_input");
    assert_eq!(channel_filename(ChannelKind::Fan, 2), "fan2_input");
    assert_eq!(channel_filename(ChannelKind::Pwm, 0), "pwm0");
}

#[test]
fn scan_sorts_each_kind() {
    let inv = scan_channels(&names(&["pwm2", "temp10_input", "fan3_input", "name", "temp2_input", "fan1_input", "pwm1", "temp1_max"]));
    assert_eq!(inv.temps, vec![2, 10]);
    assert_eq!(inv.fans, vec![1, 3]);
    assert_eq!(inv.pwms, vec![1, 2]);
    let empty = scan_channels(&Vec::new());
    assert!(empty.temps.is_empty() && empty.fans.is_empty() && empty.pwms.is_empty());
}

#[test]
fn classifies_by_first_marker() {
    assert_eq!(classify("mlxsw"), DiscoveryStrategy::SwitchAsic);
    assert_eq!(classify("mlxsw_fan"), DiscoveryStrategy::SwitchAsic);
    assert_eq!(classify("mlxreg_fan"), DiscoveryStrategy::FanOnly);
    assert_eq!(classify("cooling_dev"), DiscoveryStrategy::FanOnly);
    assert_eq!(classify("coretemp"), DiscoveryStrategy::Generic);
    assert!(contains("abc", ""));
    assert!(!contains("", "a"));
}

#[test]
fn asic_directory_example() {
    let mut chassis = MlnxChassis::new();
    chassis.process_hwmon_device(
        "/sys/class/hwmon/hwmon1",
        "mlxsw",
        &names(&["temp1_input", "temp2_input", "fan1_input", "fan2_input", "pwm1"]),
    );
    let thermals = chassis.get_thermals();
    assert_eq!(thermals.len(), 2);
    assert_eq!(thermals[0].get_name(None), "Thermal 1");
    assert_eq!(thermals[1].get_name(None), "Thermal 2");
    assert_eq!(thermals[1].get_position_in_parent(), 2);
    let fans = chassis.get_fans();
    assert_eq!(fans.len(), 2);
    assert_eq!(fans[0].get_name(), "Fan 1");
    assert_eq!(fans[0].get_position_in_parent(), 1);
    assert_eq!(fans[0].pwm_index(), Some(1));
    assert_eq!(fans[1].get_position_in_parent(), 2);
    assert_eq!(fans[1].pwm_index(), None);
    assert_eq!(fans[1].hwmon_path(), "/sys/class/hwmon/hwmon1");
    assert!(chassis.get_fan_drawers().is_empty());
}

#[test]
fn asic_fans_pair_by_sorted_position() {
    let mut chassis = MlnxChassis::new();
    chassis.process_hwmon_device("/d", "mlxsw", &names(&["fan4_input", "pwm9", "fan2_input", "pwm5", "fan3_input"]));
    let fans = chassis.get_fans();
    let got: Vec<(usize, Option<usize>)> = fans.iter().map(|f| (f.get_position_in_parent(), f.pwm_index())).collect();
    assert_eq!(got, vec![(2, Some(5)), (3, Some(9)), (4, None)]);
}

#[test]
fn fan_controller_directory() {
    let mut chassis = MlnxChassis::new();
    chassis.process_hwmon_device("/d", "mlxreg_fan", &names(&["fan2_input", "fan1_input", "temp1_input", "pwm1"]));
    let (fans, drawers, thermals) = chassis.into_components();
    assert!(thermals.is_empty());
    assert!(drawers.is_empty());
    assert_eq!(fans.len(), 2);
    assert_eq!(fans[0].get_name(), "mlxreg_fan Fan 1");
    assert_eq!(fans[1].get_name(), "mlxreg_fan Fan 2");
    assert_eq!(fans[0].pwm_index(), None);
}

#[test]
fn generic_directory_and_order() {
    let mut chassis = MlnxChassis::new();
    chassis.process_hwmon_device("/a", "coretemp", &names(&["temp3_input", "temp1_input", "fan1_input"]));
    chassis.process_hwmon_device("/b", "mlxsw", &names(&["temp1_input"]));
    let thermals = chassis.get_thermals();
    assert_eq!(thermals.len(), 3);
    assert_eq!(thermals[0].get_name(None), "coretemp Thermal 1");
    assert_eq!(thermals[1].get_name(None), "coretemp Thermal 3");
    assert_eq!(thermals[2].get_name(None), "Thermal 1");
    assert_eq!(thermals[2].hwmon_path(), "/b");
    assert!(chassis.get_fans().is_empty());
}
