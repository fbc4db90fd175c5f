use xbee_rust_modem_library::serial::{
    at_step_outcome, classify_at_response, hex_upper, is_better_port_choice, normalize_port_key,
    select_xbee_ports, transparent_radio_commands, AtReply, PortCandidate,
    TransparentRadioConfig,
};

fn port(name: &str, vid: Option<u16>, serial: Option<&str>) -> PortCandidate {
    PortCandidate {
        port_name: name.to_string(),
        usb_vid: vid,
        serial_number: serial.map(|s| s.to_string()),
    }
}

fn chars(s: &str) -> Vec<char> {
    s.chars().collect()
}

#[test]
fn port_keys_drop_the_macos_device_prefix() {
    assert_eq!(normalize_port_key("/dev/cu.usbserial-A1"), chars("usbserial-A1"));
    assert_eq!(normalize_port_key("/dev/tty.usbserial-A1"), chars("usbserial-A1"));
    assert_eq!(normalize_port_key("/dev/ttyUSB0"), chars("/dev/ttyUSB0"));
    assert_eq!(normalize_port_key("COM3"), chars("COM3"));
}

#[test]
fn callout_devices_are_preferred() {
    assert!(is_better_port_choice("/dev/cu.x", "/dev/tty.x"));
    assert!(!is_better_port_choice("/dev/tty.x", "/dev/cu.x"));
    assert!(!is_better_port_choice("/dev/cu.x", "/dev/cu.y"));
    assert!(!is_better_port_choice("/dev/ttyUSB0", "/dev/ttyUSB1"));
}

#[test]
fn one_port_per_adapter_sorted_by_key() {
    let ports = vec![
        port("/dev/tty.usbserial-B", Some(0x0403), None),
        port("/dev/tty.usbserial-A", Some(0x10C4), None),
        port("/dev/cu.usbserial-B", Some(0x0403), None),
        port("/dev/ttyACM0", Some(0x2341), None),
        port("/dev/ttyS0", None, None),
        port("/dev/cu.usbserial-A", Some(0x10C4), None),
    ];
    assert_eq!(
        select_xbee_ports(&ports),
        vec!["/dev/cu.usbserial-A".to_string(), "/dev/cu.usbserial-B".to_string()]
    );
}

#[test]
fn serial_numbers_group_ports() {
    let ports = vec![
        port("/dev/ttyUSB1", Some(0x0403), Some("ZZ")),
        port("/dev/ttyUSB0", Some(0x0403), Some("AA")),
        port("/dev/ttyUSB2", Some(0x0403), Some("ZZ")),
    ];
    assert_eq!(
        select_xbee_ports(&ports),
        vec!["/dev/ttyUSB0".to_string(), "/dev/ttyUSB1".to_string()]
    );
    assert!(select_xbee_ports(&[]).is_empty());
}

#[test]
fn at_values_are_uppercase_hex_without_padding() {
    assert_eq!(hex_upper(0x14), chars("14"));
    assert_eq!(hex_upper(0x03), chars("3"));
    assert_eq!(hex_upper(0x00), chars("0"));
    assert_eq!(hex_upper(0xAB), chars("AB"));
}

#[test]
fn radio_setup_commands_in_order() {
    let config = TransparentRadioConfig {
        packetization_timeout: 0x14,
        xbee_retries: 0x03,
        mac_mode: 0x00,
        channel: 0x19,
    };
    let cmds = transparent_radio_commands(&config);
    let shown: Vec<(String, String, bool)> = cmds
        .iter()
        .map(|c| (c.command.iter().collect(), c.value.iter().collect(), c.may_be_unsupported))
        .collect();
    assert_eq!(
        shown,
        vec![
            ("RO".to_string(), "14".to_string(), false),
            ("RR".to_string(), "3".to_string(), false),
            ("MM".to_string(), "0".to_string(), true),
            ("CH".to_string(), "19".to_string(), true),
            ("AC".to_string(), "".to_string(), false),
        ]
    );
}

#[test]
fn at_responses_are_classified_after_trimming() {
    assert_eq!(classify_at_response("OK\r"), AtReply::Acknowledged);
    assert_eq!(classify_at_response(" ERROR\r"), AtReply::Refused);
    assert_eq!(classify_at_response("ok\r"), AtReply::Unexpected);
    assert_eq!(classify_at_response(""), AtReply::Unexpected);
}

#[test]
fn unsupported_settings_are_tolerated_only_where_allowed() {
    let config = TransparentRadioConfig {
        packetization_timeout: 1,
        xbee_retries: 1,
        mac_mode: 1,
        channel: 1,
    };
    let cmds = transparent_radio_commands(&config);
    assert_eq!(at_step_outcome(&cmds[0], AtReply::Acknowledged), Ok(true));
    assert_eq!(at_step_outcome(&cmds[0], AtReply::Refused), Err(()));
    assert_eq!(at_step_outcome(&cmds[2], AtReply::Refused), Ok(false));
    assert_eq!(at_step_outcome(&cmds[3], AtReply::Unexpected), Err(()));
}

use xbee_rust_modem_library::serial::{RadioSetup, RadioSetupAction, RadioSetupError};
use AtReply::{Acknowledged, Refused, Unexpected};

/// Drive a set-up dialogue with the given replies; the actions asked for.
fn dialogue(replies: &[AtReply]) -> (Vec<String>, Option<Result<(bool, bool), RadioSetupError>>) {
    let mut setup = RadioSetup::new();
    let mut asked = Vec::new();
    let mut replies = replies.iter();
    loop {
        match setup.next_action() {
            RadioSetupAction::EnterCommandMode => asked.push("+++".to_string()),
            RadioSetupAction::SendCommand(i) => asked.push(format!("cmd{i}")),
            RadioSetupAction::ExitCommandMode => asked.push("CN".to_string()),
            RadioSetupAction::Done(r) => {
                return (asked, Some(r.map(|rep| (rep.mac_mode_applied, rep.channel_applied))));
            }
        }
        match replies.next() {
            Some(&r) => setup.on_reply(r),
            None => return (asked, None),
        }
    }
}

#[test]
fn setup_sends_every_command_then_leaves_command_mode() {
    let (asked, done) = dialogue(&[Acknowledged, Acknowledged, Acknowledged, Refused, Acknowledged, Acknowledged, Acknowledged]);
    assert_eq!(asked, vec!["+++", "cmd0", "cmd1", "cmd2", "cmd3", "cmd4", "CN"]);
    assert_eq!(done, Some(Ok((false, true))));
}

#[test]
fn setup_stops_at_a_refused_command_but_still_leaves_command_mode() {
    let (asked, done) = dialogue(&[Acknowledged, Acknowledged, Refused, Acknowledged]);
    assert_eq!(asked, vec!["+++", "cmd0", "cmd1", "CN"]);
    assert_eq!(done, Some(Err(RadioSetupError::CommandFailed(1))));
}

#[test]
fn setup_reports_a_failed_exit() {
    let (_, done) = dialogue(&[Acknowledged, Acknowledged, Acknowledged, Acknowledged, Acknowledged, Acknowledged, Unexpected]);
    assert_eq!(done, Some(Err(RadioSetupError::ExitFailed)));
    // A set-up failure wins over a failed exit.
    let (_, done) = dialogue(&[Acknowledged, Unexpected, Unexpected]);
    assert_eq!(done, Some(Err(RadioSetupError::CommandFailed(0))));
}

#[test]
fn setup_needs_command_mode() {
    let (asked, done) = dialogue(&[AtReply::Unexpected]);
    assert_eq!(asked, vec!["+++"]);
    assert_eq!(done, Some(Err(RadioSetupError::CommandModeRefused)));
}
