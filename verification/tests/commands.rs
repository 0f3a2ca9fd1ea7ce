use led_control::commands::{discovery_payload, CommandError, Commands, Strip, DISCOVERY_PORT};
use led_control::config_utils::StripConfig;

#[test]
fn parse_power_and_status_words() {
    assert_eq!(Commands::parse("on"), Ok(Commands::On));
    assert_eq!(Commands::parse("off"), Ok(Commands::Off));
    assert_eq!(Commands::parse("status"), Ok(Commands::GetStatus));
}

#[test]
fn parse_brightness_values() {
    assert_eq!(Commands::parse("brightness,50"), Ok(Commands::SetBrightness(50)));
    assert_eq!(Commands::parse("brightness,0"), Ok(Commands::SetBrightness(0)));
    assert_eq!(Commands::parse("brightness,255"), Ok(Commands::SetBrightness(255)));
    assert_eq!(Commands::parse("brightness,+7"), Ok(Commands::SetBrightness(7)));
    assert_eq!(Commands::parse("brightness,007"), Ok(Commands::SetBrightness(7)));
    assert_eq!(Commands::parse("brightness,50,9"), Ok(Commands::SetBrightness(50)));
}

#[test]
fn parse_brightness_refusals() {
    assert_eq!(Commands::parse("brightness"), Err(CommandError::MissingArgument));
    assert_eq!(Commands::parse("brightness,"), Err(CommandError::InvalidNumber));
    assert_eq!(Commands::parse("brightness,256"), Err(CommandError::InvalidNumber));
    assert_eq!(Commands::parse("brightness,-1"), Err(CommandError::InvalidNumber));
    assert_eq!(Commands::parse("brightness,+"), Err(CommandError::InvalidNumber));
    assert_eq!(Commands::parse("brightness, 5"), Err(CommandError::InvalidNumber));
    assert_eq!(Commands::parse("brightness,99999999999"), Err(CommandError::InvalidNumber));
}

#[test]
fn parse_color_is_always_refused() {
    assert_eq!(Commands::parse("color,1,2,3"), Err(CommandError::MissingColorComponent));
    assert_eq!(Commands::parse("color,255"), Err(CommandError::MissingColorComponent));
    assert_eq!(Commands::parse("color"), Err(CommandError::MissingArgument));
    assert_eq!(Commands::parse("color,red"), Err(CommandError::InvalidNumber));
}

#[test]
fn parse_unknown_words() {
    assert_eq!(Commands::parse(""), Err(CommandError::Unknown));
    assert_eq!(Commands::parse("ON"), Err(CommandError::Unknown));
    assert_eq!(Commands::parse("on,1"), Err(CommandError::Unknown));
    assert_eq!(Commands::parse("dance,5"), Err(CommandError::Unknown));
    assert_eq!(Commands::parse("status "), Err(CommandError::Unknown));
}

#[test]
fn from_param_knows_on_and_off() {
    assert_eq!(Commands::from_param("on"), Ok(Commands::On));
    assert_eq!(Commands::from_param("off"), Ok(Commands::Off));
    assert_eq!(Commands::from_param("status"), Err("status"));
    assert_eq!(Commands::from_param(""), Err(""));
}

#[test]
fn param_and_text_agree_on_power_words() {
    for word in ["on", "off"] {
        assert_eq!(Commands::from_param(word).ok(), Commands::parse(word).ok());
    }
}

#[test]
fn default_strip_is_dark_and_unaddressed() {
    let strip = Strip::default();
    assert_eq!(strip.color, (0, 0, 0));
    assert!(!strip.powered);
    assert_eq!(strip.address, "");
    assert!(!strip.is_rgbw);
}

#[test]
fn new_strip_keeps_address() {
    let strip = Strip::new("192.168.0.212:5577".to_string());
    assert_eq!(strip.address, "192.168.0.212:5577");
    assert_eq!(strip.color, (0, 0, 0));
    assert!(!strip.powered);
}

fn config(ip: &str, port: u16, is_rgbw: bool) -> StripConfig {
    StripConfig {
        ip: ip.to_string(),
        port,
        friendly_name: "desk".to_string(),
        is_rgbw,
    }
}

#[test]
fn strip_from_config_joins_ip_and_port() {
    let strip = Strip::from_config(&config("192.168.0.125", 5577, true));
    assert_eq!(strip.address, "192.168.0.125:5577");
    assert!(strip.is_rgbw);
    assert!(!strip.powered);
    assert_eq!(Strip::from_config(&config("10.0.0.1", 0, false)).address, "10.0.0.1:0");
    assert_eq!(Strip::from_config(&config("h", 65535, false)).address, "h:65535");
    assert_eq!(Strip::from_config(&config("h", 10, false)).address, "h:10");
}

#[test]
fn request_frames() {
    let strip = Strip::new("a:1".to_string());
    assert_eq!(strip.request(Commands::On), vec![0x71, 0x23]);
    assert_eq!(strip.request(Commands::Off), vec![0x71, 0x24]);
    assert_eq!(strip.request(Commands::GetStatus), vec![0x81, 0x8a, 0x8b, 0x96]);
    assert_eq!(
        strip.request(Commands::SetColor(1, 2, 3)),
        vec![0x31, 1, 2, 3, 0x00, 0x0f, 0xff, 0x00]
    );
}

#[test]
fn rgbw_strip_takes_green_first() {
    let mut strip = Strip::new("a:1".to_string());
    strip.is_rgbw = true;
    assert_eq!(
        strip.request(Commands::SetColor(1, 2, 3)),
        vec![0x31, 2, 1, 3, 0x00, 0xf0, 0xff, 0x00]
    );
}

#[test]
fn brightness_scales_the_current_color() {
    let mut strip = Strip::new("a:1".to_string());
    strip.color = (10, 20, 30);
    assert!(strip.can_send(Commands::SetBrightness(2)));
    assert_eq!(
        strip.request(Commands::SetBrightness(2)),
        vec![0x31, 20, 40, 60, 0x00, 0x0f, 0xff, 0x00]
    );
    assert_eq!(
        strip.request(Commands::SetBrightness(2)),
        strip.request(Commands::SetColor(20, 40, 60))
    );
    assert_eq!(
        strip.request(Commands::SetBrightness(0)),
        vec![0x31, 0, 0, 0, 0x00, 0x0f, 0xff, 0x00]
    );
}

#[test]
fn can_send_limits_brightness() {
    let mut strip = Strip::new("a:1".to_string());
    strip.color = (1, 1, 1);
    assert!(strip.can_send(Commands::SetBrightness(100)));
    assert!(!strip.can_send(Commands::SetBrightness(101)));
    strip.color = (3, 2, 1);
    assert!(!strip.can_send(Commands::SetBrightness(100)));
    assert!(strip.can_send(Commands::SetBrightness(85)));
    assert!(strip.can_send(Commands::On));
    assert!(strip.can_send(Commands::SetColor(255, 255, 255)));
}

#[test]
fn reply_lengths() {
    assert_eq!(Commands::GetStatus.reply_len(), 14);
    assert_eq!(Commands::On.reply_len(), 0);
    assert_eq!(Commands::Off.reply_len(), 0);
    assert_eq!(Commands::SetColor(1, 2, 3).reply_len(), 0);
    assert_eq!(Commands::SetBrightness(4).reply_len(), 0);
}

#[test]
fn status_reply_sets_state_and_reports_hex() {
    let mut strip = Strip::new("a:1".to_string());
    let reply = [
        0x81, 0x25, 0x23, 0x61, 0x21, 0x10, 0xff, 0x80, 0x00, 0x01, 0x02, 0x03, 0x04, 0x05,
    ];
    let report = strip.apply_reply(Commands::GetStatus, &reply);
    assert_eq!(report, "81:25:23:61:21:10:ff:80:00:01:02:03:04:05");
    assert_eq!(report.len(), 41);
    assert!(strip.powered);
    assert_eq!(strip.color, (0xff, 0x80, 0x00));
    assert_eq!(strip.address, "a:1");
}

#[test]
fn status_reply_of_a_switched_off_strip() {
    let mut strip = Strip::new("a:1".to_string());
    strip.powered = true;
    let reply = [0x81, 0x25, 0x24, 0, 0, 0, 9, 8, 7, 0, 0, 0, 0, 0];
    strip.apply_reply(Commands::GetStatus, &reply);
    assert!(!strip.powered);
    assert_eq!(strip.color, (9, 8, 7));
}

#[test]
fn other_replies_report_nothing() {
    let mut strip = Strip::new("a:1".to_string());
    strip.color = (1, 2, 3);
    assert_eq!(strip.apply_reply(Commands::On, &[]), "");
    assert_eq!(strip.apply_reply(Commands::SetColor(4, 5, 6), &[]), "");
    assert_eq!(strip.apply_reply(Commands::SetBrightness(1), &[]), "");
    assert_eq!(strip.color, (1, 2, 3));
    assert!(!strip.powered);
}

#[test]
fn parse_state_reads_bytes_two_and_six_to_eight() {
    let mut strip = Strip::default();
    strip.parse_state(vec![0, 0, 0x23, 0, 0, 0, 1, 2, 3]);
    assert!(strip.powered);
    assert_eq!(strip.color, (1, 2, 3));
}

#[test]
fn different_replies_give_different_reports() {
    let mut a = Strip::default();
    let mut b = Strip::default();
    let ra = a.apply_reply(Commands::GetStatus, &[0u8; 14]);
    let mut other = [0u8; 14];
    other[13] = 1;
    let rb = b.apply_reply(Commands::GetStatus, &other);
    assert_ne!(ra, rb);
}

#[test]
fn discovery_message_and_port() {
    assert_eq!(discovery_payload(), b"HF-A11ASSISTHREAD".to_vec());
    assert_eq!(DISCOVERY_PORT, 48899);
}

#[test]
fn rgbw_brightness_is_the_scaled_color() {
    let mut strip = Strip::new("a:1".to_string());
    strip.is_rgbw = true;
    strip.color = (1, 1, 1);
    assert_eq!(
        strip.request(Commands::SetBrightness(1)),
        vec![0x31, 1, 1, 1, 0x00, 0xf0, 0xff, 0x00]
    );
    strip.color = (10, 20, 30);
    assert_eq!(
        strip.request(Commands::SetBrightness(2)),
        vec![0x31, 40, 20, 60, 0x00, 0xf0, 0xff, 0x00]
    );
    assert_eq!(
        strip.request(Commands::SetBrightness(2)),
        strip.request(Commands::SetColor(20, 40, 60))
    );
}
