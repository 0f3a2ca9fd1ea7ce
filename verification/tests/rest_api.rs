use led_control::commands::{Commands, Strip};
use led_control::config_utils::{Config, ControllerTable, StripConfig};
use led_control::rest_api::{
    add_submitted_controller, color_command, color_command_from_rgba, create_reply, color_reply, command_reply,
    index, state_reply, STATUS_OK,
};

#[test]
fn index_reports_ok() {
    let reply = index();
    assert_eq!(reply.status, 200);
    assert_eq!(reply.body, "{\"status\": \"ok\"}");
}

#[test]
fn command_and_color_replies_name_the_strip() {
    let reply = command_reply("bed");
    assert_eq!(reply.status, STATUS_OK);
    assert_eq!(reply.body, "{\"status\": \"on\", \"name\": \"bed\"}");
    assert_eq!(color_reply("desk").body, "{\"status\": \"color\", \"name\": \"desk\"}");
}

#[test]
fn state_reply_lists_color_and_power() {
    let mut strip = Strip::new("a:1".to_string());
    strip.color = (255, 128, 0);
    strip.powered = true;
    assert_eq!(
        state_reply("desk", &strip).body,
        "{\"status\": \"status\", \"name\": \"desk\", \"state\": {\"color\": [255, 128, 0], \"powered\": true}}"
    );
    strip.powered = false;
    strip.color = (0, 7, 10);
    assert_eq!(
        state_reply("x", &strip).body,
        format!(
            "{{\"status\": \"status\", \"name\": \"{}\", \"state\": {{\"color\": {:?}, \"powered\": {}}}}}",
            "x",
            [0u8, 7, 10],
            false
        )
    );
}

#[test]
fn css_colors_become_green_first_commands() {
    assert_eq!(color_command("#ff8000"), Some(Commands::SetColor(0x80, 0xff, 0x00)));
    assert_eq!(color_command("red"), Some(Commands::SetColor(0, 255, 0)));
    assert_eq!(color_command("rgb(1, 2, 3)"), Some(Commands::SetColor(2, 1, 3)));
    assert_eq!(color_command("no such colour"), None);
}

#[test]
fn rgba_becomes_green_first_command() {
    assert_eq!(color_command_from_rgba((1, 2, 3, 4)), Commands::SetColor(2, 1, 3));
}

#[test]
fn submitted_controller_is_registered_as_test() {
    let mut config = Config { controllers: ControllerTable::new(), macros: Vec::new() };
    let target = StripConfig {
        ip: "192.168.0.9".to_string(),
        port: 5577,
        friendly_name: "Kitchen".to_string(),
        is_rgbw: true,
    };
    let name = add_submitted_controller(&mut config, &target);
    assert_eq!(name, "test");
    let found = config.controllers.get(&"test".to_string()).unwrap();
    assert_eq!(found.ip, "192.168.0.9");
    assert_eq!(found.port, 5577);
    assert_eq!(found.friendly_name, "Kitchen");
    assert!(found.is_rgbw);
}

#[test]
fn hex_css_forms_become_green_first_commands() {
    assert_eq!(color_command("#abc"), Some(Commands::SetColor(0xbb, 0xaa, 0xcc)));
    assert_eq!(color_command("#ABCD"), Some(Commands::SetColor(0xbb, 0xaa, 0xcc)));
    assert_eq!(color_command("ff8000"), Some(Commands::SetColor(0x80, 0xff, 0x00)));
    assert_eq!(color_command("#01020380"), Some(Commands::SetColor(2, 1, 3)));
    assert_eq!(color_command(""), None);
    assert_eq!(color_command("#12345"), None);
}

#[test]
fn named_css_colors_become_green_first_commands() {
    assert_eq!(color_command("orange"), Some(Commands::SetColor(165, 255, 0)));
    assert_eq!(color_command("Orange"), Some(Commands::SetColor(165, 255, 0)));
    assert_eq!(color_command("MEDIUMSEAGREEN"), Some(Commands::SetColor(179, 60, 113)));
    assert_eq!(color_command("lightgoldenrodyellow"), Some(Commands::SetColor(250, 250, 210)));
    assert_eq!(color_command("transparent"), Some(Commands::SetColor(0, 0, 0)));
}

#[test]
fn rgb_css_forms_become_green_first_commands() {
    assert_eq!(color_command("rgb(255,0,0)"), Some(Commands::SetColor(0, 255, 0)));
    assert_eq!(color_command("rgb(10,  20, 30)"), Some(Commands::SetColor(20, 10, 30)));
    assert_eq!(color_command("rgb(300,007,999)"), Some(Commands::SetColor(7, 255, 255)));
}

#[test]
fn create_reply_embeds_the_form_text() {
    let reply = create_reply("test", "Form(x)");
    assert_eq!(reply.status, 200);
    assert_eq!(reply.body, "{\"status\": \"create\", \"name\": \"test\", \"state\": {Form(x)}}");
}
