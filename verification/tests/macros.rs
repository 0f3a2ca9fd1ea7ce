use led_control::commands::Commands;
use led_control::config_utils::{Config, ControllerTable, MacroConfig, StripConfig};
use led_control::macros::{due_events, macros_of, trigger_fires, Event, EventTriggers, Macro};

fn config_with(controllers: &[(&str, u16)], macros: Vec<MacroConfig>) -> Config {
    let mut table = ControllerTable::new();
    for (name, port) in controllers {
        table.insert(
            name.to_string(),
            StripConfig {
                ip: "10.0.0.2".to_string(),
                port: *port,
                friendly_name: name.to_string(),
                is_rgbw: false,
            },
        );
    }
    Config { controllers: table, macros }
}

fn macro_config(name: &str, actions: &[(&str, &str)]) -> MacroConfig {
    MacroConfig {
        name: name.to_string(),
        actions: actions.iter().map(|(a, b)| (a.to_string(), b.to_string())).collect(),
    }
}

#[test]
fn macro_new_looks_up_controllers_and_reads_commands() {
    let mc = macro_config("wake", &[("bed", "on"), ("desk", "brightness,30"), ("bed", "status")]);
    let config = config_with(&[("bed", 5577), ("desk", 5578)], vec![]);
    assert!(Macro::validate(&mc, &config));
    let m = Macro::new(&mc, &config);
    assert_eq!(m.name, "wake");
    assert_eq!(m.actions.len(), 3);
    assert_eq!(m.actions[0].0.port, 5577);
    assert_eq!(m.actions[0].1, Commands::On);
    assert_eq!(m.actions[1].0.port, 5578);
    assert_eq!(m.actions[1].1, Commands::SetBrightness(30));
    assert_eq!(m.actions[2].1, Commands::GetStatus);
}

#[test]
fn validate_refuses_unknown_controller_and_bad_command() {
    let config = config_with(&[("bed", 1)], vec![]);
    assert!(!Macro::validate(&macro_config("m", &[("desk", "on")]), &config));
    assert!(!Macro::validate(&macro_config("m", &[("bed", "color,1,2,3")]), &config));
    assert!(Macro::validate(&macro_config("m", &[]), &config));
}

#[test]
fn macros_of_builds_each_macro() {
    let config = config_with(
        &[("bed", 1)],
        vec![macro_config("a", &[("bed", "on")]), macro_config("b", &[("bed", "off")])],
    );
    let built = macros_of(&config);
    assert_eq!(built.len(), 2);
    assert_eq!(built[0].name, "a");
    assert_eq!(built[1].actions[0].1, Commands::Off);
}

#[test]
fn trigger_fires_only_for_cron_yes() {
    let cron = EventTriggers::Cron("* * * * * *".to_string());
    assert!(trigger_fires(&cron, Some(true)));
    assert!(!trigger_fires(&cron, Some(false)));
    assert!(!trigger_fires(&cron, None));
    assert!(!trigger_fires(&EventTriggers::Startup, Some(true)));
    assert!(!trigger_fires(&EventTriggers::Shutdown, Some(true)));
}

fn event(name: &str, trigger: EventTriggers) -> Event {
    Event { name: name.to_string(), trigger, action: Macro { name: name.to_string(), actions: vec![] } }
}

#[test]
fn due_events_follow_their_schedules() {
    let events = vec![
        event("always", EventTriggers::Cron("* * * * * *".to_string())),
        event("noon", EventTriggers::Cron("0 0 12 * * *".to_string())),
        event("start", EventTriggers::Startup),
        event("broken", EventTriggers::Cron("not a schedule".to_string())),
        event("stop", EventTriggers::Shutdown),
    ];
    // 2023-11-14 22:13:20 UTC
    assert_eq!(due_events(&events, 1_700_000_000), vec![0]);
    // 2023-11-15 12:00:00 UTC
    assert_eq!(due_events(&events, 1_700_049_600), vec![0, 1]);
    assert_eq!(due_events(&Vec::new(), 0), Vec::<usize>::new());
}
