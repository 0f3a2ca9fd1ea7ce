use led_control::config_utils::{Config, ControllerTable, MacroConfig, Read, StripConfig};

fn strip(ip: &str, port: u16, friendly_name: &str, is_rgbw: bool) -> StripConfig {
    StripConfig { ip: ip.to_string(), port, friendly_name: friendly_name.to_string(), is_rgbw }
}

fn same(a: &StripConfig, b: &StripConfig) -> bool {
    a.ip == b.ip && a.port == b.port && a.friendly_name == b.friendly_name && a.is_rgbw == b.is_rgbw
}

fn empty_config() -> Config {
    Config { controllers: ControllerTable::new(), macros: Vec::new() }
}

#[test]
fn add_controller_then_read_it() {
    let mut config = empty_config();
    config.add_controller(
        &"bed".to_string(),
        &"Bed strip".to_string(),
        &"192.168.0.212".to_string(),
        &5577,
        &false,
    );
    let found = config.controllers.get(&"bed".to_string()).unwrap();
    assert!(same(found, &strip("192.168.0.212", 5577, "Bed strip", false)));
    assert!(config.controllers.get(&"desk".to_string()).is_none());
    assert_eq!(config.controllers.len(), 1);
}

#[test]
fn add_controller_overwrites_same_name() {
    let mut config = empty_config();
    let name = "desk".to_string();
    config.add_controller(&name, &"A".to_string(), &"1.1.1.1".to_string(), &1, &false);
    config.add_controller(&name, &"B".to_string(), &"2.2.2.2".to_string(), &2, &true);
    assert_eq!(config.controllers.len(), 1);
    assert!(same(config.controllers.get(&name).unwrap(), &strip("2.2.2.2", 2, "B", true)));
}

#[test]
fn add_controller_keeps_others() {
    let mut config = empty_config();
    config.add_controller(&"a".to_string(), &"A".to_string(), &"1".to_string(), &1, &false);
    config.add_controller(&"b".to_string(), &"B".to_string(), &"2".to_string(), &2, &true);
    assert!(same(config.controllers.get(&"a".to_string()).unwrap(), &strip("1", 1, "A", false)));
    assert!(same(config.controllers.get(&"b".to_string()).unwrap(), &strip("2", 2, "B", true)));
    assert_eq!(config.controllers.entry(0).0, "a");
    assert_eq!(config.controllers.entry(1).0, "b");
}

#[test]
fn remove_controller_forgets_it() {
    let mut config = empty_config();
    config.add_controller(&"a".to_string(), &"A".to_string(), &"1".to_string(), &1, &false);
    config.add_controller(&"b".to_string(), &"B".to_string(), &"2".to_string(), &2, &false);
    config.remove_controller("a".to_string());
    assert!(config.controllers.get(&"a".to_string()).is_none());
    assert!(config.controllers.get(&"b".to_string()).is_some());
    assert_eq!(config.controllers.len(), 1);
}

#[test]
fn remove_absent_controller_changes_nothing() {
    let mut config = empty_config();
    config.add_controller(&"a".to_string(), &"A".to_string(), &"1".to_string(), &1, &false);
    config.remove_controller("zzz".to_string());
    assert_eq!(config.controllers.len(), 1);
    assert!(config.controllers.get(&"a".to_string()).is_some());
}

#[test]
fn remove_after_add_leaves_no_trace() {
    let mut config = empty_config();
    config.add_controller(&"a".to_string(), &"A".to_string(), &"1".to_string(), &1, &false);
    config.add_controller(&"n".to_string(), &"N".to_string(), &"9".to_string(), &9, &true);
    config.remove_controller("n".to_string());
    assert_eq!(config.controllers.len(), 1);
    assert!(config.controllers.get(&"n".to_string()).is_none());
    assert!(same(config.controllers.get(&"a".to_string()).unwrap(), &strip("1", 1, "A", false)));
}

#[test]
fn read_copies_everything() {
    let mut config = empty_config();
    config.add_controller(&"a".to_string(), &"A".to_string(), &"1".to_string(), &1, &false);
    config.macros.push(MacroConfig {
        name: "wake".to_string(),
        actions: vec![("a".to_string(), "on".to_string())],
    });
    let copy = config.read();
    assert_eq!(copy.controllers.len(), 1);
    assert!(same(copy.controllers.get(&"a".to_string()).unwrap(), &strip("1", 1, "A", false)));
    assert_eq!(copy.macros.len(), 1);
    assert_eq!(copy.macros[0].name, "wake");
    assert_eq!(copy.macros[0].actions, vec![("a".to_string(), "on".to_string())]);
    let macros = config.read_macros();
    assert_eq!(macros[0].actions[0].1, "on");
    let controllers = config.read_controllers();
    assert_eq!(controllers.entry(0).0, "a");
}

#[test]
fn clone_and_duplicate_keep_fields() {
    let a = strip("1.2.3.4", 80, "Hall", true);
    assert!(same(&a.clone(), &a));
    let m = MacroConfig { name: "m".to_string(), actions: vec![("x".to_string(), "off".to_string())] };
    let d = m.duplicate();
    assert_eq!(d.name, "m");
    assert_eq!(d.actions, m.actions);
}
