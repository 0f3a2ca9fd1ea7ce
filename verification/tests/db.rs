use led_control::db::{all_controllers_known, load_macros, Action, Controller, Macro};

fn controller(name: &str, port: i32) -> Controller {
    Controller {
        name: name.to_string(),
        friendly_name: format!("{} strip", name),
        ip: "10.0.0.1".to_string(),
        port,
        is_rgbw: false,
    }
}

fn action(id: i32, controller_name: &str, command: &str, macro_id: i32) -> Action {
    Action {
        id,
        controller_name: controller_name.to_string(),
        command: command.to_string(),
        macro_id,
    }
}

#[test]
fn load_macros_joins_actions_and_controllers() {
    let macros = vec![Macro { id: 1, name: "wake".to_string() }, Macro { id: 2, name: "sleep".to_string() }];
    let actions = vec![
        action(10, "bed", "on", 1),
        action(11, "desk", "off", 2),
        action(12, "desk", "brightness,40", 1),
        action(13, "bed", "status", 3),
    ];
    let controllers = vec![controller("bed", 5577), controller("desk", 5578)];
    assert!(all_controllers_known(&macros, &actions, &controllers));
    let loaded = load_macros(&macros, &actions, &controllers);
    assert_eq!(loaded.len(), 2);
    assert_eq!(loaded[0].id, 1);
    assert_eq!(loaded[0].name, "wake");
    assert_eq!(loaded[0].actions.len(), 2);
    assert_eq!(loaded[0].actions[0].id, 10);
    assert_eq!(loaded[0].actions[0].controller.name, "bed");
    assert_eq!(loaded[0].actions[0].command, "on");
    assert_eq!(loaded[0].actions[1].id, 12);
    assert_eq!(loaded[0].actions[1].controller.name, "desk");
    assert_eq!(loaded[0].actions[1].controller.port, 5578);
    assert_eq!(loaded[1].name, "sleep");
    assert_eq!(loaded[1].actions.len(), 1);
    assert_eq!(loaded[1].actions[0].command, "off");
}

#[test]
fn unknown_controller_is_detected() {
    let macros = vec![Macro { id: 1, name: "wake".to_string() }];
    let actions = vec![action(10, "bed", "on", 1), action(11, "ghost", "on", 1)];
    let controllers = vec![controller("bed", 1)];
    assert!(!all_controllers_known(&macros, &actions, &controllers));
    let unrelated = vec![action(11, "ghost", "on", 7)];
    assert!(all_controllers_known(&macros, &unrelated, &controllers));
}

#[test]
fn macro_without_actions_loads_empty() {
    let macros = vec![Macro { id: 5, name: "none".to_string() }];
    let loaded = load_macros(&macros, &Vec::new(), &Vec::new());
    assert_eq!(loaded.len(), 1);
    assert!(loaded[0].actions.is_empty());
}

#[test]
fn first_controller_of_a_name_is_taken() {
    let macros = vec![Macro { id: 1, name: "m".to_string() }];
    let actions = vec![action(1, "bed", "on", 1)];
    let controllers = vec![controller("bed", 1), controller("bed", 2)];
    let loaded = load_macros(&macros, &actions, &controllers);
    assert_eq!(loaded[0].actions[0].controller.port, 1);
}
