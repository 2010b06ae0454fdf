use player_control::action::{atomicbool_default, ActionDesc};
use player_control::client::Client;
use player_control::config::{Auth, Config, ConfigError, Cred, DiskConfig, MemConfig};

fn action(command: &str) -> ActionDesc {
    ActionDesc::stored("d".to_string(), command.to_string(), 40, Some(0xe877), false)
}

#[test]
fn a_new_action_has_the_usual_time() {
    let new = ActionDesc::new("reboot".to_string(), "reboot {when}".to_string(), None, true);
    assert_eq!(new.timeout, 15);
    assert!(new.need_reply);
    assert!(new.selected);
    assert_eq!(new.logo, None);
    assert_eq!(new.description, "reboot");
    assert_eq!(new.arguments.iter().cloned().collect::<Vec<_>>(), vec!["when"]);
    assert!(!atomicbool_default());
}

#[test]
fn actions_are_told_apart_by_description_and_icon() {
    let a = |d: &str, c: &str, l| ActionDesc::new(d.to_string(), c.to_string(), l, false);
    assert!(a("x", "ls", None) == a("x", "pwd", None));
    assert!(a("x", "ls", None) != a("y", "ls", None));
    assert!(a("x", "ls", Some(1)) != a("x", "ls", None));
    assert!(a("x", "ls", Some(1)) != a("x", "ls", Some(2)));
    assert!(a("x", "ls", Some(1)) == a("x", "ls", Some(1)));
}

#[test]
fn a_stored_action_has_no_arguments_yet() {
    let stored = action("ls {dir}");
    assert_eq!(stored.arguments.len(), 0);
    assert_eq!(stored.timeout, 40);
    assert!(!stored.need_reply);
    assert!(!stored.selected);
}

#[test]
fn the_empty_configuration() {
    let config = Config::default();
    assert_eq!(config.clients.len(), 0);
    assert_eq!(config.actions.len(), 0);
    assert_eq!(config.screenshot_path, "/tmp/screenshot.png");
    assert_eq!(MemConfig::default().0.screenshot_path, "/tmp/screenshot.png");
}

#[test]
fn a_configuration_is_taken_apart_and_put_together() {
    let mut mem = MemConfig::from(DiskConfig(Config::from_parts(
        vec![
            Client { address: "a".to_string(), user: "u".to_string(), ..Client::default() },
            Client { address: "b".to_string(), pass: "p".to_string(), port: 23, ..Client::default() },
        ],
        vec![action("ls {dir}")],
        "/p.png".to_string(),
    )));
    mem.0.clients.set_selected(1, true);
    mem.0.actions[0].selected = true;
    let (clients, actions, path) = mem.0.parts();
    assert_eq!(clients.len(), 2);
    assert!(clients.iter().all(|c| !c.selected));
    assert_eq!((clients[0].user.as_str(), clients[1].pass.as_str()), ("u", "p"));
    assert_eq!((clients[0].port, clients[1].port), (22, 23));
    assert_eq!((actions[0].description.as_str(), actions[0].command.as_str()), ("d", "ls {dir}"));
    assert_eq!((actions[0].timeout, actions[0].logo, actions[0].need_reply), (40, Some(0xe877), false));
    assert_eq!(actions[0].arguments.len(), 0);
    assert!(!actions[0].selected);
    assert_eq!(path, "/p.png");
    let again = MemConfig::from(DiskConfig(Config::from_parts(clients, actions, path)));
    assert_eq!(again.0.clients.len(), 2);
    assert_eq!(again.0.actions[0].arguments.len(), 1);
}

#[test]
fn a_configuration_in_use_has_all_arguments() {
    let player = Client { address: "a".to_string(), ..Client::default() };
    let config = Config::from_parts(
        vec![player.clone(), player],
        vec![action("ls {dir}"), action("pwd")],
        "/p.png".to_string(),
    );
    assert_eq!(config.clients.len(), 1);
    let mem = MemConfig::from(DiskConfig(config));
    assert_eq!(mem.0.actions[0].arguments.len(), 1);
    assert_eq!(mem.0.actions[1].arguments.len(), 0);
    assert_eq!(mem.0.actions[0].timeout, 40);
    assert_eq!(mem.0.actions[0].logo, Some(0xe877));
    assert_eq!(mem.0.clients.len(), 1);
    assert_eq!(mem.0.screenshot_path, "/p.png");
}

#[test]
fn a_configuration_comes_back_from_its_parts() {
    let mut player = Client { address: "a".to_string(), ..Client::default() };
    player.selected = true;
    let parts = |path: &str| {
        Config::from_parts(
            vec![Client { selected: false, ..player.clone() }],
            vec![action("ls {dir}")],
            path.to_string(),
        )
    };
    let mem = MemConfig::from(DiskConfig(parts("/p.png")));
    let again = MemConfig::from(DiskConfig(parts("/p.png")));
    assert_eq!(mem.0.actions[0].arguments, again.0.actions[0].arguments);
    assert_eq!(again.0.clients.get_index(0).unwrap().address, "a");
    assert!(!again.0.clients.get_index(0).unwrap().selected);
}

#[test]
fn errors_say_what_went_wrong() {
    assert_eq!(ConfigError::IO("entity not found".to_string()).text(), "IO Error : entity not found");
    assert_eq!(ConfigError::Toml("line 1".to_string()).text(), "Toml Parsing Error : line 1");
}

#[test]
fn nobody_has_no_proof() {
    let cred = Cred::default();
    assert_eq!(cred.user, "");
    assert!(matches!(cred.auth_method, Auth::NoProof));
}
