use player_control::action::ActionDesc;
use player_control::client::Client;
use player_control::config::{Config, ConfigError, DiskConfig};
use player_control::data::Data;
use player_control::message::{Command, ConfigAction, Dialog, KeyCode, Message};
use player_control::message::shortcut;

fn send(data: &mut Data, message: Message) -> Command {
    data.checked_update(message).expect("the message can be answered")
}

fn add_player(data: &mut Data, address: &str) -> Command {
    send(data, Message::AddrInput(address.to_string()));
    send(data, Message::UsernameInput("root".to_string()));
    send(data, Message::AddrAdd)
}

fn with_actions(commands: &[&str]) -> Data {
    let actions = commands
        .iter()
        .map(|c| ActionDesc::stored(format!("do {c}"), c.to_string(), 40, Some(0xe877), false))
        .collect();
    Data::new(DiskConfig(Config::from_parts(vec![], actions, "/shot.png".to_string())))
}

fn commands(data: &Data) -> Vec<String> {
    data.config.0.actions.iter().map(|a| a.command.clone()).collect()
}

#[test]
fn a_new_controller_is_empty() {
    let data = Data::default();
    assert_eq!(data.client_port_input, "22");
    assert_eq!(data.client_addr_input, "");
    assert_eq!(data.dialog_inputs.len(), 3);
    assert!(data.dialog_inputs.iter().all(|row| row.len() == 16));
    assert!(data.dialog_inputs.iter().flatten().all(|input| input.is_empty()));
    assert!(matches!(data.current_dialog, Dialog::Main));
    assert!(!data.select_all && !data.select_actions && !data.edit_actions);
    assert_eq!((data.clients_version, data.actions_version), (0, 0));
    assert_eq!(data.title(), "TV Player Control Contre");
}

#[test]
fn a_configuration_starts_the_controller() {
    let disk = DiskConfig(Config::from_parts(
        vec![],
        vec![ActionDesc::stored("d".to_string(), "ls {dir}".to_string(), 1, None, true)],
        "/p".to_string(),
    ));
    let data = match Data::start(Ok(disk)) {
        Ok(data) => data,
        Err(_) => panic!("there is a configuration"),
    };
    assert_eq!(data.config.0.actions[0].arguments.len(), 1);
    match Data::start(Err(ConfigError::IO("x".to_string()))) {
        Ok(_) => panic!("there is no configuration"),
        Err(question) => assert_eq!(question, "IO Error : x"),
    }
}

#[test]
fn a_configuration_can_be_imported() {
    let mut data = with_actions(&["a"]);
    data.set_select_all(true);
    assert_eq!(data.import(Err(ConfigError::Toml("bad".to_string()))).unwrap(), "Toml Parsing Error : bad");
    assert_eq!(commands(&data), vec!["a"]);
    let other = with_actions(&["{x}", "c"]);
    assert!(data.import(Ok(DiskConfig(other.config.0))).is_none());
    assert_eq!(commands(&data), vec!["{x}", "c"]);
    assert_eq!(data.config.0.actions[0].arguments.len(), 1);
    assert!(data.select_all);
}

#[test]
fn players_are_added_once() {
    let mut data = Data::default();
    assert!(matches!(add_player(&mut data, "tv1"), Command::Refresh));
    assert_eq!(data.config.0.clients.len(), 1);
    assert_eq!(data.config.0.clients.get_index(0).unwrap().port, 22);
    assert!(matches!(add_player(&mut data, "tv1"), Command::Nothing));
    assert_eq!(data.config.0.clients.len(), 1);
    send(&mut data, Message::PortInput("2222".to_string()));
    send(&mut data, Message::PasswordInput("secret".to_string()));
    assert!(matches!(send(&mut data, Message::AddrAdd), Command::Refresh));
    let second = data.config.0.clients.get_index(1).unwrap();
    assert_eq!((second.port, second.user.as_str(), second.pass.as_str()), (2222, "root", "secret"));
    assert_eq!(data.clients_version, 0);
}

#[test]
fn a_player_needs_an_address_and_a_user() {
    let mut data = Data::default();
    assert!(matches!(send(&mut data, Message::AddrAdd), Command::Nothing));
    send(&mut data, Message::AddrInput("tv".to_string()));
    assert!(matches!(send(&mut data, Message::AddrAdd), Command::Nothing));
    send(&mut data, Message::UsernameInput("u".to_string()));
    assert!(matches!(send(&mut data, Message::AddrAdd), Command::Refresh));
}

#[test]
fn only_ports_are_taken_for_ports() {
    let mut data = Data::default();
    for port in ["", "70000", "ssh", "-1"] {
        send(&mut data, Message::PortInput(port.to_string()));
        assert_eq!(data.client_port_input, "22");
    }
    send(&mut data, Message::PortInput("8022".to_string()));
    assert_eq!(data.client_port_input, "8022");
}

#[test]
fn players_are_picked_and_deleted() {
    let mut data = Data::default();
    for address in ["a", "b", "c"] {
        add_player(&mut data, address);
    }
    send(&mut data, Message::UpdateAddrSel(true, 1));
    assert!(data.config.0.clients.get_index(1).unwrap().selected);
    assert_eq!(data.clients_version, 1);
    send(&mut data, Message::UpdateAddrSel(true, 9));
    assert_eq!(data.clients_version, 1);
    send(&mut data, Message::AddrDel(0));
    assert_eq!(data.config.0.clients.get_index(0).unwrap().address, "c");
    send(&mut data, Message::AddrDel(9));
    assert_eq!(data.config.0.clients.len(), 2);
    assert_eq!(data.clients_version, 3);
    send(&mut data, Message::AddrDeselAll);
    assert!(!data.config.0.clients.get_index(1).unwrap().selected);
    send(&mut data, Message::AddrDelAll);
    assert_eq!(data.config.0.clients.len(), 0);
    assert_eq!(data.clients_version, 5);
    send(&mut data, Message::RefreshAddr);
    assert_eq!(data.clients_version, 6);
}

#[test]
fn versions_start_over() {
    let mut data = Data::default();
    data.clients_version = usize::MAX;
    send(&mut data, Message::RefreshAddr);
    assert_eq!(data.clients_version, 0);
}

#[test]
fn an_action_is_run_on_the_picked_players() {
    let mut data = with_actions(&["reboot"]);
    for address in ["a", "b"] {
        add_player(&mut data, address);
    }
    send(&mut data, Message::UpdateAddrSel(true, 1));
    match send(&mut data, Message::Action(false, 0, false)) {
        Command::Run { command, timeout, need_reply, clients } => {
            assert_eq!(command, "reboot");
            assert_eq!(timeout, 40);
            assert!(!need_reply);
            assert_eq!(clients.iter().map(|c| c.address.as_str()).collect::<Vec<_>>(), vec!["b"]);
        }
        _ => panic!("the action runs"),
    }
    assert_eq!(data.clients_version, 2);
    data.set_select_all(true);
    assert_eq!(data.clients_version, 3);
    match send(&mut data, Message::Action(false, 0, false)) {
        Command::Run { clients, .. } => assert_eq!(clients.len(), 2),
        _ => panic!("the action runs"),
    }
    assert!(matches!(send(&mut data, Message::Action(false, 1, false)), Command::Nothing));
}

#[test]
fn arguments_are_asked_for_and_filled_in() {
    let mut data = with_actions(&["cp {from} {to#path}"]);
    data.set_select_all(true);
    add_player(&mut data, "a");
    assert!(matches!(send(&mut data, Message::Action(false, 0, false)), Command::Nothing));
    match &data.current_dialog {
        Dialog::ArgumentsForAction(0, names) => assert_eq!(names.len(), 2),
        _ => panic!("the arguments are asked for"),
    }
    send(&mut data, Message::DialogInput(0, "x".to_string()));
    send(&mut data, Message::DialogInput(1, "y".to_string()));
    match send(&mut data, Message::Action(true, 0, true)) {
        Command::Run { command, .. } => assert_eq!(command, "cp x y"),
        _ => panic!("the action runs"),
    }
    match send(&mut data, Message::Action(true, 0, false)) {
        Command::Run { command, .. } => assert_eq!(command, "cp {from} {to#path}"),
        _ => panic!("the action runs"),
    }
}

#[test]
fn what_cannot_be_filled_in_changes_nothing() {
    let mut data = with_actions(&["{a-b}", "{x", "{y:99999}"]);
    for index in 0..3 {
        assert!(data.checked_update(Message::Action(true, index, true)).is_none());
        assert!(!data.can_answer(&Message::Action(true, index, true)));
        assert!(data.can_answer(&Message::Action(true, index, false)));
    }
    assert_eq!(data.clients_version, 0);
}

#[test]
fn dialogs_without_inputs_take_none() {
    let mut data = with_actions(&["ls"]);
    for dialog in [Dialog::Logs(0, false), Dialog::Screenshot(0)] {
        send(&mut data, Message::ShowDialog(dialog));
        assert!(data.checked_update(Message::DialogInput(0, "x".to_string())).is_none());
        assert!(data.checked_update(Message::AddAction(None)).is_none());
        assert!(data.checked_update(Message::Action(false, 0, false)).is_none());
    }
    send(&mut data, Message::ShowDialog(Dialog::Main));
    assert!(data.checked_update(Message::DialogInput(16, "x".to_string())).is_none());
    assert!(data.checked_update(Message::DialogInput(15, "x".to_string())).is_some());
    assert_eq!(data.dialog_inputs[0][15], "x");
}

#[test]
fn dialogs_have_their_places() {
    let arguments = ActionDesc::generate_args("");
    let places: Vec<usize> = [
        Dialog::Main,
        Dialog::AddAction(None),
        Dialog::ArgumentsForAction(0, arguments),
        Dialog::Logs(0, true),
        Dialog::Screenshot(0),
    ]
    .iter()
    .map(|d| d.enum_index())
    .collect();
    assert_eq!(places, vec![0, 1, 2, 3, 4]);
}

#[test]
fn actions_are_described_and_added() {
    let mut data = Data::default();
    send(&mut data, Message::ShowDialog(Dialog::AddAction(None)));
    for (i, text) in ["e877", "list", "ls {dir}"].iter().enumerate() {
        send(&mut data, Message::DialogInput(i, text.to_string()));
    }
    send(&mut data, Message::AddAction(None));
    let action = &data.config.0.actions[0];
    assert_eq!(action.logo, Some(0xe877));
    assert_eq!(action.description, "list");
    assert_eq!(action.command, "ls {dir}");
    assert_eq!(action.timeout, 15);
    assert_eq!(action.arguments.len(), 1);
    assert_eq!(data.actions_version, 1);
    send(&mut data, Message::DialogInput(0, "no icon".to_string()));
    send(&mut data, Message::AddAction(Some(5)));
    assert_eq!(data.config.0.actions.len(), 2);
    assert_eq!(data.config.0.actions[1].logo, None);
}

#[test]
fn an_edited_action_keeps_what_was_not_changed() {
    let mut data = with_actions(&["ls {dir}", "pwd"]);
    send(&mut data, Message::EditAction);
    assert!(matches!(send(&mut data, Message::Action(false, 0, false)), Command::Nothing));
    assert!(matches!(data.current_dialog, Dialog::AddAction(Some(0))));
    assert_eq!(data.dialog_inputs[1][0], "e877");
    assert_eq!(data.dialog_inputs[1][1], "do ls {dir}");
    assert_eq!(data.dialog_inputs[1][2], "ls {dir}");
    send(&mut data, Message::AddAction(Some(0)));
    let action = &data.config.0.actions[0];
    assert_eq!(action.logo, Some(0xe877));
    assert_eq!(action.command, "ls {dir}");
    assert_eq!(action.timeout, 15);
    assert!(action.need_reply);
    assert_eq!(commands(&data), vec!["ls {dir}", "pwd"]);
}

#[test]
fn picked_actions_are_deleted() {
    let mut data = with_actions(&["a", "b", "c", "d"]);
    send(&mut data, Message::SelectAction);
    for index in [0, 2, 3, 3] {
        send(&mut data, Message::Action(false, index, false));
    }
    assert_eq!(data.actions_version, 4);
    send(&mut data, Message::SelectAction);
    send(&mut data, Message::DelectAction);
    assert_eq!(commands(&data), vec!["a", "b", "c", "d"]);
    send(&mut data, Message::SelectAction);
    send(&mut data, Message::DelectAction);
    assert_eq!(commands(&data), vec!["b", "d"]);
    assert_eq!(data.actions_version, 6);
}

#[test]
fn picking_comes_before_editing() {
    let mut data = with_actions(&["a"]);
    send(&mut data, Message::EditAction);
    send(&mut data, Message::SelectAction);
    send(&mut data, Message::Action(false, 0, false));
    assert!(data.config.0.actions[0].selected);
    assert!(matches!(data.current_dialog, Dialog::Main));
    send(&mut data, Message::SelectAction);
    send(&mut data, Message::EditAction);
    assert!(!data.select_actions && !data.edit_actions);
}

#[test]
fn the_rest_is_done_outside() {
    let mut data = with_actions(&[]);
    add_player(&mut data, "a");
    match send(&mut data, Message::CopyToClipboard("text".to_string())) {
        Command::Clipboard(text) => assert_eq!(text, "text"),
        _ => panic!("the text is copied"),
    }
    assert!(matches!(send(&mut data, Message::Config(ConfigAction::Save)), Command::SaveConfig));
    assert!(matches!(send(&mut data, Message::Config(ConfigAction::Export)), Command::ExportConfig));
    assert!(matches!(send(&mut data, Message::Config(ConfigAction::Import)), Command::ImportConfig));
    assert!(matches!(send(&mut data, Message::Config(ConfigAction::Open)), Command::OpenConfig));
    assert!(matches!(send(&mut data, Message::Nothing), Command::Nothing));
    match send(&mut data, Message::Screenshot(0, true)) {
        Command::Screenshot { index, client, path, buffer } => {
            assert_eq!((index, client.address.as_str(), path.as_str(), buffer), (0, "a", "/shot.png", true));
        }
        _ => panic!("the screenshot is fetched"),
    }
    assert!(matches!(send(&mut data, Message::Screenshot(1, true)), Command::Nothing));
}

#[test]
fn commands_have_their_follow_ups() {
    let client = Client::default();
    let shot = Command::Screenshot { index: 4, client, path: String::new(), buffer: false };
    assert!(matches!(shot.follow_up(), Some(Message::ShowDialog(Dialog::Screenshot(4)))));
    assert!(matches!(Command::Refresh.follow_up(), Some(Message::RefreshAddr)));
    let run = Command::Run { command: String::new(), timeout: 1, need_reply: true, clients: vec![] };
    assert!(matches!(run.follow_up(), Some(Message::RefreshAddr)));
    assert!(Command::SaveConfig.follow_up().is_none());
}

#[test]
fn a_result_of_filling_in_is_run() {
    let mut data = with_actions(&["{x}"]);
    assert_eq!(data.expand_action(0), Some(String::new()));
    match data.run(0, "given".to_string()) {
        Command::Run { command, clients, .. } => {
            assert_eq!(command, "given");
            assert!(clients.is_empty());
        }
        _ => panic!("the action runs"),
    }
}

#[test]
fn keys_save_the_configuration() {
    assert!(matches!(shortcut(KeyCode::Tab, false), Some(Message::Config(ConfigAction::Save))));
    assert!(matches!(shortcut(KeyCode::S, true), Some(Message::Config(ConfigAction::Save))));
    assert!(shortcut(KeyCode::S, false).is_none());
    assert!(shortcut(KeyCode::Other, true).is_none());
}
