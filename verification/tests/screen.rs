use player_control::action::ActionDesc;
use player_control::client::Client;
use player_control::config::{Config, DiskConfig};
use player_control::data::Data;
use player_control::icons;
use player_control::message::{ConfigAction, Dialog, Message};
use player_control::screen::{
    client_input, client_submit, client_toggle, dialog_input, escape, log_cards, menus,
    show_error_toggle, ButtonStyle, DialogContent,
};
use player_control::session::{ActionRun, ClientInfo, ExecOutput, Outcome, Screenshot};

fn controller() -> Data {
    let player = |address: &str, port| Client {
        address: address.to_string(),
        port,
        ..Client::default()
    };
    let action = |command: &str, logo| {
        ActionDesc::stored(format!("do {command}"), command.to_string(), 5, logo, true)
    };
    Data::new(DiskConfig(Config::from_parts(
        vec![player("a", 22), player("b", 2222)],
        vec![action("ls", Some(0xe877)), action("cp {from#where} {to}", Some(0xd800)), action("x", None)],
        "/p".to_string(),
    )))
}

fn logged(info: &mut ClientInfo<u8>, stdout: Option<&str>, stderr: Option<&str>, timestamp: i64) {
    let bytes = |s: Option<&str>| s.map(|s| s.as_bytes().to_vec());
    let output = ExecOutput { stdout: bytes(stdout), stderr: bytes(stderr), exit_status: 0 };
    ActionRun::new().record(info, Outcome::Finished(output, timestamp));
}

fn show(data: &mut Data, dialog: Dialog) -> DialogContent {
    data.checked_update(Message::ShowDialog(dialog)).unwrap();
    data.dialog::<u8>(None)
}

#[test]
fn players_have_rows() {
    let mut data = controller();
    data.checked_update(Message::UpdateAddrSel(true, 1)).unwrap();
    let rows = data.client_rows(&vec![None, Some((icons::SUCCESSFUL, "fine".to_string()))]);
    assert_eq!(rows.len(), 2);
    assert_eq!((rows[0].checked, rows[1].checked), (false, true));
    assert_eq!((rows[0].address.as_str(), rows[0].port.as_str()), ("a", "22"));
    assert_eq!((rows[1].address.as_str(), rows[1].port.as_str()), ("b", "2222"));
    assert_eq!((rows[0].status, rows[0].message.as_str()), (icons::EXECUTING, "Script is being run"));
    assert_eq!((rows[1].status, rows[1].message.as_str()), (icons::SUCCESSFUL, "fine"));
    let buttons = &rows[1].buttons;
    assert!(matches!(buttons[0].message, Message::ShowDialog(Dialog::Logs(1, false))));
    assert!(matches!(buttons[1].message, Message::Screenshot(1, true)));
    assert!(matches!(buttons[2].message, Message::AddrDel(1)));
    assert_eq!(buttons[2].style, ButtonStyle::Destructive);
    assert_eq!((buttons[0].icon, buttons[0].size), (icons::VIEW_LOG, 30));
}

#[test]
fn rows_are_checked_where_actions_run() {
    let mut data = controller();
    for select_all in [false, true] {
        data.set_select_all(select_all);
        let rows = data.client_rows(&vec![None, None]);
        let checked = rows.iter().filter(|r| r.checked).count();
        assert_eq!(checked, data.config.0.clients.targets(select_all).len());
    }
}

#[test]
fn actions_have_tiles() {
    let mut data = controller();
    data.checked_update(Message::SelectAction).unwrap();
    data.checked_update(Message::Action(false, 2, false)).unwrap();
    let tiles = data.tiles();
    assert_eq!(tiles[0].logo, Some('\u{e877}'));
    assert_eq!(tiles[1].logo, None);
    assert_eq!(tiles[2].logo, None);
    assert_eq!(tiles[0].description, "do ls");
    assert_eq!((tiles[0].highlighted, tiles[2].highlighted), (false, true));
    assert!(matches!(tiles[1].message, Message::Action(false, 1, false)));
    data.checked_update(Message::SelectAction).unwrap();
    assert!(!data.tiles()[2].highlighted);
}

#[test]
fn deleting_is_offered_while_actions_are_picked() {
    let mut data = controller();
    let icons_of = |data: &Data| data.toolbar().iter().map(|b| b.icon).collect::<Vec<_>>();
    assert_eq!(icons_of(&data), vec![icons::ADD_ACTION, icons::SELECT, icons::EDIT]);
    data.checked_update(Message::SelectAction).unwrap();
    assert_eq!(icons_of(&data), vec![icons::DELETE, icons::ADD_ACTION, icons::SELECT, icons::EDIT]);
    assert_eq!(data.toolbar()[2].style, ButtonStyle::Highlighted);
    assert_eq!(data.toolbar()[3].style, ButtonStyle::Secondary);
    assert!(matches!(data.toolbar()[0].message, Message::DelectAction));
}

#[test]
fn a_new_player_is_described() {
    let mut data = controller();
    for place in 0..4 {
        data.checked_update(client_input(place, place.to_string())).unwrap();
    }
    let fields = data.client_form();
    let hints: Vec<&str> = fields.iter().map(|f| f.hint.as_str()).collect();
    assert_eq!(hints, vec!["Client Address", "Port", "Username", "Password"]);
    let values: Vec<&str> = fields.iter().map(|f| f.value.as_str()).collect();
    assert_eq!(values, vec!["0", "1", "2", "3"]);
    let buttons = data.client_form_buttons();
    assert!(matches!(buttons[0].message, Message::AddrDeselAll));
    assert!(matches!(buttons[1].message, Message::RefreshAddr));
    assert!(matches!(buttons[2].message, Message::AddrDelAll));
}

#[test]
fn the_newest_log_is_shown_first() {
    let mut info: ClientInfo<u8> = ClientInfo::default();
    logged(&mut info, Some("one"), None, 1);
    logged(&mut info, None, Some("trouble"), 2);
    logged(&mut info, Some("three"), Some("more"), 3);
    let texts = |show_error| {
        log_cards(&info, show_error).iter().map(|c| (c.timestamp, c.text.clone())).collect::<Vec<_>>()
    };
    assert_eq!(texts(false), vec![(3, "three".to_string()), (1, "one".to_string())]);
    assert_eq!(texts(true), vec![(3, "more".to_string()), (2, "trouble".to_string())]);
}

#[test]
fn logs_may_not_be_at_hand() {
    let mut data = controller();
    let mut info: ClientInfo<u8> = ClientInfo::default();
    logged(&mut info, Some("one"), None, 1);
    assert!(matches!(
        show(&mut data, Dialog::Logs(0, true)),
        DialogContent::Logs { index: 0, show_error: true, cards: None }
    ));
    data.checked_update(Message::ShowDialog(Dialog::Logs(0, false))).unwrap();
    match data.dialog(Some(&info)) {
        DialogContent::Logs { cards: Some(cards), .. } => assert_eq!(cards.len(), 1),
        _ => panic!("the logs are shown"),
    }
    data.checked_update(Message::ShowDialog(Dialog::Logs(2, false))).unwrap();
    assert!(matches!(data.dialog(Some(&info)), DialogContent::Logs { cards: None, .. }));
}

#[test]
fn an_action_is_described_in_its_dialog() {
    let mut data = controller();
    data.checked_update(Message::EditAction).unwrap();
    data.checked_update(Message::Action(false, 0, false)).unwrap();
    match data.dialog::<u8>(None) {
        DialogContent::AddAction { index, fields, submit } => {
            assert_eq!(index, Some(0));
            assert!(matches!(submit, Message::AddAction(Some(0))));
            let shown: Vec<(&str, &str, &str)> = fields
                .iter()
                .map(|f| (f.label.as_str(), f.hint.as_str(), f.value.as_str()))
                .collect();
            assert_eq!(
                shown,
                vec![
                    ("Icon", "code point", "e877"),
                    ("Description", "command info", "do ls"),
                    ("Command", "shell script", "ls"),
                ]
            );
        }
        _ => panic!("the action is shown"),
    }
}

#[test]
fn arguments_have_labels_and_hints() {
    let mut data = controller();
    data.checked_update(Message::Action(false, 1, false)).unwrap();
    data.checked_update(Message::DialogInput(1, "there".to_string())).unwrap();
    match data.dialog::<u8>(None) {
        DialogContent::Arguments { index, fields, submit } => {
            assert_eq!(index, 1);
            assert!(matches!(submit, Message::Action(true, 1, true)));
            assert_eq!((fields[0].label.as_str(), fields[0].hint.as_str()), ("from", "where"));
            assert_eq!((fields[1].label.as_str(), fields[1].hint.as_str()), ("to", ""));
            assert_eq!(fields[1].value, "there");
        }
        _ => panic!("the arguments are shown"),
    }
}

#[test]
fn other_dialogs() {
    let mut data = controller();
    assert!(matches!(show(&mut data, Dialog::Main), DialogContent::Main));
    match show(&mut data, Dialog::Screenshot(1)) {
        DialogContent::Screenshot { index: 1, refresh } => {
            assert!(matches!(refresh.message, Message::Screenshot(1, false)));
            assert_eq!(refresh.icon, icons::REFRESH);
        }
        _ => panic!("the screenshot is shown"),
    }
}

#[test]
fn boxes_and_inputs_ask_for_what_they_show() {
    assert!(matches!(client_toggle(3, true), Message::UpdateAddrSel(true, 3)));
    assert!(matches!(client_toggle(0, false), Message::UpdateAddrSel(false, 0)));
    assert!(matches!(client_submit(), Message::AddrAdd));
    assert!(matches!(
        show_error_toggle(2, true),
        Message::ShowDialog(Dialog::Logs(2, true))
    ));
    match dialog_input(5, "text".to_string()) {
        Message::DialogInput(place, text) => assert_eq!((place, text.as_str()), (5, "text")),
        _ => panic!("the input changes"),
    }
}

#[test]
fn a_log_can_be_copied() {
    let mut info: ClientInfo<u8> = ClientInfo::default();
    logged(&mut info, Some("one"), None, 1);
    let button = log_cards(&info, false)[0].copy();
    assert_eq!((button.icon, button.size), (icons::COPY, 20));
    assert_eq!(button.style, ButtonStyle::Primary);
    match button.message {
        Message::CopyToClipboard(text) => assert_eq!(text, "one"),
        _ => panic!("the text is copied"),
    }
}

#[test]
fn pictures_are_shown_where_there_are_some() {
    let data = controller();
    let mut shot = Screenshot::new();
    assert_eq!(data.picture(0, None), None);
    assert_eq!(data.picture(0, Some(&shot)), None);
    shot.store(Some((0, Some(vec![1, 2]))));
    assert_eq!(data.picture(1, Some(&shot)), Some(&vec![1, 2]));
    assert_eq!(data.picture(2, Some(&shot)), None);
}

#[test]
fn escape_leaves_every_dialog() {
    let mut data = controller();
    let main = show(&mut data, Dialog::Main);
    assert!(escape(&main).is_none());
    let arguments = ActionDesc::generate_args("{x}");
    for dialog in [
        Dialog::AddAction(None),
        Dialog::ArgumentsForAction(1, arguments),
        Dialog::Logs(0, true),
        Dialog::Screenshot(0),
    ] {
        let content = show(&mut data, dialog);
        match escape(&content) {
            Some(message) => data.checked_update(message).unwrap(),
            None => panic!("the dialog can be left"),
        };
        assert!(matches!(data.dialog::<u8>(None), DialogContent::Main));
    }
}

#[test]
fn looking_changes_nothing() {
    let mut data = controller();
    data.checked_update(Message::Action(false, 1, false)).unwrap();
    let labels = |data: &Data| match data.dialog::<u8>(None) {
        DialogContent::Arguments { fields, .. } => {
            fields.into_iter().map(|f| (f.label, f.hint, f.value)).collect::<Vec<_>>()
        }
        _ => panic!("the arguments are shown"),
    };
    let first = labels(&data);
    data.client_rows(&vec![None, None]);
    data.tiles();
    data.toolbar();
    assert_eq!(labels(&data), first);
    assert_eq!((data.clients_version, data.actions_version), (0, 0));
}

#[test]
fn menus_have_entries() {
    let menus = menus();
    assert_eq!(menus[0].title, "Configuration");
    assert_eq!(menus[1].title, "File");
    let names = |i: usize| menus[i].entries.iter().map(|e| e.0.as_str()).collect::<Vec<_>>();
    assert_eq!(names(0), vec!["Save (Ctrl + S)", "Import", "Export", "Open config folder"]);
    assert_eq!(names(1), vec!["Upload Files", "Download Files", "Export"]);
    assert!(matches!(menus[0].entries[3].1, Message::Config(ConfigAction::Open)));
    assert!(matches!(menus[1].entries[0].1, Message::Config(ConfigAction::Save)));
}
