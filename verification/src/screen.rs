//! What is shown: the main page with its players and actions, and the dialog on top of it.

use vstd::prelude::*;

use crate::arguments::{name_at, name_count, ArgumentsMap};
#[allow(unused_imports)]
use crate::arguments::{argument_names, texts};
#[allow(unused_imports)]
use crate::action::ActionModel;
use crate::client::Client;
#[allow(unused_imports)]
use crate::client::{targets_of, ClientModel};
use crate::data::Data;
#[allow(unused_imports)]
use crate::data::{command_after, state_after, DataModel, INPUT_COLUMNS};
use crate::icons::{
    ADD_ACTION, COPY, DELETE, DESELECT, EDIT, EXECUTING, REFRESH, SCREENSHOT, SELECT, VIEW_LOG,
};
#[allow(unused_imports)]
use crate::lists::{lemma_filter_keeps, lemma_filtered_are_chosen};
use crate::message::{ConfigAction, Dialog, Message};
#[allow(unused_imports)]
use crate::message::{CommandModel, DialogModel};
use crate::session::{log_at, log_count, ClientInfo, Screenshot};
#[allow(unused_imports)]
use crate::session::{bytes_of, LogModel};
use crate::text::{split_label, to_digits};
#[allow(unused_imports)]
use crate::text::{
    after_mark, before_mark, digits_of, law_a_name_is_parted_at_its_first_mark,
    law_port_round_trip, port_of,
};

verus! {

/// How a button looks.
#[derive(Debug, Clone, Copy, PartialEq, Eq, Structural)]
pub enum ButtonStyle {
    Primary,
    Secondary,
    Text,
    Destructive,
    Highlighted,
}

/// A button with an icon of some size, and what it asks for.
pub struct Button {
    pub icon: char,
    pub size: u16,
    pub style: ButtonStyle,
    pub message: Message,
}

/// The buttons beside the player at `index`: its logs, its screenshot, and away with it.
pub open spec fn client_buttons(index: usize) -> Seq<Button> {
    seq![
        Button {
            icon: VIEW_LOG,
            size: 30,
            style: ButtonStyle::Text,
            message: Message::ShowDialog(Dialog::Logs(index, false)),
        },
        Button {
            icon: SCREENSHOT,
            size: 30,
            style: ButtonStyle::Primary,
            message: Message::Screenshot(index, true),
        },
        Button {
            icon: DELETE,
            size: 20,
            style: ButtonStyle::Destructive,
            message: Message::AddrDel(index),
        },
    ]
}

fn make_client_buttons(index: usize) -> (buttons: Vec<Button>)
    ensures
        buttons@ == client_buttons(index),
{
    let buttons = vec![
        Button {
            icon: VIEW_LOG,
            size: 30,
            style: ButtonStyle::Text,
            message: Message::ShowDialog(Dialog::Logs(index, false)),
        },
        Button {
            icon: SCREENSHOT,
            size: 30,
            style: ButtonStyle::Primary,
            message: Message::Screenshot(index, true),
        },
        Button {
            icon: DELETE,
            size: 20,
            style: ButtonStyle::Destructive,
            message: Message::AddrDel(index),
        },
    ];
    assert(buttons@ =~= client_buttons(index));
    buttons
}

/// What is shown of a player.
pub struct ClientRow {
    pub checked: bool,
    pub address: String,
    pub port: String,
    pub status: char,
    pub message: String,
    pub buttons: Vec<Button>,
}

/// What a `ClientRow` stands for.
pub struct RowModel {
    pub checked: bool,
    pub address: Seq<char>,
    pub port: Seq<char>,
    pub status: char,
    pub message: Seq<char>,
    pub buttons: Seq<Button>,
}

impl View for ClientRow {
    type V = RowModel;

    open spec fn view(&self) -> RowModel {
        RowModel {
            checked: self.checked,
            address: self.address@,
            port: self.port@,
            status: self.status,
            message: self.message@,
            buttons: self.buttons@,
        }
    }
}

/// What is said of a player while it runs a command.
pub const EXECUTING_MESSAGE: &'static str = "Script is being run";

/// The row of the player at `index`; without a status it is running a command.
pub open spec fn client_row(
    client: ClientModel,
    select_all: bool,
    index: usize,
    status: Option<(char, String)>,
) -> RowModel {
    RowModel {
        checked: client.selected || select_all,
        address: client.address,
        port: digits_of(client.port as nat, 10),
        status: match status {
            Some(s) => s.0,
            None => EXECUTING,
        },
        message: match status {
            Some(s) => s.1@,
            None => EXECUTING_MESSAGE@,
        },
        buttons: client_buttons(index),
    }
}

fn make_client_row(
    client: &Client,
    select_all: bool,
    index: usize,
    status: &Option<(char, String)>,
) -> (row: ClientRow)
    ensures
        row@ == client_row(client@, select_all, index, *status),
{
    let (status, message) = match status {
        Some(s) => (s.0, s.1.clone()),
        None => (EXECUTING, EXECUTING_MESSAGE.to_owned()),
    };
    ClientRow {
        checked: client.selected || select_all,
        address: client.address.clone(),
        port: to_digits(client.port as u32, 10),
        status,
        message,
        buttons: make_client_buttons(index),
    }
}

/// What is shown of an action.
pub struct Tile {
    pub logo: Option<char>,
    pub description: String,
    pub highlighted: bool,
    pub message: Message,
}

/// What a `Tile` stands for.
pub struct TileModel {
    pub logo: Option<char>,
    pub description: Seq<char>,
    pub highlighted: bool,
    pub message: Message,
}

impl View for Tile {
    type V = TileModel;

    open spec fn view(&self) -> TileModel {
        TileModel {
            logo: self.logo,
            description: self.description@,
            highlighted: self.highlighted,
            message: self.message,
        }
    }
}

/// The character at a code point, where there is one.
pub open spec fn char_at(code: u32) -> Option<char> {
    if vstd::utf8::is_scalar(code) {
        Some(code as char)
    } else {
        None
    }
}

/// `char::from_u32`: the character at a code point; there is none at a surrogate or past the last
/// code point.
pub assume_specification[ char::from_u32 ](i: u32) -> (c: Option<char>)
    ensures
        c == char_at(i),
;

/// The tile of the action at `index`, highlighted where it is picked while actions are picked.
pub open spec fn tile_of(action: ActionModel, select_actions: bool, index: usize) -> TileModel {
    TileModel {
        logo: match action.logo {
            Some(code) => char_at(code),
            None => None,
        },
        description: action.description,
        highlighted: action.selected && select_actions,
        message: Message::Action(false, index, false),
    }
}

/// How a button that is switched on or off looks.
pub open spec fn switch_style(on: bool) -> ButtonStyle {
    if on {
        ButtonStyle::Highlighted
    } else {
        ButtonStyle::Secondary
    }
}

/// The buttons below the actions: a new one, picking and editing; while actions are picked, away
/// with those that are comes first.
pub open spec fn toolbar_of(select_actions: bool, edit_actions: bool) -> Seq<Button> {
    let always = seq![
        Button {
            icon: ADD_ACTION,
            size: 30,
            style: ButtonStyle::Secondary,
            message: Message::ShowDialog(Dialog::AddAction(None)),
        },
        Button {
            icon: SELECT,
            size: 30,
            style: switch_style(select_actions),
            message: Message::SelectAction,
        },
        Button {
            icon: EDIT,
            size: 30,
            style: switch_style(edit_actions),
            message: Message::EditAction,
        },
    ];
    if select_actions {
        seq![
            Button {
                icon: DELETE,
                size: 20,
                style: ButtonStyle::Destructive,
                message: Message::DelectAction,
            },
        ] + always
    } else {
        always
    }
}

fn make_switch_style(on: bool) -> (style: ButtonStyle)
    ensures
        style == switch_style(on),
{
    if on {
        ButtonStyle::Highlighted
    } else {
        ButtonStyle::Secondary
    }
}

/// A text to fill in: what it is called, what is hinted at while it is empty, and what it holds.
pub struct Field {
    pub label: String,
    pub hint: String,
    pub value: String,
}

/// What a `Field` stands for.
pub struct FieldModel {
    pub label: Seq<char>,
    pub hint: Seq<char>,
    pub value: Seq<char>,
}

impl View for Field {
    type V = FieldModel;

    open spec fn view(&self) -> FieldModel {
        FieldModel { label: self.label@, hint: self.hint@, value: self.value@ }
    }
}

/// The views of some fields.
pub open spec fn field_models(fields: Seq<Field>) -> Seq<FieldModel> {
    fields.map_values(|f: Field| f@)
}

/// The inputs that describe a new player.
pub open spec fn client_fields(d: DataModel) -> Seq<FieldModel> {
    seq![
        FieldModel { label: ""@, hint: "Client Address"@, value: d.client_addr_input },
        FieldModel { label: ""@, hint: "Port"@, value: d.client_port_input },
        FieldModel { label: ""@, hint: "Username"@, value: d.username_input },
        FieldModel { label: ""@, hint: "Password"@, value: d.password_input },
    ]
}

/// The buttons beside the inputs of a new player: none picked, drawn anew, away with all.
pub open spec fn client_bar() -> Seq<Button> {
    seq![
        Button {
            icon: DESELECT,
            size: 20,
            style: ButtonStyle::Destructive,
            message: Message::AddrDeselAll,
        },
        Button {
            icon: REFRESH,
            size: 20,
            style: ButtonStyle::Primary,
            message: Message::RefreshAddr,
        },
        Button {
            icon: DELETE,
            size: 20,
            style: ButtonStyle::Destructive,
            message: Message::AddrDelAll,
        },
    ]
}

/// The inputs that describe an action.
pub open spec fn action_fields(row: Seq<Seq<char>>) -> Seq<FieldModel> {
    seq![
        FieldModel { label: "Icon"@, hint: "code point"@, value: row[0] },
        FieldModel { label: "Description"@, hint: "command info"@, value: row[1] },
        FieldModel { label: "Command"@, hint: "shell script"@, value: row[2] },
    ]
}

/// The inputs for the arguments of an action: what stands before the first `#` of a name is its
/// label, what stands before the next one its hint.
pub open spec fn argument_fields(names: Seq<Seq<char>>, row: Seq<Seq<char>>) -> Seq<FieldModel> {
    Seq::new(
        names.len(),
        |i: int|
            FieldModel {
                label: before_mark(names[i]),
                hint: before_mark(after_mark(names[i])),
                value: row[i],
            },
    )
}

/// One log that is shown, with a button that copies its text.
pub struct LogCard {
    pub timestamp: i64,
    pub text: String,
}

impl LogCard {
    /// The button that copies the text of the log.
    pub fn copy(&self) -> (button: Button)
        ensures
            button.icon == COPY,
            button.icon == '\u{e14d}',
            button.size == 20,
            button.style == ButtonStyle::Primary,
            button.message matches Message::CopyToClipboard(text) && text@ == self.text@,
    {
        Button {
            icon: COPY,
            size: 20,
            style: ButtonStyle::Primary,
            message: Message::CopyToClipboard(self.text.clone()),
        }
    }
}

/// The views of some cards.
pub open spec fn card_models(cards: Seq<LogCard>) -> Seq<(i64, Seq<char>)> {
    cards.map_values(|c: LogCard| (c.timestamp, c.text@))
}

/// The output of a run that is asked for.
pub open spec fn shown_output(log: LogModel, show_error: bool) -> Option<Seq<char>> {
    if show_error {
        log.stderr
    } else {
        log.stdout
    }
}

/// The logs with the output that is asked for, newest first.
pub open spec fn visible_logs(logs: Seq<LogModel>, show_error: bool) -> Seq<(i64, Seq<char>)>
    decreases logs.len(),
{
    if logs.len() == 0 {
        Seq::empty()
    } else {
        let older = visible_logs(logs.drop_last(), show_error);
        match shown_output(logs.last(), show_error) {
            Some(text) => seq![(logs.last().timestamp, text)] + older,
            None => older,
        }
    }
}

/// What is shown in a dialog.
#[allow(inconsistent_fields)]
pub enum DialogContent {
    Main,
    /// The logs of a player; there are none where they cannot be had at the moment.
    Logs { index: usize, show_error: bool, cards: Option<Vec<LogCard>> },
    AddAction { index: Option<usize>, fields: Vec<Field>, submit: Message },
    Arguments { index: usize, fields: Vec<Field>, submit: Message },
    Screenshot { index: usize, refresh: Button },
}

/// The dialog shows what the controller holds.
pub open spec fn shows_dialog(
    content: DialogContent,
    d: DataModel,
    logs: Option<Seq<LogModel>>,
) -> bool {
    match d.current_dialog {
        DialogModel::Main => content is Main,
        DialogModel::Logs(index, show_error) => {
            &&& content matches DialogContent::Logs { index: i, show_error: s, cards }
            &&& i == index
            &&& s == show_error
            &&& cards is Some <==> index < d.config.clients.len() && logs is Some
            &&& cards matches Some(c) ==> card_models(c@) == visible_logs(
                logs.unwrap(),
                show_error,
            )
        },
        DialogModel::AddAction(index) => {
            &&& content matches DialogContent::AddAction { index: i, fields, submit }
            &&& i == index
            &&& field_models(fields@) == action_fields(d.dialog_inputs[1])
            &&& submit == Message::AddAction(index)
        },
        DialogModel::ArgumentsForAction(index, names) => {
            &&& content matches DialogContent::Arguments { index: i, fields, submit }
            &&& i == index
            &&& field_models(fields@) == argument_fields(names, d.dialog_inputs[2])
            &&& submit == Message::Action(true, index, true)
        },
        DialogModel::Screenshot(index) => {
            &&& content matches DialogContent::Screenshot { index: i, refresh }
            &&& i == index
            &&& refresh == (Button {
                icon: REFRESH,
                size: 20,
                style: ButtonStyle::Text,
                message: Message::Screenshot(index, false),
            })
        },
    }
}

/// The current dialog has an input for each argument that it asks for.
pub open spec fn can_be_shown(d: DataModel) -> bool {
    d.current_dialog matches DialogModel::ArgumentsForAction(_, names) ==> names.len()
        <= INPUT_COLUMNS
}

/// What a text typed into the inputs of a new player asks for.
pub fn client_input(place: usize, text: String) -> (message: Message)
    requires
        place < 4,
    ensures
        message == match place {
            0 => Message::AddrInput(text),
            1 => Message::PortInput(text),
            2 => Message::UsernameInput(text),
            _ => Message::PasswordInput(text),
        },
{
    match place {
        0 => Message::AddrInput(text),
        1 => Message::PortInput(text),
        2 => Message::UsernameInput(text),
        _ => Message::PasswordInput(text),
    }
}

/// What the enter key asks for in the inputs of a new player.
pub fn client_submit() -> (message: Message)
    ensures
        message == Message::AddrAdd,
{
    Message::AddrAdd
}

/// What a click on the box of the player at `index` asks for.
pub fn client_toggle(index: usize, selected: bool) -> (message: Message)
    ensures
        message == Message::UpdateAddrSel(selected, index),
{
    Message::UpdateAddrSel(selected, index)
}

/// What a click on the box that chooses between the outputs of the player at `index` asks for.
pub fn show_error_toggle(index: usize, show_error: bool) -> (message: Message)
    ensures
        message == Message::ShowDialog(Dialog::Logs(index, show_error)),
{
    Message::ShowDialog(Dialog::Logs(index, show_error))
}

/// What a text typed into an input of a dialog asks for.
pub fn dialog_input(place: usize, text: String) -> (message: Message)
    ensures
        message == Message::DialogInput(place, text),
{
    Message::DialogInput(place, text)
}

/// What the escape key asks for: every dialog on top of the main page is left by it.
pub fn escape(content: &DialogContent) -> (message: Option<Message>)
    ensures
        message == if content is Main {
            None
        } else {
            Some(Message::ShowDialog(Dialog::Main))
        },
{
    match content {
        DialogContent::Main => None,
        _ => Some(Message::ShowDialog(Dialog::Main)),
    }
}

/// Picks out the logs with the output that is asked for, newest first.
pub fn log_cards<C>(info: &ClientInfo<C>, show_error: bool) -> (cards: Vec<LogCard>)
    ensures
        card_models(cards@) == visible_logs(info@.output, show_error),
{
    let ghost logs = info@.output;
    let mut cards: Vec<LogCard> = Vec::new();
    let mut i: usize = log_count(&info.output);
    assert(logs.take(i as int) =~= logs);
    assert(card_models(cards@) + visible_logs(logs, show_error) =~= visible_logs(
        logs,
        show_error,
    ));
    while i > 0
        invariant
            logs == info@.output,
            i <= logs.len(),
            card_models(cards@) + visible_logs(logs.take(i as int), show_error) == visible_logs(
                logs,
                show_error,
            ),
        decreases i,
    {
        let ghost part = logs.take(i as int);
        let ghost before = cards@;
        i -= 1;
        assert(part.drop_last() =~= logs.take(i as int));
        assert(part.last() == logs[i as int]);
        let ghost older = visible_logs(logs.take(i as int), show_error);
        match log_at(&info.output, i) {
            Some(log) => {
                let output: &Option<String> = if show_error {
                    &log.stderr
                } else {
                    &log.stdout
                };
                match output {
                    Some(text) => {
                        cards.push(LogCard { timestamp: log.timestamp, text: text.clone() });
                        assert(card_models(cards@) =~= card_models(before).push(
                            (log.timestamp, text@),
                        ));
                        assert(card_models(cards@) + older =~= card_models(before) + (seq![
                            (log.timestamp, text@),
                        ] + older));
                    },
                    None => {},
                }
            },
            None => {
                assert(false);
            },
        }
    }
    assert(card_models(cards@) + visible_logs(logs.take(0), show_error) =~= card_models(cards@));
    cards
}

fn make_field(label: &str, hint: &str, value: &String) -> (field: Field)
    ensures
        field@ == (FieldModel { label: label@, hint: hint@, value: value@ }),
{
    Field { label: label.to_owned(), hint: hint.to_owned(), value: value.clone() }
}

fn make_argument_fields(arguments: &ArgumentsMap, row: &Vec<String>) -> (fields: Vec<Field>)
    requires
        argument_names(arguments).len() <= row.len(),
    ensures
        field_models(fields@) == argument_fields(argument_names(arguments), texts(row@)),
{
    let ghost names = argument_names(arguments);
    let ghost expected = argument_fields(names, texts(row@));
    let mut fields: Vec<Field> = Vec::new();
    let count: usize = name_count(arguments);
    let mut i: usize = 0;
    while i < count
        invariant
            i <= count,
            count == names.len(),
            names == argument_names(arguments),
            names.len() <= row.len(),
            expected == argument_fields(names, texts(row@)),
            fields.len() == i,
            forall|j: int| 0 <= j < i ==> (#[trigger] fields@[j])@ == expected[j],
        decreases count - i,
    {
        match name_at(arguments, i) {
            Some(name) => {
                let (label, hint) = split_label(name.as_str());
                fields.push(Field { label, hint, value: row[i].clone() });
            },
            None => {
                assert(false);
            },
        }
        i += 1;
    }
    assert(field_models(fields@) =~= expected);
    fields
}

impl Data {
    /// The rows of the players. `statuses` says of each how its last command went, or nothing
    /// while one is running.
    pub fn client_rows(&self, statuses: &Vec<Option<(char, String)>>) -> (list: Vec<ClientRow>)
        requires
            statuses.len() == self@.config.clients.len(),
        ensures
            list.len() == statuses.len(),
            forall|i: int|
                0 <= i < list.len() ==> (#[trigger] list@[i])@ == client_row(
                    self@.config.clients[i],
                    self@.select_all,
                    i as usize,
                    statuses@[i],
                ),
    {
        let mut list: Vec<ClientRow> = Vec::new();
        let mut i: usize = 0;
        while i < statuses.len()
            invariant
                i <= statuses.len(),
                statuses.len() == self@.config.clients.len(),
                list.len() == i,
                forall|j: int|
                    0 <= j < i ==> (#[trigger] list@[j])@ == client_row(
                        self@.config.clients[j],
                        self@.select_all,
                        j as usize,
                        statuses@[j],
                    ),
            decreases statuses.len() - i,
        {
            match self.config.0.clients.get_index(i) {
                Some(client) => {
                    let row = make_client_row(client, self.select_all, i, &statuses[i]);
                    list.push(row);
                },
                None => {
                    assert(false);
                },
            }
            i += 1;
        }
        list
    }

    /// The tiles of the actions.
    pub fn tiles(&self) -> (list: Vec<Tile>)
        ensures
            list.len() == self@.config.actions.len(),
            forall|i: int|
                0 <= i < list.len() ==> (#[trigger] list@[i])@ == tile_of(
                    self@.config.actions[i],
                    self@.select_actions,
                    i as usize,
                ),
    {
        let mut list: Vec<Tile> = Vec::new();
        let mut i: usize = 0;
        while i < self.config.0.actions.len()
            invariant
                i <= self.config.0.actions.len(),
                list.len() == i,
                forall|j: int|
                    0 <= j < i ==> (#[trigger] list@[j])@ == tile_of(
                        self@.config.actions[j],
                        self@.select_actions,
                        j as usize,
                    ),
            decreases self.config.0.actions.len() - i,
        {
            let action = &self.config.0.actions[i];
            let logo = match action.logo {
                Some(code) => char::from_u32(code),
                None => None,
            };
            list.push(
                Tile {
                    logo,
                    description: action.description.clone(),
                    highlighted: action.selected && self.select_actions,
                    message: Message::Action(false, i, false),
                },
            );
            i += 1;
        }
        list
    }

    /// The buttons below the actions.
    pub fn toolbar(&self) -> (buttons: Vec<Button>)
        ensures
            buttons@ == toolbar_of(self@.select_actions, self@.edit_actions),
    {
        let mut buttons = vec![
            Button {
                icon: ADD_ACTION,
                size: 30,
                style: ButtonStyle::Secondary,
                message: Message::ShowDialog(Dialog::AddAction(None)),
            },
            Button {
                icon: SELECT,
                size: 30,
                style: make_switch_style(self.select_actions),
                message: Message::SelectAction,
            },
            Button {
                icon: EDIT,
                size: 30,
                style: make_switch_style(self.edit_actions),
                message: Message::EditAction,
            },
        ];
        if self.select_actions {
            buttons.insert(
                0,
                Button {
                    icon: DELETE,
                    size: 20,
                    style: ButtonStyle::Destructive,
                    message: Message::DelectAction,
                },
            );
        }
        assert(buttons@ =~= toolbar_of(self@.select_actions, self@.edit_actions));
        buttons
    }

    /// The inputs that describe a new player.
    pub fn client_form(&self) -> (fields: Vec<Field>)
        ensures
            field_models(fields@) == client_fields(self@),
    {
        let fields = vec![
            make_field("", "Client Address", &self.client_addr_input),
            make_field("", "Port", &self.client_port_input),
            make_field("", "Username", &self.username_input),
            make_field("", "Password", &self.password_input),
        ];
        assert(field_models(fields@) =~= client_fields(self@));
        fields
    }

    /// The buttons beside the inputs of a new player.
    pub fn client_form_buttons(&self) -> (buttons: Vec<Button>)
        ensures
            buttons@ == client_bar(),
    {
        let buttons = vec![
            Button {
                icon: DESELECT,
                size: 20,
                style: ButtonStyle::Destructive,
                message: Message::AddrDeselAll,
            },
            Button {
                icon: REFRESH,
                size: 20,
                style: ButtonStyle::Primary,
                message: Message::RefreshAddr,
            },
            Button {
                icon: DELETE,
                size: 20,
                style: ButtonStyle::Destructive,
                message: Message::AddrDelAll,
            },
        ];
        assert(buttons@ =~= client_bar());
        buttons
    }

    /// What is shown in the current dialog. `info` is what is known of the player whose logs are
    /// asked for, where that can be had at the moment.
    pub fn dialog<C>(&self, info: Option<&ClientInfo<C>>) -> (content: DialogContent)
        requires
            self.wf(),
            can_be_shown(self@),
        ensures
            shows_dialog(
                content,
                self@,
                match info {
                    Some(i) => Some(i@.output),
                    None => None,
                },
            ),
    {
        assert(self@.dialog_inputs[1] == texts(self.dialog_inputs@[1]@));
        assert(self@.dialog_inputs[2] == texts(self.dialog_inputs@[2]@));
        match &self.current_dialog {
            Dialog::Main => DialogContent::Main,
            Dialog::Logs(index, show_error) => {
                let cards = if *index < self.config.0.clients.len() {
                    match info {
                        Some(i) => Some(log_cards(i, *show_error)),
                        None => None,
                    }
                } else {
                    None
                };
                DialogContent::Logs { index: *index, show_error: *show_error, cards }
            },
            Dialog::AddAction(index) => {
                let row = &self.dialog_inputs[1];
                let fields = vec![
                    make_field("Icon", "code point", &row[0]),
                    make_field("Description", "command info", &row[1]),
                    make_field("Command", "shell script", &row[2]),
                ];
                assert(field_models(fields@) =~= action_fields(self@.dialog_inputs[1]));
                DialogContent::AddAction {
                    index: *index,
                    fields,
                    submit: Message::AddAction(*index),
                }
            },
            Dialog::ArgumentsForAction(index, arguments) => DialogContent::Arguments {
                index: *index,
                fields: make_argument_fields(arguments, &self.dialog_inputs[2]),
                submit: Message::Action(true, *index, true),
            },
            Dialog::Screenshot(index) => DialogContent::Screenshot {
                index: *index,
                refresh: Button {
                    icon: REFRESH,
                    size: 20,
                    style: ButtonStyle::Text,
                    message: Message::Screenshot(*index, false),
                },
            },
        }
    }
}

impl Data {
    /// The picture that is shown in the dialog about the screenshot of the player at `index`;
    /// there is none where the player is gone, or where its screenshot cannot be had at the moment
    /// or was never fetched. `screenshot` is what is kept of the player, where that can be had.
    pub fn picture<'a>(&self, index: usize, screenshot: Option<&'a Screenshot>) -> (picture: Option<
        &'a Vec<u8>,
    >)
        ensures
            picture is Some <==> {
                &&& index < self@.config.clients.len()
                &&& screenshot is Some
                &&& screenshot->0.image is Some
            },
            picture matches Some(p) ==> bytes_of(screenshot->0.image) == Some(p@),
    {
        if index >= self.config.0.clients.len() {
            return None;
        }
        match screenshot {
            Some(s) => s.image.as_ref(),
            None => None,
        }
    }
}

/// A menu with its entries and what they ask for.
pub struct Menu {
    pub title: String,
    pub entries: Vec<(String, Message)>,
}

/// The views of the entries of a menu.
pub open spec fn entry_models(entries: Seq<(String, Message)>) -> Seq<(Seq<char>, Message)> {
    entries.map_values(|e: (String, Message)| (e.0@, e.1))
}

/// The entries of the menu about the configuration.
pub open spec fn configuration_entries() -> Seq<(Seq<char>, Message)> {
    seq![
        ("Save (Ctrl + S)"@, Message::Config(ConfigAction::Save)),
        ("Import"@, Message::Config(ConfigAction::Import)),
        ("Export"@, Message::Config(ConfigAction::Export)),
        ("Open config folder"@, Message::Config(ConfigAction::Open)),
    ]
}

/// The entries of the menu about files.
pub open spec fn file_entries() -> Seq<(Seq<char>, Message)> {
    seq![
        ("Upload Files"@, Message::Config(ConfigAction::Save)),
        ("Download Files"@, Message::Config(ConfigAction::Import)),
        ("Export"@, Message::Config(ConfigAction::Export)),
    ]
}

/// The menus at the top of the page.
pub fn menus() -> (list: Vec<Menu>)
    ensures
        list.len() == 2,
        list[0].title@ == "Configuration"@,
        entry_models(list[0].entries@) == configuration_entries(),
        list[1].title@ == "File"@,
        entry_models(list[1].entries@) == file_entries(),
{
    let configuration = vec![
        ("Save (Ctrl + S)".to_owned(), Message::Config(ConfigAction::Save)),
        ("Import".to_owned(), Message::Config(ConfigAction::Import)),
        ("Export".to_owned(), Message::Config(ConfigAction::Export)),
        ("Open config folder".to_owned(), Message::Config(ConfigAction::Open)),
    ];
    assert(entry_models(configuration@) =~= configuration_entries());
    let file = vec![
        ("Upload Files".to_owned(), Message::Config(ConfigAction::Save)),
        ("Download Files".to_owned(), Message::Config(ConfigAction::Import)),
        ("Export".to_owned(), Message::Config(ConfigAction::Export)),
    ];
    assert(entry_models(file@) =~= file_entries());
    vec![
        Menu { title: "Configuration".to_owned(), entries: configuration },
        Menu { title: "File".to_owned(), entries: file },
    ]
}

/// Two contents of a dialog show the same.
pub open spec fn same_content(a: DialogContent, b: DialogContent) -> bool {
    match a {
        DialogContent::Main => b is Main,
        DialogContent::Logs { index, show_error, cards } => {
            &&& b matches DialogContent::Logs { index: i, show_error: s, cards: c }
            &&& i == index
            &&& s == show_error
            &&& c is Some <==> cards is Some
            &&& cards is Some ==> card_models(c->0@) == card_models(cards->0@)
        },
        DialogContent::AddAction { index, fields, submit } => {
            &&& b matches DialogContent::AddAction { index: i, fields: f, submit: s }
            &&& i == index
            &&& field_models(f@) == field_models(fields@)
            &&& s == submit
        },
        DialogContent::Arguments { index, fields, submit } => {
            &&& b matches DialogContent::Arguments { index: i, fields: f, submit: s }
            &&& i == index
            &&& field_models(f@) == field_models(fields@)
            &&& s == submit
        },
        DialogContent::Screenshot { index, refresh } => {
            &&& b matches DialogContent::Screenshot { index: i, refresh: r }
            &&& i == index
            &&& r == refresh
        },
    }
}

/// Looking does not change what is seen: a dialog that is shown again of the same controller and
/// the same logs shows the same.
pub proof fn law_a_dialog_shows_the_same_again(
    d: DataModel,
    logs: Option<Seq<LogModel>>,
    first: DialogContent,
    again: DialogContent,
)
    requires
        shows_dialog(first, d, logs),
        shows_dialog(again, d, logs),
    ensures
        same_content(first, again),
{
}

/// Escape leads from whatever dialog is shown to the main page, where it asks for nothing more.
pub proof fn law_escape_leads_to_the_main_page(
    d: DataModel,
    logs: Option<Seq<LogModel>>,
    content: DialogContent,
)
    requires
        shows_dialog(content, d, logs),
    ensures
        content is Main <==> d.current_dialog is Main,
        state_after(d, Message::ShowDialog(Dialog::Main)) == (DataModel {
            current_dialog: DialogModel::Main,
            ..d
        }),
{
}

/// An action runs exactly on the players whose rows are shown checked.
pub proof fn law_checked_rows_are_targets(
    clients: Seq<ClientModel>,
    select_all: bool,
    index: int,
    status: Option<(char, String)>,
)
    requires
        0 <= index < clients.len(),
    ensures
        client_row(clients[index], select_all, index as usize, status).checked <==> targets_of(
            clients,
            select_all,
        ).contains(clients[index]),
{
    let chosen = |c: ClientModel| c.selected || select_all;
    let targets = clients.filter(chosen);
    if chosen(clients[index]) {
        lemma_filter_keeps(clients, chosen, index);
    }
    if targets.contains(clients[index]) {
        let i = choose|i: int| 0 <= i < targets.len() && targets[i] == clients[index];
        lemma_filtered_are_chosen(clients, chosen, i);
    }
}

/// The row of a player shows its own address and port, checked where it is picked or all are, with
/// the status and the message that are known of it; while a command is running, it says so.
pub proof fn law_a_row_shows_its_player(
    client: ClientModel,
    select_all: bool,
    index: usize,
    status: Option<(char, String)>,
)
    ensures
        ({
            let row = client_row(client, select_all, index, status);
            &&& row.checked <==> client.selected || select_all
            &&& row.address == client.address
            &&& port_of(row.port) == Some(client.port)
            &&& row.port == digits_of(client.port as nat, 10)
            &&& status matches Some(s) ==> row.status == s.0 && row.message == s.1@
            &&& status is None ==> row.status == '\u{ef64}' && row.message
                == "Script is being run"@
        }),
{
    law_port_round_trip(client.port);
}

/// The buttons of a row are about the player of that row: the first shows its logs, the second
/// fetches its screenshot unless one is there, the third takes it out.
pub proof fn law_row_buttons_are_about_their_player(
    d: DataModel,
    index: usize,
    status: Option<(char, String)>,
)
    requires
        index < d.config.clients.len(),
    ensures
        ({
            let row = client_row(
                d.config.clients[index as int],
                d.select_all,
                index,
                status,
            );
            let deleted = state_after(d, row.buttons[2].message).config.clients;
            &&& row.buttons.len() == 3
            &&& row.buttons[0].icon == '\u{f1c3}' && row.buttons[0].size == 30
            &&& row.buttons[1].icon == '\u{ec08}' && row.buttons[1].size == 30
            &&& row.buttons[2].icon == '\u{e872}' && row.buttons[2].size == 20
            &&& row.buttons[0].style == ButtonStyle::Text
            &&& row.buttons[1].style == ButtonStyle::Primary
            &&& row.buttons[2].style == ButtonStyle::Destructive
            &&& state_after(d, row.buttons[0].message) == (DataModel {
                current_dialog: DialogModel::Logs(index, false),
                ..d
            })
            &&& command_after(d, row.buttons[1].message) == (CommandModel::Screenshot {
                index,
                client: d.config.clients[index as int],
                path: d.config.screenshot_path,
                buffer: true,
            })
            &&& deleted.len() == d.config.clients.len() - 1
            &&& forall|i: int|
                0 <= i < deleted.len() && i != index ==> #[trigger] deleted[i]
                    == d.config.clients[i]
            &&& row.buttons[2].message == Message::AddrDel(index)
        }),
{
}

/// The tile of an action shows its description and the icon at its code point, where there is one,
/// and a click on it is a click on that action. It is highlighted exactly where the action is
/// picked while actions are picked.
pub proof fn law_a_tile_shows_its_action(action: ActionModel, select_actions: bool, index: usize)
    ensures
        ({
            let tile = tile_of(action, select_actions, index);
            &&& tile.description == action.description
            &&& tile.highlighted <==> action.selected && select_actions
            &&& tile.message == Message::Action(false, index, false)
            &&& action.logo is None ==> tile.logo is None
            &&& action.logo matches Some(code) ==> (tile.logo is Some <==> code < 0xd800 || 0xe000
                <= code <= 0x10ffff)
            &&& tile.logo matches Some(c) ==> action.logo == Some(c as u32)
        }),
{
}

/// The buttons below the actions add one, switch picking and switch editing; while actions are
/// picked, one that deletes the picked ones comes before them. A switch is highlighted while it is
/// on.
pub proof fn law_the_toolbar_offers_what_can_be_done(d: DataModel)
    ensures
        ({
            let bar = toolbar_of(d.select_actions, d.edit_actions);
            let first: int = if d.select_actions {
                1
            } else {
                0
            };
            &&& bar.len() == first + 3
            &&& d.select_actions ==> {
                &&& bar[0].icon == '\u{e872}' && bar[0].size == 20
                &&& bar[0].style == ButtonStyle::Destructive
                &&& state_after(d, bar[0].message).config.actions == d.config.actions.filter(
                    |a: ActionModel| !a.selected,
                )
                &&& bar[0].message == Message::DelectAction
            }
            &&& bar[first].icon == '\u{e146}' && bar[first].size == 30
            &&& bar[first].style == ButtonStyle::Secondary
            &&& state_after(d, bar[first].message) == (DataModel {
                current_dialog: DialogModel::AddAction(None),
                ..d
            })
            &&& bar[first + 1].icon == '\u{f74d}' && bar[first + 1].size == 30
            &&& bar[first + 1].style == ButtonStyle::Highlighted <==> d.select_actions
            &&& bar[first + 1].style == ButtonStyle::Secondary <==> !d.select_actions
            &&& state_after(d, bar[first + 1].message) == (DataModel {
                select_actions: !d.select_actions,
                ..d
            })
            &&& bar[first + 2].icon == '\u{e3c9}' && bar[first + 2].size == 30
            &&& bar[first + 2].style == ButtonStyle::Highlighted <==> d.edit_actions
            &&& bar[first + 2].style == ButtonStyle::Secondary <==> !d.edit_actions
            &&& state_after(d, bar[first + 2].message) == (DataModel {
                edit_actions: !d.edit_actions,
                ..d
            })
        }),
{
}

/// The inputs of a new player show what was typed into each, in the order address, port, user and
/// password.
pub proof fn law_the_form_shows_what_was_typed(d: DataModel, text: String)
    ensures
        client_fields(d).len() == 4,
        client_fields(d)[0].hint == "Client Address"@,
        client_fields(d)[1].hint == "Port"@,
        client_fields(d)[2].hint == "Username"@,
        client_fields(d)[3].hint == "Password"@,
        client_fields(state_after(d, Message::AddrInput(text))) == client_fields(d).update(
            0,
            FieldModel { value: text@, ..client_fields(d)[0] },
        ),
        port_of(text@) is Some ==> client_fields(state_after(d, Message::PortInput(text)))
            == client_fields(d).update(1, FieldModel { value: text@, ..client_fields(d)[1] }),
        client_fields(state_after(d, Message::UsernameInput(text))) == client_fields(d).update(
            2,
            FieldModel { value: text@, ..client_fields(d)[2] },
        ),
        client_fields(state_after(d, Message::PasswordInput(text))) == client_fields(d).update(
            3,
            FieldModel { value: text@, ..client_fields(d)[3] },
        ),
        client_fields(d)[0].value == d.client_addr_input,
        client_fields(d)[1].value == d.client_port_input,
        client_fields(d)[2].value == d.username_input,
        client_fields(d)[3].value == d.password_input,
        forall|i: int| 0 <= i < 4 ==> (#[trigger] client_fields(d)[i]).label == ""@,
{
    assert(client_fields(state_after(d, Message::AddrInput(text))) =~= client_fields(d).update(
        0,
        FieldModel { value: text@, ..client_fields(d)[0] },
    ));
    assert(port_of(text@) is Some ==> client_fields(state_after(d, Message::PortInput(text)))
        =~= client_fields(d).update(1, FieldModel { value: text@, ..client_fields(d)[1] }));
    assert(client_fields(state_after(d, Message::UsernameInput(text))) =~= client_fields(d).update(
        2,
        FieldModel { value: text@, ..client_fields(d)[2] },
    ));
    assert(client_fields(state_after(d, Message::PasswordInput(text))) =~= client_fields(d).update(
        3,
        FieldModel { value: text@, ..client_fields(d)[3] },
    ));
}

/// The buttons beside the inputs of a new player drop all players from the picked ones, draw them
/// anew, and take them all out, in this order.
pub proof fn law_the_buttons_of_the_form_are_about_all_players(d: DataModel)
    ensures
        client_bar().len() == 3,
        client_bar()[0].icon == '\u{ebb6}',
        client_bar()[1].icon == '\u{e5d5}',
        client_bar()[2].icon == '\u{e872}',
        forall|i: int| 0 <= i < 3 ==> (#[trigger] client_bar()[i]).size == 20,
        client_bar()[0].style == ButtonStyle::Destructive,
        client_bar()[1].style == ButtonStyle::Primary,
        client_bar()[2].style == ButtonStyle::Destructive,
        forall|i: int|
            0 <= i < d.config.clients.len() ==> !(#[trigger] state_after(
                d,
                client_bar()[0].message,
            ).config.clients[i]).selected,
        state_after(d, client_bar()[0].message).config.clients.len() == d.config.clients.len(),
        state_after(d, client_bar()[1].message).config == d.config,
        state_after(d, client_bar()[1].message).clients_version != d.clients_version,
        state_after(d, client_bar()[2].message).config.clients.len() == 0,
{
}

/// One more log comes first where it holds the output that is asked for, and is not shown where it
/// does not; the others stay as they are shown.
pub proof fn law_the_newest_log_is_shown_first(logs: Seq<LogModel>, log: LogModel)
    ensures
        visible_logs(Seq::<LogModel>::empty(), true).len() == 0,
        visible_logs(Seq::<LogModel>::empty(), false).len() == 0,
        log.stdout matches Some(text) ==> visible_logs(logs.push(log), false) == seq![
            (log.timestamp, text),
        ] + visible_logs(logs, false),
        log.stdout is None ==> visible_logs(logs.push(log), false) == visible_logs(logs, false),
        log.stderr matches Some(text) ==> visible_logs(logs.push(log), true) == seq![
            (log.timestamp, text),
        ] + visible_logs(logs, true),
        log.stderr is None ==> visible_logs(logs.push(log), true) == visible_logs(logs, true),
{
    assert(logs.push(log).drop_last() =~= logs);
}

/// The dialog about the arguments has an input for each, in order: its label is the name up to the
/// first mark, its hint what follows up to the next one, and it shows what was typed there.
pub proof fn law_each_argument_has_its_input(
    names: Seq<Seq<char>>,
    row: Seq<Seq<char>>,
    i: int,
    label: Seq<char>,
    hint: Seq<char>,
    rest: Seq<char>,
)
    requires
        0 <= i < names.len(),
        forall|k: int| 0 <= k < label.len() ==> #[trigger] label[k] != '#',
        forall|k: int| 0 <= k < hint.len() ==> #[trigger] hint[k] != '#',
    ensures
        argument_fields(names, row).len() == names.len(),
        argument_fields(names, row)[i].value == row[i],
        names[i] == label ==> argument_fields(names, row)[i].label == label && argument_fields(
            names,
            row,
        )[i].hint.len() == 0,
        names[i] == label + seq!['#'] + hint ==> argument_fields(names, row)[i].label == label
            && argument_fields(names, row)[i].hint == hint,
        names[i] == label + seq!['#'] + (hint + seq!['#'] + rest) ==> argument_fields(
            names,
            row,
        )[i].label == label && argument_fields(names, row)[i].hint == hint,
{
    law_a_name_is_parted_at_its_first_mark(label, hint);
    law_a_name_is_parted_at_its_first_mark(label, hint + seq!['#'] + rest);
    law_a_name_is_parted_at_its_first_mark(hint, rest);
}

/// The dialog that is shown is the current one: it is about the player or the action that was asked
/// for, its inputs show the row of inputs that is its own, and its button asks for what it is
/// about.
pub proof fn law_the_current_dialog_is_shown(
    d: DataModel,
    logs: Option<Seq<LogModel>>,
    content: DialogContent,
)
    requires
        shows_dialog(content, d, logs),
    ensures
        content is Main <==> d.current_dialog is Main,
        d.current_dialog matches DialogModel::Logs(index, show_error) ==> {
            &&& content matches DialogContent::Logs { index: i, show_error: s, cards }
            &&& i == index
            &&& s == show_error
            &&& cards is Some <==> index < d.config.clients.len() && logs is Some
            &&& cards is Some ==> card_models(cards->0@) == visible_logs(logs->0, show_error)
        },
        d.current_dialog matches DialogModel::AddAction(index) ==> {
            &&& content matches DialogContent::AddAction { index: i, fields, submit }
            &&& i == index
            &&& submit == Message::AddAction(index)
            &&& fields@.len() == 3
            &&& fields@[0].label@ == "Icon"@ && fields@[0].hint@ == "code point"@
            &&& fields@[1].label@ == "Description"@ && fields@[1].hint@ == "command info"@
            &&& fields@[2].label@ == "Command"@ && fields@[2].hint@ == "shell script"@
            &&& fields@[0].value@ == d.dialog_inputs[1][0]
            &&& fields@[1].value@ == d.dialog_inputs[1][1]
            &&& fields@[2].value@ == d.dialog_inputs[1][2]
        },
        d.current_dialog matches DialogModel::ArgumentsForAction(index, names) ==> {
            &&& content matches DialogContent::Arguments { index: i, fields, submit }
            &&& i == index
            &&& submit == Message::Action(true, index, true)
            &&& fields@.len() == names.len()
            &&& forall|k: int|
                0 <= k < names.len() ==> (#[trigger] fields@[k]).value@ == d.dialog_inputs[2][k]
        },
        d.current_dialog matches DialogModel::Screenshot(index) ==> {
            &&& content matches DialogContent::Screenshot { index: i, refresh }
            &&& i == index
            &&& refresh.message == Message::Screenshot(index, false)
            &&& refresh.icon == '\u{e5d5}'
            &&& refresh.size == 20
            &&& refresh.style == ButtonStyle::Text
        },
{
    match content {
        DialogContent::AddAction { index, fields, submit } => {
            if d.current_dialog is AddAction {
                let shown = field_models(fields@);
                assert(shown.len() == 3);
                assert(shown[0] == fields@[0]@);
                assert(shown[1] == fields@[1]@);
                assert(shown[2] == fields@[2]@);
            }
        },
        DialogContent::Arguments { index, fields, submit } => {
            match d.current_dialog {
                DialogModel::ArgumentsForAction(_, names) => {
                    let shown = field_models(fields@);
                    assert(shown == argument_fields(names, d.dialog_inputs[2]));
                    assert(shown.len() == names.len() && shown.len() == fields@.len());
                    assert forall|k: int| 0 <= k < names.len() implies (
                    #[trigger] fields@[k]).value@ == d.dialog_inputs[2][k] by {
                        assert(shown[k] == fields@[k]@);
                    }
                },
                _ => {},
            }
        },
        _ => {},
    }
}

/// The arguments of an action can be asked for exactly where there are sixteen at most; every other
/// dialog can be shown.
pub proof fn law_sixteen_arguments_can_be_asked_for(d: DataModel)
    ensures
        d.current_dialog !is ArgumentsForAction ==> can_be_shown(d),
        d.current_dialog matches DialogModel::ArgumentsForAction(_, names) ==> (can_be_shown(d)
            <==> names.len() <= 16),
{
}

/// The entries of the menus ask for what they are called, as far as it is about the configuration.
pub proof fn law_the_menus_are_about_the_configuration(d: DataModel)
    ensures
        configuration_entries().len() == 4,
        configuration_entries()[0].0 == "Save (Ctrl + S)"@,
        command_after(d, configuration_entries()[0].1) is SaveConfig,
        configuration_entries()[1].0 == "Import"@,
        command_after(d, configuration_entries()[1].1) is ImportConfig,
        configuration_entries()[2].0 == "Export"@,
        command_after(d, configuration_entries()[2].1) is ExportConfig,
        configuration_entries()[3].0 == "Open config folder"@,
        command_after(d, configuration_entries()[3].1) is OpenConfig,
        file_entries().len() == 3,
        file_entries()[0].0 == "Upload Files"@,
        command_after(d, file_entries()[0].1) is SaveConfig,
        file_entries()[1].0 == "Download Files"@,
        command_after(d, file_entries()[1].1) is ImportConfig,
        file_entries()[2].0 == "Export"@,
        command_after(d, file_entries()[2].1) is ExportConfig,
{
}

/// What is said of what is shown is said of each of its fields.
pub proof fn law_what_is_shown_is_all_its_fields(
    row: ClientRow,
    tile: Tile,
    field: Field,
    cards: Seq<LogCard>,
    fields: Seq<Field>,
    entries: Seq<(String, Message)>,
    i: int,
)
    ensures
        row@.checked == row.checked,
        row@.address == row.address@,
        row@.port == row.port@,
        row@.status == row.status,
        row@.message == row.message@,
        row@.buttons == row.buttons@,
        tile@.logo == tile.logo,
        tile@.description == tile.description@,
        tile@.highlighted == tile.highlighted,
        tile@.message == tile.message,
        field@.label == field.label@,
        field@.hint == field.hint@,
        field@.value == field.value@,
        card_models(cards).len() == cards.len(),
        0 <= i < cards.len() ==> card_models(cards)[i] == (cards[i].timestamp, cards[i].text@),
        field_models(fields).len() == fields.len(),
        0 <= i < fields.len() ==> field_models(fields)[i] == fields[i]@,
        entry_models(entries).len() == entries.len(),
        0 <= i < entries.len() ==> entry_models(entries)[i] == (entries[i].0@, entries[i].1),
{
}

} // verus!
