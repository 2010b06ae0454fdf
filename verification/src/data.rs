//! The controller: what it holds, and how it answers what the user asks for.

use vstd::prelude::*;

use crate::action::{atomicbool_default, ActionDesc, ActionState};
#[allow(unused_imports)]
use crate::action::{arguments_match, new_action, ActionModel};
use crate::arguments::{expand, is_well_closed, name_count, share};
#[allow(unused_imports)]
use crate::arguments::{
    all_plain, bindings, filled, interpolated, law_plain_commands_expand, text_of, texts,
    well_closed,
};
use crate::client::{Client, DEFAULT_PORT};
#[allow(unused_imports)]
use crate::client::{
    all_deselected, distinct_keys, has_key, key_of, targets_of, with_selected, without_index,
    ClientModel,
};
use crate::config::{ConfigError, DiskConfig, MemConfig};
#[allow(unused_imports)]
use crate::config::{all_arguments_match, empty_config, with_all_arguments, ConfigModel};
#[allow(unused_imports)]
use crate::lists::{lemma_filter_keeps, lemma_filtered_are_chosen};
use crate::message::{Command, ConfigAction, Dialog, Message};
#[allow(unused_imports)]
use crate::message::{dialog_index, CommandModel, DialogModel};
use crate::text::{parse_code_point, parse_port, to_digits};
#[allow(unused_imports)]
use crate::text::{
    code_point_of, digits_of, law_code_point_round_trip, number_value, port_of,
};

verus! {

/// The controller.
pub struct Data {
    pub config: MemConfig,
    /// Changes whenever the players have to be drawn anew.
    pub clients_version: usize,
    /// Changes whenever the actions have to be drawn anew.
    pub actions_version: usize,
    pub select_all: bool,
    pub client_addr_input: String,
    pub client_port_input: String,
    pub username_input: String,
    pub password_input: String,
    pub select_actions: bool,
    pub edit_actions: bool,
    pub current_dialog: Dialog,
    /// What was typed into the dialogs, one row for each that takes input.
    pub dialog_inputs: Vec<Vec<String>>,
}

/// What a `Data` stands for.
pub struct DataModel {
    pub config: ConfigModel,
    pub clients_version: usize,
    pub actions_version: usize,
    pub select_all: bool,
    pub client_addr_input: Seq<char>,
    pub client_port_input: Seq<char>,
    pub username_input: Seq<char>,
    pub password_input: Seq<char>,
    pub select_actions: bool,
    pub edit_actions: bool,
    pub current_dialog: DialogModel,
    pub dialog_inputs: Seq<Seq<Seq<char>>>,
}

/// The texts of rows of strings.
pub open spec fn rows(inputs: Seq<Vec<String>>) -> Seq<Seq<Seq<char>>> {
    inputs.map_values(|row: Vec<String>| texts(row@))
}

impl View for Data {
    type V = DataModel;

    open spec fn view(&self) -> DataModel {
        DataModel {
            config: self.config@,
            clients_version: self.clients_version,
            actions_version: self.actions_version,
            select_all: self.select_all,
            client_addr_input: self.client_addr_input@,
            client_port_input: self.client_port_input@,
            username_input: self.username_input@,
            password_input: self.password_input@,
            select_actions: self.select_actions,
            edit_actions: self.edit_actions,
            current_dialog: self.current_dialog@,
            dialog_inputs: rows(self.dialog_inputs@),
        }
    }
}

/// How many dialogs have a row of inputs.
pub const INPUT_ROWS: usize = 3;

/// How many inputs a row has.
pub const INPUT_COLUMNS: usize = 16;

/// The port that is filled in at first.
pub const DEFAULT_PORT_INPUT: &'static str = "22";

/// There are as many rows of inputs as dialogs that take some, each of the same width.
pub open spec fn grid_shape(inputs: Seq<Seq<Seq<char>>>) -> bool {
    &&& inputs.len() == INPUT_ROWS
    &&& forall|i: int| 0 <= i < inputs.len() ==> (#[trigger] inputs[i]).len() == INPUT_COLUMNS
}

/// What holds of a controller at all times: no two players share address and port, every action
/// has the arguments that its command calls for, the inputs keep their shape, and the port that
/// is filled in is one.
pub open spec fn valid(d: DataModel) -> bool {
    &&& distinct_keys(d.config.clients)
    &&& all_arguments_match(d.config.actions)
    &&& grid_shape(d.dialog_inputs)
    &&& port_of(d.client_port_input) is Some
}

impl Data {
    pub open spec fn wf(&self) -> bool {
        &&& self.config.wf()
        &&& valid(self@)
    }
}

/// An empty row of inputs.
pub open spec fn empty_row() -> Seq<Seq<char>> {
    Seq::new(INPUT_COLUMNS as nat, |i: int| Seq::<char>::empty())
}

/// A controller for a configuration before anything was asked of it.
pub open spec fn initial(config: ConfigModel) -> DataModel {
    DataModel {
        config,
        clients_version: 0,
        actions_version: 0,
        select_all: false,
        client_addr_input: Seq::empty(),
        client_port_input: DEFAULT_PORT_INPUT@,
        username_input: Seq::empty(),
        password_input: Seq::empty(),
        select_actions: false,
        edit_actions: false,
        current_dialog: DialogModel::Main,
        dialog_inputs: Seq::new(INPUT_ROWS as nat, |i: int| empty_row()),
    }
}

/// The next version; after the largest one they start over.
pub open spec fn bumped(version: usize) -> usize {
    if version == usize::MAX {
        0
    } else {
        (version + 1) as usize
    }
}

/// The current dialog has a row of inputs.
pub open spec fn has_row(d: DataModel) -> bool {
    dialog_index(d.current_dialog) < INPUT_ROWS
}

/// The inputs of the current dialog.
pub open spec fn row_of(d: DataModel) -> Seq<Seq<char>> {
    d.dialog_inputs[dialog_index(d.current_dialog)]
}

/// What a click on the action at `index` leads to.
pub open spec fn state_of(d: DataModel, execute: bool, index: int) -> ActionState {
    if d.select_actions {
        ActionState::Selection
    } else if d.edit_actions {
        ActionState::Edit
    } else if d.config.actions[index].arguments.len() > 0 && !execute {
        ActionState::NeedArguments
    } else {
        ActionState::Execute
    }
}

/// The command of an action with the inputs of the current dialog filled in.
pub open spec fn expanded(d: DataModel, index: int) -> Option<Seq<char>> {
    interpolated(
        d.config.actions[index].command,
        bindings(d.config.actions[index].arguments, row_of(d)),
    )
}

/// What is run when the action at `index` is executed.
pub open spec fn command_text(d: DataModel, index: int, decode: bool) -> Seq<char> {
    if decode {
        expanded(d, index).unwrap()
    } else {
        d.config.actions[index].command
    }
}

/// A message can be answered: it asks for no input of a dialog that has none, and for no command
/// that cannot be filled in.
pub open spec fn accepts(d: DataModel, message: Message) -> bool {
    match message {
        Message::DialogInput(column, _) => has_row(d) && column < INPUT_COLUMNS,
        Message::AddAction(_) => has_row(d),
        Message::Action(execute, index, decode) => {
            index < d.config.actions.len() && state_of(d, execute, index as int) is Execute ==> {
                &&& has_row(d)
                &&& decode ==> {
                    &&& well_closed(d.config.actions[index as int].command)
                    &&& expanded(d, index as int) is Some
                }
            }
        },
        _ => true,
    }
}

pub open spec fn with_clients(d: DataModel, clients: Seq<ClientModel>) -> DataModel {
    DataModel { config: ConfigModel { clients, ..d.config }, ..d }
}

pub open spec fn with_actions(d: DataModel, actions: Seq<ActionModel>) -> DataModel {
    DataModel { config: ConfigModel { actions, ..d.config }, ..d }
}

pub open spec fn clients_redrawn(d: DataModel) -> DataModel {
    DataModel { clients_version: bumped(d.clients_version), ..d }
}

pub open spec fn actions_redrawn(d: DataModel) -> DataModel {
    DataModel { actions_version: bumped(d.actions_version), ..d }
}

/// The player that the inputs describe.
pub open spec fn typed_client(d: DataModel) -> ClientModel {
    ClientModel {
        address: d.client_addr_input,
        port: match port_of(d.client_port_input) {
            Some(port) => port,
            None => DEFAULT_PORT,
        },
        user: d.username_input,
        pass: d.password_input,
        selected: false,
    }
}

/// The inputs describe a player that is not there yet.
pub open spec fn adds_client(d: DataModel) -> bool {
    &&& d.client_addr_input.len() > 0
    &&& d.username_input.len() > 0
    &&& !has_key(d.config.clients, key_of(typed_client(d)))
}

/// The action that the inputs of the current dialog describe: icon, description, command.
pub open spec fn typed_action(d: DataModel) -> ActionModel {
    new_action(row_of(d)[1], row_of(d)[2], code_point_of(row_of(d)[0]), false)
}

/// `actions` with `action` at `index`, or at the end where there is no such place.
pub open spec fn with_action(
    actions: Seq<ActionModel>,
    index: Option<usize>,
    action: ActionModel,
) -> Seq<ActionModel> {
    match index {
        Some(i) if i < actions.len() => actions.update(i as int, action),
        _ => actions.push(action),
    }
}

/// What is filled in for the icon of an action.
pub open spec fn logo_text(logo: Option<u32>) -> Seq<char> {
    match logo {
        Some(code) => digits_of(code as nat, 16),
        None => Seq::empty(),
    }
}

/// `row` with what describes `action` filled in.
pub open spec fn described(row: Seq<Seq<char>>, action: ActionModel) -> Seq<Seq<char>> {
    row.update(0, logo_text(action.logo)).update(1, action.description).update(2, action.command)
}

/// The controller after a click on the action at `index`.
pub open spec fn after_click(d: DataModel, execute: bool, index: int) -> DataModel {
    let action = d.config.actions[index];
    match state_of(d, execute, index) {
        ActionState::Edit => DataModel {
            current_dialog: DialogModel::AddAction(Some(index as usize)),
            dialog_inputs: d.dialog_inputs.update(1, described(d.dialog_inputs[1], action)),
            ..d
        },
        ActionState::Selection => with_actions(
            actions_redrawn(d),
            d.config.actions.update(index, ActionModel { selected: !action.selected, ..action }),
        ),
        ActionState::NeedArguments => DataModel {
            current_dialog: DialogModel::ArgumentsForAction(index as usize, action.arguments),
            ..d
        },
        ActionState::Execute => clients_redrawn(d),
    }
}

/// The controller after a message.
pub open spec fn state_after(d: DataModel, message: Message) -> DataModel {
    match message {
        Message::CopyToClipboard(_) => d,
        Message::RefreshAddr => clients_redrawn(d),
        Message::ShowDialog(dialog) => DataModel { current_dialog: dialog@, ..d },
        Message::DialogInput(column, input) => DataModel {
            dialog_inputs: d.dialog_inputs.update(
                dialog_index(d.current_dialog),
                row_of(d).update(column as int, input@),
            ),
            ..d
        },
        Message::Config(_) => d,
        Message::UpdateAddrSel(selected, index) => if index < d.config.clients.len() {
            with_clients(
                clients_redrawn(d),
                d.config.clients.update(
                    index as int,
                    with_selected(d.config.clients[index as int], selected),
                ),
            )
        } else {
            d
        },
        Message::DelectAction => if d.select_actions {
            with_actions(
                actions_redrawn(d),
                d.config.actions.filter(|a: ActionModel| !a.selected),
            )
        } else {
            actions_redrawn(d)
        },
        Message::AddAction(index) => with_actions(
            actions_redrawn(d),
            with_action(d.config.actions, index, typed_action(d)),
        ),
        Message::SelectAction => DataModel { select_actions: !d.select_actions, ..d },
        Message::EditAction => DataModel { edit_actions: !d.edit_actions, ..d },
        Message::AddrInput(addr) => DataModel { client_addr_input: addr@, ..d },
        Message::PortInput(port) => if port_of(port@) is Some {
            DataModel { client_port_input: port@, ..d }
        } else {
            d
        },
        Message::UsernameInput(user) => DataModel { username_input: user@, ..d },
        Message::PasswordInput(pass) => DataModel { password_input: pass@, ..d },
        Message::AddrAdd => if adds_client(d) {
            with_clients(d, d.config.clients.push(typed_client(d)))
        } else {
            d
        },
        Message::AddrDel(index) => with_clients(
            clients_redrawn(d),
            without_index(d.config.clients, index as int),
        ),
        Message::AddrDelAll => with_clients(clients_redrawn(d), Seq::empty()),
        Message::AddrDeselAll => with_clients(
            clients_redrawn(d),
            all_deselected(d.config.clients),
        ),
        Message::Action(execute, index, _) => if index < d.config.actions.len() {
            after_click(d, execute, index as int)
        } else {
            d
        },
        Message::Screenshot(_, _) => d,
        Message::Nothing => d,
    }
}

/// What is run on the players when the action at `index` is executed.
pub open spec fn run_of(d: DataModel, index: int, command: Seq<char>) -> CommandModel {
    CommandModel::Run {
        command,
        timeout: d.config.actions[index].timeout,
        need_reply: d.config.actions[index].need_reply,
        clients: targets_of(d.config.clients, d.select_all),
    }
}

/// What is to be done outside after a message.
pub open spec fn command_after(d: DataModel, message: Message) -> CommandModel {
    match message {
        Message::CopyToClipboard(text) => CommandModel::Clipboard(text@),
        Message::Config(action) => match action {
            ConfigAction::Save => CommandModel::SaveConfig,
            ConfigAction::Export => CommandModel::ExportConfig,
            ConfigAction::Open => CommandModel::OpenConfig,
            ConfigAction::Import => CommandModel::ImportConfig,
        },
        Message::AddrAdd => if adds_client(d) {
            CommandModel::Refresh
        } else {
            CommandModel::Nothing
        },
        Message::Action(execute, index, decode) => if index < d.config.actions.len() && state_of(
            d,
            execute,
            index as int,
        ) is Execute {
            run_of(d, index as int, command_text(d, index as int, decode))
        } else {
            CommandModel::Nothing
        },
        Message::Screenshot(index, buffer) => if index < d.config.clients.len() {
            CommandModel::Screenshot {
                index,
                client: d.config.clients[index as int],
                path: d.config.screenshot_path,
                buffer,
            }
        } else {
            CommandModel::Nothing
        },
        _ => CommandModel::Nothing,
    }
}

/// The port that is filled in at first is one.
proof fn lemma_default_port_input()
    ensures
        port_of(DEFAULT_PORT_INPUT@) == Some(DEFAULT_PORT),
{
    reveal_strlit("22");
    let s = DEFAULT_PORT_INPUT@;
    assert(s =~= seq!['2', '2']);
    assert(s.drop_last() =~= seq!['2']);
    assert(s.drop_last().drop_last() =~= Seq::<char>::empty());
    reveal_with_fuel(number_value, 3);
}

/// A row of empty inputs.
fn make_row() -> (row: Vec<String>)
    ensures
        texts(row@) == empty_row(),
{
    let mut row: Vec<String> = Vec::new();
    while row.len() < INPUT_COLUMNS
        invariant
            row.len() <= INPUT_COLUMNS,
            forall|i: int| 0 <= i < row.len() ==> (#[trigger] row@[i])@ == Seq::<char>::empty(),
        decreases INPUT_COLUMNS - row.len(),
    {
        row.push(String::new());
    }
    assert(texts(row@) =~= empty_row());
    row
}

/// Rows of empty inputs.
fn make_rows() -> (inputs: Vec<Vec<String>>)
    ensures
        rows(inputs@) == initial(empty_config()).dialog_inputs,
{
    let mut inputs: Vec<Vec<String>> = Vec::new();
    while inputs.len() < INPUT_ROWS
        invariant
            inputs.len() <= INPUT_ROWS,
            forall|i: int| 0 <= i < inputs.len() ==> texts((#[trigger] inputs@[i])@) == empty_row(),
        decreases INPUT_ROWS - inputs.len(),
    {
        inputs.push(make_row());
    }
    assert(rows(inputs@) =~= initial(empty_config()).dialog_inputs);
    inputs
}

impl Default for Data {
    fn default() -> (data: Self)
        ensures
            data.wf(),
            data@ == initial(empty_config()),
    {
        Data::with_config(MemConfig::default())
    }
}

impl Data {
    /// A controller for a configuration in use.
    fn with_config(config: MemConfig) -> (data: Self)
        requires
            config.wf(),
        ensures
            data.wf(),
            data@ == initial(config@),
    {
        proof {
            lemma_default_port_input();
            config.0.clients.lemma_distinct();
        }
        Data {
            config,
            clients_version: 0,
            actions_version: 0,
            select_all: false,
            client_addr_input: String::new(),
            client_port_input: DEFAULT_PORT_INPUT.to_owned(),
            username_input: String::new(),
            password_input: String::new(),
            select_actions: false,
            edit_actions: false,
            current_dialog: Dialog::Main,
            dialog_inputs: make_rows(),
        }
    }

    /// A controller for a configuration from disk.
    pub fn new(disk: DiskConfig) -> (data: Self)
        requires
            disk.wf(),
        ensures
            data.wf(),
            data@ == initial(with_all_arguments(disk@)),
    {
        Data::with_config(MemConfig::from(disk))
    }

    /// The controller for the configuration that was found; where none was, the question to ask
    /// before an empty one is used.
    pub fn start(loaded: Result<DiskConfig, ConfigError>) -> (started: Result<Self, String>)
        requires
            loaded matches Ok(disk) ==> disk.wf(),
        ensures
            match loaded {
                Ok(disk) => started matches Ok(data) && data.wf() && data@ == initial(
                    with_all_arguments(disk@),
                ),
                Err(e) => started matches Err(question) && question@ == e.message(),
            },
    {
        match loaded {
            Ok(disk) => Ok(Data::new(disk)),
            Err(e) => Err(e.text()),
        }
    }

    /// What the window is called.
    pub fn title(&self) -> (title: String)
        ensures
            title@ == "TV Player Control Contre"@,
    {
        "TV Player Control Contre".to_owned()
    }

    /// Takes over a configuration that was asked for; where it could not be had, nothing changes
    /// and what is to be said of it is returned.
    pub fn import(&mut self, loaded: Result<DiskConfig, ConfigError>) -> (problem: Option<String>)
        requires
            old(self).wf(),
            loaded matches Ok(disk) ==> disk.wf(),
        ensures
            final(self).wf(),
            match loaded {
                Ok(disk) => problem is None && final(self)@ == (DataModel {
                    config: with_all_arguments(disk@),
                    ..old(self)@
                }),
                Err(e) => {
                    &&& final(self)@ == old(self)@
                    &&& text_of(problem) == Some(e.message())
                },
            },
    {
        match loaded {
            Ok(disk) => {
                self.config = MemConfig::from(disk);
                proof {
                    self.config.0.clients.lemma_distinct();
                }
                None
            },
            Err(e) => Some(e.text()),
        }
    }

    /// Picks all players, or goes back to those that are picked one by one.
    pub fn set_select_all(&mut self, select_all: bool)
        requires
            old(self).wf(),
        ensures
            final(self).wf(),
            final(self)@ == (DataModel { select_all, ..clients_redrawn(old(self)@) }),
    {
        self.redraw_clients();
        self.select_all = select_all;
    }

    fn redraw_clients(&mut self)
        requires
            old(self).wf(),
        ensures
            final(self).wf(),
            final(self)@ == clients_redrawn(old(self)@),
    {
        self.clients_version = self.clients_version.wrapping_add(1);
    }

    fn redraw_actions(&mut self)
        requires
            old(self).wf(),
        ensures
            final(self).wf(),
            final(self)@ == actions_redrawn(old(self)@),
    {
        self.actions_version = self.actions_version.wrapping_add(1);
    }

    /// What a click on the action at `index` leads to.
    fn action_state(&self, execute: bool, index: usize) -> (state: ActionState)
        requires
            index < self@.config.actions.len(),
        ensures
            state == state_of(self@, execute, index as int),
    {
        if self.select_actions {
            ActionState::Selection
        } else if self.edit_actions {
            ActionState::Edit
        } else if name_count(&self.config.0.actions[index].arguments) > 0 && !execute {
            ActionState::NeedArguments
        } else {
            ActionState::Execute
        }
    }

    /// Adds the player that the inputs describe, unless it is there already or they leave out
    /// its address or its user.
    fn add_client(&mut self) -> (added: bool)
        requires
            old(self).wf(),
        ensures
            final(self).wf(),
            added == adds_client(old(self)@),
            final(self)@ == state_after(old(self)@, Message::AddrAdd),
    {
        if self.client_addr_input.as_str().is_empty() || self.username_input.as_str().is_empty() {
            return false;
        }
        let port: u16 = match parse_port(self.client_port_input.as_str()) {
            Some(port) => port,
            None => DEFAULT_PORT,
        };
        let client = Client {
            address: self.client_addr_input.clone(),
            port,
            user: self.username_input.clone(),
            pass: self.password_input.clone(),
            selected: false,
        };
        let added = self.config.0.clients.insert(client);
        proof {
            self.config.0.clients.lemma_distinct();
        }
        added
    }

    /// Takes the picked actions out while actions are being picked.
    fn delete_actions(&mut self)
        requires
            old(self).wf(),
        ensures
            final(self).wf(),
            final(self)@ == state_after(old(self)@, Message::DelectAction),
    {
        self.redraw_actions();
        if !self.select_actions {
            return ;
        }
        let ghost before = self@;
        let ghost all = self@.config.actions;
        let ghost kept = |a: ActionModel| !a.selected;
        let mut i: usize = 0;
        let ghost mut seen: int = 0;
        assert(all.take(0).filter(kept) =~= Seq::<ActionModel>::empty()) by {
            reveal(Seq::filter);
        }
        assert(all.skip(0) =~= all);
        while i < self.config.0.actions.len()
            invariant
                i <= self.config.0.actions.len(),
                0 <= seen <= all.len(),
                kept == (|a: ActionModel| !a.selected),
                i == all.take(seen).filter(kept).len(),
                self@ == with_actions(before, all.take(seen).filter(kept) + all.skip(seen)),
                self.config.0.clients.wf(),
            decreases self.config.0.actions.len() - i,
        {
            let ghost head = all.take(seen).filter(kept);
            let ghost current = self@.config.actions;
            assert(current == head + all.skip(seen));
            assert(seen < all.len());
            assert(current[i as int] == all[seen]);
            assert(all.take(seen + 1).drop_last() =~= all.take(seen));
            assert(all.take(seen + 1).last() == all[seen]);
            proof {
                reveal(Seq::filter);
            }
            if self.config.0.actions[i].selected {
                let _ = self.config.0.actions.remove(i);
                assert(self@.config.actions =~= current.remove(i as int));
                assert(current.remove(i as int) =~= head + all.skip(seen + 1));
                assert(all.take(seen + 1).filter(kept) == head);
            } else {
                assert(current =~= head.push(all[seen]) + all.skip(seen + 1));
                assert(all.take(seen + 1).filter(kept) == head.push(all[seen]));
                i += 1;
            }
            proof {
                seen = seen + 1;
            }
            assert(self@.config.actions =~= all.take(seen).filter(kept) + all.skip(seen));
        }
        assert(self@.config.actions.len() == i);
        assert(self@.config.actions == all.take(seen).filter(kept) + all.skip(seen));
        assert(all.skip(seen).len() == 0);
        assert(all.take(seen) =~= all);
        assert(self@.config.actions =~= all.filter(kept));
        proof {
            lemma_filter_keeps_matches(all, kept);
        }
    }

    /// Puts the action that the inputs of the current dialog describe in its place.
    fn add_action(&mut self, index: Option<usize>)
        requires
            old(self).wf(),
            has_row(old(self)@),
        ensures
            final(self).wf(),
            final(self)@ == state_after(old(self)@, Message::AddAction(index)),
    {
        let ghost before = self@;
        let row: usize = self.current_dialog.enum_index();
        let action = ActionDesc::new(
            self.dialog_inputs[row][1].clone(),
            self.dialog_inputs[row][2].clone(),
            parse_code_point(self.dialog_inputs[row][0].as_str()),
            atomicbool_default(),
        );
        assert(action@ == typed_action(before));
        match index {
            Some(i) if i < self.config.0.actions.len() => {
                self.config.0.actions.set(i, action);
            },
            _ => {
                self.config.0.actions.push(action);
            },
        }
        assert(self@.config.actions =~= with_action(before.config.actions, index, action@));
        self.redraw_actions();
    }

    /// Opens the dialog in which the action at `index` is edited.
    fn edit_action(&mut self, index: usize)
        requires
            old(self).wf(),
            index < old(self)@.config.actions.len(),
        ensures
            final(self).wf(),
            final(self)@ == (DataModel {
                current_dialog: DialogModel::AddAction(Some(index)),
                dialog_inputs: old(self)@.dialog_inputs.update(
                    1,
                    described(
                        old(self)@.dialog_inputs[1],
                        old(self)@.config.actions[index as int],
                    ),
                ),
                ..old(self)@
            }),
    {
        let ghost before = self@;
        let logo = match self.config.0.actions[index].logo {
            Some(code) => to_digits(code, 16),
            None => String::new(),
        };
        let description = self.config.0.actions[index].description.clone();
        let command = self.config.0.actions[index].command.clone();
        self.current_dialog = Dialog::AddAction(Some(index));
        self.set_input(1, 0, logo);
        self.set_input(1, 1, description);
        self.set_input(1, 2, command);
        assert(self@.dialog_inputs =~= before.dialog_inputs.update(
            1,
            described(before.dialog_inputs[1], before.config.actions[index as int]),
        ));
    }

    /// Changes one input.
    fn set_input(&mut self, row: usize, column: usize, input: String)
        requires
            old(self).wf(),
            row < INPUT_ROWS,
            column < INPUT_COLUMNS,
        ensures
            final(self).wf(),
            final(self)@ == (DataModel {
                dialog_inputs: old(self)@.dialog_inputs.update(
                    row as int,
                    old(self)@.dialog_inputs[row as int].update(column as int, input@),
                ),
                ..old(self)@
            }),
    {
        let ghost before = self@;
        self.dialog_inputs[row][column] = input;
        assert(self@.dialog_inputs[row as int] =~= before.dialog_inputs[row as int].update(
            column as int,
            input@,
        ));
        assert(self@.dialog_inputs =~= before.dialog_inputs.update(
            row as int,
            before.dialog_inputs[row as int].update(column as int, input@),
        ));
    }

    /// Sends a command to the players that the action at `index` runs on.
    pub fn run(&mut self, index: usize, command: String) -> (run: Command)
        requires
            old(self).wf(),
            index < old(self)@.config.actions.len(),
        ensures
            final(self).wf(),
            final(self)@ == clients_redrawn(old(self)@),
            run@ == run_of(old(self)@, index as int, command@),
    {
        self.redraw_clients();
        Command::Run {
            command,
            timeout: self.config.0.actions[index].timeout,
            need_reply: self.config.0.actions[index].need_reply,
            clients: self.config.0.clients.targets(self.select_all),
        }
    }
}

/// The text that is run where the placeholders of the action at `index` are plain names.
pub open spec fn plain_text(d: DataModel, index: int) -> Option<Seq<char>> {
    filled(
        d.config.actions[index].command,
        bindings(d.config.actions[index].arguments, row_of(d)),
    )
}

/// The placeholders of the action at `index` are plain names, no more than there are inputs.
pub open spec fn is_plain(d: DataModel, index: int) -> bool {
    &&& all_plain(d.config.actions[index].command)
    &&& d.config.actions[index].arguments.len() <= INPUT_COLUMNS
}

impl Data {
    /// The command of the action at `index` with the inputs of the current dialog filled in, where
    /// that can be done. It always can where the placeholders are plain names.
    pub fn expand_action(&self, index: usize) -> (text: Option<String>)
        requires
            self.wf(),
            has_row(self@),
            index < self@.config.actions.len(),
        ensures
            text is Some <==> well_closed(self@.config.actions[index as int].command) && expanded(
                self@,
                index as int,
            ) is Some,
            text is Some ==> text_of(text) == expanded(self@, index as int),
            is_plain(self@, index as int) ==> text is Some && text_of(text) == plain_text(
                self@,
                index as int,
            ),
    {
        let row: usize = self.current_dialog.enum_index();
        let ghost action = self@.config.actions[index as int];
        let ghost inputs = row_of(self@);
        proof {
            assert(arguments_match(action));
            assert(inputs == texts(self.dialog_inputs@[row as int]@));
            if is_plain(self@, index as int) {
                law_plain_commands_expand(action.command, inputs);
            }
        }
        if is_well_closed(self.config.0.actions[index].command.as_str()) {
            expand(
                self.config.0.actions[index].command.as_str(),
                &self.config.0.actions[index].arguments,
                &self.dialog_inputs[row],
            )
        } else {
            None
        }
    }

    /// Answers a click on the action at `index`.
    fn click(&mut self, execute: bool, index: usize, decode: bool) -> (command: Command)
        requires
            old(self).wf(),
            accepts(old(self)@, Message::Action(execute, index, decode)),
            index < old(self)@.config.actions.len(),
        ensures
            final(self).wf(),
            final(self)@ == state_after(old(self)@, Message::Action(execute, index, decode)),
            command@ == command_after(old(self)@, Message::Action(execute, index, decode)),
            decode && is_plain(old(self)@, index as int) && state_of(
                old(self)@,
                execute,
                index as int,
            ) is Execute ==> command@ == run_of(
                old(self)@,
                index as int,
                plain_text(old(self)@, index as int).unwrap(),
            ),
    {
        let ghost before = self@;
        match self.action_state(execute, index) {
            ActionState::Edit => {
                self.edit_action(index);
                Command::Nothing
            },
            ActionState::Selection => {
                self.redraw_actions();
                let selected = self.config.0.actions[index].selected;
                self.config.0.actions[index].selected = !selected;
                assert(self@.config.actions =~= before.config.actions.update(
                    index as int,
                    ActionModel { selected: !selected, ..before.config.actions[index as int] },
                ));
                Command::Nothing
            },
            ActionState::NeedArguments => {
                self.current_dialog = Dialog::ArgumentsForAction(
                    index,
                    share(&self.config.0.actions[index].arguments),
                );
                Command::Nothing
            },
            ActionState::Execute => {
                let command = if decode {
                    self.expand_action(index).unwrap()
                } else {
                    self.config.0.actions[index].command.clone()
                };
                self.run(index, command)
            },
        }
    }

    /// Answers a message: changes what the controller holds and says what is to be done outside.
    pub fn update(&mut self, message: Message) -> (command: Command)
        requires
            old(self).wf(),
            accepts(old(self)@, message),
        ensures
            final(self).wf(),
            final(self)@ == state_after(old(self)@, message),
            command@ == command_after(old(self)@, message),
            message matches Message::Action(execute, index, true) ==> index
                < old(self)@.config.actions.len() && is_plain(old(self)@, index as int) && state_of(
                old(self)@,
                execute,
                index as int,
            ) is Execute ==> command@ == run_of(
                old(self)@,
                index as int,
                plain_text(old(self)@, index as int).unwrap(),
            ),
    {
        match message {
            Message::CopyToClipboard(text) => {
                return Command::Clipboard(text);
            },
            Message::RefreshAddr => {
                self.redraw_clients();
            },
            Message::ShowDialog(dialog) => {
                self.current_dialog = dialog;
            },
            Message::DialogInput(column, input) => {
                let row: usize = self.current_dialog.enum_index();
                self.set_input(row, column, input);
            },
            Message::Config(action) => {
                return match action {
                    ConfigAction::Save => Command::SaveConfig,
                    ConfigAction::Export => Command::ExportConfig,
                    ConfigAction::Open => Command::OpenConfig,
                    ConfigAction::Import => Command::ImportConfig,
                };
            },
            Message::UpdateAddrSel(selected, index) => {
                if index < self.config.0.clients.len() {
                    self.redraw_clients();
                    self.config.0.clients.set_selected(index, selected);
                    proof {
                        self.config.0.clients.lemma_distinct();
                    }
                }
            },
            Message::DelectAction => {
                self.delete_actions();
            },
            Message::AddAction(index) => {
                self.add_action(index);
            },
            Message::SelectAction => {
                self.select_actions = !self.select_actions;
            },
            Message::EditAction => {
                self.edit_actions = !self.edit_actions;
            },
            Message::AddrInput(addr) => {
                self.client_addr_input = addr;
            },
            Message::PortInput(port) => {
                if parse_port(port.as_str()).is_some() {
                    self.client_port_input = port;
                }
            },
            Message::UsernameInput(user) => {
                self.username_input = user;
            },
            Message::PasswordInput(pass) => {
                self.password_input = pass;
            },
            Message::AddrAdd => {
                if self.add_client() {
                    return Command::Refresh;
                }
            },
            Message::AddrDel(index) => {
                self.redraw_clients();
                let _ = self.config.0.clients.swap_remove_index(index);
                proof {
                    self.config.0.clients.lemma_distinct();
                }
            },
            Message::AddrDelAll => {
                self.redraw_clients();
                self.config.0.clients.clear();
            },
            Message::AddrDeselAll => {
                self.redraw_clients();
                self.config.0.clients.deselect_all();
                proof {
                    self.config.0.clients.lemma_distinct();
                }
            },
            Message::Action(execute, index, decode) => {
                if index < self.config.0.actions.len() {
                    return self.click(execute, index, decode);
                }
            },
            Message::Screenshot(index, buffer) => {
                match self.config.0.clients.get_index(index) {
                    Some(client) => {
                        return Command::Screenshot {
                            index,
                            client: client.clone(),
                            path: self.config.0.screenshot_path.clone(),
                            buffer,
                        };
                    },
                    None => {},
                }
            },
            Message::Nothing => {},
        }
        Command::Nothing
    }

    /// Tells whether a message can be answered.
    pub fn can_answer(&self, message: &Message) -> (can: bool)
        requires
            self.wf(),
        ensures
            can == accepts(self@, *message),
            message matches Message::Action(_, index, _) ==> has_row(self@) && (index
                < self@.config.actions.len() ==> is_plain(self@, *index as int)) ==> can,
    {
        match message {
            Message::DialogInput(column, _) => self.current_dialog.enum_index() < INPUT_ROWS
                && *column < INPUT_COLUMNS,
            Message::AddAction(_) => self.current_dialog.enum_index() < INPUT_ROWS,
            Message::Action(execute, index, decode) => {
                if *index >= self.config.0.actions.len() {
                    return true;
                }
                match self.action_state(*execute, *index) {
                    ActionState::Execute => {
                        if self.current_dialog.enum_index() >= INPUT_ROWS {
                            false
                        } else if *decode {
                            self.expand_action(*index).is_some()
                        } else {
                            true
                        }
                    },
                    _ => true,
                }
            },
            _ => true,
        }
    }

    /// Answers a message where that can be done; where it cannot, nothing changes.
    pub fn checked_update(&mut self, message: Message) -> (command: Option<Command>)
        requires
            old(self).wf(),
        ensures
            final(self).wf(),
            command is Some <==> accepts(old(self)@, message),
            command matches Some(c) ==> {
                &&& final(self)@ == state_after(old(self)@, message)
                &&& c@ == command_after(old(self)@, message)
            },
            command is None ==> final(self)@ == old(self)@,
            message matches Message::Action(execute, index, true) ==> index
                < old(self)@.config.actions.len() && is_plain(old(self)@, index as int) && has_row(
                old(self)@,
            ) && state_of(old(self)@, execute, index as int) is Execute ==> {
                &&& command matches Some(c)
                &&& c@ == run_of(
                    old(self)@,
                    index as int,
                    plain_text(old(self)@, index as int).unwrap(),
                )
            },
    {
        if self.can_answer(&message) {
            Some(self.update(message))
        } else {
            None
        }
    }
}

/// Taking actions out leaves the arguments of the others as they are.
proof fn lemma_filter_keeps_matches(actions: Seq<ActionModel>, kept: spec_fn(ActionModel) -> bool)
    requires
        all_arguments_match(actions),
    ensures
        all_arguments_match(actions.filter(kept)),
    decreases actions.len(),
{
    reveal(Seq::filter);
    if actions.len() > 0 {
        lemma_filter_keeps_matches(actions.drop_last(), kept);
        assert(arguments_match(actions[actions.len() - 1]));
    }
}

/// Whatever is asked of a controller, what holds of it at all times still holds afterwards.
pub proof fn law_validity_is_kept(d: DataModel, message: Message)
    requires
        valid(d),
        accepts(d, message),
    ensures
        valid(state_after(d, message)),
{
    let after = state_after(d, message);
    match message {
        Message::DelectAction => {
            lemma_filter_keeps_matches(d.config.actions, |a: ActionModel| !a.selected);
        },
        Message::AddrAdd => {
            if adds_client(d) {
                let clients = after.config.clients;
                assert forall|i: int, j: int| 0 <= i < j < clients.len() implies key_of(
                    #[trigger] clients[i],
                ) != key_of(#[trigger] clients[j]) by {
                    if j == d.config.clients.len() {
                        assert(key_of(d.config.clients[i]) != key_of(typed_client(d)));
                    } else {
                        assert(key_of(d.config.clients[i]) != key_of(d.config.clients[j]));
                    }
                }
            }
        },
        Message::AddrDel(index) => {
            if index < d.config.clients.len() {
                let clients = after.config.clients;
                let last = d.config.clients.len() - 1;
                assert forall|i: int, j: int| 0 <= i < j < clients.len() implies key_of(
                    #[trigger] clients[i],
                ) != key_of(#[trigger] clients[j]) by {
                    let a = if i == index {
                        last
                    } else {
                        i
                    };
                    let b = if j == index {
                        last
                    } else {
                        j
                    };
                    assert(clients[i] == d.config.clients[a]);
                    assert(clients[j] == d.config.clients[b]);
                    if a < b {
                        assert(key_of(d.config.clients[a]) != key_of(d.config.clients[b]));
                    } else {
                        assert(key_of(d.config.clients[b]) != key_of(d.config.clients[a]));
                    }
                }
            }
        },
        Message::AddrDeselAll => {
            let clients = after.config.clients;
            assert forall|i: int, j: int| 0 <= i < j < clients.len() implies key_of(
                #[trigger] clients[i],
            ) != key_of(#[trigger] clients[j]) by {
                assert(key_of(d.config.clients[i]) != key_of(d.config.clients[j]));
            }
        },
        Message::UpdateAddrSel(_, index) => {
            let clients = after.config.clients;
            assert forall|i: int, j: int| 0 <= i < j < clients.len() implies key_of(
                #[trigger] clients[i],
            ) != key_of(#[trigger] clients[j]) by {
                assert(key_of(d.config.clients[i]) != key_of(d.config.clients[j]));
            }
        },
        Message::Action(execute, index, _) => {
            if index < d.config.actions.len() {
                assert(arguments_match(d.config.actions[index as int]));
            }
        },
        _ => {},
    }
}

/// Picking actions, and editing them, is switched off again by what switched it on.
pub proof fn law_switches_cancel_out(d: DataModel)
    ensures
        state_after(state_after(d, Message::SelectAction), Message::SelectAction) == d,
        state_after(state_after(d, Message::EditAction), Message::EditAction) == d,
{
}

/// A player that is added a second time is not taken in, and nothing is drawn anew.
pub proof fn law_no_player_is_added_twice(d: DataModel)
    ensures
        state_after(state_after(d, Message::AddrAdd), Message::AddrAdd) == state_after(
            d,
            Message::AddrAdd,
        ),
        command_after(state_after(d, Message::AddrAdd), Message::AddrAdd) is Nothing,
{
    let after = state_after(d, Message::AddrAdd);
    if adds_client(d) {
        let clients = after.config.clients;
        assert(clients[clients.len() - 1] == typed_client(d));
        assert(typed_client(after) == typed_client(d));
        assert(has_key(clients, key_of(typed_client(after))));
    }
}

/// While actions are picked, a second click on one undoes the first, but that the actions are
/// drawn anew.
pub proof fn law_second_click_undoes_the_first(
    d: DataModel,
    execute: bool,
    index: usize,
    decode: bool,
)
    requires
        d.select_actions,
        index < d.config.actions.len(),
    ensures
        state_after(
            state_after(d, Message::Action(execute, index, decode)),
            Message::Action(execute, index, decode),
        ) == actions_redrawn(actions_redrawn(d)),
{
    let message = Message::Action(execute, index, decode);
    let twice = state_after(state_after(d, message), message);
    assert(twice.config.actions =~= d.config.actions);
}

/// An action that is opened for editing and then added as it stands keeps its description, its
/// command, its arguments and its icon; it has the usual time and is not picked.
pub proof fn law_editing_without_changes(d: DataModel, execute: bool, index: usize, decode: bool)
    requires
        valid(d),
        d.edit_actions,
        !d.select_actions,
        index < d.config.actions.len(),
    ensures
        ({
            let opened = state_after(d, Message::Action(execute, index, decode));
            let action = d.config.actions[index as int];
            &&& accepts(opened, Message::AddAction(Some(index)))
            &&& state_after(opened, Message::AddAction(Some(index))).config.actions
                == d.config.actions.update(
                index as int,
                new_action(action.description, action.command, action.logo, false),
            )
            &&& new_action(action.description, action.command, action.logo, false).arguments
                == action.arguments
        }),
{
    let opened = state_after(d, Message::Action(execute, index, decode));
    let action = d.config.actions[index as int];
    assert(arguments_match(action));
    let row = row_of(opened);
    assert(row == described(d.dialog_inputs[1], action));
    assert(d.dialog_inputs[1].len() == INPUT_COLUMNS);
    assert(row[1] == action.description);
    assert(row[2] == action.command);
    assert(row[0] == logo_text(action.logo));
    match action.logo {
        Some(code) => {
            law_code_point_round_trip(code);
        },
        None => {
            assert(code_point_of(Seq::<char>::empty()) is None);
        },
    }
}

/// While actions are picked, away with those that are leaves exactly the others.
pub proof fn law_only_picked_actions_are_deleted(d: DataModel, index: int)
    requires
        0 <= index < d.config.actions.len(),
    ensures
        !d.select_actions ==> state_after(d, Message::DelectAction).config == d.config,
        d.select_actions ==> (state_after(d, Message::DelectAction).config.actions.contains(
            d.config.actions[index],
        ) <==> !d.config.actions[index].selected),
        state_after(d, Message::DelectAction).config.clients == d.config.clients,
{
    let kept = |a: ActionModel| !a.selected;
    let actions = d.config.actions;
    if d.select_actions {
        if kept(actions[index]) {
            lemma_filter_keeps(actions, kept, index);
        }
        if actions.filter(kept).contains(actions[index]) {
            let i = choose|i: int|
                0 <= i < actions.filter(kept).len() && actions.filter(kept)[i] == actions[index];
            lemma_filtered_are_chosen(actions, kept, i);
        }
    }
}

/// Where an action with plain placeholders asks for its arguments, what is typed for one of them
/// is what stands in its place when the action is run.
pub proof fn law_typed_arguments_are_filled_in(
    d: DataModel,
    index: usize,
    column: usize,
    input: String,
)
    requires
        valid(d),
        index < d.config.actions.len(),
        state_of(d, false, index as int) is NeedArguments,
        is_plain(d, index as int),
        column < d.config.actions[index as int].arguments.len(),
    ensures
        ({
            let opened = state_after(d, Message::Action(false, index, false));
            let typed = state_after(opened, Message::DialogInput(column, input));
            let action = d.config.actions[index as int];
            &&& accepts(opened, Message::DialogInput(column, input))
            &&& has_row(typed)
            &&& is_plain(typed, index as int)
            &&& state_of(typed, true, index as int) is Execute
            &&& plain_text(typed, index as int) is Some
            &&& bindings(action.arguments, row_of(typed))[action.arguments[column as int]]
                == input@
        }),
{
    let opened = state_after(d, Message::Action(false, index, false));
    let typed = state_after(opened, Message::DialogInput(column, input));
    let action = d.config.actions[index as int];
    assert(arguments_match(action));
    assert(d.dialog_inputs[2].len() == INPUT_COLUMNS);
    law_plain_commands_expand(action.command, row_of(typed));
}

/// Running an action changes nothing that is kept, and asks for nothing but the run.
pub proof fn law_running_keeps_everything(
    d: DataModel,
    execute: bool,
    index: usize,
    decode: bool,
)
    requires
        index < d.config.actions.len(),
        state_of(d, execute, index as int) is Execute,
    ensures
        state_after(d, Message::Action(execute, index, decode)) == clients_redrawn(d),
        command_after(d, Message::Action(execute, index, decode)) is Run,
{
}

/// The players change by no other message than those that add, delete or pick players.
pub proof fn law_players_change_only_when_asked(d: DataModel, message: Message)
    ensures
        match message {
            Message::AddrAdd | Message::AddrDel(_) | Message::AddrDelAll | Message::AddrDeselAll
            | Message::UpdateAddrSel(_, _) => true,
            _ => state_after(d, message).config.clients == d.config.clients,
        },
{
}

/// What is said of a controller is said of each of its fields, and of the inputs of each of them.
pub proof fn law_a_controller_is_all_its_fields(data: Data, i: int, j: int)
    ensures
        data@.config == data.config@,
        data@.clients_version == data.clients_version,
        data@.actions_version == data.actions_version,
        data@.select_all == data.select_all,
        data@.client_addr_input == data.client_addr_input@,
        data@.client_port_input == data.client_port_input@,
        data@.username_input == data.username_input@,
        data@.password_input == data.password_input@,
        data@.select_actions == data.select_actions,
        data@.edit_actions == data.edit_actions,
        data@.current_dialog == data.current_dialog@,
        data@.dialog_inputs.len() == data.dialog_inputs@.len(),
        0 <= i < data.dialog_inputs@.len() ==> data@.dialog_inputs[i].len()
            == data.dialog_inputs@[i]@.len(),
        0 <= i < data.dialog_inputs@.len() && 0 <= j < data.dialog_inputs@[i]@.len()
            ==> data@.dialog_inputs[i][j] == data.dialog_inputs@[i]@[j]@,
{
}

} // verus!
