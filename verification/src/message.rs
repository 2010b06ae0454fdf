//! What the user can ask for, and what is to be done about it outside the controller.

use vstd::prelude::*;

use crate::arguments::ArgumentsMap;
#[allow(unused_imports)]
use crate::arguments::argument_names;
use crate::client::Client;
#[allow(unused_imports)]
use crate::client::{models, ClientModel};

verus! {

/// What can be done with the configuration.
#[derive(Debug, Clone)]
pub enum ConfigAction {
    Save,
    Export,
    Import,
    Open,
}

/// What the user can ask for.
#[derive(Debug, Clone)]
pub enum Message {
    ShowDialog(Dialog),
    DialogInput(usize, String),
    AddrInput(String),
    PortInput(String),
    UsernameInput(String),
    PasswordInput(String),
    AddAction(Option<usize>),
    AddrAdd,
    AddrDel(usize),
    AddrDelAll,
    AddrDeselAll,
    UpdateAddrSel(bool, usize),
    /// Whether the arguments are given, which action, and whether they are to be filled in.
    Action(bool, usize, bool),
    SelectAction,
    EditAction,
    DelectAction,
    Config(ConfigAction),
    /// Which player, and whether a picture that was fetched before will do.
    Screenshot(usize, bool),
    RefreshAddr,
    CopyToClipboard(String),
    Nothing,
}

/// What is shown on top of the main page.
#[derive(Debug, Clone)]
pub enum Dialog {
    Main,
    AddAction(Option<usize>),
    ArgumentsForAction(usize, ArgumentsMap),
    Logs(usize, bool),
    Screenshot(usize),
}

/// What a `Dialog` stands for.
pub enum DialogModel {
    Main,
    AddAction(Option<usize>),
    ArgumentsForAction(usize, Seq<Seq<char>>),
    Logs(usize, bool),
    Screenshot(usize),
}

impl View for Dialog {
    type V = DialogModel;

    open spec fn view(&self) -> DialogModel {
        match self {
            Dialog::Main => DialogModel::Main,
            Dialog::AddAction(index) => DialogModel::AddAction(*index),
            Dialog::ArgumentsForAction(index, arguments) => DialogModel::ArgumentsForAction(
                *index,
                argument_names(arguments),
            ),
            Dialog::Logs(index, show_error) => DialogModel::Logs(*index, *show_error),
            Dialog::Screenshot(index) => DialogModel::Screenshot(*index),
        }
    }
}

/// The place of a dialog among the dialogs.
pub open spec fn dialog_index(dialog: DialogModel) -> int {
    match dialog {
        DialogModel::Main => 0,
        DialogModel::AddAction(_) => 1,
        DialogModel::ArgumentsForAction(_, _) => 2,
        DialogModel::Logs(_, _) => 3,
        DialogModel::Screenshot(_) => 4,
    }
}

impl Dialog {
    /// The place of this dialog among the dialogs.
    pub fn enum_index(&self) -> (index: usize)
        ensures
            index == dialog_index(self@),
    {
        match self {
            Dialog::Main => 0,
            Dialog::AddAction(_) => 1,
            Dialog::ArgumentsForAction(_, _) => 2,
            Dialog::Logs(_, _) => 3,
            Dialog::Screenshot(_) => 4,
        }
    }
}

/// What is to be done outside the controller.
pub enum Command {
    Nothing,
    /// Put a text into the clipboard.
    Clipboard(String),
    /// Draw the players anew.
    Refresh,
    /// Write the configuration to its usual place.
    SaveConfig,
    /// Ask for a file and write the configuration there.
    ExportConfig,
    /// Ask for a file and take the configuration from there.
    ImportConfig,
    /// Show where the configuration is kept.
    OpenConfig,
    /// Run a command on some players, each for so many seconds at most.
    Run { command: String, timeout: u64, need_reply: bool, clients: Vec<Client> },
    /// Fetch the screenshot of a player from a path there.
    Screenshot { index: usize, client: Client, path: String, buffer: bool },
}

/// What a `Command` stands for.
pub enum CommandModel {
    Nothing,
    Clipboard(Seq<char>),
    Refresh,
    SaveConfig,
    ExportConfig,
    ImportConfig,
    OpenConfig,
    Run { command: Seq<char>, timeout: u64, need_reply: bool, clients: Seq<ClientModel> },
    Screenshot { index: usize, client: ClientModel, path: Seq<char>, buffer: bool },
}

impl View for Command {
    type V = CommandModel;

    open spec fn view(&self) -> CommandModel {
        match self {
            Command::Nothing => CommandModel::Nothing,
            Command::Clipboard(text) => CommandModel::Clipboard(text@),
            Command::Refresh => CommandModel::Refresh,
            Command::SaveConfig => CommandModel::SaveConfig,
            Command::ExportConfig => CommandModel::ExportConfig,
            Command::ImportConfig => CommandModel::ImportConfig,
            Command::OpenConfig => CommandModel::OpenConfig,
            Command::Run { command, timeout, need_reply, clients } => CommandModel::Run {
                command: command@,
                timeout: *timeout,
                need_reply: *need_reply,
                clients: models(clients@),
            },
            Command::Screenshot { index, client, path, buffer } => CommandModel::Screenshot {
                index: *index,
                client: client@,
                path: path@,
                buffer: *buffer,
            },
        }
    }
}

impl Command {
    /// The message that follows when the command is done, for each player where there are
    /// several.
    pub fn follow_up(&self) -> (message: Option<Message>)
        ensures
            match self {
                Command::Refresh | Command::Run { .. } => message matches Some(m)
                    && m is RefreshAddr,
                Command::Screenshot { index, .. } => message matches Some(Message::ShowDialog(d))
                    && d@ == DialogModel::Screenshot(*index),
                _ => message is None,
            },
    {
        match self {
            Command::Refresh | Command::Run { .. } => Some(Message::RefreshAddr),
            Command::Screenshot { index, .. } => Some(
                Message::ShowDialog(Dialog::Screenshot(*index)),
            ),
            _ => None,
        }
    }
}

/// The keys that are listened to.
#[derive(Debug, Clone, Copy, PartialEq, Eq, Structural)]
pub enum KeyCode {
    Tab,
    S,
    Other,
}

/// What a key asks for: the tab key, and `S` together with the control key alone, save the
/// configuration.
pub fn shortcut(key: KeyCode, control_alone: bool) -> (message: Option<Message>)
    ensures
        message is Some <==> (key == KeyCode::Tab || (key == KeyCode::S && control_alone)),
        message matches Some(m) ==> m matches Message::Config(action) && action is Save,
{
    match key {
        KeyCode::Tab => Some(Message::Config(ConfigAction::Save)),
        KeyCode::S => if control_alone {
            Some(Message::Config(ConfigAction::Save))
        } else {
            None
        },
        KeyCode::Other => None,
    }
}

/// What is to be done outside is what the command names, for the players that it names.
pub proof fn law_a_command_is_all_its_fields(
    text: String,
    timeout: u64,
    need_reply: bool,
    clients: Vec<Client>,
    index: usize,
    client: Client,
    buffer: bool,
)
    ensures
        Command::Clipboard(text)@ == CommandModel::Clipboard(text@),
        (Command::Run { command: text, timeout, need_reply, clients })@ == (CommandModel::Run {
            command: text@,
            timeout,
            need_reply,
            clients: clients@.map_values(|c: Client| c@),
        }),
        (Command::Screenshot { index, client, path: text, buffer })@ == (CommandModel::Screenshot {
            index,
            client: client@,
            path: text@,
            buffer,
        }),
        Command::Nothing@ is Nothing,
        Command::Refresh@ is Refresh,
        Command::SaveConfig@ is SaveConfig,
        Command::ExportConfig@ is ExportConfig,
        Command::ImportConfig@ is ImportConfig,
        Command::OpenConfig@ is OpenConfig,
{
    assert(models(clients@) =~= clients@.map_values(|c: Client| c@));
}

/// A dialog is about the player or the action that it names, and asks for the arguments that it
/// holds.
pub proof fn law_a_dialog_is_all_its_fields(
    index: usize,
    place: Option<usize>,
    arguments: ArgumentsMap,
    show_error: bool,
)
    ensures
        Dialog::Main@ is Main,
        Dialog::AddAction(place)@ == DialogModel::AddAction(place),
        Dialog::ArgumentsForAction(index, arguments)@ == DialogModel::ArgumentsForAction(
            index,
            argument_names(&arguments),
        ),
        Dialog::Logs(index, show_error)@ == DialogModel::Logs(index, show_error),
        Dialog::Screenshot(index)@ == DialogModel::Screenshot(index),
        dialog_index(Dialog::Main@) == 0,
        dialog_index(Dialog::AddAction(place)@) == 1,
        dialog_index(Dialog::ArgumentsForAction(index, arguments)@) == 2,
        dialog_index(Dialog::Logs(index, show_error)@) == 3,
        dialog_index(Dialog::Screenshot(index)@) == 4,
{
}

} // verus!
