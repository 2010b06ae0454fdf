//! What is kept on disk: the players, the actions and where a player puts its screenshots.

use vstd::prelude::*;

use crate::action::ActionDesc;
#[allow(unused_imports)]
use crate::action::{action_models, arguments_match, with_arguments, ActionModel};
#[allow(unused_imports)]
use crate::arguments::arguments_of;
use crate::client::{Client, ClientSet};
#[allow(unused_imports)]
use crate::client::{
    all_deselected, distinct_keys, first_by_key, key_of, law_distinct_clients_are_all_kept, models,
    with_selected, ClientModel,
};

verus! {

/// What is kept on disk.
pub struct Config {
    pub clients: ClientSet,
    pub actions: Vec<ActionDesc>,
    pub screenshot_path: String,
}

/// What a `Config` stands for.
pub struct ConfigModel {
    pub clients: Seq<ClientModel>,
    pub actions: Seq<ActionModel>,
    pub screenshot_path: Seq<char>,
}

impl View for Config {
    type V = ConfigModel;

    open spec fn view(&self) -> ConfigModel {
        ConfigModel {
            clients: self.clients@,
            actions: action_models(self.actions@),
            screenshot_path: self.screenshot_path@,
        }
    }
}

/// Where a player puts its screenshots unless the configuration says otherwise.
pub const DEFAULT_SCREENSHOT_PATH: &'static str = "/tmp/screenshot.png";

/// A configuration without players and actions.
pub open spec fn empty_config() -> ConfigModel {
    ConfigModel {
        clients: Seq::empty(),
        actions: Seq::empty(),
        screenshot_path: DEFAULT_SCREENSHOT_PATH@,
    }
}

/// `config` with the arguments of every action taken from its command.
pub open spec fn with_all_arguments(config: ConfigModel) -> ConfigModel {
    ConfigModel {
        actions: config.actions.map_values(|a: ActionModel| with_arguments(a)),
        ..config
    }
}

/// The arguments of every action are those that its command calls for.
pub open spec fn all_arguments_match(actions: Seq<ActionModel>) -> bool {
    forall|i: int| 0 <= i < actions.len() ==> arguments_match(#[trigger] actions[i])
}

impl Default for Config {
    fn default() -> (config: Self)
        ensures
            config@ == empty_config(),
            config.clients.wf(),
    {
        let config = Config {
            clients: ClientSet::new(),
            actions: Vec::new(),
            screenshot_path: DEFAULT_SCREENSHOT_PATH.to_owned(),
        };
        assert(action_models(config.actions@) =~= Seq::<ActionModel>::empty());
        config
    }
}

/// A configuration put together from its parts; of players with one address and port the first
/// stays.
pub open spec fn put_together(
    clients: Seq<ClientModel>,
    actions: Seq<ActionModel>,
    screenshot_path: Seq<char>,
) -> ConfigModel {
    ConfigModel { clients: first_by_key(clients), actions, screenshot_path }
}

impl Config {
    /// Puts a configuration together; of players with one address and port the first stays.
    pub fn from_parts(
        clients: Vec<Client>,
        actions: Vec<ActionDesc>,
        screenshot_path: String,
    ) -> (config: Self)
        ensures
            config.clients.wf(),
            config@ == put_together(
                models(clients@),
                action_models(actions@),
                screenshot_path@,
            ),
    {
        Config { clients: ClientSet::from_clients(clients), actions, screenshot_path }
    }
}

/// What a configuration file holds of an action.
pub open spec fn stored_action(action: ActionModel) -> ActionModel {
    ActionModel { arguments: Seq::empty(), selected: false, ..action }
}

/// What a configuration file holds of some actions.
pub open spec fn stored_actions(actions: Seq<ActionModel>) -> Seq<ActionModel> {
    actions.map_values(|a: ActionModel| stored_action(a))
}

impl Config {
    /// Takes a configuration apart into what is written to its file: the players and the actions,
    /// none of them picked, the actions without their arguments, and the path of the screenshots.
    pub fn parts(&self) -> (parts: (Vec<Client>, Vec<ActionDesc>, String))
        ensures
            models(parts.0@) == all_deselected(self@.clients),
            action_models(parts.1@) == stored_actions(self@.actions),
            parts.2@ == self@.screenshot_path,
    {
        let mut clients: Vec<Client> = Vec::new();
        let count: usize = self.clients.len();
        let mut i: usize = 0;
        while i < count
            invariant
                i <= count,
                count == self@.clients.len(),
                clients.len() == i,
                forall|j: int|
                    0 <= j < i ==> (#[trigger] clients@[j])@ == with_selected(
                        self@.clients[j],
                        false,
                    ),
            decreases count - i,
        {
            match self.clients.get_index(i) {
                Some(client) => {
                    let mut stored = client.clone();
                    stored.selected = false;
                    clients.push(stored);
                },
                None => {
                    assert(false);
                },
            }
            i += 1;
        }
        assert(models(clients@) =~= all_deselected(self@.clients));
        let mut actions: Vec<ActionDesc> = Vec::new();
        let mut k: usize = 0;
        while k < self.actions.len()
            invariant
                k <= self.actions.len(),
                actions.len() == k,
                forall|j: int|
                    0 <= j < k ==> (#[trigger] actions@[j])@ == stored_action(self@.actions[j]),
            decreases self.actions.len() - k,
        {
            let action = &self.actions[k];
            actions.push(
                ActionDesc::stored(
                    action.description.clone(),
                    action.command.clone(),
                    action.timeout,
                    action.logo,
                    action.need_reply,
                ),
            );
            k += 1;
        }
        assert(action_models(actions@) =~= stored_actions(self@.actions));
        (clients, actions, self.screenshot_path.clone())
    }
}

/// A configuration as it stands on disk: its actions have no arguments yet.
pub struct DiskConfig(pub Config);

/// A configuration in use: its actions have the arguments that their commands call for.
pub struct MemConfig(pub Config);

impl View for DiskConfig {
    type V = ConfigModel;

    open spec fn view(&self) -> ConfigModel {
        self.0@
    }
}

impl View for MemConfig {
    type V = ConfigModel;

    open spec fn view(&self) -> ConfigModel {
        self.0@
    }
}

impl DiskConfig {
    pub open spec fn wf(&self) -> bool {
        self.0.clients.wf()
    }
}

impl MemConfig {
    pub open spec fn wf(&self) -> bool {
        self.0.clients.wf() && all_arguments_match(self@.actions)
    }
}

impl Default for DiskConfig {
    fn default() -> (config: Self)
        ensures
            config@ == empty_config(),
            config.wf(),
    {
        DiskConfig(Config::default())
    }
}

impl Default for MemConfig {
    fn default() -> (config: Self)
        ensures
            config@ == empty_config(),
            config.wf(),
    {
        MemConfig(Config::default())
    }
}

impl vstd::std_specs::convert::FromSpecImpl<DiskConfig> for MemConfig {
    open spec fn obeys_from_spec() -> bool {
        false
    }

    open spec fn from_spec(data: DiskConfig) -> Self {
        arbitrary()
    }
}

impl From<DiskConfig> for MemConfig {
    /// Gives every action the arguments that its command calls for.
    fn from(data: DiskConfig) -> (config: Self)
        ensures
            config@ == with_all_arguments(data@),
            data.wf() ==> config.wf(),
    {
        let mut conf = data.0;
        let ghost before = conf@;
        let mut i: usize = 0;
        while i < conf.actions.len()
            invariant
                i <= conf.actions.len(),
                conf.actions.len() == before.actions.len(),
                conf.clients == data.0.clients,
                conf.screenshot_path == data.0.screenshot_path,
                before == data.0@,
                forall|j: int|
                    0 <= j < i ==> (#[trigger] conf.actions@[j])@ == with_arguments(
                        before.actions[j],
                    ),
                forall|j: int|
                    i <= j < before.actions.len() ==> (#[trigger] conf.actions@[j])@
                        == before.actions[j],
            decreases conf.actions.len() - i,
        {
            let arguments = ActionDesc::generate_args(conf.actions[i].command.as_str());
            conf.actions[i].arguments = arguments;
            i += 1;
        }
        assert(conf@.actions =~= with_all_arguments(before).actions);
        MemConfig(conf)
    }
}

/// Why a configuration could not be had.
#[derive(Debug)]
pub enum ConfigError {
    IO(String),
    Toml(String),
}

impl ConfigError {
    /// What is said of the error.
    pub open spec fn message(&self) -> Seq<char> {
        match self {
            ConfigError::IO(io) => "IO Error : "@ + io@,
            ConfigError::Toml(toml) => "Toml Parsing Error : "@ + toml@,
        }
    }

    /// The message that is shown for the error.
    pub fn text(&self) -> (text: String)
        ensures
            text@ == self.message(),
    {
        match self {
            ConfigError::IO(io) => "IO Error : ".to_owned().concat(io.as_str()),
            ConfigError::Toml(toml) => "Toml Parsing Error : ".to_owned().concat(toml.as_str()),
        }
    }
}

/// How a user proves who they are.
#[derive(Debug, Clone, Hash, PartialEq, Eq)]
pub enum Auth {
    Password(String),
    PublicKey(String),
    Interactive,
    NoProof,
}

/// A user and how they prove who they are.
#[derive(Debug, Clone, Hash, PartialEq, Eq)]
pub struct Cred {
    pub user: String,
    pub auth_method: Auth,
}

impl Default for Cred {
    /// Nobody, without a proof.
    fn default() -> (cred: Self)
        ensures
            cred.user@ == Seq::<char>::empty(),
            cred.auth_method is NoProof,
    {
        Cred { user: String::new(), auth_method: Auth::NoProof }
    }
}

/// What is put together from the parts that `config` was taken apart into.
pub open spec fn reloaded(config: ConfigModel) -> ConfigModel {
    put_together(
        all_deselected(config.clients),
        stored_actions(config.actions),
        config.screenshot_path,
    )
}

/// A configuration that is taken apart, put together again from its parts and put to use is the
/// same as before, but that nothing in it is picked.
pub proof fn law_reloading_keeps_the_config(config: ConfigModel)
    requires
        distinct_keys(config.clients),
        all_arguments_match(config.actions),
    ensures
        with_all_arguments(reloaded(config)).clients == all_deselected(config.clients),
        with_all_arguments(reloaded(config)).screenshot_path == config.screenshot_path,
        with_all_arguments(reloaded(config)).actions.len() == config.actions.len(),
        forall|i: int|
            0 <= i < config.actions.len() ==> #[trigger] with_all_arguments(
                reloaded(config),
            ).actions[i] == (ActionModel { selected: false, ..config.actions[i] }),
{
    let clients = all_deselected(config.clients);
    assert(distinct_keys(clients)) by {
        assert forall|i: int, j: int| 0 <= i < j < clients.len() implies key_of(
            #[trigger] clients[i],
        ) != key_of(#[trigger] clients[j]) by {
            assert(key_of(config.clients[i]) != key_of(config.clients[j]));
        }
    }
    law_distinct_clients_are_all_kept(clients);
    assert forall|i: int| 0 <= i < config.actions.len() implies #[trigger] with_all_arguments(
        reloaded(config),
    ).actions[i] == (ActionModel { selected: false, ..config.actions[i] }) by {
        assert(arguments_match(config.actions[i]));
    }
}

/// A configuration that is put to use keeps its players, its actions in their order and its path;
/// each action gets the arguments that its command calls for, and changes in nothing else.
pub proof fn law_use_gives_the_actions_their_arguments(config: ConfigModel)
    ensures
        ({
            let used = with_all_arguments(config);
            &&& used.clients == config.clients
            &&& used.screenshot_path == config.screenshot_path
            &&& used.actions.len() == config.actions.len()
            &&& forall|i: int|
                0 <= i < config.actions.len() ==> #[trigger] used.actions[i] == (ActionModel {
                    arguments: arguments_of(config.actions[i].command),
                    ..config.actions[i]
                })
        }),
{
}

/// What is put together holds the actions and the path that were given, and of the players those
/// that no earlier one equals.
pub proof fn law_parts_make_the_config(
    clients: Seq<ClientModel>,
    actions: Seq<ActionModel>,
    screenshot_path: Seq<char>,
)
    ensures
        put_together(clients, actions, screenshot_path).actions == actions,
        put_together(clients, actions, screenshot_path).screenshot_path == screenshot_path,
        put_together(clients, actions, screenshot_path).clients == first_by_key(clients),
        distinct_keys(clients) ==> put_together(clients, actions, screenshot_path).clients
            == clients,
{
    if distinct_keys(clients) {
        law_distinct_clients_are_all_kept(clients);
    }
}

/// The file holds of an action all but its arguments and whether it is picked.
pub proof fn law_a_stored_action_keeps_the_rest(actions: Seq<ActionModel>, i: int)
    requires
        0 <= i < actions.len(),
    ensures
        stored_actions(actions).len() == actions.len(),
        stored_actions(actions)[i].description == actions[i].description,
        stored_actions(actions)[i].command == actions[i].command,
        stored_actions(actions)[i].timeout == actions[i].timeout,
        stored_actions(actions)[i].logo == actions[i].logo,
        stored_actions(actions)[i].need_reply == actions[i].need_reply,
        stored_actions(actions)[i].arguments.len() == 0,
        !stored_actions(actions)[i].selected,
{
}

/// Nothing is kept at first but where the screenshots are.
pub proof fn law_an_empty_config_is_empty()
    ensures
        empty_config().clients.len() == 0,
        empty_config().actions.len() == 0,
        empty_config().screenshot_path == "/tmp/screenshot.png"@,
{
}

/// An error says of which kind it is, and then what was said of it.
pub proof fn law_an_error_says_its_kind(text: String)
    ensures
        ConfigError::IO(text).message() == "IO Error : "@ + text@,
        ConfigError::Toml(text).message() == "Toml Parsing Error : "@ + text@,
{
}

/// What is said of a configuration is said of each of its parts, on disk and in use.
pub proof fn law_a_config_is_all_its_parts(config: Config)
    ensures
        config@.clients == config.clients@,
        config@.actions == action_models(config.actions@),
        config@.screenshot_path == config.screenshot_path@,
        DiskConfig(config)@ == config@,
        MemConfig(config)@ == config@,
{
}

} // verus!
