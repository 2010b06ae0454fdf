//! The actions: commands that the players run.

use std::sync::Arc;

use vstd::prelude::*;
#[allow(unused_imports)]
use vstd::std_specs::cmp::PartialEqSpec;

use crate::arguments::{captured_names, collect_names, new_name_set, ArgumentsMap, PLACEHOLDER};
#[allow(unused_imports)]
use crate::arguments::{argument_names, arguments_of};

verus! {

/// A command with what is shown of it and how it is run.
pub struct ActionDesc {
    pub description: String,
    pub command: String,
    /// How many seconds the command may take.
    pub timeout: u64,
    /// The code point of the icon.
    pub logo: Option<u32>,
    pub need_reply: bool,
    pub arguments: ArgumentsMap,
    pub selected: bool,
}

/// What an `ActionDesc` stands for.
pub struct ActionModel {
    pub description: Seq<char>,
    pub command: Seq<char>,
    pub timeout: u64,
    pub logo: Option<u32>,
    pub need_reply: bool,
    pub arguments: Seq<Seq<char>>,
    pub selected: bool,
}

impl View for ActionDesc {
    type V = ActionModel;

    open spec fn view(&self) -> ActionModel {
        ActionModel {
            description: self.description@,
            command: self.command@,
            timeout: self.timeout,
            logo: self.logo,
            need_reply: self.need_reply,
            arguments: argument_names(&self.arguments),
            selected: self.selected,
        }
    }
}

/// What a click on an action leads to.
#[derive(Debug, Clone)]
pub enum ActionState {
    Selection,
    NeedArguments,
    Edit,
    Execute,
}

/// How many seconds a new action may take.
pub const DEFAULT_TIMEOUT: u64 = 15;

/// A new action, whose arguments are those that its command calls for.
pub open spec fn new_action(
    description: Seq<char>,
    command: Seq<char>,
    logo: Option<u32>,
    selected: bool,
) -> ActionModel {
    ActionModel {
        description,
        command,
        timeout: DEFAULT_TIMEOUT,
        logo,
        need_reply: true,
        arguments: arguments_of(command),
        selected,
    }
}

/// `action` with the arguments that its command calls for.
pub open spec fn with_arguments(action: ActionModel) -> ActionModel {
    ActionModel { arguments: arguments_of(action.command), ..action }
}

/// The arguments of `action` are those that its command calls for.
pub open spec fn arguments_match(action: ActionModel) -> bool {
    action.arguments == arguments_of(action.command)
}

/// The views of a list of actions.
pub open spec fn action_models(actions: Seq<ActionDesc>) -> Seq<ActionModel> {
    actions.map_values(|a: ActionDesc| a@)
}

/// No action starts out picked.
pub fn atomicbool_default() -> (selected: bool)
    ensures
        !selected,
{
    false
}

impl PartialEq for ActionDesc {
    fn eq(&self, other: &Self) -> (same: bool) {
        if self.description == other.description {
            match (self.logo, other.logo) {
                (Some(a), Some(b)) => a == b,
                (None, None) => true,
                _ => false,
            }
        } else {
            false
        }
    }
}

impl vstd::std_specs::cmp::PartialEqSpecImpl for ActionDesc {
    open spec fn obeys_eq_spec() -> bool {
        true
    }

    open spec fn eq_spec(&self, other: &Self) -> bool {
        self@.description == other@.description && self@.logo == other@.logo
    }
}

impl Eq for ActionDesc {

}

impl ActionDesc {
    /// A new action for a command.
    pub fn new(
        description: String,
        command: String,
        logo: Option<u32>,
        selected: bool,
    ) -> (action: Self)
        ensures
            action@ == new_action(description@, command@, logo, selected),
    {
        let arguments = Self::generate_args(command.as_str());
        ActionDesc {
            description,
            command,
            timeout: DEFAULT_TIMEOUT,
            logo,
            need_reply: true,
            arguments,
            selected,
        }
    }

    /// An action as it is written to a configuration file, which holds neither its arguments nor
    /// whether it is picked.
    pub fn stored(
        description: String,
        command: String,
        timeout: u64,
        logo: Option<u32>,
        need_reply: bool,
    ) -> (action: Self)
        ensures
            action@ == (ActionModel {
                description: description@,
                command: command@,
                timeout,
                logo,
                need_reply,
                arguments: Seq::empty(),
                selected: false,
            }),
    {
        ActionDesc {
            description,
            command,
            timeout,
            logo,
            need_reply,
            arguments: Arc::new(new_name_set()),
            selected: atomicbool_default(),
        }
    }

    /// The arguments that the placeholders of a command call for.
    pub fn generate_args(command: &str) -> (arguments: ArgumentsMap)
        ensures
            argument_names(&arguments) == arguments_of(command@),
    {
        let pattern: &str = PLACEHOLDER;
        collect_names(captured_names(pattern, command))
    }
}

/// A new action is what it was described as; it takes fifteen seconds at most, waits for a reply,
/// and asks for the arguments that its command calls for.
pub proof fn law_a_new_action_is_as_described(
    description: Seq<char>,
    command: Seq<char>,
    logo: Option<u32>,
    selected: bool,
)
    ensures
        ({
            let action = new_action(description, command, logo, selected);
            &&& action.description == description
            &&& action.command == command
            &&& action.logo == logo
            &&& action.selected == selected
            &&& action.timeout == 15
            &&& action.need_reply
            &&& action.arguments == arguments_of(command)
        }),
{
}

/// To look for the arguments of an action changes nothing else about it, and a second look finds
/// the same.
pub proof fn law_looking_for_arguments_changes_nothing_else(action: ActionModel)
    ensures
        with_arguments(action).arguments == arguments_of(action.command),
        with_arguments(action) == (ActionModel {
            arguments: with_arguments(action).arguments,
            ..action
        }),
        with_arguments(with_arguments(action)) == with_arguments(action),
        arguments_match(action) <==> action.arguments == arguments_of(action.command),
{
}

/// Two actions are the same exactly where description and icon are.
pub proof fn law_description_and_icon_tell_actions_apart(a: ActionDesc, b: ActionDesc)
    ensures
        PartialEqSpec::eq_spec(&a, &b) <==> a.description@ == b.description@ && a.logo == b.logo,
{
}

/// What is said of an action is said of each of its fields, and of a list of actions of each of
/// them, in order.
pub proof fn law_an_action_is_all_its_fields(action: ActionDesc, actions: Seq<ActionDesc>)
    ensures
        action@.description == action.description@,
        action@.command == action.command@,
        action@.timeout == action.timeout,
        action@.logo == action.logo,
        action@.need_reply == action.need_reply,
        action@.arguments == argument_names(&action.arguments),
        action@.selected == action.selected,
        action_models(actions).len() == actions.len(),
        forall|i: int|
            0 <= i < actions.len() ==> #[trigger] action_models(actions)[i] == actions[i]@,
{
}

} // verus!
