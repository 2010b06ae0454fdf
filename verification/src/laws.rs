//! What the controller promises: how each message changes what it holds, and what is asked for
//! outside.

use vstd::prelude::*;

#[allow(unused_imports)]
use crate::action::ActionModel;
#[allow(unused_imports)]
use crate::arguments::{arguments_of, bindings, interpolated, well_closed};
#[allow(unused_imports)]
use crate::client::ClientModel;
#[allow(unused_imports)]
use crate::config::ConfigModel;
#[allow(unused_imports)]
use crate::data::{
    accepts, command_after, initial, run_of, state_after, valid, DataModel,
};
#[allow(unused_imports)]
use crate::lists::{lemma_filter_keeps, lemma_filtered_are_chosen};
#[allow(unused_imports)]
use crate::message::{CommandModel, ConfigAction, Dialog, DialogModel, Message};
#[allow(unused_imports)]
use crate::text::{code_point_of, digits_of, port_of};

verus! {

/// A run goes to a player exactly where it is picked or all are, to each once, in the order of
/// the list; it takes its command as it is given, and its time and its reply from the action.
pub proof fn law_a_run_goes_to_the_picked_players(d: DataModel, index: int, command: Seq<char>)
    ensures
        run_of(d, index, command) matches CommandModel::Run {
            command: text,
            timeout,
            need_reply,
            clients,
        } && {
            &&& text == command
            &&& timeout == d.config.actions[index].timeout
            &&& need_reply == d.config.actions[index].need_reply
            &&& clients == d.config.clients.filter(|c: ClientModel| c.selected || d.select_all)
            &&& d.select_all ==> clients == d.config.clients
            &&& forall|i: int|
                0 <= i < d.config.clients.len() ==> (clients.contains(
                    #[trigger] d.config.clients[i],
                ) <==> d.config.clients[i].selected || d.select_all)
            &&& forall|i: int|
                0 <= i < clients.len() ==> (#[trigger] clients[i]).selected || d.select_all
            &&& forall|i: int|
                0 <= i < clients.len() ==> d.config.clients.contains(#[trigger] clients[i])
        },
{
    let all = d.config.clients;
    let chosen = |c: ClientModel| c.selected || d.select_all;
    let clients = all.filter(chosen);
    assert(run_of(d, index, command)->Run_clients == clients);
    if d.select_all {
        crate::client::law_select_all_targets_everyone(all);
    }
    assert forall|i: int| 0 <= i < all.len() implies (clients.contains(#[trigger] all[i])
        <==> all[i].selected || d.select_all) by {
        if chosen(all[i]) {
            lemma_filter_keeps(all, chosen, i);
        }
        if clients.contains(all[i]) {
            let k = choose|k: int| 0 <= k < clients.len() && clients[k] == all[i];
            lemma_filtered_are_chosen(all, chosen, k);
        }
    }
    assert forall|i: int| 0 <= i < clients.len() implies (#[trigger] clients[i]).selected
        || d.select_all by {
        lemma_filtered_are_chosen(all, chosen, i);
    }
    assert forall|i: int| 0 <= i < clients.len() implies all.contains(#[trigger] clients[i]) by {
        crate::lists::lemma_filtered_are_there(all, chosen, i);
    }
}

/// While actions are neither picked nor edited, a click on an action that has arguments asks for
/// them and runs nothing; a click on one that has none runs its command at once.
pub proof fn law_arguments_are_asked_for_before_a_run(d: DataModel, index: usize, decode: bool)
    requires
        index < d.config.actions.len(),
        !d.select_actions,
        !d.edit_actions,
    ensures
        ({
            let action = d.config.actions[index as int];
            let click = Message::Action(false, index, decode);
            let after = state_after(d, click);
            &&& command_after(d, click) is Run <==> action.arguments.len() == 0
            &&& command_after(d, click) is Nothing <==> action.arguments.len() > 0
            &&& action.arguments.len() > 0 ==> {
                &&& after.current_dialog == DialogModel::ArgumentsForAction(index, action.arguments)
                &&& after == (DataModel { current_dialog: after.current_dialog, ..d })
            }
            &&& action.arguments.len() == 0 ==> after.current_dialog == d.current_dialog
        }),
{
}

/// Where its command calls for an argument, an action that is clicked asks for it first: a command
/// with a placeholder in it reaches no player by a mere click.
pub proof fn law_no_placeholder_is_sent_by_a_click(
    d: DataModel,
    index: usize,
    decode: bool,
    open: int,
    close: int,
)
    requires
        valid(d),
        index < d.config.actions.len(),
        !d.select_actions,
        !d.edit_actions,
        0 <= open < close < d.config.actions[index as int].command.len(),
        d.config.actions[index as int].command[open] == '{',
        d.config.actions[index as int].command[close] == '}',
        forall|k: int|
            open < k < close ==> (#[trigger] d.config.actions[index as int].command[k]) != '{'
                && d.config.actions[index as int].command[k] != '}',
    ensures
        ({
            let click = Message::Action(false, index, decode);
            &&& command_after(d, click) is Nothing
            &&& state_after(d, click).current_dialog is ArgumentsForAction
        }),
{
    let action = d.config.actions[index as int];
    assert(crate::action::arguments_match(action));
    crate::arguments::law_arguments_come_from_placeholders(action.command);
}

/// An action that is executed is run: it changes nothing but that the players are drawn anew, and
/// the command goes to the picked players, as it stands or with the inputs of the dialog filled
/// in.
pub proof fn law_an_executed_action_is_run(d: DataModel, index: usize, decode: bool)
    requires
        index < d.config.actions.len(),
        !d.select_actions,
        !d.edit_actions,
    ensures
        ({
            let action = d.config.actions[index as int];
            let execute = Message::Action(true, index, decode);
            let after = state_after(d, execute);
            &&& command_after(d, execute) matches CommandModel::Run {
                command,
                timeout,
                need_reply,
                clients,
            }
            &&& timeout == action.timeout
            &&& need_reply == action.need_reply
            &&& clients == d.config.clients.filter(|c: ClientModel| c.selected || d.select_all)
            &&& !decode ==> command == action.command
            &&& decode && d.current_dialog is ArgumentsForAction && interpolated(
                action.command,
                bindings(action.arguments, d.dialog_inputs[2]),
            ) is Some ==> Some(command) == interpolated(
                action.command,
                bindings(action.arguments, d.dialog_inputs[2]),
            )
            &&& decode && d.current_dialog is AddAction && interpolated(
                action.command,
                bindings(action.arguments, d.dialog_inputs[1]),
            ) is Some ==> Some(command) == interpolated(
                action.command,
                bindings(action.arguments, d.dialog_inputs[1]),
            )
            &&& decode && d.current_dialog is Main && interpolated(
                action.command,
                bindings(action.arguments, d.dialog_inputs[0]),
            ) is Some ==> Some(command) == interpolated(
                action.command,
                bindings(action.arguments, d.dialog_inputs[0]),
            )
            &&& after == (DataModel { clients_version: after.clients_version, ..d })
            &&& after.clients_version != d.clients_version
        }),
{
    let execute = Message::Action(true, index, decode);
    let command = command_after(d, execute)->Run_command;
    law_a_run_goes_to_the_picked_players(d, index as int, command);
}

/// While actions are picked, a click on one picks it, or drops it from the picked ones, and does
/// nothing else, whether actions are edited or not.
pub proof fn law_a_click_picks_an_action(d: DataModel, execute: bool, index: usize, decode: bool)
    requires
        index < d.config.actions.len(),
        d.select_actions,
    ensures
        ({
            let click = Message::Action(execute, index, decode);
            let after = state_after(d, click);
            &&& command_after(d, click) is Nothing
            &&& after.config.actions.len() == d.config.actions.len()
            &&& after.config.actions[index as int].selected
                == !d.config.actions[index as int].selected
            &&& after.config.actions[index as int] == (ActionModel {
                selected: after.config.actions[index as int].selected,
                ..d.config.actions[index as int]
            })
            &&& forall|i: int|
                0 <= i < d.config.actions.len() && i != index ==> #[trigger] after.config.actions[i]
                    == d.config.actions[i]
            &&& after.actions_version != d.actions_version
            &&& after == (DataModel {
                config: ConfigModel { actions: after.config.actions, ..d.config },
                actions_version: after.actions_version,
                ..d
            })
        }),
{
}

/// While actions are edited and not picked, a click on one opens the dialog that describes it, with
/// its icon, its description and its command filled in, and runs nothing.
pub proof fn law_a_click_opens_an_action_for_editing(
    d: DataModel,
    execute: bool,
    index: usize,
    decode: bool,
)
    requires
        valid(d),
        index < d.config.actions.len(),
        !d.select_actions,
        d.edit_actions,
    ensures
        ({
            let click = Message::Action(execute, index, decode);
            let action = d.config.actions[index as int];
            let after = state_after(d, click);
            let row = after.dialog_inputs[1];
            &&& command_after(d, click) is Nothing
            &&& after.current_dialog == DialogModel::AddAction(Some(index))
            &&& action.logo matches Some(code) ==> row[0] == digits_of(code as nat, 16)
            &&& action.logo is None ==> row[0].len() == 0
            &&& row[1] == action.description
            &&& row[2] == action.command
            &&& row.len() == 16
            &&& forall|i: int| 3 <= i < 16 ==> #[trigger] row[i] == d.dialog_inputs[1][i]
            &&& after.dialog_inputs.len() == 3
            &&& after.dialog_inputs[0] == d.dialog_inputs[0]
            &&& after.dialog_inputs[2] == d.dialog_inputs[2]
            &&& after == (DataModel {
                current_dialog: after.current_dialog,
                dialog_inputs: after.dialog_inputs,
                ..d
            })
        }),
{
    assert(d.dialog_inputs[1].len() == 16);
}

/// A click past the last action does nothing.
pub proof fn law_a_click_past_the_end_does_nothing(
    d: DataModel,
    execute: bool,
    index: usize,
    decode: bool,
)
    requires
        index >= d.config.actions.len(),
    ensures
        state_after(d, Message::Action(execute, index, decode)) == d,
        command_after(d, Message::Action(execute, index, decode)) is Nothing,
        accepts(d, Message::Action(execute, index, decode)),
{
}

/// The inputs of a dialog describe a new action: the first one spells its icon, the second is its
/// description, the third its command. It takes the usual time, waits for a reply and is not
/// picked. Without a place it comes after all others, which stay where they are; at a place that
/// there is, it takes the place of the action there, and of no other; at one that there is not, it
/// comes last.
pub proof fn law_a_described_action_is_added(d: DataModel, index: Option<usize>)
    requires
        valid(d),
        d.current_dialog is AddAction,
    ensures
        ({
            let after = state_after(d, Message::AddAction(index));
            let actions = d.config.actions;
            let row = d.dialog_inputs[1];
            let replaces = index is Some && index->0 < actions.len();
            let place = if replaces {
                index->0 as int
            } else {
                actions.len() as int
            };
            let new = after.config.actions[place];
            &&& accepts(d, Message::AddAction(index))
            &&& command_after(d, Message::AddAction(index)) is Nothing
            &&& after.config.actions.len() == if replaces {
                actions.len()
            } else {
                actions.len() + 1
            }
            &&& !replaces ==> after.config.actions == actions.push(new)
            &&& forall|i: int|
                0 <= i < actions.len() && i != place ==> #[trigger] after.config.actions[i]
                    == actions[i]
            &&& new.description == row[1]
            &&& new.command == row[2]
            &&& new.logo == code_point_of(row[0])
            &&& new.arguments == arguments_of(row[2])
            &&& new.timeout == 15
            &&& new.need_reply
            &&& !new.selected
            &&& after.actions_version != d.actions_version
            &&& after == (DataModel {
                config: ConfigModel { actions: after.config.actions, ..d.config },
                actions_version: after.actions_version,
                ..d
            })
        }),
{
}

/// Without a place, what is described in any dialog is added at the end, and nothing that was
/// there is lost.
pub proof fn law_adding_an_action_loses_none(d: DataModel)
    ensures
        ({
            let after = state_after(d, Message::AddAction(None)).config.actions;
            &&& after.len() == d.config.actions.len() + 1
            &&& after.drop_last() == d.config.actions
            &&& forall|i: int|
                0 <= i < d.config.actions.len() ==> #[trigger] after[i] == d.config.actions[i]
        }),
{
    let after = state_after(d, Message::AddAction(None)).config.actions;
    assert(after.drop_last() =~= d.config.actions);
}

/// What is typed to describe an action is what the action is made of.
pub proof fn law_typed_descriptions_make_the_action(
    d: DataModel,
    logo: String,
    description: String,
    command: String,
)
    requires
        valid(d),
    ensures
        ({
            let opened = state_after(d, Message::ShowDialog(Dialog::AddAction(None)));
            let first = state_after(opened, Message::DialogInput(0, logo));
            let second = state_after(first, Message::DialogInput(1, description));
            let third = state_after(second, Message::DialogInput(2, command));
            let after = state_after(third, Message::AddAction(None)).config.actions;
            &&& after.len() == d.config.actions.len() + 1
            &&& after.last().description == description@
            &&& after.last().command == command@
            &&& after.last().logo == code_point_of(logo@)
            &&& after.last().arguments == arguments_of(command@)
        }),
{
    assert(d.dialog_inputs[1].len() == 16);
}

/// Deleting takes out the picked actions, all of them and no others, while actions are picked; the
/// rest keep their order. While actions are not picked, none goes.
pub proof fn law_deleting_leaves_the_rest_in_order(d: DataModel)
    ensures
        ({
            let after = state_after(d, Message::DelectAction);
            &&& d.select_actions ==> after.config.actions == d.config.actions.filter(
                |a: ActionModel| !a.selected,
            )
            &&& d.select_actions ==> forall|i: int|
                0 <= i < after.config.actions.len()
                    ==> !(#[trigger] after.config.actions[i]).selected
            &&& !d.select_actions ==> after.config.actions == d.config.actions
            &&& command_after(d, Message::DelectAction) is Nothing
            &&& after.actions_version != d.actions_version
            &&& after == (DataModel {
                config: ConfigModel { actions: after.config.actions, ..d.config },
                actions_version: after.actions_version,
                ..d
            })
        }),
{
    let after = state_after(d, Message::DelectAction);
    let kept = |a: ActionModel| !a.selected;
    if d.select_actions {
        assert(after.config.actions == d.config.actions.filter(kept));
        assert forall|i: int| 0 <= i < after.config.actions.len() implies !(
        #[trigger] after.config.actions[i]).selected by {
            lemma_filtered_are_chosen(d.config.actions, kept, i);
        }
    }
}

/// Picking and editing are switched each by its own message, from off to on and from on to off,
/// and nothing else changes.
pub proof fn law_switches_turn(d: DataModel)
    ensures
        state_after(d, Message::SelectAction).select_actions != d.select_actions,
        state_after(d, Message::SelectAction) == (DataModel {
            select_actions: state_after(d, Message::SelectAction).select_actions,
            ..d
        }),
        command_after(d, Message::SelectAction) is Nothing,
        state_after(d, Message::EditAction).edit_actions != d.edit_actions,
        state_after(d, Message::EditAction) == (DataModel {
            edit_actions: state_after(d, Message::EditAction).edit_actions,
            ..d
        }),
        command_after(d, Message::EditAction) is Nothing,
{
}

/// The box of a player is marked or not as it was set last: the player there is picked exactly
/// where it was marked, keeps everything else, and no other player changes.
pub proof fn law_a_box_is_as_it_was_set(d: DataModel, selected: bool, index: usize)
    ensures
        ({
            let after = state_after(d, Message::UpdateAddrSel(selected, index));
            &&& command_after(d, Message::UpdateAddrSel(selected, index)) is Nothing
            &&& after.config.clients.len() == d.config.clients.len()
            &&& index < d.config.clients.len() ==> {
                let client = after.config.clients[index as int];
                &&& client.selected == selected
                &&& client.address == d.config.clients[index as int].address
                &&& client.port == d.config.clients[index as int].port
                &&& client.user == d.config.clients[index as int].user
                &&& client.pass == d.config.clients[index as int].pass
                &&& after.clients_version != d.clients_version
            }
            &&& index >= d.config.clients.len() ==> after == d
            &&& forall|i: int|
                0 <= i < d.config.clients.len() && i != index ==> #[trigger] after.config.clients[i]
                    == d.config.clients[i]
            &&& after == (DataModel {
                config: ConfigModel { clients: after.config.clients, ..d.config },
                clients_version: after.clients_version,
                ..d
            })
        }),
{
}

/// A player that is marked and then unmarked is not picked, and one that is unmarked and then
/// marked is, whatever was before.
pub proof fn law_the_last_mark_counts(d: DataModel, first: bool, last: bool, index: usize)
    requires
        index < d.config.clients.len(),
    ensures
        ({
            let once = state_after(d, Message::UpdateAddrSel(first, index));
            let twice = state_after(once, Message::UpdateAddrSel(last, index));
            &&& twice.config.clients[index as int].selected == last
            &&& twice.config == state_after(d, Message::UpdateAddrSel(last, index)).config
        }),
{
    let once = state_after(d, Message::UpdateAddrSel(first, index));
    let twice = state_after(once, Message::UpdateAddrSel(last, index));
    let direct = state_after(d, Message::UpdateAddrSel(last, index));
    assert(twice.config.clients =~= direct.config.clients);
}

/// A player whose box was set is run on exactly where it was marked, or where all are picked.
pub proof fn law_a_mark_decides_who_is_run_on(
    d: DataModel,
    selected: bool,
    index: usize,
    action: int,
    command: Seq<char>,
)
    requires
        index < d.config.clients.len(),
    ensures
        ({
            let after = state_after(d, Message::UpdateAddrSel(selected, index));
            run_of(after, action, command) matches CommandModel::Run { clients, .. } && (
            clients.contains(after.config.clients[index as int]) <==> selected || d.select_all)
        }),
{
    let after = state_after(d, Message::UpdateAddrSel(selected, index));
    law_a_box_is_as_it_was_set(d, selected, index);
    law_a_run_goes_to_the_picked_players(after, action, command);
}

/// The player that is typed in is added at the end exactly where it has an address and a user and
/// no player has the same address and port; then the players are to be drawn anew. It is not
/// picked. Otherwise nothing changes and nothing is asked for.
pub proof fn law_a_typed_player_is_added_once(d: DataModel)
    ensures
        ({
            let after = state_after(d, Message::AddrAdd);
            let port: u16 = match port_of(d.client_port_input) {
                Some(port) => port,
                None => 22,
            };
            let adds = {
                &&& d.client_addr_input.len() > 0
                &&& d.username_input.len() > 0
                &&& forall|i: int|
                    0 <= i < d.config.clients.len() ==> (#[trigger] d.config.clients[i]).address
                        != d.client_addr_input || d.config.clients[i].port != port
            };
            &&& adds ==> {
                &&& after.config.clients.len() == d.config.clients.len() + 1
                &&& after.config.clients.drop_last() == d.config.clients
                &&& after.config.clients.last().address == d.client_addr_input
                &&& after.config.clients.last().port == port
                &&& after.config.clients.last().user == d.username_input
                &&& after.config.clients.last().pass == d.password_input
                &&& !after.config.clients.last().selected
                &&& command_after(d, Message::AddrAdd) is Refresh
            }
            &&& !adds ==> after == d && command_after(d, Message::AddrAdd) is Nothing
            &&& after == (DataModel {
                config: ConfigModel { clients: after.config.clients, ..d.config },
                ..d
            })
        }),
{
    let after = state_after(d, Message::AddrAdd);
    let typed = crate::data::typed_client(d);
    if crate::client::has_key(d.config.clients, crate::client::key_of(typed)) {
        let i = choose|i: int|
            0 <= i < d.config.clients.len() && crate::client::key_of(
                #[trigger] d.config.clients[i],
            ) == crate::client::key_of(typed);
        assert(d.config.clients[i].address == d.client_addr_input);
    } else {
        assert forall|i: int| 0 <= i < d.config.clients.len() implies (
        #[trigger] d.config.clients[i]).address != typed.address || d.config.clients[i].port
            != typed.port by {
            assert(crate::client::key_of(d.config.clients[i]) != crate::client::key_of(typed));
        }
    }
    if crate::data::adds_client(d) {
        assert(after.config.clients.drop_last() =~= d.config.clients);
    }
}

/// Deleting a player takes out that one and no other; the last one moves to its place. Past the
/// end none goes.
pub proof fn law_a_deleted_player_is_gone(d: DataModel, index: usize)
    ensures
        ({
            let after = state_after(d, Message::AddrDel(index));
            let clients = d.config.clients;
            &&& command_after(d, Message::AddrDel(index)) is Nothing
            &&& index >= clients.len() ==> after.config.clients == clients
            &&& index < clients.len() ==> {
                &&& after.config.clients.len() == clients.len() - 1
                &&& forall|i: int|
                    0 <= i < clients.len() - 1 && i != index ==> #[trigger] after.config.clients[i]
                        == clients[i]
                &&& index < clients.len() - 1 ==> after.config.clients[index as int]
                    == clients[clients.len() - 1]
            }
            &&& after.clients_version != d.clients_version
            &&& after == (DataModel {
                config: ConfigModel { clients: after.config.clients, ..d.config },
                clients_version: after.clients_version,
                ..d
            })
        }),
{
}

/// After all players were deleted there are none, and after all were dropped from the picked ones
/// they are all there, as they were, but none is picked.
pub proof fn law_all_players_go_or_are_dropped(d: DataModel)
    ensures
        ({
            let gone = state_after(d, Message::AddrDelAll);
            let dropped = state_after(d, Message::AddrDeselAll);
            &&& gone.config.clients.len() == 0
            &&& gone.clients_version != d.clients_version
            &&& gone == (DataModel {
                config: ConfigModel { clients: gone.config.clients, ..d.config },
                clients_version: gone.clients_version,
                ..d
            })
            &&& command_after(d, Message::AddrDelAll) is Nothing
            &&& dropped.config.clients.len() == d.config.clients.len()
            &&& forall|i: int|
                0 <= i < d.config.clients.len() ==> #[trigger] dropped.config.clients[i] == (
                ClientModel { selected: false, ..d.config.clients[i] })
            &&& dropped.clients_version != d.clients_version
            &&& dropped == (DataModel {
                config: ConfigModel { clients: dropped.config.clients, ..d.config },
                clients_version: dropped.clients_version,
                ..d
            })
            &&& command_after(d, Message::AddrDeselAll) is Nothing
        }),
{
}

/// Each input of a new player takes what was typed there last and leaves the others as they are;
/// the port takes what spells a port, and nothing else.
pub proof fn law_inputs_take_what_is_typed(d: DataModel, text: String)
    ensures
        state_after(d, Message::AddrInput(text)) == (DataModel { client_addr_input: text@, ..d }),
        state_after(d, Message::UsernameInput(text)) == (DataModel { username_input: text@, ..d }),
        state_after(d, Message::PasswordInput(text)) == (DataModel { password_input: text@, ..d }),
        port_of(text@) is Some ==> state_after(d, Message::PortInput(text)) == (DataModel {
            client_port_input: text@,
            ..d
        }),
        port_of(text@) is None ==> state_after(d, Message::PortInput(text)) == d,
        command_after(d, Message::AddrInput(text)) is Nothing,
        command_after(d, Message::UsernameInput(text)) is Nothing,
        command_after(d, Message::PasswordInput(text)) is Nothing,
        command_after(d, Message::PortInput(text)) is Nothing,
{
}

/// What is typed as a new player is the player that is added.
pub proof fn law_a_new_player_is_what_was_typed(
    d: DataModel,
    address: String,
    port: String,
    user: String,
    pass: String,
)
    requires
        address@.len() > 0,
        user@.len() > 0,
        port_of(port@) is Some,
        forall|i: int|
            0 <= i < d.config.clients.len() ==> (#[trigger] d.config.clients[i]).address != address@
                || d.config.clients[i].port != port_of(port@)->0,
    ensures
        ({
            let first = state_after(d, Message::AddrInput(address));
            let second = state_after(first, Message::PortInput(port));
            let third = state_after(second, Message::UsernameInput(user));
            let fourth = state_after(third, Message::PasswordInput(pass));
            let after = state_after(fourth, Message::AddrAdd);
            &&& command_after(fourth, Message::AddrAdd) is Refresh
            &&& after.config.clients == d.config.clients.push(
                ClientModel {
                    address: address@,
                    port: port_of(port@)->0,
                    user: user@,
                    pass: pass@,
                    selected: false,
                },
            )
        }),
{
    let first = state_after(d, Message::AddrInput(address));
    let second = state_after(first, Message::PortInput(port));
    let third = state_after(second, Message::UsernameInput(user));
    let fourth = state_after(third, Message::PasswordInput(pass));
    law_a_typed_player_is_added_once(fourth);
    let after = state_after(fourth, Message::AddrAdd).config.clients;
    assert(after.drop_last().push(after.last()) =~= after);
}

/// The dialog that is asked for is shown, and nothing else changes.
pub proof fn law_the_dialog_is_the_one_asked_for(d: DataModel, dialog: Dialog)
    ensures
        state_after(d, Message::ShowDialog(dialog)) == (DataModel { current_dialog: dialog@, ..d }),
        command_after(d, Message::ShowDialog(dialog)) is Nothing,
{
}

/// What is typed into a dialog stands at its place among the inputs of that dialog: the first row
/// is that of the main page, the second that of a new action, the third that of the arguments. No
/// other input changes.
pub proof fn law_a_dialog_keeps_what_is_typed(d: DataModel, column: usize, input: String)
    requires
        valid(d),
        column < 16,
        d.current_dialog is Main || d.current_dialog is AddAction
            || d.current_dialog is ArgumentsForAction,
    ensures
        ({
            let after = state_after(d, Message::DialogInput(column, input));
            let row: int = match d.current_dialog {
                DialogModel::Main => 0,
                DialogModel::AddAction(_) => 1,
                _ => 2,
            };
            &&& after.dialog_inputs.len() == 3
            &&& after.dialog_inputs[row][column as int] == input@
            &&& forall|i: int|
                0 <= i < 3 && i != row ==> #[trigger] after.dialog_inputs[i] == d.dialog_inputs[i]
            &&& after.dialog_inputs[row].len() == 16
            &&& forall|j: int|
                0 <= j < 16 && j != column ==> #[trigger] after.dialog_inputs[row][j]
                    == d.dialog_inputs[row][j]
            &&& after == (DataModel { dialog_inputs: after.dialog_inputs, ..d })
            &&& command_after(d, Message::DialogInput(column, input)) is Nothing
        }),
{
    assert(d.dialog_inputs[0].len() == 16);
    assert(d.dialog_inputs[1].len() == 16);
    assert(d.dialog_inputs[2].len() == 16);
}

/// A message is refused in these cases and no others: a dialog without inputs is typed into, past
/// the last input something is typed, a dialog without inputs is to describe an action or to run
/// one, or a command is to be filled in that cannot be.
pub proof fn law_what_is_refused(d: DataModel, message: Message)
    ensures
        ({
            let no_inputs = d.current_dialog is Logs || d.current_dialog is Screenshot;
            accepts(d, message) <==> match message {
                Message::DialogInput(column, _) => !no_inputs && column < 16,
                Message::AddAction(_) => !no_inputs,
                Message::Action(execute, index, decode) => {
                    let runs = index < d.config.actions.len() && !d.select_actions
                        && !d.edit_actions && (execute || d.config.actions[index as int].arguments.len()
                        == 0);
                    let row = if d.current_dialog is Main {
                        d.dialog_inputs[0]
                    } else if d.current_dialog is AddAction {
                        d.dialog_inputs[1]
                    } else {
                        d.dialog_inputs[2]
                    };
                    let action = d.config.actions[index as int];
                    runs ==> !no_inputs && (decode ==> well_closed(action.command) && interpolated(
                        action.command,
                        bindings(action.arguments, row),
                    ) is Some)
                },
                _ => true,
            }
        }),
{
}

/// Drawing anew changes the version of the players and nothing else: it goes up by one, and starts
/// over after the largest.
pub proof fn law_drawing_anew_changes_the_version(d: DataModel)
    ensures
        ({
            let after = state_after(d, Message::RefreshAddr);
            &&& d.clients_version < usize::MAX ==> after.clients_version == d.clients_version + 1
            &&& d.clients_version == usize::MAX ==> after.clients_version == 0
            &&& after == (DataModel { clients_version: after.clients_version, ..d })
            &&& command_after(d, Message::RefreshAddr) is Nothing
        }),
{
}

/// What is asked for outside leaves the controller as it is, and is what the message names.
pub proof fn law_outside_work_is_passed_on(d: DataModel, text: String, index: usize, buffer: bool)
    ensures
        state_after(d, Message::CopyToClipboard(text)) == d,
        command_after(d, Message::CopyToClipboard(text)) == CommandModel::Clipboard(text@),
        forall|action: ConfigAction| #[trigger]
            state_after(d, Message::Config(action)) == d,
        command_after(d, Message::Config(ConfigAction::Save)) is SaveConfig,
        command_after(d, Message::Config(ConfigAction::Export)) is ExportConfig,
        command_after(d, Message::Config(ConfigAction::Import)) is ImportConfig,
        command_after(d, Message::Config(ConfigAction::Open)) is OpenConfig,
        state_after(d, Message::Screenshot(index, buffer)) == d,
        index < d.config.clients.len() ==> command_after(d, Message::Screenshot(index, buffer))
            == (CommandModel::Screenshot {
            index,
            client: d.config.clients[index as int],
            path: d.config.screenshot_path,
            buffer,
        }),
        index >= d.config.clients.len() ==> command_after(
            d,
            Message::Screenshot(index, buffer),
        ) is Nothing,
        state_after(d, Message::Nothing) == d,
        command_after(d, Message::Nothing) is Nothing,
{
}

/// The actions change by no other message than those that add, delete or click actions; the path
/// of the screenshots and whether all players are picked change by none.
pub proof fn law_actions_change_only_when_asked(d: DataModel, message: Message)
    ensures
        match message {
            Message::AddAction(_) | Message::DelectAction | Message::Action(_, _, _) => true,
            _ => state_after(d, message).config.actions == d.config.actions,
        },
        state_after(d, message).config.screenshot_path == d.config.screenshot_path,
        state_after(d, message).select_all == d.select_all,
{
}

/// At first nothing is typed in but the usual port, nothing is picked, switched on or drawn, the
/// main page is shown, and every dialog with inputs has a row of empty ones.
pub proof fn law_a_controller_starts_empty(config: ConfigModel)
    ensures
        ({
            let d = initial(config);
            &&& d.config == config
            &&& d.client_addr_input.len() == 0
            &&& d.client_port_input == "22"@
            &&& d.username_input.len() == 0
            &&& d.password_input.len() == 0
            &&& !d.select_all
            &&& !d.select_actions
            &&& !d.edit_actions
            &&& d.clients_version == 0
            &&& d.actions_version == 0
            &&& d.current_dialog is Main
            &&& d.dialog_inputs.len() == 3
            &&& forall|i: int| 0 <= i < 3 ==> (#[trigger] d.dialog_inputs[i]).len() == 16
            &&& forall|i: int, j: int|
                0 <= i < 3 && 0 <= j < 16 ==> (#[trigger] d.dialog_inputs[i][j]).len() == 0
        }),
{
}

} // verus!
