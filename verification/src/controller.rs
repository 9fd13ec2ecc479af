//! The host's decisions: how it keeps its list of modules, and what it does for
//! the messages the control panel sends.

use vstd::prelude::*;

use crate::protocol::{
    ChangeConfiguration, ClientMessage, Configuration, InstalledModule, ServerMessage, Structure,
};

verus! {

/// The installed modules of a host, in drawing order.
pub struct ModuleList<M> {
    modules: Vec<M>,
}

/// `modules` with the element at `from` taken out and put back in at `to`.
pub open spec fn moved<M>(modules: Seq<M>, from: int, to: int) -> Seq<M> {
    modules.remove(from).insert(to, modules[from])
}

impl<M> ModuleList<M> {
    /// The modules, in drawing order.
    pub closed spec fn modules(&self) -> Seq<M> {
        self.modules@
    }

    /// A list without modules.
    pub fn new() -> (list: Self)
        ensures
            list.modules() == Seq::<M>::empty(),
    {
        Self { modules: Vec::new() }
    }

    /// Replaces the whole list.
    pub fn replace_modules(&mut self, modules: Vec<M>)
        ensures
            final(self).modules() == modules@,
    {
        self.modules = modules;
    }

    /// The modules, in drawing order.
    pub fn get_modules(&self) -> (modules: &Vec<M>)
        ensures
            modules@ == self.modules(),
    {
        &self.modules
    }

    /// Moves the module at `old_index` so that it ends up at `new_index`.
    pub fn reorder_modules(&mut self, old_index: usize, new_index: usize)
        requires
            old_index < old(self).modules().len(),
            new_index < old(self).modules().len(),
        ensures
            final(self).modules() == moved(old(self).modules(), old_index as int, new_index as int),
    {
        let module = self.modules.remove(old_index);
        self.modules.insert(new_index, module);
    }

    /// The index of the module whose configuration a change request addresses, or
    /// `None` when the index is past the end.
    pub fn configuration_target(&self, index: usize) -> (target: Option<usize>)
        requires
            index != self.modules().len(),
        ensures
            index < self.modules().len() ==> target == Some(index),
            index > self.modules().len() ==> target is None,
    {
        if index > self.modules.len() {
            None
        } else {
            Some(index)
        }
    }

    /// The module at `index`, to update its configuration in place.
    pub fn module_mut(&mut self, index: usize) -> (module: &mut M)
        requires
            index < old(self).modules().len(),
        ensures
            *module == old(self).modules()[index as int],
            final(self).modules() == old(self).modules().update(index as int, *final(module)),
    {
        &mut self.modules[index]
    }
}

/// Moving a module and moving it back restores the order.
pub proof fn lemma_reorder_undone<M>(modules: Seq<M>, from: int, to: int)
    requires
        0 <= from < modules.len(),
        0 <= to < modules.len(),
    ensures
        moved(moved(modules, from, to), to, from) == modules,
{
    let once = moved(modules, from, to);
    assert(once.remove(to) =~= modules.remove(from));
    assert(moved(once, to, from) =~= modules);
}

/// Moving a module keeps every module, only in another order.
pub proof fn lemma_reorder_permutes<M>(modules: Seq<M>, from: int, to: int)
    requires
        0 <= from < modules.len(),
        0 <= to < modules.len(),
    ensures
        moved(modules, from, to).len() == modules.len(),
        moved(modules, from, to)[to] == modules[from],
        moved(modules, from, to).to_multiset() == modules.to_multiset(),
{
    let rest = modules.remove(from);
    assert(modules =~= rest.insert(from, modules[from]));
    vstd::seq_lib::to_multiset_remove(modules, from);
    vstd::seq_lib::to_multiset_insert(rest, to, modules[from]);
    assert(modules.to_multiset().remove(modules[from]).insert(modules[from]) =~= modules.to_multiset()) by {
        broadcast use vstd::multiset::group_multiset_axioms;
        assert(modules.to_multiset().count(modules[from]) > 0) by {
            assert(modules.contains(modules[from]));
            broadcast use vstd::seq_lib::group_to_multiset_ensures;
        }
    }
}

/// What a host does.
#[derive(Debug)]
pub enum HostAction {
    /// Sends its module configuration to the control panel.
    SendConfiguration,
    /// Sends its displays to the control panel.
    SendDisplays,
    /// Moves a module.
    ReorderModules(usize, usize),
    /// Replaces the configuration of a module.
    ChangeConfiguration(usize, Structure),
    /// Installs a module of the given type.
    AddModule(String),
    /// Removes a module.
    RemoveModule(usize),
    /// Saves the configuration a little later.
    ScheduleSave,
    /// Saves the configuration now.
    SaveNow,
}

/// What a host does for one message.
pub open spec fn message_actions(message: ClientMessage) -> Seq<HostAction> {
    match message {
        ClientMessage::QueryConfiguration => seq![HostAction::SendConfiguration],
        ClientMessage::QueryDisplays => seq![HostAction::SendDisplays],
        ClientMessage::ReorderModules(old_index, new_index) => seq![
            HostAction::ReorderModules(old_index, new_index),
        ],
        ClientMessage::ChangeConfiguration(change) => seq![
            HostAction::ChangeConfiguration(change.module, change.new_configuration),
        ],
        ClientMessage::AddModule(ty) => seq![
            HostAction::AddModule(ty),
            HostAction::SendConfiguration,
        ],
        ClientMessage::RemoveModule(index) => seq![
            HostAction::RemoveModule(index),
            HostAction::SendConfiguration,
        ],
    }
}

/// The message changes the configuration, so it has to be saved.
pub open spec fn changes_configuration(message: ClientMessage) -> bool {
    match message {
        ClientMessage::QueryConfiguration => false,
        ClientMessage::QueryDisplays => false,
        _ => true,
    }
}

/// What a host does for a batch of messages, in order, before deciding on saving.
pub open spec fn batch_actions(messages: Seq<ClientMessage>) -> Seq<HostAction>
    decreases messages.len(),
{
    if messages.len() == 0 {
        Seq::empty()
    } else {
        batch_actions(messages.drop_last()) + message_actions(messages.last())
    }
}

/// Some message of the batch changes the configuration.
pub open spec fn batch_changes_configuration(messages: Seq<ClientMessage>) -> bool {
    exists|i: int| 0 <= i < messages.len() && changes_configuration(#[trigger] messages[i])
}

/// Everything a host does for a batch of messages: the actions for each message,
/// then scheduling a save if the configuration changed, or saving now if a save
/// that was scheduled earlier is due.
pub open spec fn planned_actions(messages: Seq<ClientMessage>, save_due: bool) -> Seq<HostAction> {
    batch_actions(messages) + if batch_changes_configuration(messages) {
        seq![HostAction::ScheduleSave]
    } else if save_due {
        seq![HostAction::SaveNow]
    } else {
        Seq::empty()
    }
}

/// The message only asks for something: the configuration or the displays.
pub open spec fn is_query(message: ClientMessage) -> bool {
    message is QueryConfiguration || message is QueryDisplays
}

/// The actions for a batch of queries answer each query in turn.
proof fn lemma_query_batch(messages: Seq<ClientMessage>)
    requires
        forall|i: int| 0 <= i < messages.len() ==> is_query(#[trigger] messages[i]),
    ensures
        batch_actions(messages).len() == messages.len(),
        forall|i: int|
            0 <= i < messages.len() ==> #[trigger] batch_actions(messages)[i] == if messages[i] is QueryConfiguration {
                HostAction::SendConfiguration
            } else {
                HostAction::SendDisplays
            },
    decreases messages.len(),
{
    if messages.len() > 0 {
        let front = messages.drop_last();
        assert forall|i: int| 0 <= i < front.len() implies is_query(#[trigger] front[i]) by {
            assert(front[i] == messages[i]);
        }
        lemma_query_batch(front);
        assert(is_query(messages[messages.len() - 1]));
    }
}

/// A batch of queries changes nothing: each query is answered by sending what it asks
/// for, in order, no save is scheduled, and a save that is due happens now, last.
pub proof fn lemma_queries_change_nothing(messages: Seq<ClientMessage>, save_due: bool)
    requires
        forall|i: int| 0 <= i < messages.len() ==> is_query(#[trigger] messages[i]),
    ensures
        planned_actions(messages, save_due).len() == messages.len() + if save_due {
            1int
        } else {
            0int
        },
        forall|i: int|
            0 <= i < messages.len() ==> #[trigger] planned_actions(messages, save_due)[i] == if messages[i] is QueryConfiguration {
                HostAction::SendConfiguration
            } else {
                HostAction::SendDisplays
            },
        save_due ==> planned_actions(messages, save_due).last() is SaveNow,
        forall|i: int|
            0 <= i < planned_actions(messages, save_due).len() ==> !(
            #[trigger] planned_actions(messages, save_due)[i] is ScheduleSave),
{
    lemma_query_batch(messages);
    if batch_changes_configuration(messages) {
        let i = choose|i: int| 0 <= i < messages.len() && changes_configuration(#[trigger] messages[i]);
        assert(is_query(messages[i]));
    }
    let actions = planned_actions(messages, save_due);
    assert forall|i: int| 0 <= i < actions.len() implies !(#[trigger] actions[i] is ScheduleSave) by {
        if i < messages.len() {
            assert(actions[i] == batch_actions(messages)[i]);
        }
    }
}

/// A batch that reorders, changes, adds or removes a module changes the configuration:
/// it ends by scheduling a save, whether or not one was due, and does not save now.
pub proof fn lemma_changes_schedule_a_save(messages: Seq<ClientMessage>, save_due: bool, index: int)
    requires
        0 <= index < messages.len(),
        !is_query(messages[index]),
    ensures
        planned_actions(messages, save_due).len() == batch_actions(messages).len() + 1,
        planned_actions(messages, save_due).last() is ScheduleSave,
{
    assert(changes_configuration(messages[index]));
}

/// Decides what a host does for the messages it received.
pub fn plan_messages(messages: Vec<ClientMessage>, save_due: bool) -> (actions: Vec<HostAction>)
    ensures
        actions@ == planned_actions(messages@, save_due),
{
    let ghost all = messages@;
    let mut actions: Vec<HostAction> = Vec::new();
    let mut schedule_save = false;
    let mut pending = messages;
    let mut rest: Vec<ClientMessage> = Vec::new();
    // Take the messages out in order by reversing them once.
    while pending.len() > 0
        invariant
            all == pending@ + rest@.reverse(),
        decreases pending@.len(),
    {
        let message = pending.pop().unwrap();
        let ghost before = rest@;
        rest.push(message);
        proof {
            assert(rest@.reverse() =~= seq![message] + before.reverse());
        }
    }
    let ghost done_count: int = 0;
    proof {
        assert(all =~= rest@.reverse());
        assert(all.take(0) =~= Seq::<ClientMessage>::empty());
    }
    while rest.len() > 0
        invariant
            all == all.take(all.len() - rest@.len()) + rest@.reverse(),
            rest@.len() <= all.len(),
            actions@ == batch_actions(all.take(all.len() - rest@.len())),
            schedule_save == batch_changes_configuration(all.take(all.len() - rest@.len())),
        decreases rest@.len(),
    {
        let ghost done = all.take(all.len() - rest@.len());
        let message = rest.pop().unwrap();
        let ghost next = all.take(all.len() - rest@.len());
        proof {
            assert(next =~= done.push(message)) by {
                assert(all[done.len() as int] == message);
            }
            assert(next.drop_last() =~= done);
        }
        let ghost view = message;
        match message {
            ClientMessage::QueryConfiguration => {
                actions.push(HostAction::SendConfiguration);
            },
            ClientMessage::QueryDisplays => {
                actions.push(HostAction::SendDisplays);
            },
            ClientMessage::ReorderModules(old_index, new_index) => {
                actions.push(HostAction::ReorderModules(old_index, new_index));
                schedule_save = true;
            },
            ClientMessage::ChangeConfiguration(ChangeConfiguration { module, new_configuration }) => {
                actions.push(HostAction::ChangeConfiguration(module, new_configuration));
                schedule_save = true;
            },
            ClientMessage::AddModule(ty) => {
                actions.push(HostAction::AddModule(ty));
                actions.push(HostAction::SendConfiguration);
                schedule_save = true;
            },
            ClientMessage::RemoveModule(index) => {
                actions.push(HostAction::RemoveModule(index));
                actions.push(HostAction::SendConfiguration);
                schedule_save = true;
            },
        }
        proof {
            assert(actions@ =~= batch_actions(done) + message_actions(view));
            if changes_configuration(view) {
                assert(next[done.len() as int] == view);
            }
            if batch_changes_configuration(next) && !changes_configuration(view) {
                let i = choose|i: int| 0 <= i < next.len() && changes_configuration(
                    #[trigger] next[i],
                );
                assert(i < done.len());
                assert(done[i] == next[i]);
            }
            if batch_changes_configuration(done) {
                let i = choose|i: int| 0 <= i < done.len() && changes_configuration(
                    #[trigger] done[i],
                );
                assert(next[i] == done[i]);
            }
        }
    }
    proof {
        assert(all.take(all.len() as int) =~= all);
    }
    if schedule_save {
        actions.push(HostAction::ScheduleSave);
    } else if save_due {
        actions.push(HostAction::SaveNow);
    }
    assert(actions@ =~= planned_actions(all, save_due));
    actions
}


/// The modules up to `count` all have their configuration serialised.
pub open spec fn all_serialised<E>(modules: Seq<(String, Result<Structure, E>)>, count: int) -> bool {
    forall|i: int| 0 <= i < count ==> (#[trigger] modules[i]).1 is Ok
}

/// The message that reports the installed modules to the control panel, from each
/// module's type name and what serialising its configuration came to, in drawing
/// order. Where a configuration could not be serialised, the first such failure is
/// returned in place of the message.
pub fn configuration_message<E>(modules: Vec<(String, Result<Structure, E>)>) -> (result: Result<
    ServerMessage,
    E,
>)
    ensures
        result is Ok <==> all_serialised(modules@, modules@.len() as int),
        result matches Ok(message) ==> message matches ServerMessage::UpdateConfiguration(
            configuration,
        ) && configuration.modules@.len() == modules@.len() && forall|i: int|
            0 <= i < modules@.len() ==> {
                &&& (#[trigger] configuration.modules@[i]).ty@ == modules@[i].0@
                &&& modules@[i].1 == Ok::<Structure, E>(configuration.modules@[i].configuration)
            },
        result matches Err(error) ==> exists|i: int|
            0 <= i < modules@.len() && all_serialised(modules@, i) && #[trigger] modules@[i].1
                == Err::<Structure, E>(error),
{
    let ghost all = modules@;
    let mut rest = modules;
    let mut installed: Vec<InstalledModule> = Vec::new();
    while rest.len() > 0
        invariant
            all == modules@,
            installed@.len() + rest@.len() == all.len(),
            rest@ == all.skip(installed@.len() as int),
            all_serialised(all, installed@.len() as int),
            forall|i: int|
                0 <= i < installed@.len() ==> {
                    &&& (#[trigger] installed@[i]).ty@ == all[i].0@
                    &&& all[i].1 == Ok::<Structure, E>(installed@[i].configuration)
                },
        decreases rest.len(),
    {
        let ghost done = installed@.len() as int;
        let (ty, serialised) = rest.remove(0);
        assert(all[done] == (ty, serialised));
        match serialised {
            Ok(configuration) => {
                installed.push(InstalledModule { ty, configuration });
                assert(rest@ =~= all.skip(done + 1));
            },
            Err(error) => {
                assert(all[done].1 == Err::<Structure, E>(error));
                assert(!(all[done].1 is Ok));
                return Err(error);
            },
        }
    }
    Ok(ServerMessage::UpdateConfiguration(Configuration { modules: installed }))
}

} // verus!
