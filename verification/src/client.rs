//! The players, and the ordered set that holds them.

use indexmap::IndexMap;
use vstd::prelude::*;
#[allow(unused_imports)]
use vstd::std_specs::cmp::PartialEqSpec;

verus! {

/// A player: where it is reached, how one logs in there, and whether it is picked for actions.
pub struct Client {
    pub address: String,
    pub port: u16,
    pub user: String,
    pub pass: String,
    pub selected: bool,
}

/// What a `Client` stands for.
pub struct ClientModel {
    pub address: Seq<char>,
    pub port: u16,
    pub user: Seq<char>,
    pub pass: Seq<char>,
    pub selected: bool,
}

impl View for Client {
    type V = ClientModel;

    open spec fn view(&self) -> ClientModel {
        ClientModel {
            address: self.address@,
            port: self.port,
            user: self.user@,
            pass: self.pass@,
            selected: self.selected,
        }
    }
}

/// The port that SSH servers listen on unless they are told otherwise.
pub const DEFAULT_PORT: u16 = 22;

/// Players are told apart by address and port.
pub open spec fn key_of(client: ClientModel) -> (Seq<char>, u16) {
    (client.address, client.port)
}

/// Some player among `clients` has the key `key`.
pub open spec fn has_key(clients: Seq<ClientModel>, key: (Seq<char>, u16)) -> bool {
    exists|i: int| 0 <= i < clients.len() && key_of(#[trigger] clients[i]) == key
}

/// No two players share address and port.
pub open spec fn distinct_keys(clients: Seq<ClientModel>) -> bool {
    forall|i: int, j: int|
        0 <= i < j < clients.len() ==> key_of(#[trigger] clients[i]) != key_of(
            #[trigger] clients[j],
        )
}

/// `clients` with `client` at the end, unless one with its key is there already.
pub open spec fn with_client(clients: Seq<ClientModel>, client: ClientModel) -> Seq<ClientModel> {
    if has_key(clients, key_of(client)) {
        clients
    } else {
        clients.push(client)
    }
}

/// The players of a list, each key at its first place only.
pub open spec fn first_by_key(clients: Seq<ClientModel>) -> Seq<ClientModel>
    decreases clients.len(),
{
    if clients.len() == 0 {
        Seq::empty()
    } else {
        with_client(first_by_key(clients.drop_last()), clients.last())
    }
}

/// `clients` without the one at `index`; the last one takes its place.
pub open spec fn without_index(clients: Seq<ClientModel>, index: int) -> Seq<ClientModel> {
    if 0 <= index < clients.len() {
        clients.update(index, clients.last()).drop_last()
    } else {
        clients
    }
}

/// `client`, picked or not.
pub open spec fn with_selected(client: ClientModel, selected: bool) -> ClientModel {
    ClientModel { selected, ..client }
}

/// `clients` with none of them picked.
pub open spec fn all_deselected(clients: Seq<ClientModel>) -> Seq<ClientModel> {
    clients.map_values(|c: ClientModel| with_selected(c, false))
}

/// The players that an action runs on: those picked, or all of them.
pub open spec fn targets_of(clients: Seq<ClientModel>, all: bool) -> Seq<ClientModel> {
    clients.filter(|c: ClientModel| c.selected || all)
}

/// The views of a list of players.
pub open spec fn models(clients: Seq<Client>) -> Seq<ClientModel> {
    clients.map_values(|c: Client| c@)
}

impl Default for Client {
    /// A player without a name or a login, at the usual port.
    fn default() -> (client: Self)
        ensures
            client@ == (ClientModel {
                address: Seq::empty(),
                port: DEFAULT_PORT,
                user: Seq::empty(),
                pass: Seq::empty(),
                selected: false,
            }),
    {
        Client {
            address: String::new(),
            port: DEFAULT_PORT,
            user: String::new(),
            pass: String::new(),
            selected: false,
        }
    }
}

impl Clone for Client {
    fn clone(&self) -> (copy: Self)
        ensures
            copy@ == self@,
    {
        Client {
            address: self.address.clone(),
            port: self.port,
            user: self.user.clone(),
            pass: self.pass.clone(),
            selected: self.selected,
        }
    }
}

impl PartialEq for Client {
    fn eq(&self, other: &Self) -> (same: bool) {
        self.address == other.address && self.port == other.port
    }
}

impl vstd::std_specs::cmp::PartialEqSpecImpl for Client {
    open spec fn obeys_eq_spec() -> bool {
        true
    }

    open spec fn eq_spec(&self, other: &Self) -> bool {
        key_of(self@) == key_of(other@)
    }
}

impl Eq for Client {

}

impl Client {
    /// The key that this player is told apart by.
    pub fn key(&self) -> (key: (String, u16))
        ensures
            (key.0@, key.1) == key_of(self@),
    {
        (self.address.clone(), self.port)
    }

    /// Tells whether `key` is the key of this player.
    pub fn equivalent(&self, key: &(String, u16)) -> (same: bool)
        ensures
            same == (key_of(self@) == (key.0@, key.1)),
    {
        self.address == key.0 && self.port == key.1
    }
}

/// The insertion-ordered map of the `indexmap` crate.
#[verifier::external_type_specification]
#[verifier::external_body]
#[verifier::reject_recursive_types(K)]
#[verifier::reject_recursive_types(V)]
#[verifier::reject_recursive_types(S)]
pub struct ExIndexMap<K, V, S>(IndexMap<K, V, S>);

/// The keys that a map holds, each with its player, in the map's own order.
pub uninterp spec fn entries_in(map: IndexMap<(String, u16), Client>) -> Seq<
    ((Seq<char>, u16), ClientModel),
>;

/// `key` is among the keys of `entries`.
pub open spec fn has_entry(
    entries: Seq<((Seq<char>, u16), ClientModel)>,
    key: (Seq<char>, u16),
) -> bool {
    exists|i: int| 0 <= i < entries.len() && (#[trigger] entries[i]).0 == key
}

/// `indexmap::IndexMap::new`: a map that holds nothing.
#[verifier::external_body]
fn new_map() -> (map: IndexMap<(String, u16), Client>)
    ensures
        entries_in(map) == Seq::<((Seq<char>, u16), ClientModel)>::empty(),
{
    IndexMap::new()
}

/// `indexmap::IndexMap::len`: how many players the map holds.
#[verifier::external_body]
fn entry_count(map: &IndexMap<(String, u16), Client>) -> (count: usize)
    ensures
        count == entries_in(*map).len(),
{
    map.len()
}

/// `indexmap::IndexMap::contains_key`: whether the map holds a player under a key.
#[verifier::external_body]
fn contains_entry(map: &IndexMap<(String, u16), Client>, key: &(String, u16)) -> (found: bool)
    ensures
        found == has_entry(entries_in(*map), (key.0@, key.1)),
{
    map.contains_key(key)
}

/// `indexmap::IndexMap::get_index`: the player at a place, where there is one.
#[verifier::external_body]
fn entry_at(map: &IndexMap<(String, u16), Client>, index: usize) -> (client: Option<&Client>)
    ensures
        client is Some <==> index < entries_in(*map).len(),
        client matches Some(c) ==> c@ == entries_in(*map)[index as int].1,
{
    map.get_index(index).map(|entry| entry.1)
}

/// `indexmap::IndexMap::get_index_mut`: the player at a place, to be changed there; the keys and
/// the other players stay as they are.
#[verifier::external_body]
fn entry_at_mut(map: &mut IndexMap<(String, u16), Client>, index: usize) -> (client: &mut Client)
    requires
        index < entries_in(*old(map)).len(),
    ensures
        (*client)@ == entries_in(*old(map))[index as int].1,
        entries_in(*final(map)) == entries_in(*old(map)).update(
            index as int,
            (entries_in(*old(map))[index as int].0, (*final(client))@),
        ),
{
    map.get_index_mut(index).unwrap().1
}

/// `indexmap::IndexMap::insert`: puts a player at the end; where the map holds one under the same
/// key, the new one takes the place of the old one, which is handed back.
#[verifier::external_body]
fn insert_entry(
    map: &mut IndexMap<(String, u16), Client>,
    key: (String, u16),
    client: Client,
) -> (replaced: Option<Client>)
    ensures
        replaced is Some <==> has_entry(entries_in(*old(map)), (key.0@, key.1)),
        replaced is None ==> entries_in(*final(map)) == entries_in(*old(map)).push(
            ((key.0@, key.1), client@),
        ),
        forall|i: int|
            0 <= i < entries_in(*old(map)).len() && (#[trigger] entries_in(*old(map))[i]).0 == (
            key.0@,
            key.1,
            ) ==> {
                &&& replaced matches Some(r) && r@ == entries_in(*old(map))[i].1
                &&& entries_in(*final(map)) == entries_in(*old(map)).update(
                    i,
                    ((key.0@, key.1), client@),
                )
            },
{
    map.insert(key, client)
}

/// `indexmap::IndexMap::swap_remove_index`: takes a player out and puts the last one in its place;
/// past the end it changes nothing.
#[verifier::external_body]
fn swap_remove_entry(map: &mut IndexMap<(String, u16), Client>, index: usize) -> (removed: Option<
    Client,
>)
    ensures
        removed is Some <==> index < entries_in(*old(map)).len(),
        removed matches Some(c) ==> c@ == entries_in(*old(map))[index as int].1,
        entries_in(*final(map)) == if index < entries_in(*old(map)).len() {
            entries_in(*old(map)).update(index as int, entries_in(*old(map)).last()).drop_last()
        } else {
            entries_in(*old(map))
        },
{
    map.swap_remove_index(index).map(|entry| entry.1)
}

/// `indexmap::IndexMap::clear`: takes everything out.
#[verifier::external_body]
fn clear_entries(map: &mut IndexMap<(String, u16), Client>)
    ensures
        entries_in(*final(map)) == Seq::<((Seq<char>, u16), ClientModel)>::empty(),
{
    map.clear();
}

/// The players, in the order in which they came, no two with the same address and port.
pub struct ClientSet {
    entries: IndexMap<(String, u16), Client>,
}

impl View for ClientSet {
    type V = Seq<ClientModel>;

    closed spec fn view(&self) -> Seq<ClientModel> {
        entries_in(self.entries).map_values(|e: ((Seq<char>, u16), ClientModel)| e.1)
    }
}

impl ClientSet {
    /// Every player is kept under its own key, and the keys are all different.
    pub closed spec fn wf(&self) -> bool {
        &&& forall|i: int|
            0 <= i < entries_in(self.entries).len() ==> (#[trigger] entries_in(self.entries)[i]).0
                == key_of(entries_in(self.entries)[i].1)
        &&& distinct_keys(self@)
    }

    /// In a set no two players share address and port.
    pub proof fn lemma_distinct(&self)
        requires
            self.wf(),
        ensures
            distinct_keys(self@),
    {
    }

    /// A set without players.
    pub fn new() -> (set: Self)
        ensures
            set.wf(),
            set@ == Seq::<ClientModel>::empty(),
    {
        let set = ClientSet { entries: new_map() };
        assert(set@ =~= Seq::<ClientModel>::empty());
        set
    }

    /// How many players there are.
    pub fn len(&self) -> (len: usize)
        ensures
            len == self@.len(),
    {
        entry_count(&self.entries)
    }

    /// The player at a place.
    pub fn get_index(&self, index: usize) -> (client: Option<&Client>)
        ensures
            client is Some <==> index < self@.len(),
            client matches Some(c) ==> c@ == self@[index as int],
    {
        entry_at(&self.entries, index)
    }

    /// Adds a player at the end, unless one with its address and port is there already: then
    /// nothing changes.
    pub fn insert(&mut self, client: Client) -> (inserted: bool)
        requires
            old(self).wf(),
        ensures
            final(self).wf(),
            inserted == !has_key(old(self)@, key_of(client@)),
            final(self)@ == with_client(old(self)@, client@),
    {
        let ghost before = self@;
        let ghost entries = entries_in(self.entries);
        let key = client.key();
        proof {
            if has_key(before, key_of(client@)) {
                let i = choose|i: int|
                    0 <= i < before.len() && key_of(#[trigger] before[i]) == key_of(client@);
                assert(entries[i].0 == key_of(client@));
            }
            if has_entry(entries, key_of(client@)) {
                let i = choose|i: int|
                    0 <= i < entries.len() && (#[trigger] entries[i]).0 == key_of(client@);
                assert(key_of(before[i]) == key_of(client@));
            }
        }
        if contains_entry(&self.entries, &key) {
            return false;
        }
        let ghost added = client@;
        let _ = insert_entry(&mut self.entries, key, client);
        assert(self@ =~= before.push(added));
        assert forall|i: int, j: int| 0 <= i < j < self@.len() implies key_of(#[trigger] self@[i])
            != key_of(#[trigger] self@[j]) by {
            assert(self@[i] == before[i]);
            if j < before.len() {
                assert(self@[j] == before[j]);
            }
        }
        true
    }

    /// Takes the player at a place out; the last one takes its place. Past the end nothing
    /// changes.
    pub fn swap_remove_index(&mut self, index: usize) -> (removed: Option<Client>)
        requires
            old(self).wf(),
        ensures
            final(self).wf(),
            final(self)@ == without_index(old(self)@, index as int),
            removed is Some <==> index < old(self)@.len(),
            removed matches Some(c) ==> c@ == old(self)@[index as int],
    {
        let ghost before = self@;
        let removed = swap_remove_entry(&mut self.entries, index);
        assert(self@ =~= without_index(before, index as int));
        removed
    }

    /// Takes all players out.
    pub fn clear(&mut self)
        ensures
            final(self).wf(),
            final(self)@ == Seq::<ClientModel>::empty(),
    {
        clear_entries(&mut self.entries);
        assert(self@ =~= Seq::<ClientModel>::empty());
    }

    /// Picks the player at a place, or drops it from the picked ones.
    pub fn set_selected(&mut self, index: usize, selected: bool)
        requires
            old(self).wf(),
            index < old(self)@.len(),
        ensures
            final(self).wf(),
            final(self)@ == old(self)@.update(
                index as int,
                with_selected(old(self)@[index as int], selected),
            ),
    {
        let ghost before = self@;
        let client = entry_at_mut(&mut self.entries, index);
        client.selected = selected;
        assert(self@ =~= before.update(
            index as int,
            with_selected(before[index as int], selected),
        ));
        assert forall|i: int| 0 <= i < self@.len() implies key_of(#[trigger] self@[i]) == key_of(
            before[i],
        ) by {}
    }

    /// Picks none of the players.
    pub fn deselect_all(&mut self)
        requires
            old(self).wf(),
        ensures
            final(self).wf(),
            final(self)@ == all_deselected(old(self)@),
    {
        let ghost before = self@;
        let count: usize = self.len();
        let mut i: usize = 0;
        while i < count
            invariant
                self.wf(),
                i <= count,
                count == self@.len(),
                self@.len() == before.len(),
                forall|j: int|
                    0 <= j < i ==> #[trigger] self@[j] == with_selected(before[j], false),
                forall|j: int| i <= j < before.len() ==> #[trigger] self@[j] == before[j],
            decreases count - i,
        {
            self.set_selected(i, false);
            i += 1;
        }
        assert(self@ =~= all_deselected(before));
    }

    /// The players that an action runs on: those picked, or all of them.
    pub fn targets(&self, all: bool) -> (targets: Vec<Client>)
        ensures
            models(targets@) == targets_of(self@, all),
    {
        let ghost chosen = |c: ClientModel| c.selected || all;
        let mut targets: Vec<Client> = Vec::new();
        let count: usize = self.len();
        let mut i: usize = 0;
        assert(models(targets@) =~= self@.take(0).filter(chosen)) by {
            reveal(Seq::filter);
        }
        while i < count
            invariant
                i <= count,
                count == self@.len(),
                chosen == (|c: ClientModel| c.selected || all),
                models(targets@) == self@.take(i as int).filter(chosen),
            decreases count - i,
        {
            let ghost before = targets@;
            proof {
                reveal(Seq::filter);
                assert(self@.take(i + 1).drop_last() =~= self@.take(i as int));
                assert(self@.take(i + 1).last() == self@[i as int]);
            }
            match self.get_index(i) {
                Some(client) => if client.selected || all {
                    targets.push(client.clone());
                    assert(models(targets@) =~= models(before).push(self@[i as int]));
                },
                None => {
                    assert(false);
                },
            }
            i += 1;
        }
        assert(self@.take(i as int) =~= self@);
        targets
    }

    /// Gathers players into a set; of those with one key the first stays.
    pub fn from_clients(clients: Vec<Client>) -> (set: Self)
        ensures
            set.wf(),
            set@ == first_by_key(models(clients@)),
    {
        let mut set = ClientSet::new();
        let mut i: usize = 0;
        while i < clients.len()
            invariant
                set.wf(),
                i <= clients.len(),
                set@ == first_by_key(models(clients@).take(i as int)),
            decreases clients.len() - i,
        {
            let ghost all = models(clients@);
            assert(all.take(i + 1).drop_last() =~= all.take(i as int));
            assert(all.take(i + 1).last() == clients@[i as int]@);
            let _ = set.insert(clients[i].clone());
            i += 1;
        }
        assert(models(clients@).take(i as int) =~= models(clients@));
        set
    }
}

/// A player goes by the key of another one exactly where the two are equal: then the key that it
/// is kept under is that very key, and so a look-up by the key of a player finds exactly the
/// players that are equal to it.
pub proof fn law_a_key_finds_the_equal_players(clients: Seq<Client>, other: Client)
    ensures
        forall|i: int|
            0 <= i < clients.len() ==> (key_of((#[trigger] clients[i])@) == key_of(other@)
                <==> PartialEqSpec::eq_spec(&clients[i], &other)),
        has_key(models(clients), key_of(other@)) <==> exists|i: int|
            0 <= i < clients.len() && PartialEqSpec::eq_spec(&#[trigger] clients[i], &other),
{
    if has_key(models(clients), key_of(other@)) {
        let i = choose|i: int|
            0 <= i < models(clients).len() && key_of(#[trigger] models(clients)[i]) == key_of(
                other@,
            );
        assert(PartialEqSpec::eq_spec(&clients[i], &other));
    }
    if exists|i: int|
        0 <= i < clients.len() && PartialEqSpec::eq_spec(&#[trigger] clients[i], &other) {
        let i = choose|i: int|
            0 <= i < clients.len() && PartialEqSpec::eq_spec(&#[trigger] clients[i], &other);
        assert(key_of(models(clients)[i]) == key_of(other@));
    }
}

/// Players with different keys are all kept, in their order.
pub proof fn law_distinct_clients_are_all_kept(clients: Seq<ClientModel>)
    requires
        distinct_keys(clients),
    ensures
        first_by_key(clients) == clients,
    decreases clients.len(),
{
    if clients.len() > 0 {
        let head = clients.drop_last();
        law_distinct_clients_are_all_kept(head);
        if has_key(head, key_of(clients.last())) {
            let i = choose|i: int|
                0 <= i < head.len() && key_of(#[trigger] head[i]) == key_of(clients.last());
            assert(key_of(clients[i]) == key_of(clients[clients.len() - 1]));
        }
        assert(head.push(clients.last()) =~= clients);
    }
}

/// After all players were dropped from the picked ones, an action runs on none of them, unless
/// it runs on all.
pub proof fn law_no_targets_after_deselecting(clients: Seq<ClientModel>)
    ensures
        targets_of(all_deselected(clients), false) == Seq::<ClientModel>::empty(),
    decreases clients.len(),
{
    reveal(Seq::filter);
    if clients.len() > 0 {
        law_no_targets_after_deselecting(clients.drop_last());
        assert(all_deselected(clients).drop_last() =~= all_deselected(clients.drop_last()));
        assert(!all_deselected(clients).last().selected);
    }
    assert(targets_of(all_deselected(clients), false) =~= Seq::<ClientModel>::empty());
}

/// With everything picked, an action runs on every player, in order.
pub proof fn law_select_all_targets_everyone(clients: Seq<ClientModel>)
    ensures
        targets_of(clients, true) == clients,
    decreases clients.len(),
{
    reveal(Seq::filter);
    if clients.len() > 0 {
        law_select_all_targets_everyone(clients.drop_last());
        assert(clients.drop_last().push(clients.last()) =~= clients);
    }
    assert(targets_of(clients, true) =~= clients);
}

/// Taking a player out leaves exactly the others: every other place keeps its player, but for
/// the last, whose player moves to the place that became free.
pub proof fn law_removal_keeps_the_others(clients: Seq<ClientModel>, index: int)
    requires
        0 <= index < clients.len(),
    ensures
        without_index(clients, index).len() == clients.len() - 1,
        forall|i: int|
            0 <= i < clients.len() - 1 && i != index ==> #[trigger] without_index(
                clients,
                index,
            )[i] == clients[i],
        index < clients.len() - 1 ==> without_index(clients, index)[index] == clients.last(),
        distinct_keys(clients) ==> !has_key(without_index(clients, index), key_of(clients[index])),
{
}

/// Two players are the same exactly where address and port are, whoever logs in there and whether
/// they are picked.
pub proof fn law_address_and_port_tell_players_apart(a: Client, b: Client)
    ensures
        PartialEqSpec::eq_spec(&a, &b) <==> a.address@ == b.address@ && a.port == b.port,
        key_of(a@) == (a.address@, a.port),
{
}

/// A player that is gathered in after others is kept, at the end, exactly where none of those has
/// its address and port.
pub proof fn law_of_equal_players_the_first_stays(
    clients: Seq<ClientModel>,
    client: ClientModel,
)
    ensures
        first_by_key(Seq::<ClientModel>::empty()).len() == 0,
        (exists|i: int|
            0 <= i < clients.len() && (#[trigger] clients[i]).address == client.address
                && clients[i].port == client.port) ==> first_by_key(clients.push(client))
            == first_by_key(clients),
        (forall|i: int|
            0 <= i < clients.len() ==> (#[trigger] clients[i]).address != client.address
                || clients[i].port != client.port) ==> first_by_key(clients.push(client))
            == first_by_key(clients).push(client),
{
    lemma_first_by_key_has_all(clients, key_of(client));
    assert(clients.push(client).drop_last() =~= clients);
    if exists|i: int|
        0 <= i < clients.len() && (#[trigger] clients[i]).address == client.address
            && clients[i].port == client.port {
        let i = choose|i: int|
            0 <= i < clients.len() && (#[trigger] clients[i]).address == client.address
                && clients[i].port == client.port;
        assert(key_of(clients[i]) == key_of(client));
    }
    if has_key(clients, key_of(client)) {
        let i = choose|i: int|
            0 <= i < clients.len() && key_of(#[trigger] clients[i]) == key_of(client);
        assert(clients[i].address == client.address);
    }
}

/// A key is among those that are gathered in exactly where it is among those that stay.
proof fn lemma_first_by_key_has_all(clients: Seq<ClientModel>, key: (Seq<char>, u16))
    ensures
        has_key(first_by_key(clients), key) <==> has_key(clients, key),
    decreases clients.len(),
{
    if clients.len() > 0 {
        let head = clients.drop_last();
        let kept = first_by_key(head);
        lemma_first_by_key_has_all(head, key);
        if has_key(head, key) {
            let i = choose|i: int| 0 <= i < head.len() && key_of(#[trigger] head[i]) == key;
            assert(key_of(clients[i]) == key);
            let k = choose|k: int| 0 <= k < kept.len() && key_of(#[trigger] kept[k]) == key;
            assert(key_of(first_by_key(clients)[k]) == key);
        }
        if key_of(clients.last()) == key {
            assert(key_of(clients[clients.len() - 1]) == key);
            if !has_key(kept, key) {
                assert(key_of(first_by_key(clients)[kept.len() as int]) == key);
            }
        }
        if has_key(clients, key) && !has_key(head, key) {
            let i = choose|i: int| 0 <= i < clients.len() && key_of(#[trigger] clients[i]) == key;
            if i < head.len() {
                assert(key_of(head[i]) == key);
            }
        }
        if has_key(first_by_key(clients), key) && !has_key(kept, key) {
            let all = first_by_key(clients);
            let i = choose|i: int| 0 <= i < all.len() && key_of(#[trigger] all[i]) == key;
            if i < kept.len() {
                assert(key_of(kept[i]) == key);
            }
        }
    }
}

/// A player that is put into a set comes last, and those that are there stay as they are; where one
/// has its address and port, nothing changes.
pub proof fn law_a_player_comes_last(clients: Seq<ClientModel>, client: ClientModel)
    ensures
        (exists|i: int|
            0 <= i < clients.len() && (#[trigger] clients[i]).address == client.address
                && clients[i].port == client.port) ==> with_client(clients, client) == clients,
        (forall|i: int|
            0 <= i < clients.len() ==> (#[trigger] clients[i]).address != client.address
                || clients[i].port != client.port) ==> with_client(clients, client)
            == clients.push(client),
        has_key(clients, key_of(client)) <==> exists|i: int|
            0 <= i < clients.len() && (#[trigger] clients[i]).address == client.address
                && clients[i].port == client.port,
{
    if exists|i: int|
        0 <= i < clients.len() && (#[trigger] clients[i]).address == client.address
            && clients[i].port == client.port {
        let i = choose|i: int|
            0 <= i < clients.len() && (#[trigger] clients[i]).address == client.address
                && clients[i].port == client.port;
        assert(key_of(clients[i]) == key_of(client));
    }
    if has_key(clients, key_of(client)) {
        let i = choose|i: int|
            0 <= i < clients.len() && key_of(#[trigger] clients[i]) == key_of(client);
        assert(clients[i].address == client.address);
    }
}

/// To pick a player, or to drop it, changes nothing else about it.
pub proof fn law_picking_changes_only_the_mark(clients: Seq<ClientModel>, selected: bool, i: int)
    requires
        0 <= i < clients.len(),
    ensures
        with_selected(clients[i], selected).selected == selected,
        with_selected(clients[i], selected).address == clients[i].address,
        with_selected(clients[i], selected).port == clients[i].port,
        with_selected(clients[i], selected).user == clients[i].user,
        with_selected(clients[i], selected).pass == clients[i].pass,
        all_deselected(clients).len() == clients.len(),
        all_deselected(clients)[i] == (ClientModel { selected: false, ..clients[i] }),
{
}

/// One more player at the end of the list is run on after the others exactly where it is picked or
/// all are.
pub proof fn law_targets_keep_the_order(
    clients: Seq<ClientModel>,
    client: ClientModel,
    all: bool,
)
    ensures
        targets_of(Seq::<ClientModel>::empty(), all).len() == 0,
        client.selected || all ==> targets_of(clients.push(client), all) == targets_of(
            clients,
            all,
        ).push(client),
        !client.selected && !all ==> targets_of(clients.push(client), all) == targets_of(
            clients,
            all,
        ),
{
    reveal(Seq::filter);
    assert(clients.push(client).drop_last() =~= clients);
}

/// What is said of a player is said of each of its fields, and of a list of players of each of
/// them, in order.
pub proof fn law_a_player_is_all_its_fields(client: Client, clients: Seq<Client>)
    ensures
        client@.address == client.address@,
        client@.port == client.port,
        client@.user == client.user@,
        client@.pass == client.pass@,
        client@.selected == client.selected,
        models(clients).len() == clients.len(),
        forall|i: int| 0 <= i < clients.len() ==> #[trigger] models(clients)[i] == clients[i]@,
{
}

} // verus!
