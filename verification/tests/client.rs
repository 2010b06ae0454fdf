use player_control::client::{Client, ClientSet};

fn player(address: &str, port: u16) -> Client {
    Client {
        address: address.to_string(),
        port,
        user: "user".to_string(),
        pass: "pass".to_string(),
        selected: false,
    }
}

fn addresses(set: &ClientSet) -> Vec<String> {
    (0..set.len()).map(|i| set.get_index(i).unwrap().address.clone()).collect()
}

fn three() -> ClientSet {
    ClientSet::from_clients(vec![player("a", 22), player("b", 22), player("c", 22)])
}

#[test]
fn a_player_starts_at_the_usual_port() {
    let client = Client::default();
    assert_eq!(client.port, 22);
    assert_eq!(client.address, "");
    assert_eq!(client.user, "");
    assert_eq!(client.pass, "");
    assert!(!client.selected);
}

#[test]
fn address_and_port_tell_players_apart() {
    let mut other = player("a", 22);
    other.user = "someone".to_string();
    other.selected = true;
    assert!(player("a", 22) == other);
    assert!(player("a", 22) != player("a", 23));
    assert!(player("a", 22) != player("b", 22));
    assert!(player("a", 22).equivalent(&("a".to_string(), 22)));
    assert!(!player("a", 22).equivalent(&("a".to_string(), 23)));
    assert_eq!(player("a", 22).key(), ("a".to_string(), 22));
}

#[test]
fn a_player_is_taken_in_once() {
    let mut set = ClientSet::new();
    assert!(set.insert(player("a", 22)));
    let mut again = player("a", 22);
    again.user = "someone".to_string();
    assert!(!set.insert(again));
    assert!(set.insert(player("a", 23)));
    assert_eq!(set.len(), 2);
    assert_eq!(set.get_index(0).unwrap().user, "user");
    assert!(set.get_index(2).is_none());
}

#[test]
fn the_last_player_takes_the_free_place() {
    let mut set = three();
    assert_eq!(set.swap_remove_index(0).unwrap().address, "a");
    assert_eq!(addresses(&set), vec!["c", "b"]);
    assert!(set.swap_remove_index(2).is_none());
    assert_eq!(addresses(&set), vec!["c", "b"]);
    assert!(set.insert(player("a", 22)));
    assert!(!set.insert(player("c", 22)));
    assert_eq!(addresses(&set), vec!["c", "b", "a"]);
}

#[test]
fn a_key_finds_the_equal_player() {
    let set = three();
    let mut other = player("b", 22);
    other.pass = "other".to_string();
    let key = other.key();
    let found: Vec<usize> = (0..set.len()).filter(|i| set.get_index(*i).unwrap().equivalent(&key)).collect();
    let equal: Vec<usize> = (0..set.len()).filter(|i| *set.get_index(*i).unwrap() == other).collect();
    assert_eq!(found, vec![1]);
    assert_eq!(equal, vec![1]);
}

#[test]
fn a_picked_player_keeps_its_key() {
    let mut set = three();
    set.set_selected(1, true);
    assert!(!set.insert(player("b", 22)));
    assert!(set.get_index(1).unwrap().selected);
    assert_eq!(set.get_index(1).unwrap().user, "user");
    assert_eq!(addresses(&set), vec!["a", "b", "c"]);
}

#[test]
fn all_players_can_go() {
    let mut set = three();
    set.clear();
    assert_eq!(set.len(), 0);
    assert!(set.insert(player("a", 22)));
}

#[test]
fn actions_run_on_the_picked_players() {
    let mut set = three();
    assert!(set.targets(false).is_empty());
    set.set_selected(2, true);
    set.set_selected(0, true);
    let picked: Vec<String> = set.targets(false).into_iter().map(|c| c.address).collect();
    assert_eq!(picked, vec!["a", "c"]);
    assert_eq!(set.targets(true).len(), 3);
    set.deselect_all();
    assert!(set.targets(false).is_empty());
    assert_eq!(set.targets(true).len(), 3);
}

#[test]
fn of_equal_players_the_first_stays() {
    let mut second = player("a", 22);
    second.user = "late".to_string();
    let set = ClientSet::from_clients(vec![player("a", 22), player("b", 1), second]);
    assert_eq!(addresses(&set), vec!["a", "b"]);
    assert_eq!(set.get_index(0).unwrap().user, "user");
}
