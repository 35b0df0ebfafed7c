use chat_core::registry::find_match;
use chat_core::{Message, Rooms, SavedMessages, Users};

fn message(room: &str, username: &str, text: &str) -> Message {
    Message {
        room: String::from(room),
        username: String::from(username),
        message: String::from(text),
        color: String::from("blue"),
    }
}

fn welcome(room: &str) -> Message {
    Message {
        room: String::from(room),
        username: String::from("System"),
        message: format!("Welcome to {}", room),
        color: String::from("hash"),
    }
}

fn names(list: &[&str]) -> Vec<String> {
    list.iter().map(|s| String::from(*s)).collect()
}

fn users_of(list: &[&str]) -> Users {
    let mut users = Users::new();
    for name in list {
        users.rename_user(&String::from("\u{1}"), String::from(*name));
    }
    assert_eq!(users.snapshot_users(), names(list));
    users
}

#[test]
fn rooms_start_with_the_lobby() {
    assert_eq!(Rooms::new().snapshot_rooms(), names(&["lobby"]));
}

#[test]
fn ensure_room_adds_an_unknown_room_once() {
    let mut rooms = Rooms::new();
    rooms.ensure_room("games");
    assert_eq!(rooms.snapshot_rooms(), names(&["lobby", "games"]));
    rooms.ensure_room("games");
    assert_eq!(rooms.snapshot_rooms(), names(&["lobby", "games"]));
    rooms.ensure_room("lobby");
    assert_eq!(rooms.snapshot_rooms(), names(&["lobby", "games"]));
}

#[test]
fn ensure_room_takes_a_matching_name_as_known() {
    let mut rooms = Rooms::new();
    rooms.ensure_room("lo");
    rooms.ensure_room("lobbyists");
    rooms.ensure_room("");
    assert_eq!(rooms.snapshot_rooms(), names(&["lobby"]));
    rooms.ensure_room("loby");
    assert_eq!(rooms.snapshot_rooms(), names(&["lobby", "loby"]));
}

#[test]
fn users_start_empty() {
    assert_eq!(Users::new().snapshot_users(), Vec::<String>::new());
}

#[test]
fn rename_to_the_same_name_changes_nothing() {
    let mut users = users_of(&["alice", "carol"]);
    users.rename_user(&String::from("alice"), String::from("alice"));
    assert_eq!(users.snapshot_users(), names(&["alice", "carol"]));
    let mut nobody = Users::new();
    nobody.rename_user(&String::from("alice"), String::from("alice"));
    assert_eq!(nobody.snapshot_users(), Vec::<String>::new());
}

#[test]
fn rename_takes_out_the_old_name_and_adds_the_new_one() {
    let mut users = users_of(&["alice", "carol"]);
    users.rename_user(&String::from("alice"), String::from("bob"));
    assert_eq!(users.snapshot_users(), names(&["carol", "bob"]));
}

#[test]
fn rename_of_an_unknown_name_adds_the_new_one() {
    let mut users = users_of(&["carol"]);
    users.rename_user(&String::from("alice"), String::from("bob"));
    assert_eq!(users.snapshot_users(), names(&["carol", "bob"]));
}

#[test]
fn rename_takes_out_one_entry_only() {
    let mut users = users_of(&["alice", "carol", "alice"]);
    users.rename_user(&String::from("alice"), String::from("bob"));
    assert_eq!(users.snapshot_users(), names(&["carol", "alice", "bob"]));
}

#[test]
fn rename_takes_out_the_first_entry_that_matches() {
    let mut users = users_of(&["carol", "al", "alice"]);
    users.rename_user(&String::from("alice"), String::from("bob"));
    assert_eq!(users.snapshot_users(), names(&["carol", "alice", "bob"]));
    let mut others = users_of(&["carol", "malice"]);
    others.rename_user(&String::from("alice"), String::from("bob"));
    assert_eq!(others.snapshot_users(), names(&["carol", "bob"]));
}

#[test]
fn history_of_an_unwritten_room_is_not_found() {
    let saved = SavedMessages::new();
    assert_eq!(saved.snapshot_history("lobby"), None);
    let mut other = SavedMessages::new();
    other.append_history("games", message("games", "alice", "anyone here"));
    assert_eq!(other.snapshot_history("lobby"), None);
}

#[test]
fn first_message_follows_the_welcome() {
    let mut saved = SavedMessages::new();
    let first = message("lobby", "alice", "good morning");
    saved.append_history("lobby", first.clone());
    assert_eq!(saved.snapshot_history("lobby"), Some(vec![welcome("lobby"), first]));
}

#[test]
fn later_messages_follow_in_order() {
    let mut saved = SavedMessages::new();
    let mut expected = vec![welcome("lobby")];
    for i in 0..25 {
        let m = message("lobby", "alice", &format!("message number {}", i));
        saved.append_history("lobby", m.clone());
        expected.push(m);
    }
    let history = saved.snapshot_history("lobby").unwrap();
    assert_eq!(history.len(), 26);
    assert_eq!(history, expected);
}

#[test]
fn rooms_keep_histories_apart() {
    let mut saved = SavedMessages::new();
    let a = message("lobby", "alice", "good morning");
    let b = message("games", "bob", "chess anyone");
    let c = message("lobby", "carol", "hello alice");
    saved.append_history("lobby", a.clone());
    saved.append_history("games", b.clone());
    saved.append_history("lobby", c.clone());
    assert_eq!(saved.snapshot_history("lobby"), Some(vec![welcome("lobby"), a, c]));
    assert_eq!(saved.snapshot_history("games"), Some(vec![welcome("games"), b]));
}

#[test]
fn a_matching_room_name_is_saved_under_the_first_key() {
    let mut saved = SavedMessages::new();
    let a = message("lob", "alice", "good morning");
    let b = message("lobby", "bob", "hello");
    saved.append_history("lob", a.clone());
    saved.append_history("lobby", b.clone());
    assert_eq!(saved.snapshot_history("lob"), Some(vec![welcome("lob"), a, b]));
    assert_eq!(saved.snapshot_history("games"), None);
}

#[test]
fn history_is_found_by_the_exact_name_only() {
    let mut saved = SavedMessages::new();
    let a = message("lobby", "alice", "good morning");
    saved.append_history("lobby", a.clone());
    assert_eq!(saved.snapshot_history("lobby"), Some(vec![welcome("lobby"), a]));
    assert_eq!(saved.snapshot_history("lo"), None);
    assert_eq!(saved.snapshot_history("lobby2"), None);
    assert_eq!(saved.snapshot_history("Lobby"), None);
    assert_eq!(saved.snapshot_history(""), None);
    let mut other = SavedMessages::new();
    other.append_history("lob", message("lob", "alice", "good morning"));
    other.append_history("lobby", message("lobby", "bob", "hello"));
    assert_eq!(other.snapshot_history("lobby"), None);
}

#[test]
fn welcome_names_the_room() {
    let greeting = Message::welcome("games");
    assert_eq!(greeting, welcome("games"));
    assert_eq!(greeting.message, "Welcome to games");
    assert_eq!(greeting.username, "System");
    assert_eq!(greeting.color, "hash");
}

#[test]
fn message_lengths_are_checked() {
    assert!(message("lobby", "alice", "hi").is_valid());
    assert!(message("l", "", "").is_valid());
    assert!(!message("", "alice", "hi").is_valid());
    assert!(message(&"r".repeat(31), "alice", "hi").is_valid());
    assert!(!message(&"r".repeat(32), "alice", "hi").is_valid());
    assert!(message("lobby", &"u".repeat(31), "hi").is_valid());
    assert!(!message("lobby", &"u".repeat(32), "hi").is_valid());
    assert!(message("lobby", "alice", &"m".repeat(65535)).is_valid());
    assert!(!message("lobby", "alice", &"m".repeat(65536)).is_valid());
    let mut tagged = message("lobby", "alice", "hi");
    tagged.color = "c".repeat(23);
    assert!(tagged.is_valid());
    tagged.color = "c".repeat(24);
    assert!(!tagged.is_valid());
    assert!(message(&"é".repeat(31), "alice", "hi").is_valid());
}

#[test]
fn clone_keeps_every_field() {
    let m = message("lobby", "alice", "good morning");
    let copy = m.clone();
    assert_eq!(copy, m);
    assert_eq!(copy.room, "lobby");
    assert_eq!(copy.username, "alice");
    assert_eq!(copy.message, "good morning");
    assert_eq!(copy.color, "blue");
}

#[test]
fn find_match_gives_the_first_place_that_matches() {
    let list = names(&["carol", "al", "alice", "bob"]);
    assert_eq!(find_match(&list, "alice"), Some(1));
    assert_eq!(find_match(&list, "ali"), Some(1));
    assert_eq!(find_match(&list, "lic"), Some(2));
    assert_eq!(find_match(&list, "bobby"), Some(3));
    assert_eq!(find_match(&list, "dave"), None);
    assert_eq!(find_match(&list, ""), Some(0));
    assert_eq!(find_match(&Vec::new(), "alice"), None);
}
