use voxel_world::types::chat::{connected_text, disconnected_text, ChatMessage};
use voxel_world::types::net::AuthUserData;
use voxel_world::utils::{banned_name, check_password, check_username, judge_username};

#[test]
fn plain_names_are_accepted() {
    assert_eq!(check_username("abc"), Ok(()));
    assert_eq!(check_username("default"), Ok(()));
    assert_eq!(check_username("Player One"), Ok(()));
    assert_eq!(check_username("Debug1234"), Ok(()));
    assert_eq!(check_username("a]b[c"), Ok(()));
    assert_eq!(check_username("abcdefghijklmnopqrstuvwx"), Ok(()));
}

#[test]
fn name_length_is_checked_first() {
    assert_eq!(check_username(""), Err("Username is too short"));
    assert_eq!(check_username("ab"), Err("Username is too short"));
    assert_eq!(check_username("  "), Err("Username is too short"));
    assert_eq!(check_username("abcdefghijklmnopqrstuvwxy"), Err("Username is too long"));
    assert_eq!(check_username("[abcdefghijklmnopqrstuvwxy]"), Err("Username is too long"));
    assert_eq!(check_username("\u{e9}\u{e9}"), Err("Username contains Non-ASCII characters"));
    assert_eq!(check_username("\u{e9}"), Err("Username is too short"));
}

#[test]
fn banned_names_give_their_reason() {
    assert_eq!(check_username("h\u{e9}llo"), Err("Username contains Non-ASCII characters"));
    assert_eq!(check_username("tab\there"), Err("Username contains Non-ASCII characters"));
    assert_eq!(check_username("     "), Err("Empty username"));
    assert_eq!(check_username(" abc"), Err("Usernames can't start/end with spaces"));
    assert_eq!(check_username("abc "), Err("Usernames can't start/end with spaces"));
    assert_eq!(
        check_username("[SYSTEM]"),
        Err("Usernames wrapped in square brackets are not allowed")
    );
    assert_eq!(
        check_username("a[b]c"),
        Err("Usernames wrapped in square brackets are not allowed")
    );
    assert_eq!(check_username(" [x]"), Err("Usernames can't start/end with spaces"));
}

#[test]
fn rules_are_in_order() {
    assert_eq!(banned_name(0), ("[^\\x20-\\x7E]", "Username contains Non-ASCII characters"));
    assert_eq!(banned_name(1).1, "Empty username");
    assert_eq!(banned_name(2).0, "(^\\s+)|(\\s+$)");
    assert_eq!(banned_name(3).0, "\\[.*\\]");
}

#[test]
fn verdict_follows_the_first_rule_that_does_not_clear() {
    let clear = Some(false);
    assert_eq!(judge_username(3, &[clear; 4]), Ok(()));
    assert_eq!(judge_username(24, &[clear; 4]), Ok(()));
    assert_eq!(judge_username(2, &[clear; 4]), Err("Username is too short"));
    assert_eq!(judge_username(25, &[clear; 4]), Err("Username is too long"));
    assert_eq!(judge_username(2, &[Some(true); 4]), Err("Username is too short"));
    assert_eq!(
        judge_username(5, &[clear, clear, Some(true), Some(true)]),
        Err("Usernames can't start/end with spaces")
    );
    assert_eq!(judge_username(5, &[clear, None, clear, clear]), Err("Empty username"));
    assert_eq!(
        judge_username(5, &[clear, clear, clear, Some(true)]),
        Err("Usernames wrapped in square brackets are not allowed")
    );
}

#[test]
fn password_has_six_to_128_bytes() {
    assert_eq!(check_password("12345"), Err("invalid password"));
    assert_eq!(check_password(""), Err("invalid password"));
    assert_eq!(check_password("123456"), Ok(()));
    assert_eq!(check_password(&"x".repeat(128)), Ok(()));
    assert_eq!(check_password(&"x".repeat(129)), Err("invalid password"));
    assert_eq!(check_password("\u{e9}\u{e9}\u{e9}"), Ok(()));
}

#[test]
fn chat_messages_know_their_sender() {
    let chat = ChatMessage::new("hello".to_string(), "alice".to_string());
    assert_eq!(chat.message, "hello");
    assert_eq!(chat.from, "alice");
    assert!(!chat.is_system);
    let system = ChatMessage::system_message("restart".to_string());
    assert_eq!(system.message, "restart");
    assert_eq!(system.from, "[SYSTEM]");
    assert!(system.is_system);
    let server = ChatMessage::server_message("hi".to_string());
    assert_eq!(server.from, "[SERVER]");
    assert!(server.is_system);
    let copy = chat.clone();
    assert_eq!(copy.message, chat.message);
    assert_eq!(copy.timestamp, chat.timestamp);
    assert!(chat.timestamp <= std::time::SystemTime::now());
}

#[test]
fn chat_messages_keep_the_time_they_are_given() {
    let time = std::time::SystemTime::UNIX_EPOCH + std::time::Duration::from_secs(86_400);
    let chat = ChatMessage::new_at("hi".to_string(), "bob".to_string(), time);
    assert_eq!(chat.message, "hi");
    assert_eq!(chat.from, "bob");
    assert!(!chat.is_system);
    assert_eq!(chat.timestamp, time);
    let system = ChatMessage::system_message_at("Player bob connected.".to_string(), time);
    assert_eq!(system.message, "Player bob connected.");
    assert_eq!(system.from, "[SYSTEM]");
    assert!(system.is_system);
    assert_eq!(system.timestamp, time);
    let server = ChatMessage::server_message_at("up".to_string(), time);
    assert_eq!(server.from, "[SERVER]");
    assert!(server.is_system);
    assert_eq!(server.timestamp, time);
    let before = std::time::SystemTime::now();
    let now = ChatMessage::new("x".to_string(), "y".to_string());
    assert!(before <= now.timestamp);
}

#[test]
fn connection_texts_name_the_player() {
    assert_eq!(connected_text("bob"), "Player bob connected.");
    assert_eq!(disconnected_text("bob"), "Player bob disconnected.");
    assert_eq!(disconnected_text(""), "Player  disconnected.");
}

#[test]
fn auth_data_holds_the_name() {
    let data = AuthUserData { username: "carol".to_string() };
    assert_eq!(data.clone().username, "carol");
}
