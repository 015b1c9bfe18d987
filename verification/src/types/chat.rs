use std::time::SystemTime;
use vstd::prelude::*;
use vstd::string::StringExecFns;

verus! {

/// Makes `std::time::SystemTime` known. Nothing is said of what it holds.
#[verifier::external_type_specification]
#[verifier::external_body]
pub struct ExSystemTime(SystemTime);

/// Calls `SystemTime::now`. Nothing is known of the time that it gives.
#[verifier::external_body]
fn now() -> SystemTime {
    SystemTime::now()
}

/// A line of the chat.
#[derive(Debug)]
pub struct ChatMessage {
    pub message: String,
    pub from: String,
    pub timestamp: SystemTime,
    pub is_system: bool,
}

impl Clone for ChatMessage {
    fn clone(&self) -> (copy: Self)
        ensures
            copy == *self,
    {
        ChatMessage {
            message: self.message.clone(),
            from: self.from.clone(),
            timestamp: self.timestamp,
            is_system: self.is_system,
        }
    }
}

impl ChatMessage {
    /// A message that `from` wrote at the time `timestamp`.
    pub fn new_at(message: String, from: String, timestamp: SystemTime) -> (chat: Self)
        ensures
            chat.message == message,
            chat.from == from,
            chat.timestamp == timestamp,
            !chat.is_system,
    {
        ChatMessage { message, from, timestamp, is_system: false }
    }

    /// A message that the system wrote at the time `timestamp`.
    pub fn system_message_at(message: String, timestamp: SystemTime) -> (chat: Self)
        ensures
            chat.message == message,
            chat.from@ == "[SYSTEM]"@,
            chat.timestamp == timestamp,
            chat.is_system,
    {
        ChatMessage { message, from: "[SYSTEM]".to_owned(), timestamp, is_system: true }
    }

    /// A message that the server wrote at the time `timestamp`.
    pub fn server_message_at(message: String, timestamp: SystemTime) -> (chat: Self)
        ensures
            chat.message == message,
            chat.from@ == "[SERVER]"@,
            chat.timestamp == timestamp,
            chat.is_system,
    {
        ChatMessage { message, from: "[SERVER]".to_owned(), timestamp, is_system: true }
    }

    /// A message that `from` wrote, stamped with the present time.
    #[inline]
    pub fn new(message: String, from: String) -> (chat: Self)
        ensures
            chat.message == message,
            chat.from == from,
            !chat.is_system,
    {
        ChatMessage::new_at(message, from, now())
    }

    /// A message of the system, stamped with the present time.
    #[inline]
    pub fn system_message(message: String) -> (chat: Self)
        ensures
            chat.message == message,
            chat.from@ == "[SYSTEM]"@,
            chat.is_system,
    {
        ChatMessage::system_message_at(message, now())
    }

    /// A message of the server, stamped with the present time.
    pub fn server_message(message: String) -> (chat: Self)
        ensures
            chat.message == message,
            chat.from@ == "[SERVER]"@,
            chat.is_system,
    {
        ChatMessage::server_message_at(message, now())
    }
}

/// What the server says when the player `username` has connected.
pub fn connected_text(username: &str) -> (text: String)
    ensures
        text@ == "Player "@ + username@ + " connected."@,
{
    let mut text = "Player ".to_owned();
    text.append(username);
    text.append(" connected.");
    text
}

/// What the server says when the player `username` has disconnected.
pub fn disconnected_text(username: &str) -> (text: String)
    ensures
        text@ == "Player "@ + username@ + " disconnected."@,
{
    let mut text = "Player ".to_owned();
    text.append(username);
    text.append(" disconnected.");
    text
}

} // verus!
