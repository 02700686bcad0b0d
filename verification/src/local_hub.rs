//! Local collaboration hub shapes: rooms, participants and messages.

use vstd::prelude::*;

verus! {

/// Role of a room participant.
#[derive(Debug, Clone, Copy, PartialEq, Eq, Structural)]
pub enum ParticipantRole {
    Host,
    Participant,
}

/// A request to open a room.
#[derive(Debug)]
pub struct CreateRoomRequest {
    pub name: Option<String>,
    pub is_private: bool,
    pub max_participants: Option<i32>,
    pub expires_hours: Option<i32>,
}

/// A request to join a room by its code.
#[derive(Debug)]
pub struct JoinRoomRequest {
    pub room_code: String,
    pub user_name: String,
}

/// What kind of payload a room message carries.
#[derive(Debug)]
pub enum MessageType {
    Text,
    File { filename: String, size: u64, url: String },
    System { event: String },
}

} // verus!
