//! The command surface of the client, as plain data.
//!
//! Each variant names one operation a user can ask for, with the values
//! it needs. The argument-parsing layer above the library builds these
//! from flags; everything below decides from the values alone.

use vstd::prelude::*;

verus! {

/// Operations on the user's own profile.
#[derive(Debug, Clone)]
pub enum UserCommands {
    /// Get the current user's profile.
    Me,
    /// Set the user's link id.
    SetLinkId { linkid: String },
    /// Check whether a link id is still free.
    CheckLinkId { linkid: String },
}

/// Operations on messages.
#[derive(Debug, Clone)]
pub enum MessageCommands {
    /// Send a message to a conversation.
    Send { conversation: String, content: String },
    /// List the latest messages of a conversation.
    List { conversation: String, limit: i32 },
}

/// Operations on conversations.
#[derive(Debug, Clone)]
pub enum ChatCommands {
    /// List all conversations.
    List,
    /// Get one conversation's details.
    Get { id: String },
    /// Open (or find) the direct conversation with a user.
    CreateDirect { user: String },
    /// Create a group conversation with the named members.
    CreateGroup { name: String, members: String },
}

/// Operations on the friend list.
#[derive(Debug, Clone)]
pub enum FriendCommands {
    /// List all friends.
    List,
    /// List pending friend requests.
    Requests,
    /// Send a friend request.
    Add { user: String, message: Option<String> },
    /// Accept a friend request.
    Accept { request: String },
    /// Reject a friend request.
    Reject { request: String },
    /// Remove a friend.
    Remove { user: String },
}

} // verus!
