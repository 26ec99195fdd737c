//! Decisions of the interactive surfaces: what one trimmed line of user
//! input asks for.

use vstd::prelude::*;

use crate::text::str_eq;

verus! {

/// What a line typed into the interactive chat asks for.
#[derive(Debug, Clone, Copy, PartialEq, Eq, Structural)]
pub enum ChatInput {
    /// Nothing was typed; read again.
    Empty,
    /// Leave the chat.
    Quit,
    /// List the conversations.
    ListConversations,
    /// Show the command help.
    Help,
    /// A slash command nobody knows.
    Unknown,
    /// Anything else: a message to send as typed.
    Message,
}

/// What a trimmed chat line means.
pub open spec fn spec_chat_input(s: Seq<char>) -> ChatInput {
    if s.len() == 0 {
        ChatInput::Empty
    } else if s[0] == '/' {
        if s == "/quit"@ || s == "/q"@ {
            ChatInput::Quit
        } else if s == "/list"@ || s == "/l"@ {
            ChatInput::ListConversations
        } else if s == "/help"@ || s == "/h"@ {
            ChatInput::Help
        } else {
            ChatInput::Unknown
        }
    } else {
        ChatInput::Message
    }
}

/// Classify a trimmed line typed into the interactive chat.
pub fn parse_chat_input(s: &str) -> (r: ChatInput)
    ensures
        r == spec_chat_input(s@),
{
    let n = s.unicode_len();
    if n == 0 {
        return ChatInput::Empty;
    }
    if s.get_char(0) != '/' {
        return ChatInput::Message;
    }
    if str_eq(s, "/quit") || str_eq(s, "/q") {
        ChatInput::Quit
    } else if str_eq(s, "/list") || str_eq(s, "/l") {
        ChatInput::ListConversations
    } else if str_eq(s, "/help") || str_eq(s, "/h") {
        ChatInput::Help
    } else {
        ChatInput::Unknown
    }
}

/// Whether a trimmed line typed into the event monitor asks to leave.
pub fn wants_exit(s: &str) -> (r: bool)
    ensures
        r == (s@ == "q"@ || s@ == "quit"@ || s@ == "exit"@),
{
    str_eq(s, "q") || str_eq(s, "quit") || str_eq(s, "exit")
}

} // verus!
