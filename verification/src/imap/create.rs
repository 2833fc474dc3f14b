//! The CREATE command.

use vstd::prelude::*;
use crate::imap::command::{tagged, tagged_reply, CommandData, CommandView, Commands};
use crate::imap::state::{is_allowed, not_allowed, ConnectionView, Data};
use crate::mailbox::{disk_folder, disk_name, is_trash, is_trash_folder, MailboxRef};

verus! {

/// Whether the session may create folders: the command is legal in its
/// state and it knows its user.
pub open spec fn create_allowed(con: ConnectionView) -> bool {
    is_allowed(Commands::Create, con.state) && con.username is Some
}

/// The folder that a CREATE command asks for, with its user, and whether it
/// is to be marked as the folder for deleted mail: the session may create
/// folders and the command has exactly one argument.
pub open spec fn create_target(con: ConnectionView, command: CommandView) -> Option<
    ((Seq<char>, Seq<char>), bool),
> {
    if create_allowed(con) && command.arguments.len() == 1 {
        let folder = disk_name(command.arguments[0]);
        Some(((con.username->0, folder), is_trash(folder)))
    } else {
        None
    }
}

/// The line that answers a CREATE command, where `created` says whether the
/// storage made the folder. A session that may not create folders is
/// refused with the name of its state.
pub open spec fn create_lines(con: ConnectionView, command: CommandView, created: bool) -> Seq<
    Seq<char>,
> {
    if !create_allowed(con) {
        seq![not_allowed(command.tag, con.state)]
    } else if command.arguments.len() != 1 {
        seq![tagged(command.tag, "BAD [SERVERBUG] invalid arguments"@)]
    } else if created {
        seq![tagged(command.tag, "OK CREATE completed"@)]
    } else {
        seq![tagged(command.tag, "NO CREATE failure"@)]
    }
}

/// What an optional target stands for.
pub open spec fn target_view(target: Option<(MailboxRef, bool)>) -> Option<
    ((Seq<char>, Seq<char>), bool),
> {
    match target {
        Some((mailbox, trash)) => Some((mailbox@, trash)),
        None => None,
    }
}

/// The CREATE command of one connection.
pub struct Create<'a> {
    pub data: &'a Data,
}

impl Create<'_> {
    /// The folder that the storage is to make, if the command names one.
    pub fn target(&self, command_data: &CommandData) -> (r: Option<(MailboxRef, bool)>)
        ensures
            target_view(r) == create_target(self.data.con_state@, command_data@),
    {
        if !self.data.is_legal(Commands::Create) || command_data.arguments.len() != 1 {
            return None;
        }
        match &self.data.con_state.username {
            Some(username) => {
                let folder = disk_folder(command_data.arguments[0].as_str());
                let trash = is_trash_folder(folder.as_str());
                Some((MailboxRef { username: username.clone(), folder }, trash))
            },
            None => None,
        }
    }

    /// Answers the command, once the storage has said whether it made the
    /// folder.
    pub fn exec(&self, command_data: &CommandData, created: bool) -> (lines: Vec<String>)
        ensures
            lines.deep_view() == create_lines(self.data.con_state@, command_data@, created),
    {
        if !self.data.is_legal(Commands::Create) || self.data.con_state.username.is_none() {
            self.data.refuse(&command_data.tag)
        } else if command_data.arguments.len() != 1 {
            tagged_reply(&command_data.tag, "BAD [SERVERBUG] invalid arguments")
        } else if created {
            tagged_reply(&command_data.tag, "OK CREATE completed")
        } else {
            tagged_reply(&command_data.tag, "NO CREATE failure")
        }
    }
}

} // verus!
