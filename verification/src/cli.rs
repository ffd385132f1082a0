//! The command tree. Every command reports in machine-readable form; the
//! argument parser that fills these types lives with the program.
use vstd::prelude::*;
use std::path::PathBuf;

verus! {

/// A filesystem path, carried through untouched.
#[verifier::external_type_specification]
#[verifier::external_body]
pub struct ExPathBuf(PathBuf);

/// The whole command line.
#[derive(Debug)]
pub struct Cli {
    /// Target account; the default account when absent.
    pub account: Option<String>,
    /// Folder to operate on (`INBOX` by default).
    pub folder: String,
    pub command: Command,
}

/// The commands.
#[derive(Debug)]
pub enum Command {
    /// Account authentication and management.
    Auth { action: AuthAction },
    /// Search; metadata only.
    Search {
        query: Option<String>,
        limit: usize,
        expect_uidvalidity: Option<u32>,
        cached: bool,
    },
    /// Read one message body.
    Read { uid: u32 },
    /// Set flags on a message.
    Flag { uid: u32, read: bool, star: bool },
    /// Move messages to the trash; previews unless confirmed.
    Trash { uids: Vec<u32>, confirm: bool, expect_uidvalidity: Option<u32> },
    /// Move messages from the trash back to a folder.
    Restore { uids: Vec<u32>, to: String, expect_uidvalidity: Option<u32> },
    /// List folders and labels.
    Folders,
    /// Local cache management.
    Cache { action: CacheAction },
    /// Pull the folder's metadata into the local cache.
    Sync,
    /// Move messages to another folder.
    Move { uids: Vec<u32>, to: String, create: bool, expect_uidvalidity: Option<u32> },
    /// Add or remove Gmail labels.
    Label {
        uids: Vec<u32>,
        add: Vec<String>,
        remove: Vec<String>,
        expect_uidvalidity: Option<u32>,
    },
    /// Send mail; saves a draft unless confirmed.
    Send {
        to: Vec<String>,
        subject: String,
        body_file: Option<PathBuf>,
        body: Option<String>,
        confirm: bool,
    },
}

/// Cache subcommands.
#[derive(Debug, Clone, Copy, PartialEq, Eq, Structural)]
pub enum CacheAction {
    Info,
    Clear,
}

/// Account subcommands.
#[derive(Debug)]
pub enum AuthAction {
    Login {
        provider: String,
        email: String,
        password: Option<String>,
        client_id: Option<String>,
        client_secret: Option<String>,
        secret_ref: Option<String>,
    },
    List,
    Logout { email: String },
}

} // verus!
