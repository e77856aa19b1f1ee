//! The command line of `tsa`, as plain values: the global options and the
//! command with its arguments. Reading them from the process arguments is
//! the program's business.

use vstd::prelude::*;

verus! {

/// The global options and the command to run.
#[derive(Debug)]
pub struct Cli {
    /// Tailscale API key (can also be set via TAILSCALE_API_KEY).
    pub api_key: String,
    /// Tailnet name (e.g. your-domain.com or user@gmail.com, `-` for the
    /// default tailnet of the key).
    pub tailnet: String,
    /// Skip confirmation prompts.
    pub yes: bool,
    pub command: Commands,
}

/// The groups of commands.
#[derive(Debug)]
pub enum Commands {
    /// Manage devices in the tailnet.
    Devices(DeviceCommands),
    /// Manage users in the tailnet.
    Users(UserCommands),
    /// Manage tailnet contacts.
    Contacts(ContactCommands),
}

/// The device commands.
#[derive(Debug)]
pub enum DeviceCommands {
    /// List the devices of the tailnet.
    List {
        /// Device patterns that narrow the list.
        devices: Option<Vec<String>>,
        /// Show only locked-out devices.
        locked: bool,
        /// Columns to display.
        columns: Option<Vec<String>>,
        /// Show all results at once, without paging.
        no_paging: bool,
        /// Output JSON instead of a table.
        json: bool,
    },
    /// Replace the tags of devices.
    UpdateTags {
        /// Device patterns; without them, devices are chosen interactively.
        devices: Option<Vec<String>>,
        /// The tags to set.
        tags: Vec<String>,
    },
    /// Add tags to devices, keeping their tags.
    AddTags {
        /// Device patterns; without them, devices are chosen interactively.
        devices: Option<Vec<String>>,
        /// The tags to add.
        tags: Vec<String>,
    },
    /// Remove tags from devices.
    RemoveTags {
        /// Device patterns; without them, devices are chosen interactively.
        devices: Option<Vec<String>>,
        /// The tags to remove.
        tags: Vec<String>,
    },
    /// Sign locked-out devices with tailnet lock.
    Sign {
        /// Device patterns; without them, devices are chosen interactively.
        devices: Option<Vec<String>>,
    },
    /// Delete devices from the tailnet.
    Delete {
        /// Device patterns that narrow the devices offered for deletion.
        devices: Option<Vec<String>>,
    },
    /// Show the details of one device.
    Info {
        /// The pattern that designates the device.
        device: String,
        /// Output JSON instead of a table.
        json: bool,
    },
    /// Rename one device.
    Rename {
        /// The pattern that designates the device.
        device: String,
        /// The new name.
        new_name: String,
    },
}

/// The user commands.
#[derive(Debug)]
pub enum UserCommands {
    /// List the users of the tailnet.
    List {
        /// Output JSON instead of a table.
        json: bool,
    },
    /// Approve a user.
    Approve {
        /// Login name or user ID.
        user: String,
    },
    /// Suspend a user.
    Suspend {
        /// Login name or user ID.
        user: String,
    },
    /// Restore a suspended user.
    Restore {
        /// Login name or user ID.
        user: String,
    },
    /// Delete a user from the tailnet.
    Delete {
        /// Login name or user ID.
        user: String,
    },
}

/// The contact commands.
#[derive(Debug)]
pub enum ContactCommands {
    /// List the contacts of the tailnet.
    List {
        /// Output JSON instead of a table.
        json: bool,
    },
}

} // verus!
