//! The command structure of the surrounding command-line tool.
//!
//! These are the bare command types; the shell that parses arguments keeps
//! its own annotated copies and converts into these.

use vstd::prelude::*;

verus! {

/// The parsed command line.
#[derive(Debug)]
pub struct Cli {
    /// The chosen command.
    pub command: Commands,
}

/// The tool's top-level commands.
#[derive(Debug)]
pub enum Commands {
    /// Device management commands.
    Adb {
        /// The chosen device command.
        command: AdbSubcommands,
    },
    /// Commands around the game installation.
    Balatro {
        /// The chosen game command.
        command: BalatroSubcommands,
    },
}

/// Commands around the game installation.
#[derive(Debug)]
pub enum BalatroSubcommands {
    /// Check whether the game is installed on the connected device.
    Check,
    /// Pull the packages of the installation to a local directory.
    Pull {
        /// Output directory for the packages.
        out: Option<String>,
        /// Pull every package instead of just the base one.
        all: bool,
        /// Verbose output.
        verbose: bool,
    },
    /// Unpack a pulled package.
    Unpack {
        /// Path to the package file.
        apk_path: Option<String>,
        /// Output directory for the unpacked files.
        out: Option<String>,
        /// Verbose output.
        verbose: bool,
    },
}

/// Device management commands.
#[derive(Debug)]
pub enum AdbSubcommands {
    /// Connect to a device.
    Connect,
    /// Disconnect every device.
    Disconnect,
    /// List the connected devices.
    ListDevices,
}

} // verus!
