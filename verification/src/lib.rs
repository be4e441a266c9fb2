//! Shell error listener: the verified core of an installer that hooks Bash,
//! Zsh and PowerShell so that failed commands are logged, and of the agent
//! that watches the log and plays a sound for errors.
//!
//! - `text`: character-level search and string building.
//! - `marked`: adding and removing the marked hook blocks in shell profiles.
//! - `hooks`: the Bash and Zsh hook blocks.
//! - `quote`: quoting paths for shell literals.
//! - `event`: recognising error events in the log.
//! - `agent`: what the agent reads, and when it plays the sound.
//! - `command`: the command line.
//! - `report`: the texts the program prints and writes.
//! - `platform`: startup entries and platform-specific hooks.

pub mod text;
pub mod marked;
pub mod event;
pub mod agent;
pub mod quote;
pub mod command;
pub mod hooks;
pub mod report;
pub mod platform;
