//! The logic of a launcher for Phigros simulators: the simulator
//! repositories and their releases, download bookkeeping and install
//! locations, the account data synced into installed versions, and the
//! decisions behind the launcher's screens.

pub mod assets;
pub mod auth;
pub mod download;
pub mod github;
pub mod json;
pub mod path;
pub mod size;
pub mod table;
pub mod text;
pub mod ui;
