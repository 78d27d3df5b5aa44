//! Core logic of a small manager for Steam Lua manifests: where Steam lives,
//! which games a Steam installation holds, how a manifest is fetched and
//! installed, and the state of the install window.

pub mod num;
pub mod archive;
pub mod extract;
pub mod games;
pub mod install;
pub mod installer;
pub mod melon;
pub mod paths;
pub mod steam;
pub mod text;
pub mod ui;

pub use games::{get_games, STEAM_APPLIST_URL, STEAM_URL};
pub use install::{InstallPopup, InstallStatus};
pub use steam::{detect_real_steam_path, AppData, Game, GameDetails, Steam};
