//! The decisions and the text of a Minecraft 1.16.5 launcher: Maven
//! coordinates and the URLs and paths derived from them, the classpath,
//! the player name check, the release and archive rules, and the state
//! machines that the program drives around its downloads, its update
//! check and the game start.

pub mod text;
pub mod launcher;
pub mod maven;
pub mod classpath;
pub mod archive;
pub mod session;
pub mod release;
pub mod updater;
pub mod http;
