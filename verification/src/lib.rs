//! Logic of a floating media-player popup: what it shows for the active
//! MPRIS player, how it names files and commands, and the small state
//! machines that decide when cover art is fetched and when a refresh runs.

pub mod text;
pub mod mpris;
pub mod art;
pub mod runtime;
pub mod popup;

pub use mpris::player_icon;
