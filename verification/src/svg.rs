//! The SVG cards.
pub mod util;
pub mod hero;
pub mod icons;
pub mod contact;
pub mod logos;
pub mod pulse;
pub mod now;
pub mod companies;
pub mod projects;
