//! Renders a developer profile as self-contained animated SVG cards.
//!
//! The library holds everything the cards are computed from: the data model,
//! the statistics drawn from a GitHub reply, and the SVG text itself.
#![allow(unused_imports)]

pub mod text;
pub mod svg;
pub mod github;
pub mod model;
pub mod theme;
pub mod calendar;
