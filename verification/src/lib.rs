//! Annotates a hockey league's team calendar with the shows at a nearby
//! venue that overlap each game.

pub mod instant;

pub mod venue;
pub mod calendar;
pub mod decimal;
pub mod settings;
