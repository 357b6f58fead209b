//! The rules of Scoundrel, a dungeon-crawling solitaire played with a
//! trimmed deck of cards, with their contracts and laws.

pub mod card;
pub mod face;
pub mod game;
pub mod laws;
pub mod project;
mod random;
pub mod rules;
pub mod table;
