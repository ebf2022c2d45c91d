//! Verified core of a Discord bot that follows osu! players: its data
//! structures (a binary search tree and a stack), the session bookkeeping
//! of the players it watches, and the text it builds for its messages.

pub mod activity;
pub mod bst;
pub mod commands;
pub mod config;
pub mod embed;
pub mod events;
pub mod osu_data;
pub mod score;
pub mod scraping;
pub mod stack;
pub mod text;
