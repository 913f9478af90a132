//! Protocol, game and room logic of a legacy hotel server.
pub mod text;
pub mod codec;
pub mod assoc;
pub mod config;
pub mod games;
pub mod lobby;
pub mod bots;
pub mod rooms;
pub mod catalogue;
pub mod sound;
pub mod strings;
pub mod session;
pub mod mus;
pub mod arena;
pub mod state;
pub mod setup;
pub mod navigator;
pub mod speech;
pub mod game_settings;
pub mod hand;
pub mod badges;
pub mod stickies;
pub mod reports;
pub mod moodlight;
pub mod polls;
pub mod guestrooms;
pub mod modtool;
pub mod trades;
pub mod events;
pub mod messenger;
pub mod room_actions;
pub mod routes;
pub mod catalogue_pages;
pub mod team_moves;
pub mod purchases;
pub mod tick_scores;
pub mod buffer_laws;
pub mod speech_steps;
pub mod rule_laws;
