//! Verified core of a terminal browser for coding-agent chats kept in tmux.
pub mod actions;
pub mod agent;
pub mod app;
pub mod calendar;
pub mod codex;
pub mod config;
pub mod conversation;
pub mod dates;
pub mod deciding;
pub mod directories;
pub mod drawing;
pub mod finding;
pub mod geometry;
pub mod json;
pub mod keys;
pub mod layout;
pub mod launch;
pub mod listing;
pub mod model;
pub mod mouse;
pub mod moving;
pub mod offering;
pub mod opening;
pub mod order;
pub mod outside;
pub mod panes;
pub mod path;
pub mod percent;
pub mod pi;
pub mod prompts;
pub mod refresh;
pub mod requests;
pub mod runner;
pub mod search;
pub mod selection;
pub mod shell;
pub mod starting;
pub mod state;
pub mod steps;
pub mod surroundings;
pub mod text;
pub mod theme;
pub mod tmux;
pub mod unseen;
pub mod userpath;
pub mod view;
