pub mod app;
pub mod cli;
pub mod commands;
pub mod config;
pub mod converter;
pub mod cookies;
pub mod crawler;
pub mod engine;
pub mod output;
pub mod screen;
pub mod text;
pub mod tui;
pub mod utf8_facts;
pub mod weburl;
