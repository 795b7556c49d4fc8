#![allow(unused_imports)]

pub mod agent;
pub mod auth;
pub mod backup;
pub mod clock;
pub mod collector;
pub mod commands;
pub mod config;
pub mod cron;
pub mod database;
pub mod event_log;
pub mod events;
pub mod install;
pub mod instances;
pub mod json;
pub mod maintenance;
pub mod numbers;
pub mod order;
pub mod paths;
pub mod probe;
pub mod release;
pub mod requests;
pub mod restart;
pub mod restore;
pub mod scheduler;
pub mod seqs;
pub mod store;
pub mod system_metrics;
pub mod tasks;
pub mod text;
pub mod token_scanner;
pub mod tokens;
pub mod upgrade;
pub mod versions;
pub mod work;
