//! A personal ledger: accounts in several currencies, bills, transfers, debts, instalments,
//! subscriptions, budgets and recurring investments, with every amount and every text kept
//! encrypted at rest.
pub mod book;
pub mod calendar;
pub mod chain;
pub mod config;
pub mod crypto;
pub mod currency;
pub mod db;
pub mod decimal;
pub mod entity;
pub mod error;
pub mod filter;
pub mod handlers;
pub mod market_data;
pub mod order;
pub mod ranking;
pub mod sessions;
pub mod tally;
pub mod text;
pub mod token;
pub mod totals;
