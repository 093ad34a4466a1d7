//! The rows that are stored.
pub mod account;
pub mod account_detail;
pub mod balance_adjustment;
pub mod bill;
pub mod bill_share;
pub mod budget;
pub mod category;
pub mod debt_person;
pub mod debt_record;
pub mod debt_request;
pub mod exchange_rate;
pub mod installment_item;
pub mod installment_plan;
pub mod investment_execution;
pub mod investment_sms_event;
pub mod market_closed_day;
pub mod market_index_quote;
pub mod meta;
pub mod passkey;
pub mod preference;
pub mod recovery;
pub mod recurring_investment;
pub mod subscription;
pub mod transfer;
