//! NurSearch: the search, ranking, calculator, unit-conversion, quicklink and
//! plugin-protocol logic of a local desktop launcher.

pub mod calc;
pub mod classic;
pub mod cli;
pub mod config;
pub mod db;
pub mod desktop;
pub mod direct;
pub mod history;
pub mod i18n;
pub mod kcm;
pub mod launch;
pub mod num;
pub mod plugin;
pub mod plugins;
pub mod pm;
pub mod proto;
pub mod rank;
pub mod ranking;
pub mod sdk;
pub mod search;
pub mod session;
pub mod shortcut;
pub mod system;
pub mod text;
pub mod units;
