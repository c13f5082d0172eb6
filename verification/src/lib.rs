pub mod decimal;
pub mod calendar;
pub mod report;
pub mod files;
pub mod ledger;
pub mod dashboard;
