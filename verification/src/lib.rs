pub mod calendar;
pub mod decimal;
pub mod textorder;
pub mod timefmt;
pub mod delivery;
pub mod priming;
