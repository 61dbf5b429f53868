pub mod on_change_strategy;
pub mod period;
