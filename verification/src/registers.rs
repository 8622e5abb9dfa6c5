pub mod computed_register;
pub mod cooked_register;
pub mod raw_register;
