pub mod die;
pub mod hand;
pub mod pairs;
pub mod state;
