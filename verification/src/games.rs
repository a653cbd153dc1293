pub mod order_and_chaos;
pub mod take_10_to_0;
pub mod take_25_to_0;
pub mod tic_tac_toe;
pub mod tic_tac_toe_non_sq;
