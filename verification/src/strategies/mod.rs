pub mod ma_momentum;
