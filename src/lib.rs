pub mod order;
pub mod scalar;
pub mod split;
pub mod lanes;
pub mod dispatch;

pub use dispatch::{
    argmax_i16, argmax_i32, argmax_u16, argmax_u8, argmax_with, argmin_i16, argmin_i32, argmin_u16,
    argmin_u8, argmin_with, ArgMinMax, LaneType, Tier,
};
pub use scalar::{simple_argmax, simple_argmin};
pub mod laws;
