pub mod bridge;
pub mod pen;
