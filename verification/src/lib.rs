//! Device protocol drivers and local safety state machines for LeRobot-compatible arms.

pub mod damiao;
pub mod damiao_bridge;
pub mod text;
pub mod names;
pub mod dm_adapter;
pub mod feetech;
pub mod feetech_bus;
pub mod so_arm;
pub mod rs_mit;
pub mod rs_adapter;
pub mod node;
