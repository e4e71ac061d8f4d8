pub mod cpu;
pub mod input;
pub mod memory;
pub mod model;
pub mod text;
pub mod ui;
pub mod uptime;
