pub mod banner;
pub mod products;
pub mod config;
pub mod decode;
pub mod errors;
pub mod events;
pub mod frame;
pub mod mjpeg;
pub mod orchestrator;
pub mod projects;
pub mod queue;
pub mod registry;
pub mod simulators;
pub mod surface;
pub mod text;
pub mod window;
