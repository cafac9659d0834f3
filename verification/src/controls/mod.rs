pub mod event;
pub mod handler;
pub mod polling;

pub use event::EventInputHandler;
pub use handler::InputHandler;
pub use polling::PollingInputHandler;
