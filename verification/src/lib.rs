//! A small application runtime: events of any type are routed to the handlers
//! registered for that type, and a fixed-tick driver paces updates and rendering.

pub mod dispatch_laws;
pub mod dynamic_event;
pub mod event_dispatcher;
pub mod framework;
pub mod tick_clock;

pub use dynamic_event::DynamicEvent;
pub use event_dispatcher::{ConcreteHandlerWrapper, EventDispatcher, EventHandler, HandlerWrapper, Route};
pub use tick_clock::{Step, TickClock, MIN_TICK_NANOS};
pub use framework::{Framework, Frontend};
