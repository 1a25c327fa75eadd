//! Renderers: they send one ray through every pixel of a view and hand the colours
//! that come back to an output.

pub mod dispatch;
pub mod output;
pub mod parallel;
pub mod single_threaded;

pub use dispatch::{ControlMessage, Directive, DispatcherState, WorkerMessage};
pub use output::RendererOutput;
pub use parallel::{ParalellRenderer, ParallelWorker};
pub use single_threaded::SingleThreadedRenderer;
