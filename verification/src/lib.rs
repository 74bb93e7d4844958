pub mod text;
pub mod profiles;
pub mod builtin;
pub mod model;
pub mod pathname;
pub mod paths;
pub mod runtime;
pub mod engine;
pub mod queue;
pub mod ui;
pub mod desktop;
pub mod jobs;
pub mod pipeline;
pub mod watch;
