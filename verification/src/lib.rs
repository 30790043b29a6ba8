//! Script-dispatch policy engine: decides which interpreter runs a script,
//! how the invocation command line is built, and whether the launch goes
//! through a confirmation prompt, silent execution, or a viewer fallback.

pub mod config;
pub mod dispatch;
pub mod platform;
pub mod script;
pub mod strutil;
