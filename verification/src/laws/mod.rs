//! What the library promises as a whole: laws over the specifications of its functions, stated of
//! what goes in and what comes out.

pub mod bringing_up;
pub mod calls;
pub mod changes;
pub mod diagnosis;
pub mod edits;
pub mod manifests;
pub mod placeholders;
pub mod profiles;
pub mod records;
pub mod registering;
pub mod reports;
pub mod routes;
pub mod scaffolds;
pub mod shells;
pub mod showing;
pub mod stopping;
pub mod strings;
pub mod toolchains;
