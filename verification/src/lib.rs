//! Job admission and lifecycle control for an audio separation service.
//!
//! The service takes an uploaded media file, hands it to an external agent
//! that separates vocals and instrumental, and serves the two artifacts by
//! job id. This library holds every decision of that service, each with a
//! contract that is proved:
//!
//! - [`identity`]: which client a request belongs to;
//! - [`quota`] and [`admission`]: the daily quota with one job in flight per
//!   identity, and what the client is told;
//! - [`jobs`], [`agent`] and [`artifacts`]: which uploads become jobs, the
//!   steps of a job and its rollback, the verdict on a run of the agent, and
//!   the serving of artifacts;
//! - [`sweeper`]: which job directories a pass of the expiry sweeper removes;
//! - [`records`] and [`timefmt`]: the lines of the audit log and their
//!   timestamps;
//! - [`config`]: the settings and their defaults.
//!
//! Of the world outside, the library reads the clock and draws random ids;
//! it does no other I/O. The program around it reads and writes, runs the
//! agent, and asks the library what to do next.

pub mod admission;
pub mod agent;
pub mod artifacts;
pub mod config;
pub mod errors;
pub mod identity;
pub mod ids;
pub mod jobs;
pub mod quota;
pub mod records;
pub mod sweeper;
pub mod text;
pub mod timefmt;
