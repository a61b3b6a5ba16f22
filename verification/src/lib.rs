//! Resolution of "who is currently on call" for a named rotation.
//!
//! The library holds the decision logic of the service: normalizing phone
//! numbers, filtering and ordering a person's contact methods, resolving a
//! schedule name to exactly one schedule id, and assembling the final alert
//! information for the people on call. The surrounding HTTP plumbing (route
//! handlers, the roster-provider client, telemetry) lives outside the library
//! and hands it plain values.

pub mod contacts;
pub mod error;
pub mod health;
pub mod oncall;
pub mod order;
pub mod phone;
pub mod schedule;

pub use contacts::UserContact;
pub use contacts::resolve_phone_numbers;
pub use error::Error;
pub use health::Health;
pub use health::Status;
pub use health::healthy_status;
pub use oncall::AlertInfo;
pub use oncall::ScheduleIdentifier;
pub use oncall::ScheduleRequestById;
pub use oncall::ScheduleRequestByName;
pub use oncall::UserPhoneNumber;
pub use oncall::assemble_alert_info;
pub use oncall::collect_alert_numbers;
pub use oncall::resolve_on_call;
pub use oncall::resolve_schedule_identifier;
pub use phone::format_phone_number;
pub use schedule::Schedule;
pub use schedule::resolve_schedule_id;
