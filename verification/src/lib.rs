//! Ingestion of aircraft-surveillance telemetry in the BaseStation line
//! format.
//!
//! A receiver emits one comma-separated line per message. A producer reads
//! the lines and publishes them to a queue; a consumer takes them from the
//! queue, reads each into a message, appends the message to a stored
//! aggregate under a path made of its date and aircraft address, appends the
//! line to the audit log of its day, keeps it in a cache as the line seen
//! last, and then acknowledges it.
//!
//! This library holds what those programs decide and compute: reading a
//! line (`message`, `record`, on top of `text`, `number` and `decimal`),
//! deriving paths and log locations (`location`), the order of the
//! consumer's steps and the rule for acknowledging (`pipeline`), what an
//! append does to the aggregate (`aggregate`), what the producer makes of a
//! line it has read (`capture`), and the addresses of the services
//! (`config`). The programs themselves do the reading, sending and waiting.

pub mod text;
pub mod number;
pub mod decimal;
pub mod message;
pub mod record;
pub mod location;
pub mod pipeline;
pub mod aggregate;
pub mod capture;
pub mod config;
