//! Oracle source/destination connector logic: connection descriptors, identifier
//! quoting, type mapping and the SQL the connector runs, with their contracts.

pub mod text;
pub mod ident;
pub mod conn;
pub mod calendar;
pub mod types;
pub mod destination;
pub mod source;

pub use destination::OracleDestPlugin;
pub use source::OracleSourcePlugin;
