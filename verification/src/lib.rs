//! A resolver for linked JSON-LD document graphs.
//!
//! Given a table of fetched documents, [`load_json_ld`] expands a document
//! by following embedded references — bare reference objects and URL-valued
//! string fields — to a bounded depth, merging and splicing the fetched
//! content in. Fetching itself is the caller's business: the resolver reads
//! every document from a [`table::DocTable`] and reports the URLs it would
//! need, so a caller loops fetch–record–resolve until nothing is missing.

pub mod codec;
pub mod datetime;
pub mod keys;
pub mod laws;
pub mod node;
pub mod resolve;
pub mod table;

pub use codec::serialize_json_ld;
pub use datetime::{calc_dt_duration, calc_dt_step, RangeError, RangeKind};
pub use datetime::{DAY, F_DAY, F_HOUR, F_MIN, F_SEC, HOUR, MIN, MINUS, SEC};
pub use keys::{AT_CONTEXT, AT_ID, AT_REF, AT_TYPE};
pub use node::{Entry, Node};
pub use resolve::{load_json_ld, scan_json_ld_array, scan_json_ld_obj, LoadError};
pub use table::{DocTable, FetchOutcome};
