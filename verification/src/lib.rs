//! Higher-order construction and transformation operations over sequences.
//!
//! The traits here build ([`Init`]), transform ([`MapOver`]), combine
//! ([`Zip`]) and slice ([`Section`]) containers by applying
//! caller-supplied functions element by element, in ascending index
//! order. Each operation carries a contract relating the result to the
//! outputs of the supplied function, and each module states as a proof
//! function the law that, for a deterministic function, the contract
//! pins the result down to the exact image sequence.

mod init;
mod map;
mod section;
mod zip;

pub use init::Init;
pub use init::InitStop;
pub use init::TypeEquals;
pub use init::eventually_stops;
pub use init::exhausted_from;
pub use init::lemma_init_with_determined;
pub use map::MapOver;
pub use map::lemma_map_determined;
pub use section::Section;
pub use zip::Zip;
pub use zip::lemma_zip_with_determined;
