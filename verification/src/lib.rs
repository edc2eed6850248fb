//! An address-space subsystem for an operating-system kernel: it tracks, for
//! one logical process, which ranges of virtual addresses are backed by which
//! data sources, at what offset, with what access permissions.
//!
//! The crate is organised leaves-first:
//! - [`FlagBuilder`]: the permission-flag value type;
//! - [`DataSource`]: the capability interface a backing store implements;
//! - [`AddressSpace`]: an ordered, non-overlapping collection of mappings
//!   over a bounded virtual address range.

mod address_space;
mod data_source;
mod error;
mod flags;

pub use address_space::AddressSpace;
pub use address_space::MapEntry;
pub use address_space::PAGE_SIZE;
pub use address_space::VADDR_MAX;
pub use data_source::DataSource;
pub use data_source::SourceIdentity;
pub use data_source::NullDataSource;
pub use error::MapError;
pub use flags::FlagBuilder;
