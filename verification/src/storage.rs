//! Memory pages, the references that point into them, and the row store.

pub mod data_reference;
pub mod memory_page;
pub mod storage;

pub use self::data_reference::DataReference;
pub use self::memory_page::MemoryPage;
pub use self::storage::Storage;
