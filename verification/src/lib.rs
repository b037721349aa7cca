//! A generation-checked arena allocator with dynamic borrow tracking.
//!
//! The arena hands out small, copyable handles to stored values. Each storage
//! cell carries a generation counter that is advanced whenever the cell is
//! reclaimed, so a handle that outlives its value is detected rather than
//! silently observing a later occupant of the same cell. Access through a
//! handle is mediated by a per-cell borrow tracker that enforces the
//! single-writer / multi-reader discipline at run time.

pub mod arena;
pub mod callback;
pub mod error;
pub mod freelist;
pub mod laws;
pub mod slot;
pub mod sources;
pub mod storage;

pub use arena::Arena;
pub use arena::ArenaView;
pub use arena::GenerationalBox;
pub use arena::GenerationalBoxId;
pub use arena::GenerationalRef;
pub use arena::GenerationalRefMut;
pub use arena::HandleView;
pub use arena::Owner;
pub use callback::use_callback;
pub use callback::use_effect;
pub use callback::UseCallback;
pub use error::BorrowError;
pub use error::BorrowMutError;
pub use freelist::Freelist;
pub use slot::Slot;
pub use slot::SlotView;
pub use sources::GlobalReadable;
pub use sources::GlobalWritable;
pub use sources::MemoSource;
pub use sources::ReadOnly;
pub use sources::SignalSource;
pub use sources::Source;
pub use sources::SupportsWrites;
pub use sources::TrackedSource;
pub use sources::Untracked;
pub use sources::UntrackedSource;
pub use sources::Writable;
pub use sources::WritableMarker;
pub use storage::GenericStorage;
pub use storage::StorageView;
