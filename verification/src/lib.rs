//! A verified navigation core for a three-pane, keyboard-driven directory
//! browser: directory listings are filtered and ordered deterministically,
//! each pane is a cursor over a sequence of entries, and a navigator keeps
//! the three panes consistent with one logical current directory.

mod entry;
mod input;
mod listing;
mod navigator;
mod selectable;

pub use entry::Entry;
pub use entry::EntryKind;
pub use input::KeyInput;
pub use input::Signal;
pub use input::handle_key;
pub use listing::DirListing;
pub use listing::FsSnapshot;
pub use listing::list_dir;
pub use listing::path_eq;
pub use navigator::DisplayOptions;
pub use navigator::Mode;
pub use navigator::Navigator;
pub use selectable::SelectableList;
