//! Core of a desktop file-explorer backend: directory-listing order,
//! byte-capped text reading, filesystem-change coalescing, and the
//! single-session watch manager.

pub mod order;
pub mod unicode;
pub mod listing;
pub mod text;
pub mod changes;
pub mod watch;
pub mod ops;

pub use listing::{FileItem, FileKind, DirEntryInfo, build_listing, sort_items, extension_of};
pub use text::{TextFileContent, DEFAULT_MAX_BYTES, read_budget, effective_cap, assemble_text};
pub use changes::{FilesystemChange, RawChange, Coalescer, coalesce_batch};
pub use watch::{WatcherState, WatchEvent, WatchError, DEBOUNCE_WINDOW_MS};
pub use ops::{
    greet, u64_to_string, count_successes, list_directory_precheck, navigation_target,
    home_directory_result, current_directory_result, create_folder_precheck, create_folder_report, create_file_precheck,
    create_file_report, DeleteAction, delete_plan, delete_report, rename_precheck, rename_report,
    transfer_destination_precheck, should_transfer, copied_message, moved_message,
    open_file_precheck, open_file_report, read_text_precheck, write_text_precheck,
    write_text_report,
};
