//! Batch renaming of the files of one directory after an ordered list of new
//! base names. The library decides everything: which lines of a name list
//! count, how directory entries are ordered, what each entry is renamed to,
//! and what is reported. Reading the list, listing the directory and renaming
//! on disk are left to the caller.

mod names;
mod order;
mod paths;
mod plan;

pub use names::{ignored_lines_do_not_count, name_list_from_lines};
pub use order::{path_lt, sort_entries};
pub use paths::{extension, join_path, FileEntry};
pub use plan::{
    dry_run_shows_each_rename,     make_rename_pair, name_source, plan_renames, proposal_lines, rename_failure_message,
    renamed_file_name, NameSource, RenamePair, RenlsError,
};
