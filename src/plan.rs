use vstd::prelude::*;
use vstd::string::*;
use crate::names::{kept_lines, name_list_of, trimmed};
use crate::order::{entries_sorted, sort_entries};
use crate::paths::{ext_of, extension, join_path, joined, FileEntry};

verus! {

/// One planned rename: the path of an entry and the path it is to get.
pub struct RenamePair {
    pub source: String,
    pub destination: String,
}

/// Why a run stops before it renames anything.
#[derive(PartialEq, Eq, Structural, Clone, Copy, Debug)]
pub enum RenlsError {
    /// No list file was given and nothing is piped into standard input.
    EmptyStdin,
    /// The list file cannot be read.
    UnreadableFile,
    /// The directory cannot be read.
    UnreadableDirectory,
    /// The name list and the directory hold different numbers of items.
    CountMismatch,
}

/// Where the name list comes from.
#[derive(PartialEq, Eq, Debug)]
pub enum NameSource {
    Stdin,
    File(String),
}

/// The new file name for an entry named `file_name`: `name`, followed by a
/// dot and the entry's extension where it has one.
pub open spec fn new_file_name(name: Seq<char>, file_name: Seq<char>) -> Seq<char> {
    match ext_of(file_name) {
        Some(e) => name + seq!['.'] + e,
        None => name,
    }
}

/// The path that `entry` is to get from the name `name`: in the entry's own
/// directory, under the new file name.
pub open spec fn destination_of(name: Seq<char>, entry: FileEntry) -> Seq<char> {
    joined(entry.parent@, new_file_name(name, entry.file_name@))
}

/// `pairs` renames `files[i]` after `names[i]`, for each `i`, in that order.
pub open spec fn pairs_match(
    names: Seq<Seq<char>>,
    files: Seq<FileEntry>,
    pairs: Seq<RenamePair>,
) -> bool {
    &&& pairs.len() == files.len()
    &&& forall|i: int|
        0 <= i < pairs.len() ==> {
            &&& (#[trigger] pairs[i]).source@ == files[i].path_view()
            &&& pairs[i].destination@ == destination_of(names[i], files[i])
        }
}

/// The line that shows a planned rename.
pub open spec fn proposal_line(p: RenamePair) -> Seq<char> {
    p.source@ + " --> "@ + p.destination@
}

/// The lines that show the planned renames, one for each, in their order.
pub open spec fn proposal_of(pairs: Seq<RenamePair>) -> Seq<Seq<char>> {
    pairs.map_values(|p: RenamePair| proposal_line(p))
}

impl RenlsError {
    /// The text reported for the error.
    pub open spec fn message_view(&self) -> Seq<char> {
        match self {
            RenlsError::EmptyStdin => "renls: error: stdin buffer is empty"@,
            RenlsError::UnreadableFile => "renls: error: unable to read file"@,
            RenlsError::UnreadableDirectory => "renls: error: unable to read directory"@,
            RenlsError::CountMismatch =>
                "renls: error: file list and new name list do not have the same number of items"@,
        }
    }

    /// The text reported for the error.
    pub fn message(&self) -> (r: String)
        ensures
            r@ == self.message_view(),
    {
        match self {
            RenlsError::EmptyStdin => String::from_str("renls: error: stdin buffer is empty"),
            RenlsError::UnreadableFile => String::from_str("renls: error: unable to read file"),
            RenlsError::UnreadableDirectory => String::from_str(
                "renls: error: unable to read directory",
            ),
            RenlsError::CountMismatch => String::from_str(
                "renls: error: file list and new name list do not have the same number of items",
            ),
        }
    }
}

/// Where to read the name list from: the file `file_path` when one is given;
/// otherwise standard input, which must have something piped into it.
pub fn name_source(file_path: &str, stdin_piped: bool) -> (r: Result<NameSource, RenlsError>)
    ensures
        file_path@.len() > 0 ==> (r matches Ok(NameSource::File(p)) && p@ == file_path@),
        file_path@.len() == 0 && stdin_piped ==> r == Ok::<NameSource, RenlsError>(
            NameSource::Stdin,
        ),
        file_path@.len() == 0 && !stdin_piped ==> r == Err::<NameSource, RenlsError>(
            RenlsError::EmptyStdin,
        ),
{
    if file_path.is_empty() {
        if stdin_piped {
            Ok(NameSource::Stdin)
        } else {
            Err(RenlsError::EmptyStdin)
        }
    } else {
        Ok(NameSource::File(String::from_str(file_path)))
    }
}

/// The new file name for an entry named `file_name` (see `new_file_name`).
pub fn renamed_file_name(name: &str, file_name: &str) -> (r: String)
    ensures
        r@ == new_file_name(name@, file_name@),
{
    let mut r = String::from_str(name);
    match extension(file_name) {
        Some(e) => {
            r.append(".");
            r.append(e.as_str());
            proof {
                reveal_strlit(".");
                assert(r@ =~= name@ + seq!['.'] + e@);
            }
        },
        None => {},
    }
    r
}

/// The renames that give `file_list[i]` the name `new_name_list[i]`, keeping
/// its directory and its extension, in the order of `file_list`.
pub fn make_rename_pair(new_name_list: &Vec<String>, file_list: &Vec<FileEntry>) -> (r: Vec<
    RenamePair,
>)
    requires
        new_name_list.len() == file_list.len(),
    ensures
        pairs_match(new_name_list.deep_view(), file_list@, r@),
{
    let ghost names = new_name_list.deep_view();
    let mut r: Vec<RenamePair> = Vec::new();
    let mut i: usize = 0;
    while i < file_list.len()
        invariant
            i <= file_list.len() == new_name_list.len(),
            names == new_name_list.deep_view(),
            r@.len() == i,
            forall|j: int|
                0 <= j < i ==> {
                    &&& (#[trigger] r@[j]).source@ == file_list@[j].path_view()
                    &&& r@[j].destination@ == destination_of(names[j], file_list@[j])
                },
        decreases file_list.len() - i,
    {
        let f = &file_list[i];
        let new_name = renamed_file_name(new_name_list[i].as_str(), f.file_name.as_str());
        let destination = join_path(f.parent.as_str(), new_name.as_str());
        r.push(RenamePair { source: f.path(), destination });
        i = i + 1;
    }
    r
}

/// The renames of a run: the entries of `file_list` in ascending textual
/// order of their paths, the first renamed after the first name of
/// `new_name_list`, the second after the second, and so on. Fails, with
/// nothing planned, when the two hold different numbers of items.
pub fn plan_renames(new_name_list: &Vec<String>, file_list: Vec<FileEntry>) -> (r: Result<
    Vec<RenamePair>,
    RenlsError,
>)
    ensures
        new_name_list.len() != file_list.len() ==> r == Err::<Vec<RenamePair>, RenlsError>(
            RenlsError::CountMismatch,
        ),
        new_name_list.len() == file_list.len() ==> r is Ok,
        r matches Ok(pairs) ==> exists|sorted: Seq<FileEntry>|
            {
                &&& sorted.to_multiset() == file_list@.to_multiset()
                &&& entries_sorted(sorted)
                &&& pairs_match(new_name_list.deep_view(), sorted, pairs@)
            },
{
    if new_name_list.len() != file_list.len() {
        return Err(RenlsError::CountMismatch);
    }
    let sorted = sort_entries(file_list);
    proof {
        vstd::seq_lib::to_multiset_len(sorted@);
        vstd::seq_lib::to_multiset_len(file_list@);
    }
    let pairs = make_rename_pair(new_name_list, &sorted);
    Ok(pairs)
}

/// The lines of a dry run: `<source> --> <destination>` for each planned
/// rename, in their order.
pub fn proposal_lines(pairs: &Vec<RenamePair>) -> (r: Vec<String>)
    ensures
        r.deep_view() == proposal_of(pairs@),
{
    let mut r: Vec<String> = Vec::new();
    let mut i: usize = 0;
    while i < pairs.len()
        invariant
            i <= pairs.len(),
            r.deep_view() =~= proposal_of(pairs@.subrange(0, i as int)),
        decreases pairs.len() - i,
    {
        let p = &pairs[i];
        let mut line = String::from_str(p.source.as_str());
        line.append(" --> ");
        line.append(p.destination.as_str());
        let ghost before = r.deep_view();
        r.push(line);
        assert(r.deep_view() =~= before.push(proposal_line(pairs@[i as int])));
        assert(pairs@.subrange(0, i + 1) =~= pairs@.subrange(0, i as int).push(pairs@[i as int]));
        i = i + 1;
    }
    assert(pairs@.subrange(0, pairs.len() as int) =~= pairs@);
    r
}

/// A dry run over the entries `files`, in the order of the run, with a list
/// file of lines `lines` whose kept lines are as many as the entries: it shows
/// one line for each entry, and the line of the i-th entry is its path, then
/// ` --> `, then the path in the same directory named after the i-th kept line
/// of the list, trimmed, with the entry's extension.
pub proof fn dry_run_shows_each_rename(
    lines: Seq<Seq<char>>,
    files: Seq<FileEntry>,
    pairs: Seq<RenamePair>,
)
    requires
        name_list_of(lines).len() == files.len(),
        pairs_match(name_list_of(lines), files, pairs),
    ensures
        proposal_of(pairs).len() == files.len(),
        forall|i: int|
            0 <= i < files.len() ==> #[trigger] proposal_of(pairs)[i] == files[i].path_view()
                + " --> "@ + joined(
                files[i].parent@,
                new_file_name(trimmed(kept_lines(lines)[i]), files[i].file_name@),
            ),
{
    assert forall|i: int| 0 <= i < files.len() implies #[trigger] name_list_of(lines)[i] == trimmed(
        kept_lines(lines)[i],
    ) by {}
    assert forall|i: int| 0 <= i < files.len() implies #[trigger] proposal_of(pairs)[i]
        == proposal_line(pairs[i]) by {}
}

/// The line that reports that the entry at `source` could not be renamed.
pub fn rename_failure_message(source: &str) -> (r: String)
    ensures
        r@ == "renls: error: unable to rename file \""@ + source@ + "\""@,
{
    let mut r = String::from_str("renls: error: unable to rename file \"");
    r.append(source);
    r.append("\"");
    r
}

} // verus!
