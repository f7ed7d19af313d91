use vstd::prelude::*;
use vstd::string::*;

verus! {

/// Index of the last occurrence of `c` in `s`, or -1 when `c` does not occur.
pub open spec fn last_index_of(s: Seq<char>, c: char) -> int
    decreases s.len(),
{
    if s.len() == 0 {
        -1
    } else if s.last() == c {
        s.len() - 1
    } else {
        last_index_of(s.drop_last(), c)
    }
}

/// The extension of a file name: what follows its last dot. A name without a
/// dot, a name whose only dot leads it (a hidden file such as `.profile`) and
/// the name `..` have none. A name that ends in a dot has an empty one.
pub open spec fn ext_of(name: Seq<char>) -> Option<Seq<char>> {
    let k = last_index_of(name, '.');
    if name == seq!['.', '.'] || k <= 0 {
        None
    } else {
        Some(name.subrange(k + 1, name.len() as int))
    }
}

/// A path with `tail` appended: a tail that starts at the root replaces the
/// path, and a separator is put between the two only where `dir` is not empty
/// and does not already end in one.
pub open spec fn joined(dir: Seq<char>, tail: Seq<char>) -> Seq<char> {
    if tail.len() > 0 && tail[0] == '/' {
        tail
    } else if dir.len() == 0 || dir.last() == '/' {
        dir + tail
    } else {
        dir + seq!['/'] + tail
    }
}

proof fn lemma_last_index_of_bounds(s: Seq<char>, c: char)
    ensures
        -1 <= last_index_of(s, c) < s.len(),
        last_index_of(s, c) >= 0 ==> s[last_index_of(s, c)] == c,
    decreases s.len(),
{
    if s.len() > 0 && s.last() != c {
        lemma_last_index_of_bounds(s.drop_last(), c);
    }
}

/// The index of the last dot of `s`, if it has one.
fn last_dot(s: &str) -> (r: Option<usize>)
    ensures
        match r {
            Some(k) => k as int == last_index_of(s@, '.'),
            None => last_index_of(s@, '.') == -1,
        },
{
    let n = s.unicode_len();
    let mut i: usize = n;
    assert(s@.subrange(0, n as int) =~= s@);
    while i > 0
        invariant
            i <= n == s@.len(),
            last_index_of(s@, '.') == last_index_of(s@.subrange(0, i as int), '.'),
        decreases i,
    {
        let ghost pre = s@.subrange(0, i as int);
        assert(pre.drop_last() =~= s@.subrange(0, i - 1));
        if s.get_char(i - 1) == '.' {
            return Some(i - 1);
        }
        i = i - 1;
    }
    None
}

/// The extension of the file name `name` (see `ext_of`).
pub fn extension(name: &str) -> (r: Option<String>)
    ensures
        match ext_of(name@) {
            Some(e) => r.is_some() && r.unwrap()@ == e,
            None => r.is_none(),
        },
{
    let n = name.unicode_len();
    if n == 2 && name.get_char(0) == '.' && name.get_char(1) == '.' {
        assert(name@ =~= seq!['.', '.']);
        return None;
    }
    match last_dot(name) {
        Some(k) => {
            proof {
                lemma_last_index_of_bounds(name@, '.');
            }
            if k == 0 {
                None
            } else {
                Some(String::from_str(name.substring_char(k + 1, n)))
            }
        },
        None => None,
    }
}

/// `tail` appended to the path `dir` (see `joined`).
pub fn join_path(dir: &str, tail: &str) -> (r: String)
    ensures
        r@ == joined(dir@, tail@),
{
    let nd = dir.unicode_len();
    let nt = tail.unicode_len();
    if nt > 0 && tail.get_char(0) == '/' {
        return String::from_str(tail);
    }
    let mut r = String::from_str(dir);
    if nd > 0 && dir.get_char(nd - 1) != '/' {
        r.append("/");
        proof {
            reveal_strlit("/");
        }
    }
    r.append(tail);
    r
}

/// A directory entry: the directory that holds it and its own name.
pub struct FileEntry {
    pub parent: String,
    pub file_name: String,
}

impl FileEntry {
    /// The entry's full path.
    pub open spec fn path_view(&self) -> Seq<char> {
        joined(self.parent@, self.file_name@)
    }

    pub fn new(parent: String, file_name: String) -> (r: FileEntry)
        ensures
            r.parent@ == parent@,
            r.file_name@ == file_name@,
    {
        FileEntry { parent, file_name }
    }

    /// The entry's full path.
    pub fn path(&self) -> (r: String)
        ensures
            r@ == self.path_view(),
    {
        join_path(self.parent.as_str(), self.file_name.as_str())
    }
}

} // verus!
