use vstd::prelude::*;
use vstd::string::*;
use crate::paths::FileEntry;

verus! {

broadcast use {vstd::seq_lib::to_multiset_build, vstd::seq_lib::to_multiset_insert};

/// Textual order: `a` comes strictly before `b` when, at the first place
/// where they differ, `a` holds the lower code point, or when `a` is a proper
/// prefix of `b`. On UTF-8 this is the order of the bytes.
pub open spec fn chars_lt(a: Seq<char>, b: Seq<char>) -> bool
    decreases a.len(),
{
    if a.len() == 0 {
        b.len() > 0
    } else if b.len() == 0 {
        false
    } else if (a[0] as u32) != (b[0] as u32) {
        (a[0] as u32) < (b[0] as u32)
    } else {
        chars_lt(a.drop_first(), b.drop_first())
    }
}

/// Entries in ascending textual order of their paths.
pub open spec fn entries_sorted(s: Seq<FileEntry>) -> bool {
    forall|i: int, j: int|
        0 <= i < j < s.len() ==> !chars_lt(#[trigger] s[j].path_view(), #[trigger] s[i].path_view())
}

pub proof fn lemma_chars_lt_asymmetric(a: Seq<char>, b: Seq<char>)
    ensures
        chars_lt(a, b) ==> !chars_lt(b, a),
    decreases a.len(),
{
    if a.len() > 0 && b.len() > 0 && (a[0] as u32) == (b[0] as u32) {
        lemma_chars_lt_asymmetric(a.drop_first(), b.drop_first());
    }
}

pub proof fn lemma_chars_lt_transitive(a: Seq<char>, b: Seq<char>, c: Seq<char>)
    ensures
        chars_lt(a, b) && chars_lt(b, c) ==> chars_lt(a, c),
    decreases a.len(),
{
    if a.len() > 0 && b.len() > 0 && c.len() > 0 && (a[0] as u32) == (b[0] as u32) && (b[0]
        as u32) == (c[0] as u32) {
        lemma_chars_lt_transitive(a.drop_first(), b.drop_first(), c.drop_first());
    }
}

/// Whether `a` comes strictly before `b` in textual order.
pub fn path_lt(a: &str, b: &str) -> (r: bool)
    ensures
        r == chars_lt(a@, b@),
{
    let na = a.unicode_len();
    let nb = b.unicode_len();
    let mut i: usize = 0;
    assert(a@.skip(0) =~= a@ && b@.skip(0) =~= b@);
    while i < na && i < nb
        invariant
            i <= na == a@.len(),
            i <= nb == b@.len(),
            chars_lt(a@, b@) == chars_lt(a@.skip(i as int), b@.skip(i as int)),
        decreases na - i,
    {
        let ca = a.get_char(i);
        let cb = b.get_char(i);
        assert(a@.skip(i as int)[0] == ca && b@.skip(i as int)[0] == cb);
        if (ca as u32) < (cb as u32) {
            return true;
        }
        if (ca as u32) > (cb as u32) {
            return false;
        }
        assert(a@.skip(i as int).drop_first() =~= a@.skip(i + 1));
        assert(b@.skip(i as int).drop_first() =~= b@.skip(i + 1));
        i = i + 1;
    }
    i == na && i < nb
}

/// The entries of `files` in ascending textual order of their paths. Entries
/// with the same path keep their relative order.
pub fn sort_entries(files: Vec<FileEntry>) -> (r: Vec<FileEntry>)
    ensures
        r@.to_multiset() == files@.to_multiset(),
        entries_sorted(r@),
{
    let ghost orig = files@;
    let n = files.len();
    let mut rest = files;
    let mut sorted: Vec<FileEntry> = Vec::new();
    let mut k: usize = 0;
    assert(orig.subrange(0, 0) =~= Seq::<FileEntry>::empty());
    assert(orig.subrange(0, n as int) =~= orig);
    while k < n
        invariant
            n == orig.len(),
            k <= n,
            rest@ =~= orig.subrange(k as int, n as int),
            sorted@.to_multiset() == orig.subrange(0, k as int).to_multiset(),
            entries_sorted(sorted@),
        decreases n - k,
    {
        let e = rest.remove(0);
        let key = e.path();
        let mut pos: usize = 0;
        while pos < sorted.len()
            invariant
                pos <= sorted@.len(),
                key@ == e.path_view(),
                forall|j: int| 0 <= j < pos ==> !chars_lt(key@, #[trigger] sorted@[j].path_view()),
            ensures
                pos <= sorted@.len(),
                forall|j: int| 0 <= j < pos ==> !chars_lt(key@, #[trigger] sorted@[j].path_view()),
                pos < sorted@.len() ==> chars_lt(key@, sorted@[pos as int].path_view()),
            decreases sorted@.len() - pos,
        {
            let other = sorted[pos].path();
            if path_lt(key.as_str(), other.as_str()) {
                break;
            }
            pos = pos + 1;
        }
        proof {
            let s = sorted@;
            assert forall|j: int| pos <= j < s.len() implies !chars_lt(
                #[trigger] s[j].path_view(),
                e.path_view(),
            ) by {
                lemma_chars_lt_asymmetric(e.path_view(), s[pos as int].path_view());
                lemma_chars_lt_transitive(
                    s[j].path_view(),
                    e.path_view(),
                    s[pos as int].path_view(),
                );
            }
        }
        let ghost before = sorted@;
        sorted.insert(pos, e);
        proof {
            let s = sorted@;
            assert forall|i: int, j: int| 0 <= i < j < s.len() implies !chars_lt(
                #[trigger] s[j].path_view(),
                #[trigger] s[i].path_view(),
            ) by {
                if j < pos {
                    assert(s[i] == before[i] && s[j] == before[j]);
                } else if j == pos {
                    assert(s[i] == before[i]);
                } else if i == pos {
                    assert(s[j] == before[j - 1]);
                } else if i < pos {
                    assert(s[i] == before[i] && s[j] == before[j - 1]);
                } else {
                    assert(s[i] == before[i - 1] && s[j] == before[j - 1]);
                }
            }
            assert(orig.subrange(0, k + 1) =~= orig.subrange(0, k as int).push(orig[k as int]));
        }
        k = k + 1;
    }
    sorted
}

} // verus!
