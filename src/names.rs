use vstd::prelude::*;
use vstd::string::*;

verus! {

/// What `str::trim` leaves of a line.
pub uninterp spec fn trimmed(s: Seq<char>) -> Seq<char>;

/// Relies on `str::trim`: the line without its leading and trailing white
/// space, which depends on the line alone.
#[verifier::external_body]
fn trim_line(s: &str) -> (r: String)
    ensures
        r@ == trimmed(s@),
{
    s.trim().to_string()
}

/// A line of a name list that names something: it is not empty and does not
/// start with `#`.
pub open spec fn is_name_line(l: Seq<char>) -> bool {
    l.len() > 0 && l[0] != '#'
}

/// The lines of `ls` that name something, in their order.
pub open spec fn kept_lines(ls: Seq<Seq<char>>) -> Seq<Seq<char>>
    decreases ls.len(),
{
    if ls.len() == 0 {
        Seq::empty()
    } else if is_name_line(ls.last()) {
        kept_lines(ls.drop_last()).push(ls.last())
    } else {
        kept_lines(ls.drop_last())
    }
}

/// The name list that the lines `ls` give: each kept line, trimmed.
pub open spec fn name_list_of(ls: Seq<Seq<char>>) -> Seq<Seq<char>> {
    kept_lines(ls).map_values(|l: Seq<char>| trimmed(l))
}

proof fn lemma_kept_lines_concat(a: Seq<Seq<char>>, b: Seq<Seq<char>>)
    ensures
        kept_lines(a + b) == kept_lines(a) + kept_lines(b),
    decreases b.len(),
{
    if b.len() == 0 {
        assert(a + b =~= a);
        assert(kept_lines(a) + kept_lines(b) =~= kept_lines(a));
    } else {
        assert((a + b).drop_last() =~= a + b.drop_last());
        lemma_kept_lines_concat(a, b.drop_last());
        if is_name_line(b.last()) {
            assert(kept_lines(a) + kept_lines(b.drop_last()).push(b.last()) =~= (kept_lines(a)
                + kept_lines(b.drop_last())).push(b.last()));
        }
    }
}

/// A blank line or a comment line, wherever it stands, leaves the name list
/// as it is, and so does not count toward its length.
pub proof fn ignored_lines_do_not_count(a: Seq<Seq<char>>, l: Seq<char>, b: Seq<Seq<char>>)
    requires
        l.len() == 0 || l[0] == '#',
    ensures
        name_list_of(a + seq![l] + b) == name_list_of(a + b),
        name_list_of(a + seq![l] + b).len() == name_list_of(a + b).len(),
{
    lemma_kept_lines_concat(a + seq![l], b);
    lemma_kept_lines_concat(a, seq![l]);
    lemma_kept_lines_concat(a, b);
    let e = Seq::<Seq<char>>::empty();
    assert(seq![l].drop_last() =~= e);
    assert(kept_lines(e) =~= e);
    assert(seq![l].last() == l);
    assert(kept_lines(seq![l]) =~= e);
    assert(kept_lines(a) + kept_lines(seq![l]) =~= kept_lines(a));
}

/// The name list that the lines of a list file give: the lines that are
/// neither empty nor start with `#`, each trimmed, in their order.
pub fn name_list_from_lines(lines: &Vec<String>) -> (r: Vec<String>)
    ensures
        r.deep_view() == name_list_of(lines.deep_view()),
{
    let ghost ls = lines.deep_view();
    let mut r: Vec<String> = Vec::new();
    let mut i: usize = 0;
    while i < lines.len()
        invariant
            i <= lines.len(),
            ls == lines.deep_view(),
            r.deep_view() =~= name_list_of(ls.subrange(0, i as int)),
        decreases lines.len() - i,
    {
        let line = lines[i].as_str();
        assert(ls.subrange(0, i + 1).drop_last() =~= ls.subrange(0, i as int));
        assert(ls[i as int] == line@);
        let ghost pre = ls.subrange(0, i as int);
        let ghost post = ls.subrange(0, i + 1);
        assert(post.last() == line@);
        if line.unicode_len() > 0 && line.get_char(0) != '#' {
            let t = trim_line(line);
            let ghost before = r.deep_view();
            r.push(t);
            assert(kept_lines(post).map_values(|l: Seq<char>| trimmed(l)) =~= kept_lines(
                pre,
            ).map_values(|l: Seq<char>| trimmed(l)).push(trimmed(line@)));
            assert(r.deep_view() =~= before.push(t@));
        }
        i = i + 1;
    }
    assert(ls.subrange(0, lines.len() as int) =~= ls);
    r
}

} // verus!
