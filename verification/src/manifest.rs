//! The manifest reader: scan a `.gitmodules`-style text line by line and keep,
//! for each line that contains the marker `path = `, everything after the
//! first occurrence of that marker, in line order. Lines without the marker
//! contribute nothing, and no path syntax is validated here.

use vstd::prelude::*;
use vstd::string::StrSliceExecFns;

verus! {

/// The marker that flags a manifest line as a path entry: `path = `.
pub open spec fn marker() -> Seq<char> {
    seq!['p', 'a', 't', 'h', ' ', '=', ' ']
}

/// True when the marker occupies positions `i .. i + 7` of `l`.
pub open spec fn is_marker_at(l: Seq<char>, i: int) -> bool {
    &&& 0 <= i
    &&& i + marker().len() <= l.len()
    &&& l.subrange(i, i + marker().len() as int) == marker()
}

/// True when `i` is the position of the first marker occurrence in `l`.
pub open spec fn is_first_marker(l: Seq<char>, i: int) -> bool {
    &&& is_marker_at(l, i)
    &&& forall|k: int| 0 <= k < i ==> !is_marker_at(l, k)
}

/// The path a line yields: everything after the first marker occurrence,
/// to the end of the line; `None` for a line without the marker.
pub open spec fn line_path(l: Seq<char>) -> Option<Seq<char>> {
    if exists|i: int| is_first_marker(l, i) {
        let i = choose|i: int| is_first_marker(l, i);
        Some(l.skip(i + marker().len() as int))
    } else {
        None
    }
}

/// True when `j` is the position of the first line feed in `s`.
pub open spec fn is_first_newline(s: Seq<char>, j: int) -> bool {
    &&& 0 <= j < s.len()
    &&& s[j] == '\n'
    &&& forall|k: int| 0 <= k < j ==> s[k] != '\n'
}

/// A terminated line drops one carriage return directly before its line feed.
pub open spec fn strip_cr(l: Seq<char>) -> Seq<char> {
    if l.len() > 0 && l.last() == '\r' {
        l.drop_last()
    } else {
        l
    }
}

/// The lines of `s`: split at each line feed, where a carriage return
/// directly before a line feed belongs to the terminator. The final
/// terminator is optional, and an unterminated last line keeps a trailing
/// carriage return.
pub open spec fn split_lines(s: Seq<char>) -> Seq<Seq<char>>
    decreases s.len(),
{
    if s.len() == 0 {
        Seq::empty()
    } else if exists|j: int| is_first_newline(s, j) {
        let j = choose|j: int| is_first_newline(s, j);
        seq![strip_cr(s.take(j))] + split_lines(s.skip(j + 1))
    } else {
        seq![s]
    }
}

/// One path per marked line, in line order; unmarked lines contribute nothing.
pub open spec fn paths_of_lines(ls: Seq<Seq<char>>) -> Seq<Seq<char>>
    decreases ls.len(),
{
    if ls.len() == 0 {
        Seq::empty()
    } else {
        (match line_path(ls[0]) {
            Some(p) => seq![p],
            None => Seq::<Seq<char>>::empty(),
        }) + paths_of_lines(ls.skip(1))
    }
}

/// The ordered path entries of a manifest text.
pub open spec fn manifest_paths(s: Seq<char>) -> Seq<Seq<char>> {
    paths_of_lines(split_lines(s))
}

/// The views of a vector of path strings.
pub open spec fn path_views(v: Seq<String>) -> Seq<Seq<char>> {
    v.map_values(|p: String| p@)
}

/// How many lines carry the marker.
pub open spec fn marked_count(ls: Seq<Seq<char>>) -> int
    decreases ls.len(),
{
    if ls.len() == 0 {
        0
    } else {
        (if line_path(ls[0]) is Some {
            1int
        } else {
            0int
        }) + marked_count(ls.skip(1))
    }
}

/// A first marker at `i` settles `line_path`.
pub proof fn lemma_line_path_found(l: Seq<char>, i: int)
    requires
        is_first_marker(l, i),
    ensures
        line_path(l) == Some(l.skip(i + marker().len() as int)),
{
    let j = choose|j: int| is_first_marker(l, j);
    if j < i {
        assert(is_marker_at(l, j));
        assert(false);
    }
    if i < j {
        assert(is_marker_at(l, i));
        assert(false);
    }
}

/// A line with no marker occurrence at all yields no path.
pub proof fn lemma_line_path_none(l: Seq<char>)
    requires
        forall|k: int| !is_marker_at(l, k),
    ensures
        line_path(l) is None,
{
    if exists|i: int| is_first_marker(l, i) {
        let i = choose|i: int| is_first_marker(l, i);
        assert(is_marker_at(l, i));
        assert(false);
    }
}

/// A first line feed at `j` splits off one line.
pub proof fn lemma_split_lines_terminated(s: Seq<char>, j: int)
    requires
        is_first_newline(s, j),
    ensures
        split_lines(s) == seq![strip_cr(s.take(j))] + split_lines(s.skip(j + 1)),
{
    let i = choose|i: int| is_first_newline(s, i);
    if i < j {
        assert(s[i] == '\n');
        assert(false);
    }
    if j < i {
        assert(s[j] == '\n');
        assert(false);
    }
}

/// A nonempty text without a line feed is one single line.
pub proof fn lemma_split_lines_unterminated(s: Seq<char>)
    requires
        s.len() > 0,
        forall|k: int| 0 <= k < s.len() ==> s[k] != '\n',
    ensures
        split_lines(s) == seq![s],
{
    if exists|j: int| is_first_newline(s, j) {
        let j = choose|j: int| is_first_newline(s, j);
        assert(s[j] == '\n');
        assert(false);
    }
}

/// Prepending one line prepends its path entry, if it has one.
pub proof fn lemma_paths_of_lines_cons(l: Seq<char>, ls: Seq<Seq<char>>)
    ensures
        paths_of_lines(seq![l] + ls) == (match line_path(l) {
            Some(p) => seq![p],
            None => Seq::<Seq<char>>::empty(),
        }) + paths_of_lines(ls),
{
    let all = seq![l] + ls;
    assert(all.len() == 1 + ls.len());
    assert(all[0] == l);
    assert(all.skip(1) =~= ls);
}

proof fn lemma_paths_of_lines_len(ls: Seq<Seq<char>>)
    ensures
        paths_of_lines(ls).len() == marked_count(ls),
    decreases ls.len(),
{
    if ls.len() > 0 {
        lemma_paths_of_lines_len(ls.skip(1));
    }
}

/// One path per marked line: a manifest whose split has `N` lines carrying
/// the marker yields exactly `N` path entries; the contract of
/// `parse_manifest` places them in line order, so unmarked lines contribute
/// nothing and no marked line is skipped or counted twice.
pub proof fn lemma_one_path_per_marked_line(s: Seq<char>)
    ensures
        manifest_paths(s).len() == marked_count(split_lines(s)),
{
    lemma_paths_of_lines_len(split_lines(s));
}

/// Whether the marker sits at position `i` of `line`.
fn marker_matches(line: &str, i: usize) -> (b: bool)
    requires
        line@.len() <= usize::MAX,
        i + marker().len() <= line@.len(),
    ensures
        b == is_marker_at(line@, i as int),
{
    proof {
        assert(marker().len() == 7);
    }
    let b = line.get_char(i) == 'p' && line.get_char(i + 1) == 'a' && line.get_char(i + 2) == 't'
        && line.get_char(i + 3) == 'h' && line.get_char(i + 4) == ' ' && line.get_char(i + 5)
        == '=' && line.get_char(i + 6) == ' ';
    proof {
        let l = line@;
        let ii = i as int;
        if b {
            assert(l.subrange(ii, ii + marker().len() as int) =~= marker());
        } else if is_marker_at(l, ii) {
            let sub = l.subrange(ii, ii + marker().len() as int);
            assert(l[ii] == sub[0] && sub[0] == marker()[0]);
            assert(l[ii + 1] == sub[1] && sub[1] == marker()[1]);
            assert(l[ii + 2] == sub[2] && sub[2] == marker()[2]);
            assert(l[ii + 3] == sub[3] && sub[3] == marker()[3]);
            assert(l[ii + 4] == sub[4] && sub[4] == marker()[4]);
            assert(l[ii + 5] == sub[5] && sub[5] == marker()[5]);
            assert(l[ii + 6] == sub[6] && sub[6] == marker()[6]);
            assert(false);
        }
    }
    b
}

/// Index of the first occurrence of the path marker in `line`, if any.
fn find_marker_in(line: &str) -> (r: Option<usize>)
    ensures
        r matches Some(i) ==> is_first_marker(line@, i as int),
        r is None ==> forall|k: int| !is_marker_at(line@, k),
{
    proof {
        assert(marker().len() == 7);
    }
    let n = line.unicode_len();
    if n < 7 {
        proof {
            assert forall|k: int| !is_marker_at(line@, k) by {
                if 0 <= k && k + marker().len() <= line@.len() {
                    assert(false);
                }
            }
        }
        return None;
    }
    let mut i: usize = 0;
    while i <= n - 7
        invariant
            n == line@.len(),
            7 <= n,
            i <= n - 7 + 1,
            forall|k: int| 0 <= k < i ==> !is_marker_at(line@, k),
        decreases n - i,
    {
        if marker_matches(line, i) {
            return Some(i);
        }
        i = i + 1;
    }
    proof {
        assert forall|k: int| !is_marker_at(line@, k) by {
            if 0 <= k < i {
            } else if k > n - 7 {
                assert(!is_marker_at(line@, k));
            }
        }
    }
    None
}

/// Extract the path entries of a manifest text: scan it line by line and
/// keep, for each line containing the marker, everything after the marker's
/// first occurrence, preserving line order.
pub fn parse_manifest(contents: &str) -> (paths: Vec<String>)
    ensures
        path_views(paths@) == manifest_paths(contents@),
    decreases contents@.len(),
{
    let ghost s = contents@;
    let n = contents.unicode_len();
    if n == 0 {
        let paths: Vec<String> = Vec::new();
        assert(path_views(paths@) =~= manifest_paths(s));
        return paths;
    }
    // Find the first line feed, if the first line is terminated.
    let mut e: usize = 0;
    let mut terminated = false;
    while !terminated && e < n
        invariant
            e <= n,
            n == s.len(),
            s == contents@,
            forall|k: int| 0 <= k < e ==> s[k] != '\n',
            terminated ==> e < n && s[e as int] == '\n',
        decreases n - e, (if terminated { 0int } else { 1int }),
    {
        if contents.get_char(e) == '\n' {
            terminated = true;
        } else {
            e = e + 1;
        }
    }
    // The first line, with a carriage return before the line feed dropped.
    let line_end = if terminated && e > 0 {
        if contents.get_char(e - 1) == '\r' {
            e - 1
        } else {
            e
        }
    } else {
        e
    };
    let line = contents.substring_char(0, line_end);
    let found = find_marker_in(line);
    let mut paths: Vec<String> = Vec::new();
    let ghost head = match line_path(line@) {
        Some(p) => seq![p],
        None => Seq::<Seq<char>>::empty(),
    };
    match found {
        Some(i) => {
            proof {
                assert(marker().len() == 7);
                lemma_line_path_found(line@, i as int);
            }
            let m = line.unicode_len();
            let p = String::from_str(line.substring_char(i + 7, m));
            proof {
                assert(p@ =~= line@.skip(i as int + 7));
            }
            paths.push(p);
        },
        None => {
            proof {
                lemma_line_path_none(line@);
            }
        },
    }
    if terminated {
        let rest = contents.substring_char(e + 1, n);
        let mut rest_paths = parse_manifest(rest);
        paths.append(&mut rest_paths);
        proof {
            assert(is_first_newline(s, e as int));
            lemma_split_lines_terminated(s, e as int);
            assert(line@ =~= strip_cr(s.take(e as int)));
            assert(rest@ =~= s.skip(e as int + 1));
            lemma_paths_of_lines_cons(line@, split_lines(s.skip(e as int + 1)));
            assert(manifest_paths(s) == head + manifest_paths(rest@));
            assert(path_views(paths@) =~= manifest_paths(s));
        }
    } else {
        proof {
            assert(e == n);
            lemma_split_lines_unterminated(s);
            assert(line@ =~= s);
            lemma_paths_of_lines_cons(line@, Seq::<Seq<char>>::empty());
            assert(split_lines(s) =~= seq![line@] + Seq::<Seq<char>>::empty());
            assert(paths_of_lines(Seq::<Seq<char>>::empty()) =~= Seq::<Seq<char>>::empty());
            assert(manifest_paths(s) == head + Seq::<Seq<char>>::empty());
            assert(path_views(paths@) =~= manifest_paths(s));
        }
    }
    paths
}

} // verus!
