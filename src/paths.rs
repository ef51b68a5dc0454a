//! Path text: the final segment of a path, a file name's stem and extension.

use vstd::prelude::*;
use vstd::string::*;

verus! {

/// Index of the last `c` in `s`, or -1 when `s` holds none.
pub open spec fn last_index_of(s: Seq<char>, c: char) -> int
    decreases s.len(),
{
    if s.len() == 0 {
        -1
    } else if s.last() == c {
        s.len() - 1
    } else {
        last_index_of(s.drop_last(), c)
    }
}

/// `s` without the run of `c` at its end.
pub open spec fn strip_trailing(s: Seq<char>, c: char) -> Seq<char>
    decreases s.len(),
{
    if s.len() > 0 && s.last() == c {
        strip_trailing(s.drop_last(), c)
    } else {
        s
    }
}

/// The last segment of a `/`-separated path, trailing separators ignored.
pub open spec fn final_segment(path: Seq<char>) -> Seq<char> {
    let t = strip_trailing(path, '/');
    t.subrange(last_index_of(t, '/') + 1, t.len() as int)
}

/// A file name up to its last dot; the whole name where the only dot leads it
/// or there is none.
pub open spec fn file_stem(name: Seq<char>) -> Seq<char> {
    let d = last_index_of(name, '.');
    if d <= 0 {
        name
    } else {
        name.subrange(0, d)
    }
}

/// What follows a file name's last dot, unless that dot leads the name.
pub open spec fn extension(name: Seq<char>) -> Option<Seq<char>> {
    let d = last_index_of(name, '.');
    if d <= 0 {
        None
    } else {
        Some(name.subrange(d + 1, name.len() as int))
    }
}

/// The page extension, `md`, in any case.
pub open spec fn is_page_extension(e: Seq<char>) -> bool {
    e.len() == 2 && (e[0] == 'm' || e[0] == 'M') && (e[1] == 'd' || e[1] == 'D')
}

/// A file is a page when its extension is the page extension.
pub open spec fn is_page_name(name: Seq<char>) -> bool {
    match extension(name) {
        Some(e) => is_page_extension(e),
        None => false,
    }
}

proof fn lemma_last_index_bounds(s: Seq<char>, c: char)
    ensures
        -1 <= last_index_of(s, c) < s.len(),
        last_index_of(s, c) >= 0 ==> s[last_index_of(s, c)] == c,
    decreases s.len(),
{
    if s.len() > 0 && s.last() != c {
        lemma_last_index_bounds(s.drop_last(), c);
    }
}

proof fn lemma_strip_trailing_prefix(s: Seq<char>, c: char)
    ensures
        strip_trailing(s, c).len() <= s.len(),
        strip_trailing(s, c) == s.subrange(0, strip_trailing(s, c).len() as int),
    decreases s.len(),
{
    if s.len() > 0 && s.last() == c {
        lemma_strip_trailing_prefix(s.drop_last(), c);
        assert(s.drop_last().subrange(0, strip_trailing(s, c).len() as int)
            =~= s.subrange(0, strip_trailing(s, c).len() as int));
    } else {
        assert(s.subrange(0, s.len() as int) =~= s);
    }
}

/// Index of the last `c` among the first `end` characters of `s`.
fn find_last(s: &str, end: usize, c: char) -> (r: Option<usize>)
    requires
        end <= s@.len(),
    ensures
        match r {
            Some(i) => i as int == last_index_of(s@.subrange(0, end as int), c),
            None => last_index_of(s@.subrange(0, end as int), c) == -1,
        },
{
    let mut i: usize = end;
    while i > 0
        invariant
            i <= end <= s@.len(),
            last_index_of(s@.subrange(0, end as int), c) == last_index_of(s@.subrange(0, i as int), c),
        decreases i,
    {
        assert(s@.subrange(0, i as int).drop_last() =~= s@.subrange(0, i - 1));
        if s.get_char(i - 1) == c {
            return Some(i - 1);
        }
        i = i - 1;
    }
    None
}

/// Length of `s` without its trailing `c` characters.
fn trimmed_len(s: &str, c: char) -> (r: usize)
    ensures
        r <= s@.len(),
        strip_trailing(s@, c) == s@.subrange(0, r as int),
{
    let n = s.unicode_len();
    let mut j: usize = n;
    assert(s@.subrange(0, n as int) =~= s@);
    while j > 0 && s.get_char(j - 1) == c
        invariant
            j <= n == s@.len(),
            strip_trailing(s@, c) == strip_trailing(s@.subrange(0, j as int), c),
        decreases j,
    {
        assert(s@.subrange(0, j as int).drop_last() =~= s@.subrange(0, j - 1));
        j = j - 1;
    }
    j
}

/// The final segment of `path`: a directory's name.
pub fn final_segment_of(path: &str) -> (r: String)
    ensures
        r@ == final_segment(path@),
{
    let end = trimmed_len(path, '/');
    proof {
        lemma_last_index_bounds(path@.subrange(0, end as int), '/');
    }
    let start: usize = match find_last(path, end, '/') {
        Some(i) => i + 1,
        None => 0,
    };
    let seg = path.substring_char(start, end);
    assert(seg@ =~= final_segment(path@));
    String::from_str(seg)
}

/// The stem of the file name `name`.
pub fn file_stem_of(name: &str) -> (r: String)
    ensures
        r@ == file_stem(name@),
{
    let n = name.unicode_len();
    assert(name@.subrange(0, n as int) =~= name@);
    proof {
        lemma_last_index_bounds(name@, '.');
    }
    match find_last(name, n, '.') {
        Some(d) if d > 0 => {
            String::from_str(name.substring_char(0, d))
        },
        _ => String::from_str(name),
    }
}

/// Whether the file name `name` carries the page extension.
pub fn is_page(name: &str) -> (r: bool)
    ensures
        r == is_page_name(name@),
{
    let n = name.unicode_len();
    assert(name@.subrange(0, n as int) =~= name@);
    match find_last(name, n, '.') {
        Some(d) if d > 0 => {
            proof {
                lemma_last_index_bounds(name@, '.');
            }
            if n - d != 3 {
                return false;
            }
            let m = name.get_char(d + 1);
            let k = name.get_char(d + 2);
            (m == 'm' || m == 'M') && (k == 'd' || k == 'D')
        },
        _ => false,
    }
}

} // verus!
