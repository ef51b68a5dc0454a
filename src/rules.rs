//! Ignore rules: the `ignore` crate's gitignore builder and matcher, seen
//! through the lines they hold.

use ignore::gitignore::{Gitignore, GitignoreBuilder};
use vstd::prelude::*;

verus! {

#[verifier::external_type_specification]
#[verifier::external_body]
pub struct ExGitignoreBuilder(GitignoreBuilder);

#[verifier::external_type_specification]
#[verifier::external_body]
pub struct ExGitignore(Gitignore);

#[verifier::external_type_specification]
#[verifier::external_body]
pub struct ExIgnoreError(ignore::Error);

/// The text of each glob that a builder holds, in the order it was added.
pub uninterp spec fn builder_lines(b: GitignoreBuilder) -> Seq<Seq<char>>;

/// The directory that a builder matches paths relative to.
pub uninterp spec fn builder_root(b: GitignoreBuilder) -> Seq<char>;

/// The lines that a compiled matcher holds, in order.
pub uninterp spec fn matcher_lines(g: Gitignore) -> Seq<Seq<char>>;

/// The directory that a compiled matcher matches paths relative to.
pub uninterp spec fn matcher_root(g: Gitignore) -> Seq<char>;

/// Whether the glob written on `line`, rooted at `root`, matches `path`
/// (a directory-only glob matches directories alone).
pub uninterp spec fn line_matches(root: Seq<char>, line: Seq<char>, path: Seq<char>, is_dir: bool) -> bool;

/// Whether a builder accepts `line`: a comment, a blank line, or a glob
/// that parses.
pub uninterp spec fn line_parses(line: Seq<char>) -> bool;

/// Whether the globs written on `lines` compile into one matcher.
pub uninterp spec fn rules_compile(lines: Seq<Seq<char>>) -> bool;

/// The characters with Unicode's White_Space property, which
/// `char::is_whitespace` recognises.
pub open spec fn is_white_space(c: char) -> bool {
    let u = c as u32;
    (9 <= u <= 13) || u == 32 || u == 0x85 || u == 0xa0 || u == 0x1680 || (0x2000 <= u <= 0x200a) || u == 0x2028
        || u == 0x2029 || u == 0x202f || u == 0x205f || u == 0x3000
}

/// `s` without its trailing white space.
pub open spec fn trim_end(s: Seq<char>) -> Seq<char>
    decreases s.len(),
{
    if s.len() > 0 && is_white_space(s.last()) {
        trim_end(s.drop_last())
    } else {
        s
    }
}

/// The text that a builder stores for `line`: nothing for a comment or a
/// blank line; else the line without trailing white space, unless it ends
/// in an escaped space.
pub open spec fn stored_glob(line: Seq<char>) -> Option<Seq<char>> {
    if line.len() > 0 && line[0] == '#' {
        None
    } else {
        let t = if line.len() >= 2 && line[line.len() - 2] == '\\' && line.last() == ' ' {
            line
        } else {
            trim_end(line)
        };
        if t.len() == 0 {
            None
        } else {
            Some(t)
        }
    }
}

/// A root path without one leading `./`.
pub open spec fn strip_dot_slash(s: Seq<char>) -> Seq<char> {
    if s.len() >= 2 && s[0] == '.' && s[1] == '/' {
        s.subrange(2, s.len() as int)
    } else {
        s
    }
}

proof fn lemma_trim_end_prefix(s: Seq<char>)
    ensures
        trim_end(s).len() <= s.len(),
        trim_end(s) == s.subrange(0, trim_end(s).len() as int),
    decreases s.len(),
{
    if s.len() > 0 && is_white_space(s.last()) {
        lemma_trim_end_prefix(s.drop_last());
        assert(s.drop_last().subrange(0, trim_end(s).len() as int) =~= s.subrange(0, trim_end(s).len() as int));
    } else {
        assert(s.subrange(0, s.len() as int) =~= s);
    }
}

/// What a builder stores of a line starts as the line does, so it
/// whitelists exactly when the line does.
pub proof fn lemma_stored_glob_polarity(line: Seq<char>)
    ensures
        stored_glob(line) matches Some(t) ==> is_whitelist_line(t) == is_whitelist_line(line),
{
    lemma_trim_end_prefix(line);
    if let Some(t) = stored_glob(line) {
        assert(t[0] == line[0]);
    }
}

/// A whitelist line re-includes what it matches: it starts with `!`.
pub open spec fn is_whitelist_line(line: Seq<char>) -> bool {
    line.len() > 0 && line[0] == '!'
}

/// Whether some line of `lines` matches `path`.
pub open spec fn any_matches(root: Seq<char>, lines: Seq<Seq<char>>, path: Seq<char>, is_dir: bool) -> bool {
    exists|i: int| 0 <= i < lines.len() && #[trigger] line_matches(root, lines[i], path, is_dir)
}

/// Outcome of matching a path against a compiled matcher.
#[derive(Clone, Copy, Debug, PartialEq, Eq, Structural)]
pub enum Verdict {
    Ignore,
    Whitelist,
    Neutral,
}

/// Relies on `GitignoreBuilder::new`: an empty builder rooted at `root`,
/// less a leading `./`.
#[verifier::external_body]
pub(crate) fn new_builder(root: &str) -> (r: GitignoreBuilder)
    ensures
        builder_lines(r) == Seq::<Seq<char>>::empty(),
        builder_root(r) == strip_dot_slash(root@),
{
    GitignoreBuilder::new(root)
}

/// Relies on `GitignoreBuilder`'s derived `Clone`: the copy holds the same
/// lines and root.
#[verifier::external_body]
pub(crate) fn clone_builder(b: &GitignoreBuilder) -> (r: GitignoreBuilder)
    ensures
        builder_lines(r) == builder_lines(*b),
        builder_root(r) == builder_root(*b),
{
    b.clone()
}

/// Relies on `GitignoreBuilder::add_line`: a comment or blank line is
/// accepted and stores nothing; a glob that parses is stored, trimmed as
/// `stored_glob` says; one that does not parse is refused and leaves the
/// builder as it was. `from` names the file the line was read from, for the
/// crate's reports only.
#[verifier::external_body]
pub(crate) fn add_line(b: &mut GitignoreBuilder, from: Option<&str>, line: &str) -> (r: Result<(), ignore::Error>)
    ensures
        r.is_ok() == line_parses(line@),
        r.is_ok() ==> builder_lines(*final(b)) == match stored_glob(line@) {
            Some(t) => builder_lines(*old(b)).push(t),
            None => builder_lines(*old(b)),
        },
        r.is_err() ==> builder_lines(*final(b)) == builder_lines(*old(b)),
        builder_root(*final(b)) == builder_root(*old(b)),
{
    b.add_line(from.map(std::path::PathBuf::from), line).map(|_| ())
}

/// Relies on `GitignoreBuilder::build`: a matcher over the builder's lines
/// and root. Compiling the glob set fails when it exceeds the regex size
/// limit, which depends on the globs alone.
#[verifier::external_body]
pub(crate) fn build_matcher(b: &GitignoreBuilder) -> (r: Result<Gitignore, ignore::Error>)
    ensures
        r.is_ok() == rules_compile(builder_lines(*b)),
        r matches Ok(g) ==> matcher_lines(g) == builder_lines(*b) && matcher_root(g) == builder_root(*b),
{
    b.build()
}

/// Relies on `Gitignore::matched`: it reports the last line that matches
/// `path`, as a whitelist or an ignore by that line's leading `!`, and
/// nothing when no line matches.
#[verifier::external_body]
pub(crate) fn matched(g: &Gitignore, path: &str, is_dir: bool) -> (r: Verdict)
    ensures
        r == Verdict::Neutral <==> !any_matches(matcher_root(*g), matcher_lines(*g), path@, is_dir),
        r == Verdict::Whitelist ==> exists|i: int|
            0 <= i < matcher_lines(*g).len()
                && #[trigger] line_matches(matcher_root(*g), matcher_lines(*g)[i], path@, is_dir)
                && is_whitelist_line(matcher_lines(*g)[i]),
        r == Verdict::Ignore ==> exists|i: int|
            0 <= i < matcher_lines(*g).len()
                && #[trigger] line_matches(matcher_root(*g), matcher_lines(*g)[i], path@, is_dir)
                && !is_whitelist_line(matcher_lines(*g)[i]),
{
    match g.matched(path, is_dir) {
        ignore::Match::None => Verdict::Neutral,
        ignore::Match::Ignore(_) => Verdict::Ignore,
        ignore::Match::Whitelist(_) => Verdict::Whitelist,
    }
}

} // verus!
