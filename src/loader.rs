//! The site tree and the loader that builds it from a directory listing,
//! one directory at a time, with the ignore rules of every ancestor.
//!
//! Error policy: an entry whose metadata could not be read is dropped from
//! its directory's listing, while a subdirectory whose own build fails (an
//! ignore line that does not parse, or rules that do not compile) fails the
//! build of every directory above it.

use crate::paths::{file_stem, file_stem_of, final_segment, final_segment_of, is_page, is_page_name};
use crate::rules::{
    lemma_stored_glob_polarity, rules_compile, stored_glob, strip_dot_slash, trim_end,
    add_line, any_matches, build_matcher, builder_lines, builder_root, clone_builder, is_whitelist_line,
    line_parses, matched, matcher_lines, matcher_root, new_builder, Verdict,
};
use ignore::gitignore::{Gitignore, GitignoreBuilder};
use vstd::prelude::*;

verus! {

/// Kind of a leaf of the site tree.
#[derive(Clone, Copy, Debug, PartialEq, Eq, Structural)]
pub enum FileType {
    Page,
    Resource,
}

/// A file of the site: its kind, its name without extension, its path.
#[derive(Debug)]
pub struct SiteFile {
    pub ty: FileType,
    pub name: String,
    pub file_path: String,
}

/// A directory of the site, owning its files and subdirectories.
#[derive(Debug)]
pub struct SiteDir {
    pub name: String,
    pub file_path: String,
    pub files: Vec<SiteFile>,
    pub subdirs: Vec<SiteDir>,
}

/// One entry of a directory as read from disk.
#[derive(Debug)]
pub enum Entry {
    /// A file (anything that is not a directory), by path.
    File(String),
    /// A subdirectory, with its own listing.
    Dir(DirListing),
    /// An entry whose metadata could not be read.
    Unreadable,
}

/// What was read of one directory: its path, the lines of its ignore file
/// when it has one, and its direct entries.
#[derive(Debug)]
pub struct DirListing {
    pub path: String,
    pub ignore_file: Option<Vec<String>>,
    pub entries: Vec<Entry>,
}

/// Why a build failed.
#[derive(Debug)]
pub enum LoadError {
    /// A line of the ignore file of `dir` does not parse as a pattern.
    InvalidPattern { dir: String, line: String },
    /// The rules in force for `dir` could not be compiled.
    Compile { dir: String },
}

/// Kind, name and path of a file.
pub type FileView = (FileType, Seq<char>, Seq<char>);

pub open spec fn file_view(f: SiteFile) -> FileView {
    (f.ty, f.name@, f.file_path@)
}

/// The node that classifying the file at `path` gives.
pub open spec fn file_node(path: Seq<char>) -> FileView {
    let name = final_segment(path);
    (if is_page_name(name) { FileType::Page } else { FileType::Resource }, file_stem(name), path)
}

/// The name of the ignore file, which the root's rules always ignore.
pub open spec fn ignore_file_name() -> Seq<char> {
    seq!['.', 'w', 'a', 'r', 'p', 'i', 'g', 'n', 'o', 'r', 'e']
}

/// The globs stored for the lines of `lines` that whitelist (`wl`) or that
/// ignore (`!wl`); comments and blank lines store none.
pub open spec fn select(lines: Seq<Seq<char>>, wl: bool) -> Seq<Seq<char>>
    decreases lines.len(),
{
    if lines.len() == 0 {
        Seq::empty()
    } else {
        let prev = select(lines.drop_last(), wl);
        match stored_glob(lines.last()) {
            Some(t) => if is_whitelist_line(t) == wl {
                prev.push(t)
            } else {
                prev
            },
            None => prev,
        }
    }
}

pub open spec fn lines_view(lines: Option<Vec<String>>) -> Seq<Seq<char>> {
    match lines {
        Some(v) => v@.map_values(|s: String| s@),
        None => Seq::empty(),
    }
}

/// Whether every line parses as a pattern.
pub open spec fn all_parse(lines: Seq<Seq<char>>) -> bool {
    forall|i: int| 0 <= i < lines.len() ==> #[trigger] line_parses(lines[i])
}

/// An entry stays in the tree when a whitelist line matches it, or when no
/// ignore line does.
pub open spec fn kept(
    base: Seq<char>,
    ignores: Seq<Seq<char>>,
    whitelists: Seq<Seq<char>>,
    path: Seq<char>,
    is_dir: bool,
) -> bool {
    any_matches(base, whitelists, path, is_dir) || !any_matches(base, ignores, path, is_dir)
}

/// The files that stay among `entries`, classified, in listing order.
pub open spec fn files_of(
    base: Seq<char>,
    ignores: Seq<Seq<char>>,
    whitelists: Seq<Seq<char>>,
    entries: Seq<Entry>,
) -> Seq<FileView>
    decreases entries.len(),
{
    if entries.len() == 0 {
        Seq::empty()
    } else {
        let prev = files_of(base, ignores, whitelists, entries.drop_last());
        match entries.last() {
            Entry::File(p) => if kept(base, ignores, whitelists, p@, false) {
                prev.push(file_node(p@))
            } else {
                prev
            },
            _ => prev,
        }
    }
}

/// Whether a subdirectory entry is descended into from the directory `root`.
pub open spec fn dir_kept(
    base: Seq<char>,
    ignores: Seq<Seq<char>>,
    whitelists: Seq<Seq<char>>,
    root: Seq<char>,
    e: Entry,
) -> bool {
    match e {
        Entry::Dir(d) => d.path@ != root && kept(base, ignores, whitelists, d.path@, true),
        _ => false,
    }
}

/// The positions in `entries` of the subdirectories that stay, in listing
/// order.
pub open spec fn dir_indices(
    base: Seq<char>,
    ignores: Seq<Seq<char>>,
    whitelists: Seq<Seq<char>>,
    root: Seq<char>,
    entries: Seq<Entry>,
) -> Seq<int>
    decreases entries.len(),
{
    if entries.len() == 0 {
        Seq::empty()
    } else {
        let prev = dir_indices(base, ignores, whitelists, root, entries.drop_last());
        if dir_kept(base, ignores, whitelists, root, entries.last()) {
            prev.push(entries.len() - 1)
        } else {
            prev
        }
    }
}

/// The rules in force below the subdirectory entry `e`: those above it,
/// followed by the lines of its own ignore file.
pub open spec fn child_lines(lines: Seq<Seq<char>>, e: Entry, wl: bool) -> Seq<Seq<char>> {
    lines + select(lines_view(e->Dir_0.ignore_file), wl)
}

/// `d` is the tree of the directory `root`, read as `listing`, under the
/// given rules: its name and path, the files that stay, classified, and for
/// each subdirectory that stays, in listing order, the tree of that
/// subdirectory under the rules extended with its own ignore file.
pub open spec fn built(
    base: Seq<char>,
    ignores: Seq<Seq<char>>,
    whitelists: Seq<Seq<char>>,
    root: Seq<char>,
    listing: DirListing,
    d: SiteDir,
) -> bool
    decreases listing,
{
    let idx = dir_indices(base, ignores, whitelists, root, listing.entries@);
    &&& d.name@ == final_segment(root)
    &&& d.file_path@ == root
    &&& d.files@.map_values(|f: SiteFile| file_view(f)) == files_of(base, ignores, whitelists, listing.entries@)
    &&& d.subdirs@.len() == idx.len()
    &&& forall|j: int|
        #![trigger d.subdirs@[j]]
        #![trigger idx[j]]
        0 <= j < idx.len() ==> 0 <= idx[j] < listing.entries@.len() && listing.entries@[idx[j]] is Dir && built(
            base,
            child_lines(ignores, listing.entries@[idx[j]], false),
            child_lines(whitelists, listing.entries@[idx[j]], true),
            listing.entries@[idx[j]]->Dir_0.path@,
            listing.entries@[idx[j]]->Dir_0,
            d.subdirs@[j],
        )
}

/// Whether some subdirectory that the build descends into, at any depth
/// below `listing`, has an ignore file with a line that does not parse.
pub open spec fn malformed_below(
    base: Seq<char>,
    ignores: Seq<Seq<char>>,
    whitelists: Seq<Seq<char>>,
    root: Seq<char>,
    listing: DirListing,
) -> bool
    decreases listing,
{
    exists|i: int|
        0 <= i < listing.entries@.len() && dir_kept(base, ignores, whitelists, root, #[trigger] listing.entries@[i])
            && (!all_parse(lines_view(listing.entries@[i]->Dir_0.ignore_file)) || malformed_below(
            base,
            child_lines(ignores, listing.entries@[i], false),
            child_lines(whitelists, listing.entries@[i], true),
            listing.entries@[i]->Dir_0.path@,
            listing.entries@[i]->Dir_0,
        ))
}

/// Whether building `listing` under the given rules succeeds: both rule
/// sets compile and every subdirectory that the build enters has an ignore
/// file whose lines all parse, and builds in turn.
pub open spec fn builds(
    base: Seq<char>,
    ignores: Seq<Seq<char>>,
    whitelists: Seq<Seq<char>>,
    root: Seq<char>,
    listing: DirListing,
) -> bool
    decreases listing,
{
    &&& rules_compile(ignores)
    &&& rules_compile(whitelists)
    &&& forall|i: int|
        0 <= i < listing.entries@.len() && dir_kept(base, ignores, whitelists, root, #[trigger] listing.entries@[i])
            ==> all_parse(lines_view(listing.entries@[i]->Dir_0.ignore_file)) && builds(
            base,
            child_lines(ignores, listing.entries@[i], false),
            child_lines(whitelists, listing.entries@[i], true),
            listing.entries@[i]->Dir_0.path@,
            listing.entries@[i]->Dir_0,
        )
}

impl SiteDir {
    /// An empty directory node.
    pub fn new(name: &str, file_path: &str) -> (r: SiteDir)
        ensures
            r.name@ == name@,
            r.file_path@ == file_path@,
            r.files@.len() == 0,
            r.subdirs@.len() == 0,
    {
        SiteDir {
            name: String::from_str(name),
            file_path: String::from_str(file_path),
            files: Vec::new(),
            subdirs: Vec::new(),
        }
    }
}

/// Classifies the file at `path`: a page when its extension is `md` in any
/// case, else a resource; named by its stem.
pub fn classify(path: &str) -> (r: SiteFile)
    ensures
        file_view(r) == file_node(path@),
{
    let name = final_segment_of(path);
    let ty = if is_page(name.as_str()) {
        FileType::Page
    } else {
        FileType::Resource
    };
    SiteFile { ty, name: file_stem_of(name.as_str()), file_path: String::from_str(path) }
}

/// Builds a site tree with the ignore rules of one directory and its
/// ancestors.
pub struct FileLoader {
    root: String,
    ignores: GitignoreBuilder,
    whitelists: GitignoreBuilder,
    /// The first line of this directory's own ignore file that did not parse.
    rejected: Option<String>,
}

/// Appends each of `lines`, read from the ignore file of `dir`, to the
/// whitelist builder when it starts with `!` and to the ignore builder
/// otherwise; stops at the first line that does not parse and returns it.
fn add_lines(
    ignores: &mut GitignoreBuilder,
    whitelists: &mut GitignoreBuilder,
    dir: &str,
    lines: &Vec<String>,
) -> (r: Result<(), String>)
    ensures
        r.is_ok() == all_parse(lines@.map_values(|s: String| s@)),
        r.is_ok() ==> builder_lines(*final(ignores)) == builder_lines(*old(ignores)) + select(
            lines@.map_values(|s: String| s@),
            false,
        ),
        r.is_ok() ==> builder_lines(*final(whitelists)) == builder_lines(*old(whitelists)) + select(
            lines@.map_values(|s: String| s@),
            true,
        ),
        r matches Err(line) ==> !line_parses(line@),
        builder_root(*final(ignores)) == builder_root(*old(ignores)),
        builder_root(*final(whitelists)) == builder_root(*old(whitelists)),
{
    let ghost all = lines@.map_values(|s: String| s@);
    let source = String::from_str(dir).concat("/.warpignore");
    let mut i: usize = 0;
    while i < lines.len()
        invariant
            i <= lines@.len(),
            all == lines@.map_values(|s: String| s@),
            forall|k: int| 0 <= k < i ==> #[trigger] line_parses(all[k]),
            builder_lines(*ignores) == builder_lines(*old(ignores)) + select(all.subrange(0, i as int), false),
            builder_lines(*whitelists) == builder_lines(*old(whitelists)) + select(all.subrange(0, i as int), true),
            builder_root(*ignores) == builder_root(*old(ignores)),
            builder_root(*whitelists) == builder_root(*old(whitelists)),
        decreases lines@.len() - i,
    {
        let line = &lines[i];
        assert(all[i as int] == line@);
        assert(all.subrange(0, i + 1).drop_last() =~= all.subrange(0, i as int));
        proof {
            lemma_stored_glob_polarity(all[i as int]);
        }
        let whitelist = line.unicode_len() > 0 && line.as_str().get_char(0) == '!';
        let added = if whitelist {
            add_line(whitelists, Some(source.as_str()), line.as_str())
        } else {
            add_line(ignores, Some(source.as_str()), line.as_str())
        };
        match added {
            Ok(()) => {},
            Err(_) => {
                return Err(line.clone());
            },
        }
        i = i + 1;
    }
    assert(all.subrange(0, i as int) =~= all);
    Ok(())
}

proof fn lemma_select_polarity(lines: Seq<Seq<char>>, wl: bool)
    ensures
        forall|i: int| 0 <= i < select(lines, wl).len() ==> is_whitelist_line(#[trigger] select(lines, wl)[i]) == wl,
    decreases lines.len(),
{
    if lines.len() > 0 {
        lemma_select_polarity(lines.drop_last(), wl);
        let prev = select(lines.drop_last(), wl);
        if let Some(t) = stored_glob(lines.last()) {
            if is_whitelist_line(t) == wl {
                assert forall|i: int| 0 <= i < prev.push(t).len() implies is_whitelist_line(
                    #[trigger] prev.push(t)[i],
                ) == wl by {
                    if i < prev.len() {
                        assert(prev.push(t)[i] == prev[i]);
                    }
                }
            }
        }
    }
}

/// Whether the entry at `path` stays, given the compiled ignore and
/// whitelist matchers.
fn keep(ignores: &Gitignore, whitelists: &Gitignore, path: &str, is_dir: bool) -> (r: bool)
    requires
        matcher_root(*whitelists) == matcher_root(*ignores),
        forall|i: int| 0 <= i < matcher_lines(*ignores).len() ==> !is_whitelist_line(#[trigger] matcher_lines(*ignores)[i]),
        forall|i: int| 0 <= i < matcher_lines(*whitelists).len() ==> is_whitelist_line(#[trigger] matcher_lines(*whitelists)[i]),
    ensures
        r == kept(matcher_root(*ignores), matcher_lines(*ignores), matcher_lines(*whitelists), path@, is_dir),
{
    let w = matched(whitelists, path, is_dir);
    let m = matched(ignores, path, is_dir);
    w == Verdict::Whitelist || m != Verdict::Ignore
}

impl FileLoader {
    /// The directory this loader builds.
    pub closed spec fn root_view(&self) -> Seq<char> {
        self.root@
    }

    /// The directory that every pattern is matched relative to: the root of
    /// the whole build.
    pub closed spec fn base(&self) -> Seq<char> {
        builder_root(self.ignores)
    }

    /// The first line of this directory's own ignore file that did not
    /// parse, if any.
    pub closed spec fn rejected_view(&self) -> Option<Seq<char>> {
        match self.rejected {
            Some(l) => Some(l@),
            None => None,
        }
    }

    /// The ignore lines in force, from the outermost directory inwards.
    pub closed spec fn ignore_lines(&self) -> Seq<Seq<char>> {
        builder_lines(self.ignores)
    }

    /// The whitelist lines in force, from the outermost directory inwards.
    pub closed spec fn whitelist_lines(&self) -> Seq<Seq<char>> {
        builder_lines(self.whitelists)
    }

    /// `self` is the loader of a subdirectory of `parent`'s directory whose
    /// ignore file holds `lines`: `parent`'s rules, then those lines.
    pub open spec fn derived_from(&self, parent: FileLoader, lines: Seq<Seq<char>>) -> bool {
        &&& self.base() == parent.base()
        &&& self.ignore_lines() == parent.ignore_lines() + select(lines, false)
        &&& self.whitelist_lines() == parent.whitelist_lines() + select(lines, true)
    }

    /// Both builders share one root, and every line sits in the builder of
    /// its polarity.
    #[verifier::type_invariant]
    spec fn wf(&self) -> bool {
        &&& builder_root(self.whitelists) == builder_root(self.ignores)
        &&& forall|i: int| 0 <= i < self.ignore_lines().len() ==> !is_whitelist_line(#[trigger] self.ignore_lines()[i])
        &&& forall|i: int| 0 <= i < self.whitelist_lines().len() ==> is_whitelist_line(#[trigger] self.whitelist_lines()[i])
    }

    /// The loader of the root directory `path`, with the lines of its ignore
    /// file and a rule that ignores the ignore file itself.
    pub fn new(path: &str, ignore_file: &Option<Vec<String>>) -> (r: Result<FileLoader, LoadError>)
        ensures
            r.is_ok() == (all_parse(lines_view(*ignore_file)) && line_parses(ignore_file_name())),
            r matches Ok(l) ==> {
                &&& l.root_view() == path@
                &&& l.base() == strip_dot_slash(path@)
                &&& l.rejected_view() is None
                &&& l.ignore_lines() == select(lines_view(*ignore_file), false).push(ignore_file_name())
                &&& l.whitelist_lines() == select(lines_view(*ignore_file), true)
            },
            r matches Err(e) ==> (e matches LoadError::InvalidPattern { dir: d, line } && d@ == path@
                && !line_parses(line@)),
    {
        let mut ignores = new_builder(path);
        let mut whitelists = new_builder(path);
        match ignore_file {
            Some(lines) => {
                match add_lines(&mut ignores, &mut whitelists, path, lines) {
                    Ok(()) => {},
                    Err(line) => {
                        return Err(LoadError::InvalidPattern { dir: String::from_str(path), line });
                    },
                }
            },
            None => {},
        }
        let builtin = ".warpignore";
        proof {
            reveal_strlit(".warpignore");
            assert(builtin@ =~= ignore_file_name());
            assert(trim_end(builtin@) == builtin@);
            assert(stored_glob(builtin@) == Some(builtin@));
            lemma_select_polarity(lines_view(*ignore_file), false);
            lemma_select_polarity(lines_view(*ignore_file), true);
        }
        match add_line(&mut ignores, None, builtin) {
            Ok(()) => {},
            Err(_) => {
                return Err(LoadError::InvalidPattern { dir: String::from_str(path), line: String::from_str(builtin) });
            },
        }
        let l = FileLoader { root: String::from_str(path), ignores, whitelists, rejected: None };
        assert(l.ignore_lines() =~= select(lines_view(*ignore_file), false).push(ignore_file_name()));
        assert(l.whitelist_lines() =~= select(lines_view(*ignore_file), true));
        Ok(l)
    }

    /// The loader of the subdirectory `path` of `f`'s directory: `f`'s rules
    /// followed by those of the subdirectory's own ignore file. A line of
    /// that file that does not parse is kept, and reported by `to_site_dir`.
    pub fn from_parent(path: &str, ignore_file: &Option<Vec<String>>, f: &FileLoader) -> (r: FileLoader)
        ensures
            r.root_view() == path@,
            r.base() == f.base(),
            r.rejected_view() is None == all_parse(lines_view(*ignore_file)),
            r.rejected_view() matches Some(t) ==> !line_parses(t),
            all_parse(lines_view(*ignore_file)) ==> r.derived_from(*f, lines_view(*ignore_file)),
    {
        proof {
            use_type_invariant(f);
        }
        let mut ignores = clone_builder(&f.ignores);
        let mut whitelists = clone_builder(&f.whitelists);
        let mut rejected: Option<String> = None;
        match ignore_file {
            Some(lines) => {
                match add_lines(&mut ignores, &mut whitelists, path, lines) {
                    Ok(()) => {},
                    Err(line) => {
                        ignores = clone_builder(&f.ignores);
                        whitelists = clone_builder(&f.whitelists);
                        rejected = Some(line);
                    },
                }
            },
            None => {},
        }
        proof {
            let lv = lines_view(*ignore_file);
            lemma_select_polarity(lv, false);
            lemma_select_polarity(lv, true);
            if rejected is None {
                assert(builder_lines(ignores) =~= f.ignore_lines() + select(lv, false));
                assert(builder_lines(whitelists) =~= f.whitelist_lines() + select(lv, true));
                assert forall|k: int| 0 <= k < builder_lines(ignores).len() implies !is_whitelist_line(
                    #[trigger] builder_lines(ignores)[k],
                ) by {
                    if k >= f.ignore_lines().len() {
                        assert(builder_lines(ignores)[k] == select(lv, false)[k - f.ignore_lines().len()]);
                    }
                }
                assert forall|k: int| 0 <= k < builder_lines(whitelists).len() implies is_whitelist_line(
                    #[trigger] builder_lines(whitelists)[k],
                ) by {
                    if k >= f.whitelist_lines().len() {
                        assert(builder_lines(whitelists)[k] == select(lv, true)[k - f.whitelist_lines().len()]);
                    }
                }
            }
        }
        FileLoader { root: String::from_str(path), ignores, whitelists, rejected }
    }

    /// Builds the tree of this loader's directory from `listing`, what was
    /// read of it: the files that stay, classified, and the subdirectories
    /// that stay, each built with its own loader.
    pub fn to_site_dir(&self, listing: &DirListing) -> (r: Result<SiteDir, LoadError>)
        ensures
            r.is_ok() == (self.rejected_view() is None && builds(
                self.base(),
                self.ignore_lines(),
                self.whitelist_lines(),
                self.root_view(),
                *listing,
            )),
            self.rejected_view() matches Some(t) ==> (r matches Err(e) && e matches LoadError::InvalidPattern {
                dir: d,
                line,
            } && d@ == self.root_view() && line@ == t),
            r matches Ok(d) ==> built(self.base(), self.ignore_lines(), self.whitelist_lines(), self.root_view(), *listing, d),
            malformed_below(self.base(), self.ignore_lines(), self.whitelist_lines(), self.root_view(), *listing)
                ==> r.is_err(),
            r matches Err(e) ==> (e is InvalidPattern ==> self.rejected_view() is Some || malformed_below(
                self.base(),
                self.ignore_lines(),
                self.whitelist_lines(),
                self.root_view(),
                *listing,
            )),
        decreases listing,
    {
        proof {
            use_type_invariant(self);
        }
        match &self.rejected {
            Some(line) => {
                return Err(LoadError::InvalidPattern { dir: self.root.clone(), line: line.clone() });
            },
            None => {},
        }
        let ignorer = match build_matcher(&self.ignores) {
            Ok(g) => g,
            Err(_) => {
                return Err(LoadError::Compile { dir: self.root.clone() });
            },
        };
        let whitelister = match build_matcher(&self.whitelists) {
            Ok(g) => g,
            Err(_) => {
                return Err(LoadError::Compile { dir: self.root.clone() });
            },
        };
        let ghost base = self.base();
        let ghost ig = self.ignore_lines();
        let ghost wl = self.whitelist_lines();
        let ghost root = self.root_view();
        let ghost entries = listing.entries@;
        let dir_name = final_segment_of(self.root.as_str());
        let mut page_tree = SiteDir::new(dir_name.as_str(), self.root.as_str());

        let mut files: Vec<SiteFile> = Vec::new();
        let mut i: usize = 0;
        while i < listing.entries.len()
            invariant
                i <= entries.len(),
                entries == listing.entries@,
                matcher_root(ignorer) == base && matcher_root(whitelister) == base,
                matcher_lines(ignorer) == ig && matcher_lines(whitelister) == wl,
                forall|k: int| 0 <= k < ig.len() ==> !is_whitelist_line(#[trigger] ig[k]),
                forall|k: int| 0 <= k < wl.len() ==> is_whitelist_line(#[trigger] wl[k]),
                base == self.base() && ig == self.ignore_lines() && wl == self.whitelist_lines(),
                files@.map_values(|f: SiteFile| file_view(f)) == files_of(base, ig, wl, entries.subrange(0, i as int)),
            decreases entries.len() - i,
        {
            assert(entries.subrange(0, i + 1).drop_last() =~= entries.subrange(0, i as int));
            match &listing.entries[i] {
                Entry::File(p) => {
                    if keep(&ignorer, &whitelister, p.as_str(), false) {
                        files.push(classify(p.as_str()));
                    }
                },
                _ => {},
            }
            i = i + 1;
            assert(files@.map_values(|f: SiteFile| file_view(f)) =~= files_of(base, ig, wl, entries.subrange(0, i as int)));
        }
        assert(entries.subrange(0, i as int) =~= entries);
        page_tree.files = files;

        let mut subdirs: Vec<SiteDir> = Vec::new();
        let ghost mut idx: Seq<int> = Seq::empty();
        let mut i: usize = 0;
        while i < listing.entries.len()
            invariant
                i <= entries.len(),
                entries == listing.entries@,
                matcher_root(ignorer) == base && matcher_root(whitelister) == base,
                matcher_lines(ignorer) == ig && matcher_lines(whitelister) == wl,
                forall|k: int| 0 <= k < ig.len() ==> !is_whitelist_line(#[trigger] ig[k]),
                forall|k: int| 0 <= k < wl.len() ==> is_whitelist_line(#[trigger] wl[k]),
                base == self.base() && ig == self.ignore_lines() && wl == self.whitelist_lines(),
                root == self.root_view(),
                self.rejected_view() is None,
                idx == dir_indices(base, ig, wl, root, entries.subrange(0, i as int)),
                subdirs@.len() == idx.len(),
                forall|j: int|
                    #![trigger subdirs@[j]]
                    #![trigger idx[j]]
                    0 <= j < idx.len() ==> {
                        &&& 0 <= idx[j] < i
                        &&& entries[idx[j]] is Dir
                        &&& built(
                            base,
                            child_lines(ig, entries[idx[j]], false),
                            child_lines(wl, entries[idx[j]], true),
                            entries[idx[j]]->Dir_0.path@,
                            entries[idx[j]]->Dir_0,
                            subdirs@[j],
                        )
                    },
                rules_compile(ig) && rules_compile(wl),
                forall|k: int| 0 <= k < i && dir_kept(base, ig, wl, root, #[trigger] entries[k]) ==> all_parse(
                    lines_view(entries[k]->Dir_0.ignore_file),
                ) && builds(
                    base,
                    child_lines(ig, entries[k], false),
                    child_lines(wl, entries[k], true),
                    entries[k]->Dir_0.path@,
                    entries[k]->Dir_0,
                ) && !malformed_below(
                    base,
                    child_lines(ig, entries[k], false),
                    child_lines(wl, entries[k], true),
                    entries[k]->Dir_0.path@,
                    entries[k]->Dir_0,
                ),
            decreases entries.len() - i,
        {
            assert(entries.subrange(0, i + 1).drop_last() =~= entries.subrange(0, i as int));
            match &listing.entries[i] {
                Entry::Dir(child) => {
                    let is_self = child.path == self.root;
                    if !is_self && keep(&ignorer, &whitelister, child.path.as_str(), true) {
                        let pt = FileLoader::from_parent(child.path.as_str(), &child.ignore_file, self);
                        let sub = match pt.to_site_dir(child) {
                            Ok(sub) => sub,
                            Err(e) => {
                                assert(dir_kept(base, ig, wl, root, entries[i as int]));
                                return Err(e);
                            },
                        };
                        subdirs.push(sub);
                        proof {
                            idx = idx.push(i as int);
                        }
                    }
                },
                _ => {},
            }
            i = i + 1;
        }
        assert(entries.subrange(0, i as int) =~= entries);
        page_tree.subdirs = subdirs;
        Ok(page_tree)
    }
}

} // verus!
