//! What holds of the rule cascade and of the trees that a build gives.

use crate::loader::{
    built, child_lines, dir_indices, file_node, file_view, files_of, kept, lines_view, select, DirListing, Entry, FileLoader, SiteDir,
    SiteFile,
};
use crate::rules::any_matches;
use vstd::prelude::*;

verus! {

/// Two trees with the same names, paths and files, and pairwise the same
/// subdirectories, in the same order.
pub open spec fn same_tree(a: SiteDir, b: SiteDir) -> bool
    decreases a,
{
    &&& a.name@ == b.name@
    &&& a.file_path@ == b.file_path@
    &&& a.files@.map_values(|f: SiteFile| file_view(f)) == b.files@.map_values(|f: SiteFile| file_view(f))
    &&& a.subdirs@.len() == b.subdirs@.len()
    &&& forall|j: int| 0 <= j < a.subdirs@.len() ==> same_tree(#[trigger] a.subdirs@[j], b.subdirs@[j])
}

/// The patterns of a directory's ignore file reach that directory and its
/// descendants only: a subdirectory's rules start with all of its parent's,
/// in order, followed by exactly the lines of its own file, while a sibling
/// derived from the same parent holds the parent's rules and its own lines
/// and nothing of the first subdirectory's file. The parent is only read.
pub proof fn lemma_rules_reach_descendants_only(
    parent: FileLoader,
    child: FileLoader,
    lines: Seq<Seq<char>>,
    sibling: FileLoader,
    sibling_lines: Seq<Seq<char>>,
)
    requires
        child.derived_from(parent, lines),
        sibling.derived_from(parent, sibling_lines),
    ensures
        child.ignore_lines().subrange(0, parent.ignore_lines().len() as int) == parent.ignore_lines(),
        child.whitelist_lines().subrange(0, parent.whitelist_lines().len() as int) == parent.whitelist_lines(),
        child.ignore_lines().subrange(parent.ignore_lines().len() as int, child.ignore_lines().len() as int)
            == select(lines, false),
        child.whitelist_lines().subrange(parent.whitelist_lines().len() as int, child.whitelist_lines().len() as int)
            == select(lines, true),
        sibling.ignore_lines() == parent.ignore_lines() + select(sibling_lines, false),
        sibling.whitelist_lines() == parent.whitelist_lines() + select(sibling_lines, true),
{
    assert(child.ignore_lines().subrange(0, parent.ignore_lines().len() as int) =~= parent.ignore_lines());
    assert(child.whitelist_lines().subrange(0, parent.whitelist_lines().len() as int) =~= parent.whitelist_lines());
    assert(child.ignore_lines().subrange(parent.ignore_lines().len() as int, child.ignore_lines().len() as int)
        =~= select(lines, false));
    assert(child.whitelist_lines().subrange(parent.whitelist_lines().len() as int, child.whitelist_lines().len() as int)
        =~= select(lines, true));
}

/// A file that some whitelist line in force matches is in its directory's
/// files, whatever ignore lines match it too.
pub proof fn lemma_whitelisted_file_listed(
    base: Seq<char>,
    ignores: Seq<Seq<char>>,
    whitelists: Seq<Seq<char>>,
    entries: Seq<Entry>,
    i: int,
)
    requires
        0 <= i < entries.len(),
        entries[i] is File,
        any_matches(base, whitelists, entries[i]->File_0@, false),
    ensures
        files_of(base, ignores, whitelists, entries).contains(file_node(entries[i]->File_0@)),
    decreases entries.len(),
{
    let prev = files_of(base, ignores, whitelists, entries.drop_last());
    if i == entries.len() - 1 {
        assert(files_of(base, ignores, whitelists, entries) == prev.push(file_node(entries[i]->File_0@)));
        assert(prev.push(file_node(entries[i]->File_0@))[prev.len() as int] == file_node(entries[i]->File_0@));
    } else {
        assert(entries.drop_last()[i] == entries[i]);
        lemma_whitelisted_file_listed(base, ignores, whitelists, entries.drop_last(), i);
        let k = choose|k: int| 0 <= k < prev.len() && prev[k] == file_node(entries[i]->File_0@);
        match entries.last() {
            Entry::File(p) => {
                if kept(base, ignores, whitelists, p@, false) {
                    assert(prev.push(file_node(p@))[k] == prev[k]);
                }
            },
            _ => {},
        }
    }
}

/// A subdirectory that some whitelist line in force matches is descended
/// into, whatever ignore lines match it too (unless it is the directory
/// itself).
pub proof fn lemma_whitelisted_dir_descended(
    base: Seq<char>,
    ignores: Seq<Seq<char>>,
    whitelists: Seq<Seq<char>>,
    root: Seq<char>,
    entries: Seq<Entry>,
    i: int,
)
    requires
        0 <= i < entries.len(),
        entries[i] is Dir,
        entries[i]->Dir_0.path@ != root,
        any_matches(base, whitelists, entries[i]->Dir_0.path@, true),
    ensures
        dir_indices(base, ignores, whitelists, root, entries).contains(i),
    decreases entries.len(),
{
    let prev = dir_indices(base, ignores, whitelists, root, entries.drop_last());
    if i == entries.len() - 1 {
        assert(prev.push(i)[prev.len() as int] == i);
    } else {
        assert(entries.drop_last()[i] == entries[i]);
        lemma_whitelisted_dir_descended(base, ignores, whitelists, root, entries.drop_last(), i);
        let k = choose|k: int| 0 <= k < prev.len() && prev[k] == i;
        assert(prev.push(entries.len() - 1)[k] == prev[k]);
    }
}

/// A build is determined by what it reads: two trees that are both the tree
/// of one listing under one set of rules are the same tree.
pub proof fn lemma_build_deterministic(
    base: Seq<char>,
    ignores: Seq<Seq<char>>,
    whitelists: Seq<Seq<char>>,
    root: Seq<char>,
    listing: DirListing,
    a: SiteDir,
    b: SiteDir,
)
    requires
        built(base, ignores, whitelists, root, listing, a),
        built(base, ignores, whitelists, root, listing, b),
    ensures
        same_tree(a, b),
    decreases listing,
{
    let idx = dir_indices(base, ignores, whitelists, root, listing.entries@);
    assert(a.subdirs@.len() == idx.len());
    assert(b.subdirs@.len() == idx.len());
    assert forall|j: int| 0 <= j < a.subdirs@.len() implies same_tree(#[trigger] a.subdirs@[j], b.subdirs@[j]) by {
        assert(0 <= idx[j] < listing.entries@.len());
        assert(built(
            base,
            child_lines(ignores, listing.entries@[idx[j]], false),
            child_lines(whitelists, listing.entries@[idx[j]], true),
            listing.entries@[idx[j]]->Dir_0.path@,
            listing.entries@[idx[j]]->Dir_0,
            b.subdirs@[j],
        ));
        lemma_build_deterministic(
            base,
            child_lines(ignores, listing.entries@[idx[j]], false),
            child_lines(whitelists, listing.entries@[idx[j]], true),
            listing.entries@[idx[j]]->Dir_0.path@,
            listing.entries@[idx[j]]->Dir_0,
            a.subdirs@[j],
            b.subdirs@[j],
        );
    }
}

/// Every file of `d`, at any depth, is classified from its own path.
pub open spec fn tree_classified(d: SiteDir) -> bool
    decreases d,
{
    &&& forall|k: int| 0 <= k < d.files@.len() ==> file_view(#[trigger] d.files@[k]) == file_node(d.files@[k].file_path@)
    &&& forall|j: int| 0 <= j < d.subdirs@.len() ==> tree_classified(#[trigger] d.subdirs@[j])
}

proof fn lemma_files_of_classified(
    base: Seq<char>,
    ignores: Seq<Seq<char>>,
    whitelists: Seq<Seq<char>>,
    entries: Seq<Entry>,
)
    ensures
        forall|k: int|
            0 <= k < files_of(base, ignores, whitelists, entries).len() ==> #[trigger] files_of(
                base,
                ignores,
                whitelists,
                entries,
            )[k] == file_node(files_of(base, ignores, whitelists, entries)[k].2),
    decreases entries.len(),
{
    if entries.len() > 0 {
        lemma_files_of_classified(base, ignores, whitelists, entries.drop_last());
        let prev = files_of(base, ignores, whitelists, entries.drop_last());
        if let Entry::File(p) = entries.last() {
            if kept(base, ignores, whitelists, p@, false) {
                assert forall|k: int| 0 <= k < prev.push(file_node(p@)).len() implies #[trigger] prev.push(
                    file_node(p@),
                )[k] == file_node(prev.push(file_node(p@))[k].2) by {
                    if k < prev.len() {
                        assert(prev.push(file_node(p@))[k] == prev[k]);
                    }
                }
            }
        }
    }
}

/// In a built tree, every file whose extension is `md` in any case is a
/// page and every other file a resource, named by its stem: at every depth.
pub proof fn lemma_tree_classified(
    base: Seq<char>,
    ignores: Seq<Seq<char>>,
    whitelists: Seq<Seq<char>>,
    root: Seq<char>,
    listing: DirListing,
    d: SiteDir,
)
    requires
        built(base, ignores, whitelists, root, listing, d),
    ensures
        tree_classified(d),
    decreases listing,
{
    lemma_files_of_classified(base, ignores, whitelists, listing.entries@);
    let fs = files_of(base, ignores, whitelists, listing.entries@);
    assert forall|k: int| 0 <= k < d.files@.len() implies file_view(#[trigger] d.files@[k]) == file_node(
        d.files@[k].file_path@,
    ) by {
        assert(d.files@.map_values(|f: SiteFile| file_view(f))[k] == file_view(d.files@[k]));
        assert(fs[k] == file_node(fs[k].2));
    }
    let idx = dir_indices(base, ignores, whitelists, root, listing.entries@);
    assert forall|j: int| 0 <= j < d.subdirs@.len() implies tree_classified(#[trigger] d.subdirs@[j]) by {
        assert(0 <= idx[j] < listing.entries@.len());
        lemma_tree_classified(
            base,
            child_lines(ignores, listing.entries@[idx[j]], false),
            child_lines(whitelists, listing.entries@[idx[j]], true),
            listing.entries@[idx[j]]->Dir_0.path@,
            listing.entries@[idx[j]]->Dir_0,
            d.subdirs@[j],
        );
    }
}

/// In the tree `d` of `listing`, and in each of its subtrees under its own
/// rules, every file that a whitelist line in force matches is among the
/// files, and every such subdirectory among the subdirectories.
pub open spec fn whitelisted_present(
    base: Seq<char>,
    ignores: Seq<Seq<char>>,
    whitelists: Seq<Seq<char>>,
    root: Seq<char>,
    listing: DirListing,
    d: SiteDir,
) -> bool
    decreases listing,
{
    let idx = dir_indices(base, ignores, whitelists, root, listing.entries@);
    &&& forall|i: int|
        0 <= i < listing.entries@.len() && #[trigger] listing.entries@[i] is File && any_matches(
            base,
            whitelists,
            listing.entries@[i]->File_0@,
            false,
        ) ==> d.files@.map_values(|f: SiteFile| file_view(f)).contains(file_node(listing.entries@[i]->File_0@))
    &&& forall|i: int|
        0 <= i < listing.entries@.len() && #[trigger] listing.entries@[i] is Dir && listing.entries@[i]->Dir_0.path@
            != root && any_matches(base, whitelists, listing.entries@[i]->Dir_0.path@, true) ==> exists|j: int|
            0 <= j < d.subdirs@.len() && (#[trigger] d.subdirs@[j]).file_path@ == listing.entries@[i]->Dir_0.path@
    &&& forall|j: int|
        0 <= j < idx.len() ==> 0 <= idx[j] < listing.entries@.len() && listing.entries@[idx[j]] is Dir && j
            < d.subdirs@.len() && whitelisted_present(
            base,
            child_lines(ignores, listing.entries@[idx[j]], false),
            child_lines(whitelists, listing.entries@[idx[j]], true),
            listing.entries@[idx[j]]->Dir_0.path@,
            listing.entries@[idx[j]]->Dir_0,
            #[trigger] d.subdirs@[j],
        )
}

/// Whitelist wins at every depth of a built tree: a path that a whitelist
/// line of its directory's cascade matches is in the tree, whatever ignore
/// lines of that cascade match it too.
pub proof fn lemma_whitelisted_in_tree(
    base: Seq<char>,
    ignores: Seq<Seq<char>>,
    whitelists: Seq<Seq<char>>,
    root: Seq<char>,
    listing: DirListing,
    d: SiteDir,
)
    requires
        built(base, ignores, whitelists, root, listing, d),
    ensures
        whitelisted_present(base, ignores, whitelists, root, listing, d),
    decreases listing,
{
    let entries = listing.entries@;
    let idx = dir_indices(base, ignores, whitelists, root, entries);
    assert forall|i: int|
        0 <= i < entries.len() && #[trigger] entries[i] is File && any_matches(
            base,
            whitelists,
            entries[i]->File_0@,
            false,
        ) implies d.files@.map_values(|f: SiteFile| file_view(f)).contains(file_node(entries[i]->File_0@)) by {
        lemma_whitelisted_file_listed(base, ignores, whitelists, entries, i);
    }
    assert forall|i: int|
        0 <= i < entries.len() && #[trigger] entries[i] is Dir && entries[i]->Dir_0.path@ != root && any_matches(
            base,
            whitelists,
            entries[i]->Dir_0.path@,
            true,
        ) implies exists|j: int| 0 <= j < d.subdirs@.len() && (#[trigger] d.subdirs@[j]).file_path@ == entries[i]->Dir_0.path@ by {
        lemma_whitelisted_dir_descended(base, ignores, whitelists, root, entries, i);
        let j = choose|j: int| 0 <= j < idx.len() && idx[j] == i;
        assert(built(
            base,
            child_lines(ignores, entries[idx[j]], false),
            child_lines(whitelists, entries[idx[j]], true),
            entries[idx[j]]->Dir_0.path@,
            entries[idx[j]]->Dir_0,
            d.subdirs@[j],
        ));
        assert(d.subdirs@[j].file_path@ == entries[i]->Dir_0.path@);
    }
    assert forall|j: int| 0 <= j < idx.len() implies 0 <= idx[j] < entries.len() && entries[idx[j]] is Dir && j
        < d.subdirs@.len() && whitelisted_present(
        base,
        child_lines(ignores, entries[idx[j]], false),
        child_lines(whitelists, entries[idx[j]], true),
        entries[idx[j]]->Dir_0.path@,
        entries[idx[j]]->Dir_0,
        #[trigger] d.subdirs@[j],
    ) by {
        assert(built(
            base,
            child_lines(ignores, entries[idx[j]], false),
            child_lines(whitelists, entries[idx[j]], true),
            entries[idx[j]]->Dir_0.path@,
            entries[idx[j]]->Dir_0,
            d.subdirs@[j],
        ));
        lemma_whitelisted_in_tree(
            base,
            child_lines(ignores, entries[idx[j]], false),
            child_lines(whitelists, entries[idx[j]], true),
            entries[idx[j]]->Dir_0.path@,
            entries[idx[j]]->Dir_0,
            d.subdirs@[j],
        );
    }
}

/// Two entries of the same kind at the same path.
pub open spec fn same_shape(a: Entry, b: Entry) -> bool {
    match (a, b) {
        (Entry::File(x), Entry::File(y)) => x@ == y@,
        (Entry::Dir(x), Entry::Dir(y)) => x.path@ == y.path@,
        (Entry::Unreadable, Entry::Unreadable) => true,
        _ => false,
    }
}

/// `a` and `b` list the same entries, with the same ignore files, except
/// inside the directory at `p`, where anything may differ (its own ignore
/// file included).
pub open spec fn differ_only_inside(a: DirListing, b: DirListing, p: Seq<char>) -> bool
    decreases a,
{
    &&& lines_view(a.ignore_file) == lines_view(b.ignore_file)
    &&& a.entries@.len() == b.entries@.len()
    &&& forall|i: int|
        0 <= i < a.entries@.len() ==> same_shape(#[trigger] a.entries@[i], b.entries@[i]) && (a.entries@[i] is Dir
            && a.entries@[i]->Dir_0.path@ != p ==> differ_only_inside(a.entries@[i]->Dir_0, b.entries@[i]->Dir_0, p))
}

/// `a` and `b` have the same nodes, names, kinds and paths everywhere but
/// strictly inside the directory at `p`.
pub open spec fn agree_outside(a: SiteDir, b: SiteDir, p: Seq<char>) -> bool
    decreases a,
{
    &&& a.name@ == b.name@
    &&& a.file_path@ == b.file_path@
    &&& a.files@.map_values(|f: SiteFile| file_view(f)) == b.files@.map_values(|f: SiteFile| file_view(f))
    &&& a.subdirs@.len() == b.subdirs@.len()
    &&& forall|j: int|
        0 <= j < a.subdirs@.len() ==> (#[trigger] a.subdirs@[j]).name@ == b.subdirs@[j].name@
            && a.subdirs@[j].file_path@ == b.subdirs@[j].file_path@ && (a.subdirs@[j].file_path@ != p ==> agree_outside(
            a.subdirs@[j],
            b.subdirs@[j],
            p,
        ))
}

proof fn lemma_same_shape_lists(
    base: Seq<char>,
    ignores: Seq<Seq<char>>,
    whitelists: Seq<Seq<char>>,
    root: Seq<char>,
    a: Seq<Entry>,
    b: Seq<Entry>,
)
    requires
        a.len() == b.len(),
        forall|i: int| 0 <= i < a.len() ==> same_shape(#[trigger] a[i], b[i]),
    ensures
        files_of(base, ignores, whitelists, a) == files_of(base, ignores, whitelists, b),
        dir_indices(base, ignores, whitelists, root, a) == dir_indices(base, ignores, whitelists, root, b),
    decreases a.len(),
{
    if a.len() > 0 {
        assert forall|i: int| 0 <= i < a.drop_last().len() implies same_shape(
            #[trigger] a.drop_last()[i],
            b.drop_last()[i],
        ) by {
            assert(a.drop_last()[i] == a[i] && b.drop_last()[i] == b[i]);
        }
        lemma_same_shape_lists(base, ignores, whitelists, root, a.drop_last(), b.drop_last());
        assert(same_shape(a[a.len() - 1], b[b.len() - 1]));
    }
}

/// The patterns of a directory's ignore file affect only that directory
/// and its descendants: two listings that differ only inside the directory
/// at `p` give trees that agree everywhere outside it, `p`'s own node
/// included.
pub proof fn lemma_rules_affect_only_below(
    base: Seq<char>,
    ignores: Seq<Seq<char>>,
    whitelists: Seq<Seq<char>>,
    root: Seq<char>,
    la: DirListing,
    lb: DirListing,
    p: Seq<char>,
    a: SiteDir,
    b: SiteDir,
)
    requires
        differ_only_inside(la, lb, p),
        built(base, ignores, whitelists, root, la, a),
        built(base, ignores, whitelists, root, lb, b),
    ensures
        agree_outside(a, b, p),
    decreases la,
{
    let ea = la.entries@;
    let eb = lb.entries@;
    lemma_same_shape_lists(base, ignores, whitelists, root, ea, eb);
    let idx = dir_indices(base, ignores, whitelists, root, ea);
    assert forall|j: int| 0 <= j < a.subdirs@.len() implies (#[trigger] a.subdirs@[j]).name@ == b.subdirs@[j].name@
        && a.subdirs@[j].file_path@ == b.subdirs@[j].file_path@ && (a.subdirs@[j].file_path@ != p ==> agree_outside(
        a.subdirs@[j],
        b.subdirs@[j],
        p,
    )) by {
        let k = idx[j];
        assert(0 <= k < ea.len());
        assert(same_shape(ea[k], eb[k]));
        assert(built(
            base,
            child_lines(ignores, ea[k], false),
            child_lines(whitelists, ea[k], true),
            ea[k]->Dir_0.path@,
            ea[k]->Dir_0,
            a.subdirs@[j],
        ));
        assert(built(
            base,
            child_lines(ignores, eb[k], false),
            child_lines(whitelists, eb[k], true),
            eb[k]->Dir_0.path@,
            eb[k]->Dir_0,
            b.subdirs@[j],
        ));
        if a.subdirs@[j].file_path@ != p {
            assert(differ_only_inside(ea[k]->Dir_0, eb[k]->Dir_0, p));
            assert(child_lines(ignores, ea[k], false) == child_lines(ignores, eb[k], false));
            assert(child_lines(whitelists, ea[k], true) == child_lines(whitelists, eb[k], true));
            lemma_rules_affect_only_below(
                base,
                child_lines(ignores, ea[k], false),
                child_lines(whitelists, ea[k], true),
                ea[k]->Dir_0.path@,
                ea[k]->Dir_0,
                eb[k]->Dir_0,
                p,
                a.subdirs@[j],
                b.subdirs@[j],
            );
        }
    }
}

} // verus!
