use warp::loader::{classify, DirListing, Entry, FileLoader, FileType, LoadError, SiteDir};
use warp::paths::{file_stem_of, final_segment_of, is_page};

fn file(path: &str) -> Entry {
    Entry::File(path.to_string())
}

fn dir(path: &str, ignore: Option<Vec<&str>>, entries: Vec<Entry>) -> DirListing {
    DirListing {
        path: path.to_string(),
        ignore_file: ignore.map(|v| v.into_iter().map(|s| s.to_string()).collect()),
        entries,
    }
}

fn build(listing: &DirListing) -> Result<SiteDir, LoadError> {
    let loader = FileLoader::new(&listing.path, &listing.ignore_file)?;
    loader.to_site_dir(listing)
}

fn names(d: &SiteDir) -> Vec<(FileType, String)> {
    let mut v: Vec<(FileType, String)> = d.files.iter().map(|f| (f.ty, f.name.clone())).collect();
    v.sort_by(|a, b| a.1.cmp(&b.1));
    v
}

fn shape(d: &SiteDir) -> String {
    let mut files: Vec<String> = d.files.iter().map(|f| format!("{:?}:{}:{}", f.ty, f.name, f.file_path)).collect();
    files.sort();
    let mut subs: Vec<String> = d.subdirs.iter().map(shape).collect();
    subs.sort();
    format!("{}@{}[{}]({})", d.name, d.file_path, files.join(","), subs.join(","))
}

#[test]
fn drafts_local_rule_hides_secret_page() {
    let listing = dir(
        "site",
        None,
        vec![
            file("site/index.md"),
            file("site/logo.png"),
            Entry::Dir(dir(
                "site/drafts",
                Some(vec!["*.md"]),
                vec![file("site/drafts/.warpignore"), file("site/drafts/secret.md")],
            )),
        ],
    );
    let tree = build(&listing).unwrap();
    assert_eq!(tree.name, "site");
    assert_eq!(
        names(&tree),
        vec![(FileType::Page, "index".to_string()), (FileType::Resource, "logo".to_string())]
    );
    assert_eq!(tree.subdirs.len(), 1);
    assert_eq!(tree.subdirs[0].name, "drafts");
    assert_eq!(tree.subdirs[0].file_path, "site/drafts");
    assert!(tree.subdirs[0].files.is_empty());
}

#[test]
fn local_whitelist_overrides_ancestor_ignore() {
    let listing = dir(
        "site",
        Some(vec!["*.tmp"]),
        vec![
            file("site/.warpignore"),
            file("site/scratch.tmp"),
            Entry::Dir(dir(
                "site/sub",
                Some(vec!["!keep.tmp"]),
                vec![file("site/sub/.warpignore"), file("site/sub/keep.tmp"), file("site/sub/other.tmp")],
            )),
        ],
    );
    let tree = build(&listing).unwrap();
    assert!(tree.files.is_empty());
    let sub = &tree.subdirs[0];
    assert_eq!(sub.files.len(), 1);
    assert_eq!(sub.files[0].ty, FileType::Resource);
    assert_eq!(sub.files[0].name, "keep");
    assert_eq!(sub.files[0].file_path, "site/sub/keep.tmp");
}

#[test]
fn whitelist_wins_over_a_later_ignore() {
    let listing = dir(
        "site",
        Some(vec!["!keep.tmp"]),
        vec![Entry::Dir(dir(
            "site/sub",
            Some(vec!["*.tmp"]),
            vec![file("site/sub/keep.tmp"), file("site/sub/drop.tmp")],
        ))],
    );
    let tree = build(&listing).unwrap();
    let sub = &tree.subdirs[0];
    assert_eq!(names(sub), vec![(FileType::Resource, "keep".to_string())]);
}

#[test]
fn ignore_file_itself_is_left_out() {
    let listing = dir("site", None, vec![file("site/.warpignore"), file("site/a.txt")]);
    let tree = build(&listing).unwrap();
    assert_eq!(names(&tree), vec![(FileType::Resource, "a".to_string())]);
}

#[test]
fn rules_do_not_reach_siblings() {
    let listing = dir(
        "site",
        None,
        vec![
            Entry::Dir(dir("site/a", Some(vec!["*.png"]), vec![file("site/a/x.png"), file("site/a/y.md")])),
            Entry::Dir(dir("site/b", None, vec![file("site/b/x.png")])),
            file("site/x.png"),
        ],
    );
    let tree = build(&listing).unwrap();
    assert_eq!(names(&tree), vec![(FileType::Resource, "x".to_string())]);
    let a = tree.subdirs.iter().find(|d| d.name == "a").unwrap();
    let b = tree.subdirs.iter().find(|d| d.name == "b").unwrap();
    assert_eq!(names(a), vec![(FileType::Page, "y".to_string())]);
    assert_eq!(names(b), vec![(FileType::Resource, "x".to_string())]);
}

#[test]
fn ignored_directory_is_not_descended() {
    let listing = dir(
        "site",
        Some(vec!["private/"]),
        vec![
            Entry::Dir(dir("site/private", None, vec![file("site/private/p.md")])),
            Entry::Dir(dir("site/public", None, vec![file("site/public/q.md")])),
        ],
    );
    let tree = build(&listing).unwrap();
    assert_eq!(tree.subdirs.len(), 1);
    assert_eq!(tree.subdirs[0].name, "public");
}

#[test]
fn directory_listing_itself_is_skipped() {
    let listing = dir("site", None, vec![Entry::Dir(dir("site", None, vec![])), file("site/a.md")]);
    let tree = build(&listing).unwrap();
    assert!(tree.subdirs.is_empty());
    assert_eq!(tree.files.len(), 1);
}

#[test]
fn unreadable_entries_are_dropped() {
    let listing = dir("site", None, vec![Entry::Unreadable, file("site/a.md"), Entry::Unreadable]);
    let tree = build(&listing).unwrap();
    assert_eq!(names(&tree), vec![(FileType::Page, "a".to_string())]);
    assert!(tree.subdirs.is_empty());
}

#[test]
fn malformed_ignore_file_deep_down_fails_the_build() {
    let listing = dir(
        "site",
        None,
        vec![
            file("site/index.md"),
            Entry::Dir(dir(
                "site/a",
                None,
                vec![Entry::Dir(dir("site/a/b", Some(vec!["ok.txt", "bad{glob"]), vec![file("site/a/b/c.md")]))],
            )),
        ],
    );
    match build(&listing) {
        Err(LoadError::InvalidPattern { dir, line }) => {
            assert_eq!(dir, "site/a/b");
            assert_eq!(line, "bad{glob");
        },
        other => panic!("expected an invalid pattern, got {:?}", other.map(|d| d.name)),
    }
}

#[test]
fn malformed_root_ignore_file_fails_new() {
    let lines = Some(vec!["{".to_string()]);
    match FileLoader::new("site", &lines) {
        Err(LoadError::InvalidPattern { dir, line }) => {
            assert_eq!(dir, "site");
            assert_eq!(line, "{");
        },
        _ => panic!("expected an invalid pattern"),
    }
}

#[test]
fn malformed_file_in_ignored_directory_is_harmless() {
    let listing = dir(
        "site",
        Some(vec!["skip/"]),
        vec![Entry::Dir(dir("site/skip", Some(vec!["bad{glob"]), vec![]))],
    );
    let tree = build(&listing).unwrap();
    assert!(tree.subdirs.is_empty());
}

#[test]
fn comments_and_blank_lines_are_accepted() {
    let listing = dir(
        "site",
        Some(vec!["# a comment", "", "*.log"]),
        vec![file("site/a.log"), file("site/b.md")],
    );
    let tree = build(&listing).unwrap();
    assert_eq!(names(&tree), vec![(FileType::Page, "b".to_string())]);
}

#[test]
fn two_builds_of_one_listing_agree() {
    let listing = dir(
        "root/site",
        Some(vec!["*.bak"]),
        vec![
            file("root/site/z.md"),
            file("root/site/a.png"),
            file("root/site/old.bak"),
            Entry::Dir(dir("root/site/docs", None, vec![file("root/site/docs/guide.MD")])),
        ],
    );
    let first = build(&listing).unwrap();
    let second = build(&listing).unwrap();
    assert_eq!(shape(&first), shape(&second));
    assert_eq!(first.name, "site");
}

#[test]
fn from_parent_keeps_the_parent_usable() {
    let root = dir("site", None, vec![file("site/a.md")]);
    let parent = FileLoader::new("site", &root.ignore_file).unwrap();
    let lines = Some(vec!["*.md".to_string()]);
    let child = FileLoader::from_parent("site/sub", &lines, &parent);
    let sub = dir("site/sub", Some(vec!["*.md"]), vec![file("site/sub/b.md")]);
    assert!(child.to_site_dir(&sub).unwrap().files.is_empty());
    assert_eq!(parent.to_site_dir(&root).unwrap().files.len(), 1);
}

#[test]
fn from_parent_defers_malformed_lines_to_the_build() {
    let parent = FileLoader::new("site", &None).unwrap();
    let lines = Some(vec!["ok.txt".to_string(), "a{".to_string()]);
    let child = FileLoader::from_parent("site/sub", &lines, &parent);
    match child.to_site_dir(&dir("site/sub", Some(vec!["ok.txt", "a{"]), vec![file("site/sub/x.md")])) {
        Err(LoadError::InvalidPattern { dir, line }) => {
            assert_eq!(dir, "site/sub");
            assert_eq!(line, "a{");
        },
        _ => panic!("expected an invalid pattern"),
    }
    assert_eq!(parent.to_site_dir(&dir("site", None, vec![file("site/x.md")])).unwrap().files.len(), 1);
}

#[test]
fn trailing_white_space_is_trimmed_from_patterns() {
    let listing = dir("site", Some(vec!["*.log   ", "   "]), vec![file("site/a.log"), file("site/b.md")]);
    let tree = build(&listing).unwrap();
    assert_eq!(names(&tree), vec![(FileType::Page, "b".to_string())]);
}

#[test]
fn dot_slash_root_matches_like_the_bare_root() {
    let listing = dir("./site", Some(vec!["/drafts/"]), vec![
        Entry::Dir(dir("./site/drafts", None, vec![file("./site/drafts/a.md")])),
        Entry::Dir(dir("./site/posts", None, vec![file("./site/posts/b.md")])),
    ]);
    let tree = build(&listing).unwrap();
    assert_eq!(tree.name, "site");
    assert_eq!(tree.subdirs.len(), 1);
    assert_eq!(tree.subdirs[0].name, "posts");
}

#[test]
fn root_name_is_final_segment() {
    assert_eq!(final_segment_of("/home/me/site"), "site");
    assert_eq!(final_segment_of("site/"), "site");
    assert_eq!(final_segment_of("site"), "site");
    let tree = build(&dir("/home/me/blog/", None, vec![])).unwrap();
    assert_eq!(tree.name, "blog");
    assert_eq!(tree.file_path, "/home/me/blog/");
}

#[test]
fn classify_pages_and_resources() {
    let p = classify("site/index.md");
    assert_eq!((p.ty, p.name.as_str(), p.file_path.as_str()), (FileType::Page, "index", "site/index.md"));
    let p = classify("site/README.Md");
    assert_eq!((p.ty, p.name.as_str()), (FileType::Page, "README"));
    let r = classify("site/archive.tar.gz");
    assert_eq!((r.ty, r.name.as_str()), (FileType::Resource, "archive.tar"));
    let r = classify("site/Makefile");
    assert_eq!((r.ty, r.name.as_str()), (FileType::Resource, "Makefile"));
    let r = classify("site/.md");
    assert_eq!((r.ty, r.name.as_str()), (FileType::Resource, ".md"));
    let r = classify("site/notes.mdx");
    assert_eq!((r.ty, r.name.as_str()), (FileType::Resource, "notes"));
}

#[test]
fn stems_and_page_extension() {
    assert_eq!(file_stem_of("a.b.c"), "a.b");
    assert_eq!(file_stem_of(".hidden"), ".hidden");
    assert_eq!(file_stem_of("trailing."), "trailing");
    assert!(is_page("x.MD"));
    assert!(!is_page("x.m"));
    assert!(!is_page("md"));
}

#[test]
fn new_site_dir_is_empty() {
    let d = SiteDir::new("blog", "/srv/blog");
    assert_eq!(d.name, "blog");
    assert_eq!(d.file_path, "/srv/blog");
    assert!(d.files.is_empty() && d.subdirs.is_empty());
}
