//! Host paths.

use wasi_runtime::path::{
    canonicalize_with_existing_parent, HostPath, PathComponent, PathName, Separator,
};

fn normal(name: &str) -> PathComponent {
    PathComponent::Normal(PathName::Text(name.to_owned()))
}

fn raw(bytes: &[u8]) -> PathComponent {
    PathComponent::Normal(PathName::Raw(bytes.to_vec()))
}

fn listed(components: Vec<PathComponent>) -> HostPath {
    HostPath { absolute: true, components, spelling: None }
}

fn on_drive(prefix: &str, name: &str) -> HostPath {
    listed(vec![
        PathComponent::Prefix(PathName::Text(prefix.to_owned())),
        PathComponent::RootDir,
        normal(name),
    ])
}

#[test]
fn texts_are_split_into_components() {
    let cases: Vec<(&str, bool, Vec<PathComponent>)> = vec![
        ("", false, vec![]),
        ("/", true, vec![PathComponent::RootDir]),
        ("/a/b", true, vec![PathComponent::RootDir, normal("a"), normal("b")]),
        ("/a//b/", true, vec![PathComponent::RootDir, normal("a"), normal("b")]),
        ("/a/./b", true, vec![PathComponent::RootDir, normal("a"), normal("b")]),
        (
            "/a/../b",
            true,
            vec![PathComponent::RootDir, normal("a"), PathComponent::ParentDir, normal("b")],
        ),
        ("a/b", false, vec![normal("a"), normal("b")]),
        ("./a", false, vec![PathComponent::CurDir, normal("a")]),
        ("a/.", false, vec![normal("a")]),
        ("../a", false, vec![PathComponent::ParentDir, normal("a")]),
        (".", false, vec![PathComponent::CurDir]),
        ("..a/.b", false, vec![normal("..a"), normal(".b")]),
    ];
    for (text, absolute, components) in cases {
        let path = HostPath::new(text);
        assert_eq!(path.absolute, absolute, "{text}");
        assert_eq!(path.components, components, "{text}");
    }
}

#[test]
fn only_absolute_paths_without_dots_are_safe() {
    assert!(HostPath::new("/workspace/src").is_safe_absolute());
    assert!(HostPath::new("/").is_safe_absolute());
    assert!(!HostPath::new("workspace/src").is_safe_absolute());
    assert!(!HostPath::new("/workspace/../src").is_safe_absolute());
    let dotted = listed(vec![PathComponent::RootDir, PathComponent::CurDir]);
    assert!(!dotted.is_safe_absolute());
}

#[test]
fn prefixes_are_whole_components() {
    let path = HostPath::new("/a/bc/d");
    assert!(path.starts_with(&HostPath::new("/a/bc")));
    assert!(path.starts_with(&HostPath::new("/")));
    assert!(path.starts_with(&path));
    assert!(!path.starts_with(&HostPath::new("/a/b")));
    assert!(!path.starts_with(&HostPath::new("/a/bc/d/e")));
    assert!(!path.starts_with(&HostPath::new("a")));
    let left = listed(vec![raw(&[0xff, 1])]);
    let right = listed(vec![raw(&[0xff, 2])]);
    assert!(left.starts_with(&left.clone()));
    assert!(!left.starts_with(&right));
    assert!(!left.starts_with(&listed(vec![raw(&[0xff])])));
}

#[test]
fn paths_are_written_out_with_slashes() {
    for text in ["/", "/a", "/a/b.c", "a/b", "../a", "./a", ""] {
        assert_eq!(HostPath::new(text).to_text(), text);
        assert_eq!(HostPath::new(text).text_after(0), text);
    }
    let mut odd = listed(HostPath::new("/a").components);
    odd.components.push(raw(&[b'x', 0xff, b'y']));
    assert_eq!(odd.to_text(), "/a/x\u{fffd}y");
    assert_eq!(on_drive("C:", "a").to_text(), "C:/a");
}

#[test]
fn paths_are_shown_as_they_were_given_and_compared_by_component() {
    let odd = HostPath::new("/a//b/./c/");
    assert_eq!(odd.to_text(), "/a//b/./c/");
    assert_eq!(odd.text_after(0), "/a/b/c");
    assert_eq!(odd, HostPath::new("/a/b/c"));
    assert_eq!(odd.clone().to_text(), odd.to_text());
    assert_ne!(odd, HostPath::new("/a/b"));
    assert_ne!(odd, HostPath::new("a/b/c"));
}

#[test]
fn drive_letters_are_compared_without_case() {
    assert!(on_drive("c:", "a").starts_with(&on_drive("C:", "a")));
    assert!(on_drive("C:", "a").starts_with(&on_drive("c:", "a")));
    assert!(!on_drive("d:", "a").starts_with(&on_drive("C:", "a")));
    assert!(!on_drive("c:", "A").starts_with(&on_drive("C:", "a")));
    assert!(on_drive("\\\\?\\c:", "a").starts_with(&on_drive("\\\\?\\C:", "a")));
    assert!(!on_drive("\\\\?\\c:", "a").starts_with(&on_drive("c:", "a")));
    // Only a letter and a colon make a drive.
    assert!(!on_drive("cc:", "a").starts_with(&on_drive("CC:", "a")));
    assert!(!on_drive("[:", "a").starts_with(&on_drive("{:", "a")));
    assert!(on_drive("cc:", "a").starts_with(&on_drive("cc:", "a")));
}

#[test]
fn separators_of_a_prefix_are_alike_unless_it_is_verbatim() {
    let same = |a: &str, b: &str| on_drive(a, "x") == on_drive(b, "x");
    assert!(same("\\\\a\\b", "//a/b"));
    assert!(same("//a\\b", "\\/a/b"));
    assert!(same("\\\\.\\COM42", "//./COM42"));
    assert!(!same("\\\\a\\b", "//a/c"));
    assert!(!same("\\\\a\\b", "//a/b/"));
    assert!(!same("\\\\a\\b", "\\\\A\\b"));
    assert!(!same("\\\\?\\a/b", "\\\\?\\a\\b"));
    assert!(!same("\\\\?\\a", "//?/a"));
    assert!(same("//?/a", "\\/?\\a"));
    assert!(on_drive("//a/b", "x").starts_with(&on_drive("\\\\a\\b", "x")));
    // Ordinary names are taken as they are.
    assert_ne!(on_drive("C:", "a/b"), on_drive("C:", "a\\b"));
    let encoded = |bytes: &[u8]| listed(vec![PathComponent::Prefix(PathName::Raw(bytes.to_vec()))]);
    assert_eq!(encoded(b"//a/\xff"), encoded(b"\\\\a\\\xff"));
    assert_ne!(encoded(b"//a/\xff"), encoded(b"//a/\xfe"));
    let text = PathName::Text("//a".to_owned());
    assert_ne!(encoded(b"//a"), listed(vec![PathComponent::Prefix(text)]));
}

#[test]
fn parts_are_kept_as_they_were_given() {
    let given = HostPath::new("//./a//b/./c/.");
    assert_eq!(given.components, HostPath::new("/a/b/c").components);
    assert_eq!(given.part_from(1, Separator::Slash), "a//b/./c");
    assert_eq!(given.part_from(2, Separator::Slash), "b/./c");
    assert_eq!(given.part_from(3, Separator::Slash), "c");
    assert_eq!(given.part_from(4, Separator::Slash), "");
    // Where `/` is the only separator, a backslash belongs to a name.
    assert_eq!(HostPath::new("/a\\b/c").part_from(2, Separator::Slash), "c");
    let mut listed = given.clone();
    listed.spelling = None;
    assert_eq!(listed.part_from(2, Separator::Slash), "b/c");
    assert_eq!(Separator::Slash.text(), "/");
    assert_eq!(Separator::Backslash.text(), "\\");
}

#[test]
fn resolution_takes_each_answer_as_it_comes() {
    // The parent vanishes after the whole path was asked for, and comes back as another directory.
    let asked = std::cell::RefCell::new(Vec::new());
    let changing = |path: &HostPath| {
        asked.borrow_mut().push(path.to_text());
        match asked.borrow().len() {
            1 | 2 => None,
            _ => Some(HostPath::new("/moved")),
        }
    };
    let found = canonicalize_with_existing_parent(&HostPath::new("/w/a/b"), &changing);
    assert_eq!(found, Some(HostPath::new("/moved/a/b")));
    assert_eq!(*asked.borrow(), vec!["/w/a/b", "/w/a", "/w"]);
    // A path that is nowhere found is asked for up to the root.
    asked.borrow_mut().clear();
    let nowhere = |path: &HostPath| -> Option<HostPath> {
        asked.borrow_mut().push(path.to_text());
        None
    };
    assert_eq!(canonicalize_with_existing_parent(&HostPath::new("/w/a"), &nowhere), None);
    assert_eq!(*asked.borrow(), vec!["/w/a", "/w", "/"]);
}

#[test]
fn tails_are_written_out_and_checked_for_text() {
    let mut path = HostPath::new("/a/b/c");
    assert_eq!(path.text_after(2), "b/c");
    assert_eq!(path.text_after(4), "");
    assert!(path.is_text_after(0));
    path.components.push(raw(&[0xff]));
    assert!(!path.is_text_after(2));
    assert!(path.is_text_after(5));
}

#[test]
fn resolution_goes_through_the_nearest_existing_ancestor() {
    // `/w/link` leads to `/elsewhere`; `/w` exists; nothing else does.
    let canonicalize = |asked: &HostPath| match asked.to_text().as_str() {
        "/w" => Some(HostPath::new("/w")),
        "/w/link" => Some(HostPath::new("/elsewhere")),
        _ => None,
    };
    let found = |text: &str| {
        canonicalize_with_existing_parent(&HostPath::new(text), &canonicalize)
            .map(|path| path.to_text())
    };
    assert_eq!(found("/w"), Some("/w".to_owned()));
    assert_eq!(found("/w/link"), Some("/elsewhere".to_owned()));
    assert_eq!(found("/w/link/a/b"), Some("/elsewhere/a/b".to_owned()));
    assert_eq!(found("/w/new/leaf"), Some("/w/new/leaf".to_owned()));
    assert_eq!(found("/other/leaf"), None);
    assert_eq!(found("/"), None);
    assert_eq!(found("/w/../x"), None);
}
