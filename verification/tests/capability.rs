//! Grants: what they allow and what they refuse to hold.

use std::collections::BTreeSet;

use wasi_runtime::capability::{
    CapabilityError, CapabilityGrant, FilesystemAccess, FilesystemGrant, ResourceLimits,
};
use wasi_runtime::path::{HostPath, PathComponent, PathName, Separator};

fn root(name: &str) -> HostPath {
    HostPath::new(&format!("/tmp/sandbox-{name}"))
}

fn below(base: &HostPath, rest: &str) -> HostPath {
    HostPath::new(&format!("{}/{rest}", base.to_text()))
}

#[test]
fn rejects_relative_and_parent_paths() {
    assert!(matches!(
        FilesystemGrant::new(HostPath::new("workspace"), FilesystemAccess::Read),
        Err(CapabilityError::InvalidPath(_))
    ));
    assert!(matches!(
        FilesystemGrant::new(HostPath::new("/workspace/../secrets"), FilesystemAccess::Read),
        Err(CapabilityError::InvalidPath(_))
    ));
}

#[test]
fn rejects_zero_fuel_and_zero_memory_limits() {
    let limits = ResourceLimits::new(1024, 30).expect("valid limits");
    assert!(limits.with_fuel(0).is_err());
    assert!(limits.with_memory_bytes(0).is_err());
    assert_eq!(limits.max_fuel(), 1_000_000);
}

#[test]
fn unlimited_fuel_uses_the_sentinel() {
    let limits = ResourceLimits::new(1024, 30).expect("valid limits");
    assert_eq!(limits.with_unlimited_fuel().max_fuel(), u64::MAX);
}

#[test]
fn rejects_malformed_environment_names() {
    let result = CapabilityGrant::empty().allow_environment("TOKEN=value".to_owned());
    assert!(matches!(
        result,
        Err(CapabilityError::InvalidEnvironmentName(_))
    ));
}

#[test]
fn rejects_port_zero_on_connect_and_bind() {
    assert!(matches!(
        CapabilityGrant::empty().allow_loopback_port(0),
        Err(CapabilityError::InvalidLoopbackPort(0))
    ));
    assert!(matches!(
        CapabilityGrant::empty().allow_loopback_bind_port(0),
        Err(CapabilityError::InvalidLoopbackPort(0))
    ));
}

#[test]
fn bind_allowlist_is_separate_and_empty_by_default() {
    let grant = CapabilityGrant::empty()
        .allow_loopback_port(3000)
        .expect("valid connect port");
    assert!(grant.allows_loopback_port(3000));
    // Connect allowlist does not imply bind permission.
    assert!(!grant.allows_loopback_bind_port(3000));

    let grant = grant
        .allow_loopback_bind_port(3001)
        .expect("valid bind port");
    assert!(grant.allows_loopback_bind_port(3001));
    assert!(!grant.allows_loopback_port(3001));
    assert!(!grant.allows_loopback_bind_port(3000));
}

#[test]
fn existing_path_check_rejects_a_symlink_that_leaves_the_grant() {
    let granted = root("capability-root");
    let outside = root("capability-outside");
    let link = below(&granted, "link");
    let secret = below(&outside, "secret.txt");
    let escaped = below(&granted, "link/secret.txt");
    let canonicalize = |asked: &HostPath| {
        if *asked == granted || *asked == outside || *asked == secret {
            Some(asked.clone())
        } else if *asked == link {
            Some(outside.clone())
        } else if *asked == escaped {
            Some(secret.clone())
        } else {
            None
        }
    };

    let grant = CapabilityGrant::workspace(granted.clone(), FilesystemAccess::Read)
        .expect("temporary root is absolute");

    assert!(grant.allows_path(&escaped));
    assert!(!grant.allows_existing_path(&escaped, &canonicalize));
    // A new leaf below the link leaves the grant too; one below the root does not.
    assert!(!grant.allows_existing_path(&below(&granted, "link/new.txt"), &canonicalize));
    assert!(grant.allows_existing_path(&below(&granted, "new.txt"), &canonicalize));
}

#[test]
fn a_root_that_does_not_exist_allows_no_existing_path() {
    let granted = root("missing");
    let grant = CapabilityGrant::workspace(granted.clone(), FilesystemAccess::ReadWrite)
        .expect("absolute root");
    assert!(grant.allows_path(&below(&granted, "a")));
    assert!(!grant.allows_existing_path(&below(&granted, "a"), &|_: &HostPath| None));
    // The root is gone although the path itself still resolves.
    let leaf = below(&granted, "a");
    let only_leaf = |asked: &HostPath| {
        if *asked == leaf {
            Some(leaf.clone())
        } else {
            None
        }
    };
    assert!(!grant.allows_existing_path(&leaf, &only_leaf));
}

#[test]
fn both_path_checks_agree_where_nothing_is_a_link() {
    let granted = root("plain");
    let grant = CapabilityGrant::workspace(granted.clone(), FilesystemAccess::Read)
        .expect("absolute root");
    for path in [
        granted.clone(),
        below(&granted, "a/b"),
        below(&granted, "../b"),
        root("plainer"),
        HostPath::new("/"),
    ] {
        assert_eq!(
            grant.allows_existing_path(&path, &|asked: &HostPath| Some(asked.clone())),
            grant.allows_path(&path)
        );
    }
}

#[test]
fn empty_grant_denies_filesystem_environment_and_network() {
    let grant = CapabilityGrant::empty();

    assert!(!grant.allows_path(&HostPath::new("/workspace/main.rs")));
    assert!(!grant.allows_environment("PATH"));
    assert!(!grant.allows_loopback_port(3000));
}

#[test]
fn empty_grant_denies_binding_and_native_execution_and_has_the_default_limits() {
    let grant = CapabilityGrant::empty();
    assert!(!grant.allows_loopback_bind_port(3000));
    assert!(!grant.allows_native_execution());
    assert!(grant.filesystem_grants().is_empty());
    assert!(grant.environment_names().is_empty());
    assert!(grant.loopback_ports().is_empty());
    assert!(grant.loopback_bind_ports().is_empty());
    assert_eq!(grant.limits().max_output_bytes(), 1_048_576);
    assert_eq!(grant.limits().timeout_seconds(), 30);
    assert_eq!(grant.limits().max_memory_bytes(), 64 * 1024 * 1024);
    assert_eq!(grant.limits().max_fuel(), 1_000_000);
}

#[test]
fn workspace_grant_does_not_cross_path_boundaries_or_parent_segments() {
    let project = root("project");
    let grant = CapabilityGrant::workspace(project.clone(), FilesystemAccess::ReadWrite)
        .expect("absolute workspace path");

    assert!(grant.allows_path(&below(&project, "src/main.rs")));
    assert!(!grant.allows_path(&below(&root("project-other"), "main.rs")));
    assert!(!grant.allows_path(&below(&project, "../secrets.txt")));
}

#[test]
fn limits_are_rejected_by_name_and_kept_otherwise() {
    assert!(matches!(
        ResourceLimits::new(0, 0),
        Err(CapabilityError::InvalidLimit { name: "max_output_bytes" })
    ));
    assert!(matches!(
        ResourceLimits::new(1, 0),
        Err(CapabilityError::InvalidLimit { name: "timeout_seconds" })
    ));
    let limits = ResourceLimits::new(7, 9).expect("valid limits");
    assert!(matches!(
        limits.with_fuel(0),
        Err(CapabilityError::InvalidLimit { name: "max_fuel" })
    ));
    assert!(matches!(
        limits.with_memory_bytes(0),
        Err(CapabilityError::InvalidLimit { name: "max_memory_bytes" })
    ));
    let limits = limits.with_fuel(11).expect("fuel").with_memory_bytes(13).expect("memory");
    assert_eq!(limits.max_output_bytes(), 7);
    assert_eq!(limits.timeout_seconds(), 9);
    assert_eq!(limits.max_fuel(), 11);
    assert_eq!(limits.max_memory_bytes(), 13);
    let grant = CapabilityGrant::empty().with_limits(limits);
    assert_eq!(grant.limits(), limits);
}

#[test]
fn environment_names_are_kept_sorted_and_once() {
    let mut grant = CapabilityGrant::empty();
    for name in ["PATH", "HOME", "PATHS", "A", "HOME", "\u{e4}", "z"] {
        grant = grant.allow_environment(name.to_owned()).expect("valid name");
    }
    assert_eq!(
        *grant.environment_names(),
        vec!["A", "HOME", "PATH", "PATHS", "z", "\u{e4}"]
    );
    assert!(grant.allows_environment("HOME"));
    assert!(!grant.allows_environment("HOM"));
    assert!(!grant.allows_environment(""));
}

#[test]
fn environment_names_with_spaces_nul_or_nothing_are_rejected() {
    for name in ["", "A B", "A\tB", "A\0", "\u{a0}", "=", "A\u{2003}", "A\n"] {
        assert!(
            matches!(
                CapabilityGrant::empty().allow_environment(name.to_owned()),
                Err(CapabilityError::InvalidEnvironmentName(rejected)) if rejected == name
            ),
            "{name:?}"
        );
    }
}

#[test]
fn every_white_space_character_is_rejected_in_a_name() {
    let white: BTreeSet<u32> = (0x9..=0xd)
        .chain([0x20, 0x85, 0xa0, 0x1680])
        .chain(0x2000..=0x200a)
        .chain([0x2028, 0x2029, 0x202f, 0x205f, 0x3000])
        .collect();
    for code in 0..=0x10ffff_u32 {
        if let Some(c) = char::from_u32(code) {
            let refused = CapabilityGrant::empty().allow_environment(c.to_string()).is_err();
            assert_eq!(refused, white.contains(&code) || c == '=' || c == '\0', "{code:x}");
        }
    }
}

#[test]
fn grants_keep_what_was_granted_before() {
    let granted = root("whole");
    let grant = CapabilityGrant::workspace(granted.clone(), FilesystemAccess::ReadWrite)
        .expect("absolute root")
        .allow_environment("PATH".to_owned())
        .expect("name")
        .allow_loopback_port(1)
        .expect("port")
        .allow_loopback_bind_port(65535)
        .expect("port")
        .allow_native_execution();
    assert_eq!(grant.filesystem_grants().len(), 1);
    assert_eq!(*grant.filesystem_grants()[0].root(), granted);
    assert_eq!(grant.filesystem_grants()[0].access(), FilesystemAccess::ReadWrite);
    assert!(grant.allows_environment("PATH"));
    assert!(grant.allows_loopback_port(1));
    assert!(grant.allows_loopback_bind_port(65535));
    assert!(grant.allows_native_execution());
    assert_eq!(grant.clone(), grant);
}

#[test]
fn guest_paths_are_seen_below_the_guest_root() {
    let granted = root("seen");
    let filesystem = FilesystemGrant::new(granted.clone(), FilesystemAccess::Read).expect("root");
    let seen = |path: &HostPath, guest_root: &str| {
        filesystem.guest_path_for(path, guest_root, Separator::Slash)
    };
    assert_eq!(seen(&granted, "/workspace"), Some("/workspace".to_owned()));
    assert_eq!(seen(&below(&granted, "src/bin"), "/grant-2"), Some("/grant-2/src/bin".to_owned()));
    assert_eq!(seen(&root("seen-not"), "/workspace"), None);
    assert_eq!(seen(&below(&granted, "../x"), "/workspace"), None);
    // A guest root that ends in a separator, or is empty, gets no further one.
    assert_eq!(seen(&below(&granted, "src"), "/"), Some("/src".to_owned()));
    assert_eq!(seen(&below(&granted, "src"), ""), Some("src".to_owned()));
    let mut odd = granted.clone();
    odd.components.push(PathComponent::Normal(PathName::Raw(vec![0xff])));
    assert!(filesystem.allows(&odd));
    assert_eq!(seen(&odd, "/workspace"), None);
}

#[test]
fn guest_paths_keep_what_was_given_below_the_root() {
    let granted = root("kept");
    let filesystem = FilesystemGrant::new(granted.clone(), FilesystemAccess::Read).expect("root");
    for (rest, kept) in [
        ("src//bin", "/workspace/src//bin"),
        ("src/./bin", "/workspace/src/./bin"),
        ("//./src/bin/./", "/workspace/src/bin"),
        (".src/...", "/workspace/.src/..."),
        ("./.", "/workspace"),
    ] {
        let path = below(&granted, rest);
        assert_eq!(
            filesystem.guest_path_for(&path, "/workspace", Separator::Slash),
            Some(kept.to_owned()),
            "{rest}"
        );
        // This is what the standard library keeps.
        let given = path.to_text();
        let below_root = std::path::Path::new(&given)
            .strip_prefix(granted.to_text())
            .expect("below the root");
        let part = path.part_from(granted.components.len(), Separator::Slash);
        assert_eq!(below_root.to_str(), Some(part.as_str()));
    }
    // A path that was given component by component is written out with slashes.
    let mut listed = below(&granted, "src//bin");
    listed.spelling = None;
    assert_eq!(
        filesystem.guest_path_for(&listed, "/workspace", Separator::Slash),
        Some("/workspace/src/bin".to_owned())
    );
}

fn with_prefix(prefix: &str, names: &[&str], spelling: &str) -> HostPath {
    let mut components =
        vec![PathComponent::Prefix(PathName::Text(prefix.to_owned())), PathComponent::RootDir];
    for name in names {
        components.push(PathComponent::Normal(PathName::Text((*name).to_owned())));
    }
    HostPath { absolute: true, components, spelling: Some(spelling.to_owned()) }
}

#[test]
fn guest_paths_keep_the_separators_of_the_host() {
    let seen = |granted: &HostPath, path: &HostPath, guest_root: &str| {
        FilesystemGrant::new(granted.clone(), FilesystemAccess::Read)
            .expect("root")
            .guest_path_for(path, guest_root, Separator::Backslash)
    };
    let drive = with_prefix("C:", &["w"], "C:\\w");
    let path = with_prefix("c:", &["w", "src", "a", "b"], "c:\\.\\w\\src\\.\\a/b\\");
    assert_eq!(seen(&drive, &path, "/workspace"), Some("/workspace\\src\\.\\a/b".to_owned()));
    assert_eq!(seen(&drive, &path, "/"), Some("/src\\.\\a/b".to_owned()));
    assert_eq!(seen(&drive, &path, "x\\"), Some("x\\src\\.\\a/b".to_owned()));
    let share = with_prefix("\\\\a\\b", &["w"], "\\\\a\\b\\w");
    let shared = with_prefix("//a/b", &["w", "x"], "//a/b/w//x");
    assert_eq!(seen(&share, &shared, "/workspace"), Some("/workspace\\x".to_owned()));
    // A verbatim path has no separator but its own.
    let plain = with_prefix("\\\\?\\C:", &["w"], "\\\\?\\C:\\w");
    let odd = with_prefix("\\\\?\\C:", &["w", "a/b", "c"], "\\\\?\\C:\\w\\a/b\\c");
    assert_eq!(seen(&plain, &odd, "/workspace"), Some("/workspace\\a/b\\c".to_owned()));
}

#[test]
fn an_allowed_path_lies_below_an_answer_for_a_root() {
    // Links may change while a path is checked: every question is put once, and its answer counts.
    let granted = root("changing");
    let outside = root("changing-outside");
    let grant = CapabilityGrant::workspace(granted.clone(), FilesystemAccess::Read).expect("root");
    let asked = std::cell::Cell::new(0);
    let moving = |path: &HostPath| {
        asked.set(asked.get() + 1);
        if asked.get() == 1 {
            Some(path.clone())
        } else {
            Some(outside.clone())
        }
    };
    assert!(!grant.allows_existing_path(&granted, &moving));
    assert_eq!(asked.get(), 2);
    // A new leaf is kept below what its parent resolved to.
    let parent_only =
        |path: &HostPath| if *path == granted { Some(outside.clone()) } else { None };
    assert!(grant.allows_existing_path(&below(&granted, "new/leaf"), &parent_only));
}

#[test]
fn capability_errors_say_what_is_wrong() {
    let message = |error: CapabilityError| error.message();
    assert_eq!(
        message(CapabilityError::InvalidPath(HostPath::new("a//../b/"))),
        "capability path must be absolute and cannot contain `..`: a//../b/"
    );
    assert_eq!(
        message(ResourceLimits::new(0, 1).expect_err("zero")),
        "max_output_bytes must be greater than zero"
    );
    assert_eq!(
        message(CapabilityError::InvalidEnvironmentName("A=B".to_owned())),
        "invalid environment variable name: A=B"
    );
    assert_eq!(
        message(CapabilityError::InvalidLoopbackPort(65530)),
        "loopback port must be greater than zero: 65530"
    );
}
