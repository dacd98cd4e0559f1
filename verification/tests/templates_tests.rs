use podci::templates::ensure_safe_rel_path;
use podci::templates::is_tar_gz_path;
use podci::templates::list_templates;
use podci::templates::replace_project_placeholder;
use podci::templates::resolve_template;
use podci::templates::TemplateEntry;
use podci::templates::TemplateOrigin;

#[test]
fn list_includes_embedded_generic() {
    let found: Vec<TemplateEntry> = Vec::new();
    let list = list_templates(&found);
    assert!(list.iter().any(|t| t.name == "generic"));
    let roots: Vec<String> = Vec::new();
    let present: Vec<bool> = Vec::new();
    let g = resolve_template(&roots, &present, "generic").unwrap();
    assert_eq!(g.origin, TemplateOrigin::Embedded);
}

#[test]
fn first_root_wins_for_duplicate_names() {
    let found = vec![
        TemplateEntry {
            name: "generic".to_string(),
            origin: TemplateOrigin::Disk("/a/generic".to_string()),
        },
        TemplateEntry {
            name: "generic".to_string(),
            origin: TemplateOrigin::Disk("/b/generic".to_string()),
        },
    ];
    let list = list_templates(&found);
    assert_eq!(list.len(), 1);
    assert_eq!(list[0].origin, TemplateOrigin::Disk("/a/generic".to_string()));
}

#[test]
fn resolve_prefers_earlier_roots() {
    let roots = vec!["/a".to_string(), "/b".to_string()];
    let present = vec![false, true];
    let e = resolve_template(&roots, &present, "rust").unwrap();
    assert_eq!(e.origin, TemplateOrigin::Disk("/b/rust".to_string()));

    let present = vec![true, true];
    let e = resolve_template(&roots, &present, "rust").unwrap();
    assert_eq!(e.origin, TemplateOrigin::Disk("/a/rust".to_string()));
}

#[test]
fn resolve_rejects_unknown_names() {
    let roots = vec!["/a".to_string()];
    let present = vec![false];
    let err = resolve_template(&roots, &present, "nope").unwrap_err();
    assert!(err.message().contains("unknown template"));
}

#[test]
fn safe_rel_paths_are_enforced() {
    assert!(ensure_safe_rel_path("files/podci.toml").is_ok());
    assert!(ensure_safe_rel_path("a/b/c.txt").is_ok());
    assert!(ensure_safe_rel_path("/etc/passwd").is_err());
    assert!(ensure_safe_rel_path("../up").is_err());
    assert!(ensure_safe_rel_path("a/../b").is_err());
    assert!(ensure_safe_rel_path("a/./b").is_err());
    assert!(ensure_safe_rel_path("a/..").is_err());
}

#[test]
fn placeholder_replacement_hits_every_occurrence() {
    assert_eq!(
        replace_project_placeholder("project = \"REPLACE_ME\"", "demo"),
        "project = \"demo\""
    );
    assert_eq!(
        replace_project_placeholder("REPLACE_ME and REPLACE_ME", "x"),
        "x and x"
    );
    assert_eq!(replace_project_placeholder("nothing here", "x"), "nothing here");
}

#[test]
fn export_paths_must_end_in_tar_gz() {
    assert!(is_tar_gz_path("bundle.tar.gz"));
    assert!(!is_tar_gz_path("bundle.tar"));
    assert!(!is_tar_gz_path("gz"));
}
