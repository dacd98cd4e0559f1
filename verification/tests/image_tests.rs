use podci::image::classify_container_ref;
use podci::image::image_tag_for_template;
use podci::image::plan_image_build;
use podci::image::ContainerRefKind;
use podci::templates::containerfile_for;
use podci::templates::is_known_template;

#[test]
fn container_ref_classification_prefers_symbolic_templates() {
    assert_eq!(
        classify_container_ref("rust-debian").unwrap(),
        ContainerRefKind::SymbolicTemplate
    );
}

#[test]
fn container_ref_classification_allows_explicit_image_refs() {
    assert_eq!(
        classify_container_ref("docker.io/library/ubuntu:24.04").unwrap(),
        ContainerRefKind::ExplicitImageRef
    );
    assert_eq!(
        classify_container_ref("ubuntu:24.04").unwrap(),
        ContainerRefKind::ExplicitImageRef
    );
    assert_eq!(
        classify_container_ref("ghcr.io/org/img@sha256:deadbeef").unwrap(),
        ContainerRefKind::ExplicitImageRef
    );
}

#[test]
fn container_ref_classification_rejects_ambiguous_names() {
    let err = classify_container_ref("ubuntu").unwrap_err().message();
    assert!(err.contains("unknown container template"));
    assert!(err.contains("explicit image reference"));
}

#[test]
fn container_ref_classification_rejects_bad_characters() {
    let err = classify_container_ref("ubuntu:24 04").unwrap_err().message();
    assert!(err.contains("invalid container reference"));
}

#[test]
fn template_catalog_builds_known_images_only() {
    assert!(is_known_template("rust-debian"));
    assert!(!is_known_template("ubuntu"));
    assert!(containerfile_for("rust-debian").unwrap().contains("FROM "));
    let err = containerfile_for("ubuntu").unwrap_err().message();
    assert!(err.contains("unknown template image container"));
}

#[test]
fn template_image_tags_are_versioned() {
    assert_eq!(
        image_tag_for_template("rust-debian", "0.1.0"),
        "localhost/podci-rust-debian:v0.1.0"
    );
}

#[test]
fn image_build_happens_at_most_once_per_tag() {
    assert_eq!(plan_image_build(true, false), (false, false));
    assert_eq!(plan_image_build(false, false), (false, true));
    assert_eq!(plan_image_build(true, true), (true, true));
    assert_eq!(plan_image_build(false, true), (false, true));
}
