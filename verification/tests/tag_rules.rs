//! Tag classification rules.

use modio_provider::tags::{process_modio_tags, ApprovalStatus, RequiredStatus};

fn tag_list(tags: &[&str]) -> Vec<String> {
    tags.iter().map(|t| t.to_string()).collect()
}

#[test]
fn test_tag_classification_basic() {
    let tags = tag_list(&["RequiredByAll", "Gameplay", "1.38"]);
    let summary = process_modio_tags(&tags);
    assert_eq!(summary.required_status, RequiredStatus::RequiredByAll);
    assert!(summary.gameplay);
    assert!(!summary.qol);
    assert!(!summary.audio);
    assert!(!summary.visual);
    assert!(!summary.framework);
    assert_eq!(summary.versions, vec!["1.38".to_string()]);
    assert_eq!(summary.approval_status, ApprovalStatus::Sandbox);
}

#[test]
fn test_tag_classification_verified() {
    let tags = tag_list(&["Verified"]);
    let summary = process_modio_tags(&tags);
    assert_eq!(summary.approval_status, ApprovalStatus::Verified);
    assert_eq!(summary.required_status, RequiredStatus::Optional);
    assert!(summary.versions.is_empty());
}

#[test]
fn test_tag_classification_auto_verified_and_approved() {
    let auto = process_modio_tags(&tag_list(&["Auto-Verified"]));
    assert_eq!(auto.approval_status, ApprovalStatus::Verified);
    let approved = process_modio_tags(&tag_list(&["Approved", "QoL"]));
    assert_eq!(approved.approval_status, ApprovalStatus::Approved);
    assert!(approved.qol);
}

#[test]
fn test_version_tags_sorted_and_unique() {
    let tags = tag_list(&["2.0", "1.38", "1.38", "Audio", "10x"]);
    let summary = process_modio_tags(&tags);
    assert_eq!(
        summary.versions,
        vec!["1.38".to_string(), "10x".to_string(), "2.0".to_string()]
    );
    assert!(summary.audio);
}
