use collab_store::storage::{
    last_path_segment, parse_repo_spec, release_tag_bytes, storage_type_from_config, StorageType,
};

#[test]
fn default_backend_is_github() {
    assert!(matches!(StorageType::default(), StorageType::GitHub));
}

#[test]
fn only_the_github_backend_is_configurable() {
    assert_eq!(storage_type_from_config(b"github"), Some(StorageType::GitHub));
    assert_eq!(storage_type_from_config(b"s3"), None);
    assert_eq!(storage_type_from_config(b"local"), None);
    assert_eq!(storage_type_from_config(b""), None);
    assert_eq!(storage_type_from_config(b"githuB"), None);
}

#[test]
fn release_tag_flattens_slashes_under_the_prefix() {
    assert_eq!(release_tag_bytes(b"a/b/c.txt"), b"file_a_b_c.txt".to_vec());
    assert_eq!(release_tag_bytes(b"plain.bin"), b"file_plain.bin".to_vec());
    assert_eq!(release_tag_bytes(b""), b"file_".to_vec());
}

#[test]
fn repo_spec_takes_exactly_one_slash() {
    let (owner, name) = parse_repo_spec(b"octo/widgets").unwrap();
    assert_eq!(owner, b"octo".to_vec());
    assert_eq!(name, b"widgets".to_vec());
    assert_eq!(parse_repo_spec(b"octowidgets"), None);
    assert_eq!(parse_repo_spec(b"octo/wid/gets"), None);
    // An empty side still names a split; rejecting it is the caller's
    // business, as it is one slash.
    assert!(parse_repo_spec(b"octo/").is_some());
}

#[test]
fn asset_name_is_the_last_path_segment() {
    assert_eq!(last_path_segment(b"a/b/c.txt"), b"c.txt".to_vec());
    assert_eq!(last_path_segment(b"c.txt"), b"c.txt".to_vec());
    assert_eq!(last_path_segment(b"a/"), b"".to_vec());
}
