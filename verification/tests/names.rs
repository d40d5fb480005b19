use socket_swap::jobs::{JobConfigBuilder, JobManager};
use socket_swap::names::{hex_string, name_with_checksum, sanitize_name};

fn mock_job_manager() -> JobManager {
    JobManager::new(
        "default".to_string(),
        300,
        3600,
        "500m".to_string(),
        "512Mi".to_string(),
        "100m".to_string(),
        "128Mi".to_string(),
    )
}

#[test]
fn test_sanitize_name_determinism() {
    let manager = mock_job_manager();
    let container_id = "tool-structure-0.0.96-1d4239-f56ff6d5-fbdd-46bb-ba40-62976b1c3a";

    let name1 = manager.sanitize_name(container_id);
    let name2 = manager.sanitize_name(container_id);

    assert_eq!(name1, name2);

    let expected_prefix = "ss-tool-structure-0.0.96-1d4239-f56ff6d5-fbdd-46bb-ba40";
    assert!(name1.starts_with(expected_prefix));
}

#[test]
fn short_name_is_prefixed_id() {
    assert_eq!(sanitize_name("abc123"), "ss-abc123");
    assert_eq!(sanitize_name(""), "ss-");
    let sixty = "a".repeat(60);
    assert_eq!(sanitize_name(&sixty), format!("ss-{}", sixty));
}

#[test]
fn long_name_uses_crc_suffix() {
    let id = "tool-structure-0.0.96-1d4239-f56ff6d5-fbdd-46bb-ba40-62976b1c3a";
    let name = sanitize_name(id);
    let hash = format!("{:x}", crc32fast::hash(id.as_bytes()));
    assert_eq!(name, format!("ss-{}-{}", &id[..52], &hash[..7]));
    assert_eq!(name.len(), 63);
}

#[test]
fn sixty_one_byte_id_is_cut() {
    let id = "b".repeat(61);
    let name = sanitize_name(&id);
    assert!(name.len() <= 63);
    assert!(name.starts_with(&format!("ss-{}-", "b".repeat(52))));
}

#[test]
fn hex_text_matches_format() {
    for n in [0u32, 9, 10, 15, 16, 255, 0x1000000, 0xdeadbeef, u32::MAX] {
        assert_eq!(hex_string(n), format!("{:x}", n));
    }
}

#[test]
fn every_long_id_has_a_name() {
    // a long id whose cut after 52 bytes would split a character: cut before it
    let id = format!("{}é{}", "a".repeat(51), "z".repeat(20));
    let name = sanitize_name(&id);
    assert!(name.len() <= 63);
    assert!(name.starts_with(&format!("ss-{}-", "a".repeat(51))));
    assert_eq!(name, sanitize_name(&id));
    // a long ASCII id whose CRC-32 (0x833b8) has only five hex digits
    let id = format!("container-162{}", "q".repeat(48));
    assert_eq!(id.len(), 61);
    assert_eq!(crc32fast::hash(id.as_bytes()), 0x833b8);
    assert_eq!(sanitize_name(&id), format!("ss-{}-833b8", &id[..52]));
}

#[test]
fn name_with_short_checksum_keeps_all_digits() {
    let long = "tool-structure-0.0.96-1d4239-f56ff6d5-fbdd-46bb-ba40-62976b1c3a";
    assert_eq!(
        name_with_checksum(long, 0xab),
        "ss-tool-structure-0.0.96-1d4239-f56ff6d5-fbdd-46bb-ba40-ab"
    );
    assert_eq!(
        name_with_checksum(long, 0),
        "ss-tool-structure-0.0.96-1d4239-f56ff6d5-fbdd-46bb-ba40-0"
    );
}

#[test]
fn short_names_are_distinct() {
    assert_ne!(sanitize_name("abc"), sanitize_name("abd"));
    assert_ne!(sanitize_name("a"), sanitize_name("a "));
}

#[test]
fn lookup_name_is_creation_name() {
    let manager = mock_job_manager();
    for id in ["0123456789ab", "tool-structure-0.0.96-1d4239-f56ff6d5-fbdd-46bb-ba40-62976b1c3a"] {
        let config = JobConfigBuilder::default()
            .container_id(id.to_string())
            .image("busybox".to_string())
            .build()
            .unwrap();
        assert_eq!(manager.build_job(config).name, manager.sanitize_name(id));
    }
}

#[test]
fn name_with_given_checksum() {
    let long = "tool-structure-0.0.96-1d4239-f56ff6d5-fbdd-46bb-ba40-62976b1c3a";
    assert_eq!(
        name_with_checksum(long, 0x1234_abcd),
        "ss-tool-structure-0.0.96-1d4239-f56ff6d5-fbdd-46bb-ba40-1234abc"
    );
    assert_eq!(name_with_checksum(long, 0xffff_ffff).len(), 63);
    assert_eq!(name_with_checksum("abc", 0), "ss-abc");
    assert_eq!(name_with_checksum("abc", 0xdead_beef), "ss-abc");
}
