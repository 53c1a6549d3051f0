use swiss_knife::config::{Config, ConfigRule};

#[test]
fn test_bucket_name_validation() {
    // Valid bucket names
    assert!(Config::validate_bucket_name("my-bucket").is_ok());
    assert!(Config::validate_bucket_name("my.bucket.123").is_ok());
    assert!(Config::validate_bucket_name("abc").is_ok());
    assert!(Config::validate_bucket_name("my-bucket-name-123").is_ok());

    // Invalid bucket names
    assert!(Config::validate_bucket_name("ab").is_err()); // Too short
    assert!(Config::validate_bucket_name(&"a".repeat(64)).is_err()); // Too long
    assert!(Config::validate_bucket_name("MY-BUCKET").is_err()); // Uppercase
    assert!(Config::validate_bucket_name("my_bucket").is_err()); // Underscore
    assert!(Config::validate_bucket_name("-mybucket").is_err()); // Starts with dash
    assert!(Config::validate_bucket_name("mybucket-").is_err()); // Ends with dash
    assert!(Config::validate_bucket_name("my..bucket").is_err()); // Consecutive periods
    assert!(Config::validate_bucket_name("192.168.1.1").is_err()); // IP address format
    assert!(Config::validate_bucket_name("").is_err()); // Empty
}

#[test]
fn test_region_validation() {
    // Valid regions
    assert!(Config::validate_region("us-west-2").is_ok());
    assert!(Config::validate_region("eu-west-1").is_ok());
    assert!(Config::validate_region("ap-southeast-1").is_ok());

    // Invalid regions
    assert!(Config::validate_region("").is_err()); // Empty
    assert!(Config::validate_region("uswest2").is_err()); // No dash
}

#[test]
fn test_target_path_validation() {
    // Valid paths
    assert!(Config::validate_target_path("").is_ok());
    assert!(Config::validate_target_path("uploads").is_ok());
    assert!(Config::validate_target_path("uploads/videos").is_ok());

    // Invalid paths
    assert!(Config::validate_target_path("uploads//videos").is_err()); // Consecutive slashes
    assert!(Config::validate_target_path("../uploads").is_err()); // Contains ..
    assert!(Config::validate_target_path("/uploads").is_err()); // Absolute path
}

#[test]
fn test_s3_key_construction() {
    let config = Config {
        region: "us-west-2".to_string(),
        profile: None,
        bucket: "test-bucket".to_string(),
        target_path: "uploads".to_string(),
    };

    assert_eq!(config.build_s3_key("file.mp4"), "uploads/file.mp4");
    assert_eq!(config.build_s3_key("./file.mp4"), "uploads/file.mp4");
    assert_eq!(config.build_s3_key("dir/file.mp4"), "uploads/dir/file.mp4");

    // Test with empty target path
    let config_no_prefix = Config {
        region: "us-west-2".to_string(),
        profile: None,
        bucket: "test-bucket".to_string(),
        target_path: String::new(),
    };

    assert_eq!(config_no_prefix.build_s3_key("file.mp4"), "file.mp4");
    assert_eq!(config_no_prefix.build_s3_key("dir/file.mp4"), "dir/file.mp4");
}

fn config_with_prefix(prefix: &str) -> Config {
    Config {
        region: "us-west-2".to_string(),
        profile: None,
        bucket: "test-bucket".to_string(),
        target_path: prefix.to_string(),
    }
}

#[test]
fn key_is_prefix_slash_path() {
    assert_eq!(config_with_prefix("uploads").build_s3_key("./a/b.mp4"), "uploads/a/b.mp4");
    assert_eq!(config_with_prefix("").build_s3_key("a/b.mp4"), "a/b.mp4");
}

#[test]
fn key_drops_repeated_markers_and_trailing_slashes() {
    assert_eq!(config_with_prefix("uploads///").build_s3_key("././a.mp4"), "uploads/a.mp4");
    assert_eq!(config_with_prefix("").build_s3_key("./a.mp4"), "a.mp4");
    assert_eq!(config_with_prefix("p").build_s3_key(".a/./b"), "p/.a/./b");
    assert_eq!(config_with_prefix("/").build_s3_key("x"), "/x");
}

fn rule_of(result: Result<(), swiss_knife::config::ConfigError>) -> Option<ConfigRule> {
    result.err().map(|error| error.rule)
}

#[test]
fn bucket_rules_are_reported_in_order() {
    assert_eq!(rule_of(Config::validate_bucket_name("")), Some(ConfigRule::EmptyBucket));
    assert_eq!(
        rule_of(Config::validate_bucket_name("ab")),
        Some(ConfigRule::BucketLength { length: 2 })
    );
    assert_eq!(
        rule_of(Config::validate_bucket_name(&"a".repeat(64))),
        Some(ConfigRule::BucketLength { length: 64 })
    );
    assert_eq!(rule_of(Config::validate_bucket_name(&"a".repeat(63))), None);
    assert_eq!(rule_of(Config::validate_bucket_name("MY-BUCKET")), Some(ConfigRule::BucketStart));
    assert_eq!(rule_of(Config::validate_bucket_name("-mybucket")), Some(ConfigRule::BucketStart));
    assert_eq!(rule_of(Config::validate_bucket_name("mybucket-")), Some(ConfigRule::BucketEnd));
    assert_eq!(
        rule_of(Config::validate_bucket_name("my_bucket")),
        Some(ConfigRule::BucketCharacter { found: '_' })
    );
    assert_eq!(
        rule_of(Config::validate_bucket_name("aXb_c")),
        Some(ConfigRule::BucketCharacter { found: 'X' })
    );
    assert_eq!(
        rule_of(Config::validate_bucket_name("my..bucket")),
        Some(ConfigRule::BucketConsecutivePeriods)
    );
    assert_eq!(
        rule_of(Config::validate_bucket_name("192.168.1.1")),
        Some(ConfigRule::BucketIpAddress)
    );
}

#[test]
fn bucket_length_counts_bytes() {
    // two characters of three bytes each
    assert_eq!(
        rule_of(Config::validate_bucket_name("\u{65e5}\u{672c}")),
        Some(ConfigRule::BucketStart)
    );
    assert_eq!(
        rule_of(Config::validate_bucket_name("\u{e9}")),
        Some(ConfigRule::BucketLength { length: 2 })
    );
}

#[test]
fn ip_form_needs_every_piece_below_256() {
    assert_eq!(rule_of(Config::validate_bucket_name("255.255.255.255")), Some(ConfigRule::BucketIpAddress));
    assert_eq!(rule_of(Config::validate_bucket_name("256.1.1.1")), None);
    assert_eq!(rule_of(Config::validate_bucket_name("1.2.3")), Some(ConfigRule::BucketIpAddress));
    assert_eq!(rule_of(Config::validate_bucket_name("123")), Some(ConfigRule::BucketIpAddress));
    assert_eq!(rule_of(Config::validate_bucket_name("0007.1.1")), Some(ConfigRule::BucketIpAddress));
    assert_eq!(rule_of(Config::validate_bucket_name("1.2.3a")), None);
    assert_eq!(rule_of(Config::validate_bucket_name("99999999999999999999.1")), None);
}

#[test]
fn path_rules_are_reported_in_order() {
    assert_eq!(
        rule_of(Config::validate_target_path("/a//b/..")),
        Some(ConfigRule::PathConsecutiveSlashes)
    );
    assert_eq!(
        rule_of(Config::validate_target_path("/a/../b")),
        Some(ConfigRule::PathParentReference)
    );
    assert_eq!(rule_of(Config::validate_target_path("/a")), Some(ConfigRule::PathAbsolute));
    assert_eq!(rule_of(Config::validate_region("")), Some(ConfigRule::EmptyRegion));
    assert_eq!(rule_of(Config::validate_region("uswest2")), Some(ConfigRule::RegionFormat));
}

#[test]
fn refusals_in_words() {
    let error = Config::validate_bucket_name("ab").unwrap_err();
    assert_eq!(error.value, "ab");
    assert_eq!(error.message(), "S3_BUCKET 'ab' must be between 3 and 63 characters (got 2)");
    let error = Config::validate_bucket_name("my_bucket").unwrap_err();
    assert_eq!(
        error.message(),
        "S3_BUCKET 'my_bucket' contains invalid character '_'. Only lowercase letters, numbers, hyphens, and periods are allowed"
    );
    let error = Config::validate_region("uswest2").unwrap_err();
    assert_eq!(
        error.message(),
        "AWS_REGION 'uswest2' doesn't look like a valid region (e.g., us-west-2, eu-west-1)"
    );
    let error = Config::validate_target_path("../uploads").unwrap_err();
    assert_eq!(
        error.message(),
        "S3_TARGET_PATH '../uploads' contains '..' (not allowed for security)"
    );
    let error = Config::validate_bucket_name("192.168.1.1").unwrap_err();
    assert_eq!(error.message(), "S3_BUCKET '192.168.1.1' cannot be formatted as an IP address");
}

#[test]
fn settings_are_checked_region_first() {
    let missing = Config::from_values(None, None, None, None).unwrap_err();
    assert_eq!(missing.rule, ConfigRule::MissingRegion);
    assert_eq!(
        missing.message(),
        "AWS_REGION not found in environment. Please set it in .env file"
    );
    let no_bucket =
        Config::from_values(Some("us-west-2".to_string()), None, None, None).unwrap_err();
    assert_eq!(no_bucket.rule, ConfigRule::MissingBucket);
    let bad_region = Config::from_values(
        Some("uswest2".to_string()),
        None,
        Some("!".to_string()),
        Some("//".to_string()),
    )
    .unwrap_err();
    assert_eq!(bad_region.rule, ConfigRule::RegionFormat);
    let bad_path = Config::from_values(
        Some("us-west-2".to_string()),
        None,
        Some("my-bucket".to_string()),
        Some("/abs".to_string()),
    )
    .unwrap_err();
    assert_eq!(bad_path.rule, ConfigRule::PathAbsolute);
    let config = Config::from_values(
        Some("us-west-2".to_string()),
        Some("dev".to_string()),
        Some("my-bucket".to_string()),
        None,
    )
    .unwrap();
    assert_eq!(config.region, "us-west-2");
    assert_eq!(config.profile, Some("dev".to_string()));
    assert_eq!(config.bucket, "my-bucket");
    assert_eq!(config.target_path, "");
}
