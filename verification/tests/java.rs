use shard::java::compare_mc_versions;
use shard::java::detect_architecture;
use shard::java::detect_vendor;
use shard::java::extract_version_string;
use shard::java::get_required_java_version;
use shard::java::is_java_compatible;
use shard::java::is_snapshot_version;
use shard::java::parse_java_version_output;
use shard::java::parse_major_version;

#[test]
fn test_parse_major_version() {
    assert_eq!(parse_major_version("17.0.2"), 17);
    assert_eq!(parse_major_version("21.0.1"), 21);
    assert_eq!(parse_major_version("1.8.0_321"), 8);
    assert_eq!(parse_major_version("1.8.0"), 8);
    assert_eq!(parse_major_version("11.0.12"), 11);
}

#[test]
fn test_get_required_java_version() {
    assert_eq!(get_required_java_version("1.20.6"), 21);
    assert_eq!(get_required_java_version("1.20.5"), 21);
    assert_eq!(get_required_java_version("1.20.4"), 17);
    assert_eq!(get_required_java_version("1.18"), 17);
    assert_eq!(get_required_java_version("1.17"), 16);
    assert_eq!(get_required_java_version("1.16.5"), 8);
    assert_eq!(get_required_java_version("1.12.2"), 8);
}

#[test]
fn test_is_java_compatible() {
    assert!(is_java_compatible(21, "1.20.6"));
    assert!(is_java_compatible(21, "1.18"));
    assert!(!is_java_compatible(17, "1.20.6"));
    assert!(is_java_compatible(17, "1.20.4"));
    assert!(is_java_compatible(17, "1.18"));
    assert!(!is_java_compatible(16, "1.18"));
    assert!(is_java_compatible(16, "1.17"));
    assert!(is_java_compatible(8, "1.16.5"));
}

#[test]
fn test_compare_mc_versions() {
    assert_eq!(compare_mc_versions("1.20.5", "1.20.5"), 0);
    assert_eq!(compare_mc_versions("1.20.6", "1.20.5"), 1);
    assert_eq!(compare_mc_versions("1.20.4", "1.20.5"), -1);
    assert_eq!(compare_mc_versions("1.21", "1.20.5"), 1);
    assert_eq!(compare_mc_versions("1.18", "1.17"), 1);
}

#[test]
fn test_detect_vendor() {
    assert_eq!(
        detect_vendor("OpenJDK Runtime Environment Temurin-17.0.2+8"),
        Some("Eclipse Temurin".to_string())
    );
    assert_eq!(
        detect_vendor("OpenJDK Runtime Environment Zulu17.32+13-CA"),
        Some("Azul Zulu".to_string())
    );
    assert_eq!(
        detect_vendor("OpenJDK Runtime Environment Corretto-17.0.2.8.1"),
        Some("Amazon Corretto".to_string())
    );
    assert_eq!(detect_vendor("openjdk version \"17.0.2\""), Some("OpenJDK".to_string()));
    assert_eq!(detect_vendor("Java(TM) SE Runtime Environment"), Some("Oracle".to_string()));
}

#[test]
fn test_detect_architecture() {
    assert_eq!(detect_architecture("OpenJDK 64-Bit Server VM (aarch64)"), Some("aarch64".to_string()));
    assert_eq!(detect_architecture("OpenJDK 64-Bit Server VM (build 17, amd64)"), Some("x86_64".to_string()));
    assert_eq!(detect_architecture("something i386"), Some("x86".to_string()));
    assert_eq!(detect_architecture("no arch named here"), None);
}

#[test]
fn test_is_snapshot_version() {
    assert!(is_snapshot_version("24w14a"));
    assert!(is_snapshot_version("23w51b"));
    assert!(!is_snapshot_version("1.20.5"));
    assert!(!is_snapshot_version("w1a"));
    assert!(!is_snapshot_version("24w14w"));
}

#[test]
fn test_snapshot_compares_newer() {
    assert_eq!(compare_mc_versions("24w14a", "1.21.4"), 1);
    assert_eq!(get_required_java_version("24w14a"), 21);
}

#[test]
fn test_extract_version_string() {
    assert_eq!(
        extract_version_string("openjdk version \"17.0.2\" 2022-01-18"),
        Some("17.0.2".to_string())
    );
    assert_eq!(extract_version_string("no quotes here"), None);
    assert_eq!(extract_version_string("only one \" quote"), None);
}

#[test]
fn test_parse_java_version_output() {
    let out = "openjdk version \"17.0.2\" 2022-01-18\nOpenJDK Runtime Environment Temurin-17.0.2+8 (build 17.0.2+8)\nOpenJDK 64-Bit Server VM Temurin-17.0.2+8 (build 17.0.2+8, mixed mode, sharing, aarch64)";
    let info = parse_java_version_output(out).expect("parses");
    assert_eq!(info.version, "17.0.2");
    assert_eq!(info.major, 17);
    assert_eq!(info.vendor, Some("Eclipse Temurin".to_string()));
    assert_eq!(info.arch, Some("aarch64".to_string()));
    assert!(parse_java_version_output("no version line").is_none());
}

#[test]
fn requirement_table_matches_the_mapping() {
    let table = shard::java::java_requirements();
    assert_eq!(table.len(), 4);
    for req in &table {
        assert_eq!(get_required_java_version(&req.mc_version_min), req.java_major);
    }
}
