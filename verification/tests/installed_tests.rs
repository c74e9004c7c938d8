use cdk_drive_updater::installed::{
    decode_msi_version, extract_version_from_name, format_fixed_file_version,
    installed_version_from_records, product_name_matches, select_highest_version,
    FixedFileVersion, InstalledProduct, ADAPTIVA_ADD_REMOVE_PATTERN, WEBSTART_ADD_REMOVE_PATTERN,
};

#[test]
fn decodes_msi_version_from_product_name() {
    //=-- Product name embeds the version after "V-"; should prefer that.
    let result = decode_msi_version(
        "CDK Drive 3rd Party Managed Assemblies 96.x V-104.21.517.125",
        0x68150000,
    );
    assert_eq!(result, "104.21.517.125");
}

#[test]
fn decodes_msi_version_from_dword_when_no_name_version() {
    //=-- 0x01020304 → major=1, minor=2, build=0x0304=772
    let result = decode_msi_version("CDK Drive WebStart", 0x01020304);
    assert_eq!(result, "1.2.772");
}

#[test]
fn ignores_bare_v_prefix_without_dots() {
    let result = decode_msi_version("Some Product V-5", 0x01020304);
    assert_eq!(result, "1.2.772");
}

#[test]
fn extract_version_from_name_finds_embedded_version() {
    assert_eq!(
        extract_version_from_name("CDK Software V-2.3.4.5"),
        Some("2.3.4.5".to_string())
    );
}

#[test]
fn extract_version_from_name_returns_none_when_absent() {
    assert_eq!(extract_version_from_name("CDK Drive WebStart"), None);
}

#[test]
fn format_fixed_file_version_expands_all_four_parts() {
    let version_info = FixedFileVersion {
        file_version_ms: (6 << 16) | 2,
        file_version_ls: (14 << 16) | 321,
    };

    assert_eq!(format_fixed_file_version(&version_info), "6.2.14.321");
}

#[test]
fn select_highest_version_returns_newest_match() {
    let matches = vec![
        InstalledProduct {
            product_name: "BlueZone 6.1".to_string(),
            version: "6.1.99.1".to_string(),
        },
        InstalledProduct {
            product_name: "BlueZone 6.2".to_string(),
            version: "6.2.1.15".to_string(),
        },
        InstalledProduct {
            product_name: "BlueZone 6.2 Hotfix".to_string(),
            version: "6.2.1.23".to_string(),
        },
    ];

    let selected = select_highest_version(matches).expect("highest version selected");
    assert_eq!(selected.product_name, "BlueZone 6.2 Hotfix");
    assert_eq!(selected.version, "6.2.1.23");
}

#[test]
fn product_name_match_ignores_spacing_and_punctuation() {
    assert!(product_name_matches(
        "CDK Drive WebStart",
        WEBSTART_ADD_REMOVE_PATTERN
    ));
    assert!(product_name_matches(
        "CDK Drive 3rd Party Managed Assemblies 96.x",
        "cdk drive 3rd party managed assemblies"
    ));
    assert!(!product_name_matches(
        "CDK Drive WebStart",
        ADAPTIVA_ADD_REMOVE_PATTERN
    ));
}

#[test]
fn extract_version_trims_trailing_dots_and_ignores_case() {
    assert_eq!(
        extract_version_from_name("Tool v-1.2.3.. build"),
        Some("1.2.3".to_string())
    );
}

#[test]
fn decode_msi_version_unpacks_top_byte_next_byte_low_word() {
    assert_eq!(decode_msi_version("No version here", 0xFFFF_FFFF), "255.255.65535");
    assert_eq!(decode_msi_version("No version here", 0), "0.0.0");
}

#[test]
fn select_highest_version_of_nothing_is_none() {
    assert!(select_highest_version(Vec::new()).is_none());
}

#[test]
fn select_highest_version_keeps_first_of_equal_versions() {
    let matches = vec![
        InstalledProduct { product_name: "first".to_string(), version: "2.0".to_string() },
        InstalledProduct { product_name: "second".to_string(), version: "2.0".to_string() },
        InstalledProduct { product_name: "older".to_string(), version: "1.9".to_string() },
    ];
    let selected = select_highest_version(matches).expect("a product");
    assert_eq!(selected.product_name, "first");
}

#[test]
fn installed_version_from_records_prefers_highest_across_sources() {
    let add_remove = vec![
        ("CDK Drive 3rd Party Managed Assemblies 96.x".to_string(), "104.21.517.125".to_string()),
        ("Unrelated".to_string(), "999.0".to_string()),
    ];
    let msi = vec![
        ("CDK Drive 3rd Party Managed Assemblies 96.x V-104.21.600.1".to_string(), 0x68150000u32),
    ];
    let found = installed_version_from_records(
        &add_remove,
        &msi,
        "CDK Drive 3rd Party Managed Assemblies",
    )
    .expect("a match");
    assert_eq!(found.version, "104.21.600.1");

    let none = installed_version_from_records(&add_remove, &Vec::new(), "Adaptiva");
    assert!(none.is_none());
}
