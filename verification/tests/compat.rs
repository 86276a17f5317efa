use vsix_harvester::types::compare_versions;
use vsix_harvester::types::is_compatible;
use vsix_harvester::types::Extension;
use vsix_harvester::types::File;
use vsix_harvester::types::Property;
use vsix_harvester::types::Publisher;
use vsix_harvester::types::Version;

fn version_with(version: &str, engine_req: &str) -> Version {
    Version {
        version: version.to_string(),
        flags: "".to_string(),
        last_updated: "".to_string(),
        files: vec![],
        properties: Some(vec![Property {
            key: "Microsoft.VisualStudio.Code.Engine".to_string(),
            value: engine_req.to_string(),
        }]),
        asset_uri: "".to_string(),
        fallback_asset_uri: "".to_string(),
    }
}

fn extension_with(versions: Vec<Version>) -> Extension {
    Extension {
        publisher: Publisher {
            publisher_id: "test-id".to_string(),
            publisher_name: "test".to_string(),
            display_name: "Test".to_string(),
            flags: "".to_string(),
            domain: Some("".to_string()),
            is_domain_verified: false,
        },
        extension_id: "test-ext-id".to_string(),
        extension_name: "test-ext".to_string(),
        display_name: "Test Extension".to_string(),
        flags: "".to_string(),
        last_updated: "".to_string(),
        published_date: "".to_string(),
        release_date: "".to_string(),
        short_description: "".to_string(),
        versions,
        deployment_type: 0,
    }
}

#[test]
fn test_get_compatible_versions() {
    let mut extension = extension_with(vec![]);
    extension.versions.push(version_with("1.0.0", "^1.97.0"));
    extension.versions.push(version_with("2.0.0", "^1.98.0"));
    extension.versions.push(version_with("3.0.0", "^1.97.0"));

    let v197 = extension.get_compatible_versions("1.97.0");
    assert_eq!(v197.len(), 2);
    assert_eq!(v197[0].version, "1.0.0");
    assert_eq!(v197[1].version, "3.0.0");

    let v198 = extension.get_compatible_versions("1.98.0");
    assert_eq!(v198.len(), 1);
    assert_eq!(v198[0].version, "2.0.0");
}

#[test]
fn test_version_compatibility() {
    assert!(is_compatible("^1.97.0", "1.97.0"));
    assert!(is_compatible("^1.97.0", "1.97.5"));
    assert!(!is_compatible("^1.97.0", "2.0.0"));
    assert!(!is_compatible("^1.97.0", "1.96.0"));

    assert!(is_compatible(">=1.96.0", "1.96.0"));
    assert!(is_compatible(">=1.96.0", "1.97.0"));
    assert!(!is_compatible(">=1.97.0", "1.96.0"));

    assert!(is_compatible("1.97.0", "1.97.0"));
    assert!(!is_compatible("1.97.0", "1.97.1"));
}

#[test]
fn test_exact_form_is_literal() {
    // no numeric normalization in the exact form
    assert!(!is_compatible("1.97", "1.97.0"));
    assert!(is_compatible("1.97", "1.97"));
}

#[test]
fn test_requirement_with_spaces_is_trimmed() {
    assert!(is_compatible(">= 1.96.0", "1.97.0"));
    assert!(!is_compatible(">= 1.98.0 ", "1.97.0"));
}

#[test]
fn test_fallback_is_substring_check() {
    // a requirement in no known form matches when the engine contains it
    assert!(is_compatible("insiders", "1.97.0-insiders"));
    assert!(!is_compatible("insiders", "1.97.0"));
}

#[test]
fn test_compare_versions_orders_numerically() {
    assert_eq!(compare_versions("1.97.0", "1.96.0"), 1);
    assert_eq!(compare_versions("1.96.0", "1.97.0"), -1);
    assert_eq!(compare_versions("1.97.0", "1.97.0"), 0);
    // missing components count as zero
    assert_eq!(compare_versions("1.97", "1.97.0"), 0);
    assert_eq!(compare_versions("1.97.1", "1.97"), 1);
    // numeric, not lexicographic
    assert_eq!(compare_versions("1.10.0", "1.9.0"), 1);
    // non-numeric components count as zero
    assert_eq!(compare_versions("abc", "0"), 0);
    assert_eq!(compare_versions("1.beta", "1.0"), 0);
    // values past any machine word still compare exactly
    assert_eq!(
        compare_versions("100000000000000000000000", "99999999999999999999999"),
        1
    );
    // leading zeros do not matter
    assert_eq!(compare_versions("01.007.0", "1.7"), 0);
}

#[test]
fn test_get_vscode_engine_version() {
    let v = version_with("1.0.0", "^1.97.0");
    assert_eq!(v.get_vscode_engine_version(), Some("^1.97.0".to_string()));
    let bare = Version {
        properties: None,
        ..version_with("1.0.0", "")
    };
    assert_eq!(bare.get_vscode_engine_version(), None);
}

#[test]
fn test_get_vscode_prerelease() {
    let mut v = version_with("1.0.0", "^1.97.0");
    v.properties.as_mut().unwrap().push(Property {
        key: "Microsoft.VisualStudio.Code.PreRelease".to_string(),
        value: "true".to_string(),
    });
    assert_eq!(v.get_vscode_prerelease(), Some("true".to_string()));
    let plain = version_with("1.0.0", "^1.97.0");
    assert_eq!(plain.get_vscode_prerelease(), None);
}

#[test]
fn test_get_vsix_url() {
    let mut v = version_with("1.0.0", "^1.97.0");
    v.files.push(File {
        asset_type: "Microsoft.VisualStudio.Services.Content.Details".to_string(),
        source: "https://example.invalid/details".to_string(),
    });
    v.files.push(File {
        asset_type: "Microsoft.VisualStudio.Services.VSIXPackage".to_string(),
        source: "https://example.invalid/package".to_string(),
    });
    assert_eq!(
        v.get_vsix_url(),
        Some("https://example.invalid/package".to_string())
    );
}

#[test]
fn test_get_latest_vsix_url() {
    let mut first = version_with("2.0.0", "^1.97.0");
    first.files.push(File {
        asset_type: "Microsoft.VisualStudio.Services.VSIXPackage".to_string(),
        source: "https://example.invalid/newest".to_string(),
    });
    let ext = extension_with(vec![first, version_with("1.0.0", "^1.90.0")]);
    assert_eq!(
        ext.get_latest_vsix_url(),
        Some("https://example.invalid/newest".to_string())
    );
    let empty = extension_with(vec![]);
    assert_eq!(empty.get_latest_vsix_url(), None);
}

#[test]
fn test_get_identifier() {
    let ext = extension_with(vec![]);
    assert_eq!(ext.get_identifier(), "test.test-ext");
}

#[test]
fn test_get_non_prerelease_versions() {
    let mut stable = version_with("1.0.0", "^1.97.0");
    stable.properties.as_mut().unwrap().push(Property {
        key: "Microsoft.VisualStudio.Code.PreRelease".to_string(),
        value: "false".to_string(),
    });
    let mut pre = version_with("2.0.0", "^1.97.0");
    pre.properties.as_mut().unwrap().push(Property {
        key: "Microsoft.VisualStudio.Code.PreRelease".to_string(),
        value: "true".to_string(),
    });
    // a version with no pre-release marker counts as not pre-release
    let unmarked = version_with("3.0.0", "^1.97.0");
    let ext = extension_with(vec![stable, pre, unmarked]);
    let kept = ext.get_non_prerelease_versions();
    assert_eq!(kept.len(), 2);
    assert_eq!(kept[0].version, "1.0.0");
    assert_eq!(kept[1].version, "3.0.0");
}
