use vsix_harvester::error::VsixHarvesterError;
use vsix_harvester::marketplace::get_version_from_response;
use vsix_harvester::marketplace::resolve_version;
use vsix_harvester::types::Extension;
use vsix_harvester::types::MarketplaceResponse;
use vsix_harvester::types::Property;
use vsix_harvester::types::Publisher;
use vsix_harvester::types::ResultItem;
use vsix_harvester::types::Version;

fn candidate(version: &str, props: Vec<(&str, &str)>) -> Version {
    Version {
        version: version.to_string(),
        flags: "".to_string(),
        last_updated: "".to_string(),
        files: vec![],
        properties: Some(
            props
                .into_iter()
                .map(|(k, v)| Property {
                    key: k.to_string(),
                    value: v.to_string(),
                })
                .collect(),
        ),
        asset_uri: "".to_string(),
        fallback_asset_uri: "".to_string(),
    }
}

fn engine(req: &str) -> Vec<(&str, &str)> {
    vec![("Microsoft.VisualStudio.Code.Engine", req)]
}

#[test]
fn test_resolve_empty_list_has_no_versions() {
    let versions: Vec<Version> = vec![];
    match resolve_version(&versions, None, false) {
        Err(VsixHarvesterError::NoVersionsAvailable) => {}
        other => panic!("expected NoVersionsAvailable, got {:?}", other),
    }
}

#[test]
fn test_resolve_without_constraint_takes_first() {
    let versions = vec![
        candidate("3.0.0", engine("^1.99.0")),
        candidate("2.0.0", engine("^1.98.0")),
    ];
    assert_eq!(resolve_version(&versions, None, false).unwrap(), "3.0.0");
}

#[test]
fn test_resolve_with_constraint_takes_first_admissible() {
    let versions = vec![
        candidate("3.0.0", engine("^1.99.0")),
        candidate("2.0.0", engine("^1.97.0")),
        candidate("1.0.0", engine("^1.97.0")),
    ];
    assert_eq!(
        resolve_version(&versions, Some("1.97.3"), false).unwrap(),
        "2.0.0"
    );
}

#[test]
fn test_resolve_falls_back_to_first_when_none_admissible() {
    let versions = vec![
        candidate("3.0.0", engine("^1.99.0")),
        candidate("2.0.0", engine("^1.98.0")),
    ];
    assert_eq!(
        resolve_version(&versions, Some("1.90.0"), false).unwrap(),
        "3.0.0"
    );
}

#[test]
fn test_resolve_excludes_prerelease_unless_allowed() {
    let mut pre = engine("^1.97.0");
    pre.push(("Microsoft.VisualStudio.Code.PreRelease", "true"));
    let versions = vec![
        candidate("2.0.0-pre", pre),
        candidate("1.0.0", engine("^1.97.0")),
    ];
    assert_eq!(
        resolve_version(&versions, Some("1.97.0"), false).unwrap(),
        "1.0.0"
    );
    assert_eq!(
        resolve_version(&versions, Some("1.97.0"), true).unwrap(),
        "2.0.0-pre"
    );
}

#[test]
fn test_resolve_missing_prerelease_property_is_kept() {
    let versions = vec![candidate("1.0.0", engine("^1.97.0"))];
    assert_eq!(
        resolve_version(&versions, Some("1.97.0"), false).unwrap(),
        "1.0.0"
    );
}

fn response_with(versions: Vec<Version>) -> MarketplaceResponse {
    MarketplaceResponse {
        results: vec![ResultItem {
            extensions: vec![Extension {
                publisher: Publisher {
                    publisher_id: "id".to_string(),
                    publisher_name: "pub".to_string(),
                    display_name: "Pub".to_string(),
                    flags: "".to_string(),
                    domain: None,
                    is_domain_verified: false,
                },
                extension_id: "eid".to_string(),
                extension_name: "ext".to_string(),
                display_name: "Ext".to_string(),
                flags: "".to_string(),
                last_updated: "".to_string(),
                published_date: "".to_string(),
                release_date: "".to_string(),
                short_description: "".to_string(),
                versions,
                deployment_type: 0,
            }],
            paging_token: None,
            result_metadata: vec![],
        }],
    }
}

#[test]
fn test_response_without_results_is_shape_error() {
    let resp = MarketplaceResponse { results: vec![] };
    match get_version_from_response(&resp, None, false) {
        Err(VsixHarvesterError::JsonError(_)) => {}
        other => panic!("expected JsonError, got {:?}", other),
    }
}

#[test]
fn test_response_with_empty_versions_has_none_available() {
    let resp = response_with(vec![]);
    match get_version_from_response(&resp, None, false) {
        Err(VsixHarvesterError::NoVersionsAvailable) => {}
        other => panic!("expected NoVersionsAvailable, got {:?}", other),
    }
}

#[test]
fn test_response_resolves_through_the_path() {
    let resp = response_with(vec![
        candidate("5.1.0", engine("^1.98.0")),
        candidate("5.0.0", engine("^1.97.0")),
    ]);
    assert_eq!(get_version_from_response(&resp, None, false).unwrap(), "5.1.0");
    assert_eq!(
        get_version_from_response(&resp, Some("1.97.2"), false).unwrap(),
        "5.0.0"
    );
}
