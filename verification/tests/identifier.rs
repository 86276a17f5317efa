use vsix_harvester::error::VsixHarvesterError;
use vsix_harvester::extension::Extension;

#[test]
fn test_extension_from_id() {
    let ext = Extension::from_id("publisher.name").unwrap();
    assert_eq!(ext.publisher, "publisher");
    assert_eq!(ext.name, "name");
}

#[test]
fn test_invalid_extension_id() {
    let result = Extension::from_id("invalid");
    assert!(result.is_err());
}

#[test]
fn test_extension_to_id() {
    let ext = Extension {
        publisher: "publisher",
        name: "name",
    };
    assert_eq!(ext.to_id(), "publisher.name");
}

#[test]
fn test_from_id_rejects_empty_parts() {
    assert!(Extension::from_id("").is_err());
    assert!(Extension::from_id(".").is_err());
    assert!(Extension::from_id("a.").is_err());
    assert!(Extension::from_id(".b").is_err());
    assert!(Extension::from_id("a.b.c").is_err());
}

#[test]
fn test_from_id_error_carries_input() {
    match Extension::from_id("no-dot-here") {
        Err(VsixHarvesterError::InvalidExtensionId(s)) => assert_eq!(s, "no-dot-here"),
        _ => panic!("expected InvalidExtensionId"),
    }
}

#[test]
fn test_from_id_round_trip() {
    for id in ["a.b", "golang.Go", "ms-python.python", "rust-lang.rust-analyzer"] {
        let ext = Extension::from_id(id).unwrap();
        assert_eq!(ext.to_id(), id);
    }
}

#[test]
fn test_extension_to_string() {
    let ext = Extension {
        publisher: "pub",
        name: "ext",
    };
    assert_eq!(ext.to_string(), "Publisher: pub, Name: ext");
}
