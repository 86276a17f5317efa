use vsix_harvester::extension::Extension;
use vsix_harvester::marketplace::build_download_url_and_file_path;
use vsix_harvester::marketplace::build_query_payload;
use vsix_harvester::marketplace::flags_for_request;
use vsix_harvester::marketplace::Flags;

#[test]
fn test_build_download_url_and_file_path() {
    let ext = Extension {
        publisher: "publisher",
        name: "name",
    };
    let version = "1.0.0";
    let destination = "./extensions";
    let (download_url, file_path) =
        build_download_url_and_file_path(ext, version, destination, None);
    assert_eq!(download_url, "https://marketplace.visualstudio.com/_apis/public/gallery/publishers/publisher/vsextensions/name/1.0.0/vspackage");
    assert_eq!(file_path, "./extensions/publisher.name-1.0.0.vsix");
}

#[test]
fn test_locate_with_platform_tag() {
    let ext = Extension {
        publisher: "ms-python",
        name: "python",
    };
    let (url, path) =
        build_download_url_and_file_path(ext, "2024.1.0", "./out", Some("linux-x64"));
    assert_eq!(url, "https://marketplace.visualstudio.com/_apis/public/gallery/publishers/ms-python/vsextensions/python/2024.1.0/vspackage?targetPlatform=linux-x64");
    assert_eq!(path, "./out/ms-python.python-2024.1.0@linux-x64.vsix");
}

#[test]
fn test_locate_is_deterministic() {
    let ext = Extension {
        publisher: "a",
        name: "b",
    };
    let first = build_download_url_and_file_path(ext, "1.2.3", "./d", Some("win32-x64"));
    let ext2 = Extension {
        publisher: "a",
        name: "b",
    };
    let second = build_download_url_and_file_path(ext2, "1.2.3", "./d", Some("win32-x64"));
    assert_eq!(first.0, second.0);
    assert_eq!(first.1, second.1);
}

#[test]
fn test_locate_platform_marker_iff_tag() {
    let ext = Extension {
        publisher: "pub",
        name: "ext",
    };
    let (url_with, path_with) =
        build_download_url_and_file_path(ext, "1.0.0", "./dest", Some("darwin-arm64"));
    assert!(path_with.contains('@'));
    assert!(url_with.contains("?targetPlatform=darwin-arm64"));
    let ext2 = Extension {
        publisher: "pub",
        name: "ext",
    };
    let (url_without, path_without) =
        build_download_url_and_file_path(ext2, "1.0.0", "./dest", None);
    assert!(!path_without.contains('@'));
    assert!(!url_without.contains('?'));
}

#[test]
fn test_standard_flags_bits() {
    assert_eq!(Flags::standard().bits(), 915);
    assert_eq!(Flags::standard().bits(), 0x393);
}

#[test]
fn test_all_versions_flags_bits() {
    assert_eq!(Flags::all_versions().bits(), 19);
}

#[test]
fn test_flags_for_request() {
    assert_eq!(flags_for_request(true).bits(), Flags::all_versions().bits());
    assert_eq!(flags_for_request(false).bits(), Flags::standard().bits());
}

#[test]
fn test_query_payload_exact() {
    let ext = Extension {
        publisher: "publisher",
        name: "name",
    };
    let payload = build_query_payload(ext, &Flags::standard());
    assert_eq!(
        payload,
        "{\"filters\":[{\"criteria\":[{\"filterType\":7,\"value\":\"publisher.name\"}]}],\"flags\":915}"
    );
}

#[test]
fn test_query_payload_escapes_quotes() {
    let ext = Extension {
        publisher: "a\"b\\c",
        name: "n",
    };
    let payload = build_query_payload(ext, &Flags::all_versions());
    assert_eq!(
        payload,
        "{\"filters\":[{\"criteria\":[{\"filterType\":7,\"value\":\"a\\\"b\\\\c.n\"}]}],\"flags\":19}"
    );
}
