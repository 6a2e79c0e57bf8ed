use simple_index::{PackageIndex, Release};

fn xgboost_release(file: &str, sha: &str) -> Release {
    Release {
        name: file.to_string(),
        uri: format!("https://fakepythonhosted.org/xgboost/{file}#sha256={sha}"),
        has_gpg: false,
        requires_python: Some(">=3.6".to_string()),
    }
}

fn xgboost_anchor(file: &str, sha: &str) -> String {
    format!(
        "<a href=\"https://fakepythonhosted.org/xgboost/{file}#sha256={sha}\" data-requires-python=\"&gt;=3.6\">{file}</a>"
    )
}

const XGBOOST_FILES: [(&str, &str); 5] = [
    (
        "xgboost-1.5.2-py3-none-macosx_10_15_x86_64.macosx_11_0_x86_64.macosx_12_0_x86_64.whl",
        "51b5dfe553d78ab92f2c60ccead6abc38196c2961f6952f6ec14b1feba6ffd25",
    ),
    (
        "xgboost-1.5.2-py3-none-manylinux2014_aarch64.whl",
        "a449b0d0d8a15e72946c9d07e3d4ea153ac12570d054f6020cc5146cb4979261",
    ),
    (
        "xgboost-1.5.2-py3-none-manylinux2014_x86_64.whl",
        "46e43e06b1de260fe4c67e818720485559dab1bed1d97b82275220fab602a2ba",
    ),
    (
        "xgboost-1.5.2-py3-none-win_amd64.whl",
        "f9d459ad42da74c60136123ead36fa562086fb886f52fca229477d327d60dad0",
    ),
    (
        "xgboost-1.5.2.tar.gz",
        "404dc09dca887ef5a9bc0268f882c54b33bfc16ac365a859a11e7b24d49da387",
    ),
];

#[test]
fn test_package_index_lifecycle() {
    let anchors: Vec<String> = XGBOOST_FILES
        .iter()
        .map(|(file, sha)| xgboost_anchor(file, sha))
        .collect();
    let html = format!(
        "<!DOCTYPE html>\n<html>\n    <body>\n    {}\n    </body>\n</html>",
        anchors.join("<br/>\n    "),
    );
    let package_index = PackageIndex::from_text(&html);
    let expected: Vec<Release> = XGBOOST_FILES
        .iter()
        .map(|(file, sha)| xgboost_release(file, sha))
        .collect();
    assert_eq!(package_index, PackageIndex { releases: expected });
}

#[test]
fn package_round_trip_through_html() {
    let x = PackageIndex {
        releases: vec![
            Release {
                name: "pkg-1.0.tar.gz".to_string(),
                uri: "https://host/pkg-1.0.tar.gz#sha256=00ff".to_string(),
                has_gpg: false,
                requires_python: None,
            },
            Release {
                name: "pkg-1.0-py3-none-any.whl".to_string(),
                uri: "/downloads/pkg-1.0-py3-none-any.whl".to_string(),
                has_gpg: true,
                requires_python: None,
            },
            Release {
                name: "pkg-1.1.tar.gz".to_string(),
                uri: "/downloads/pkg-1.1.tar.gz".to_string(),
                has_gpg: false,
                requires_python: Some(">=3.6, <4".to_string()),
            },
            Release {
                name: "pkg-1.1-py3-none-any.whl".to_string(),
                uri: "/downloads/pkg-1.1-py3-none-any.whl".to_string(),
                has_gpg: true,
                requires_python: Some(">=3.6".to_string()),
            },
        ],
    };
    let html = x.to_text();
    let back = PackageIndex::from_text(&html);
    assert_eq!(back, x);
}

#[test]
fn package_order_is_document_order() {
    let html = "<html><body>\
        <a href=\"/c\">c</a>\
        <a href=\"/a\">a</a>\
        <a href=\"/b\">b</a>\
        </body></html>";
    let idx = PackageIndex::from_text(html);
    let names: Vec<&str> = idx.releases.iter().map(|r| r.name.as_str()).collect();
    assert_eq!(names, vec!["c", "a", "b"]);
}

#[test]
fn package_skips_anchor_without_text() {
    let html = "<html><body>\
        <a href=\"/kept\">kept</a>\
        <a href=\"/dropped\"></a>\
        <a href=\"/nested\"><b>bold</b></a>\
        </body></html>";
    let idx = PackageIndex::from_text(html);
    assert_eq!(idx.releases.len(), 1);
    assert_eq!(idx.releases[0].name, "kept");
    assert_eq!(idx.releases[0].uri, "/kept");
}

#[test]
fn package_skips_anchor_without_href() {
    let html = "<html><body>\
        <a>textual but unlinked</a>\
        <a href=\"/linked\">linked</a>\
        </body></html>";
    let idx = PackageIndex::from_text(html);
    assert_eq!(idx.releases.len(), 1);
    assert_eq!(idx.releases[0].name, "linked");
}

#[test]
fn gpg_flag_only_exact_lowercase_true() {
    let html = "<html><body>\
        <a href=\"/a\" data-gpg-sig=\"True\">a</a>\
        <a href=\"/b\" data-gpg-sig=\"1\">b</a>\
        <a href=\"/c\" data-gpg-sig=\"\">c</a>\
        <a href=\"/d\" data-gpg-sig=\"true\">d</a>\
        <a href=\"/e\">e</a>\
        </body></html>";
    let idx = PackageIndex::from_text(html);
    let flags: Vec<bool> = idx.releases.iter().map(|r| r.has_gpg).collect();
    assert_eq!(flags, vec![false, false, false, true, false]);
}

#[test]
fn requires_python_absent_versus_empty() {
    let html = "<html><body>\
        <a href=\"/a\">a</a>\
        <a href=\"/b\" data-requires-python=\"\">b</a>\
        <a href=\"/c\" data-requires-python=\"&gt;=3.8\">c</a>\
        </body></html>";
    let idx = PackageIndex::from_text(html);
    assert_eq!(idx.releases[0].requires_python, None);
    assert_eq!(idx.releases[1].requires_python, Some(String::new()));
    assert_eq!(idx.releases[2].requires_python, Some(">=3.8".to_string()));
}

#[test]
fn unrecognized_attributes_are_ignored() {
    let html = "<a href=\"/a\" rel=\"internal\" class=\"x\" data-yanked=\"y\">a</a>";
    let idx = PackageIndex::from_text(html);
    assert_eq!(
        idx.releases,
        vec![Release {
            name: "a".to_string(),
            uri: "/a".to_string(),
            has_gpg: false,
            requires_python: None,
        }],
    );
    assert_eq!(
        idx.releases[0].to_text(),
        "<a href=\"/a\">a</a>",
    );
}

#[test]
fn release_rendering_has_fixed_attribute_order() {
    let full = Release {
        name: "n".to_string(),
        uri: "/u".to_string(),
        has_gpg: true,
        requires_python: Some(">=3.7".to_string()),
    };
    assert_eq!(
        full.to_text(),
        "<a href=\"/u\" data-requires-python=\">=3.7\" data-gpg-sig=\"true\">n</a>",
    );
    let gpg_only = Release {
        name: "n".to_string(),
        uri: "/u".to_string(),
        has_gpg: true,
        requires_python: None,
    };
    assert_eq!(gpg_only.to_text(), "<a href=\"/u\" data-gpg-sig=\"true\">n</a>");
    let plain = Release {
        name: "n".to_string(),
        uri: "/u".to_string(),
        has_gpg: false,
        requires_python: None,
    };
    assert_eq!(plain.to_text(), "<a href=\"/u\">n</a>");
}

#[test]
fn checksum_fragment_is_kept_verbatim() {
    let html = "<a href=\"/pkg.whl#sha256=deadbeef\">pkg.whl</a>";
    let idx = PackageIndex::from_text(html);
    assert_eq!(idx.releases[0].uri, "/pkg.whl#sha256=deadbeef");
}

#[test]
fn package_of_empty_document_is_empty() {
    let idx = PackageIndex::from_text("<html><body></body></html>");
    assert_eq!(idx.releases, Vec::<Release>::new());
    assert_eq!(
        idx.to_text(),
        "<!DOCTYPE html>\n<html>\n    <body>\n    \n    </body>\n</html>",
    );
}
