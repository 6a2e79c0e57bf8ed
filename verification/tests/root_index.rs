use simple_index::RootIndex;

const CANONICAL_ROOT: &str = "<!DOCTYPE html>\n<html>\n    <body>\n    <a href=\"/simple/numpy/\">numpy</a><br/>\n    <a href=\"/simple/protobuf/\">protobuf</a><br/>\n    <a href=\"/simple/xgboost/\">xgboost</a>\n    </body>\n</html>";

#[test]
fn test_root_index_lifecycle() {
    let root_index = RootIndex::from_text(CANONICAL_ROOT);
    assert_eq!(
        root_index,
        RootIndex {
            packages: vec![
                "numpy".to_string(),
                "protobuf".to_string(),
                "xgboost".to_string(),
            ],
        },
    );
    assert_eq!(root_index.to_text(), CANONICAL_ROOT);
}

#[test]
fn root_round_trip_through_html() {
    let x = RootIndex {
        packages: vec!["alpha".to_string(), "Beta_2".to_string(), "alpha".to_string()],
    };
    let html = x.to_text();
    let back = RootIndex::from_text(&html);
    assert_eq!(back, x);
}

#[test]
fn root_order_is_document_order() {
    let html = "<html><body>\
        <a href=\"/simple/zebra/\">zebra</a>\
        <a href=\"/simple/apple/\">apple</a>\
        <a href=\"/simple/mango/\">mango</a>\
        </body></html>";
    let idx = RootIndex::from_text(html);
    assert_eq!(
        idx.packages,
        vec!["zebra".to_string(), "apple".to_string(), "mango".to_string()],
    );
}

#[test]
fn root_skips_anchor_without_text() {
    let html = "<html><body>\
        <a href=\"/simple/one/\">one</a>\
        <a href=\"/simple/empty/\"></a>\
        <a href=\"/simple/nested/\"><span>nested</span></a>\
        <a href=\"/simple/two/\">two</a>\
        </body></html>";
    let idx = RootIndex::from_text(html);
    assert_eq!(idx.packages, vec!["one".to_string(), "two".to_string()]);
}

#[test]
fn root_keeps_anchor_without_href() {
    let html = "<html><body><a>loose</a><a href=\"/simple/linked/\">linked</a></body></html>";
    let idx = RootIndex::from_text(html);
    assert_eq!(idx.packages, vec!["loose".to_string(), "linked".to_string()]);
}

#[test]
fn root_of_empty_document_is_empty() {
    let idx = RootIndex::from_text("<html><body><p>nothing here</p></body></html>");
    assert_eq!(idx.packages, Vec::<String>::new());
    assert_eq!(
        idx.to_text(),
        "<!DOCTYPE html>\n<html>\n    <body>\n    \n    </body>\n</html>",
    );
}

#[test]
fn root_tolerates_malformed_html() {
    let html = "<a href=\"/simple/a/\">a<a href=\"/simple/b/\">b";
    let idx = RootIndex::from_text(html);
    assert_eq!(idx.packages, vec!["a".to_string(), "b".to_string()]);
}

#[test]
fn root_single_package_has_no_separator() {
    let x = RootIndex { packages: vec!["only".to_string()] };
    assert_eq!(
        x.to_text(),
        "<!DOCTYPE html>\n<html>\n    <body>\n    <a href=\"/simple/only/\">only</a>\n    </body>\n</html>",
    );
}
