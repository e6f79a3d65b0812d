use carddav_front::document::{request_from_nodes, XmlNode};
use carddav_front::{parse_carddav_body, parse_carddav_request, PropRequest};

fn names(request: &PropRequest) -> Vec<&str> {
    request.props().iter().map(|name| name.as_str()).collect()
}

fn node(parent: Option<usize>, element: bool, name: &str) -> XmlNode {
    XmlNode { parent, element, name: name.to_string() }
}

#[test]
fn test_parse_carddav_request() {
    let content = "<?xml version=\"1.0\" encoding=\"UTF-8\"?>\n\
        <A:propfind xmlns:A=\"DAV:\">\n\
        \x20 <A:prop>\n\
        \x20   <A:current-user-principal/>\n\
        \x20 </A:prop>\n\
        </A:propfind>\n";

    let request = parse_carddav_request(content);
    assert_eq!(["current-user-principal"], request.props().as_slice())
}

#[test]
fn an_empty_body_asks_for_nothing() {
    assert!(parse_carddav_request("").props().is_empty());
}

#[test]
fn a_malformed_body_asks_for_nothing() {
    assert!(parse_carddav_request("<propfind><prop><getetag/></prop>").props().is_empty());
    assert!(parse_carddav_request("not xml at all").props().is_empty());
    assert!(parse_carddav_request("<a:propfind><a:prop/></a:propfind>").props().is_empty());
}

#[test]
fn names_come_in_document_order() {
    let content = "<d:propfind xmlns:d=\"DAV:\" xmlns:card=\"urn:ietf:params:xml:ns:carddav\">\
        <d:prop><d:getetag/>text<!-- note --><card:address-data/><d:displayname/></d:prop>\
        </d:propfind>";
    assert_eq!(
        vec!["getetag", "address-data", "displayname"],
        names(&parse_carddav_request(content))
    );
}

#[test]
fn a_repeated_name_counts_where_it_stands_first() {
    let content = "<propfind xmlns=\"DAV:\"><prop>\
        <getetag/><displayname/><getetag/><resourcetype/><displayname/>\
        </prop></propfind>";
    assert_eq!(
        vec!["getetag", "displayname", "resourcetype"],
        names(&parse_carddav_request(content))
    );
}

#[test]
fn a_propfind_without_prop_asks_for_nothing() {
    let content = "<d:propfind xmlns:d=\"DAV:\"><d:allprop/></d:propfind>";
    assert!(parse_carddav_request(content).props().is_empty());
}

#[test]
fn only_a_prop_directly_below_the_root_counts() {
    let content = "<d:propfind xmlns:d=\"DAV:\"><d:wrap><d:prop><d:getetag/></d:prop></d:wrap>\
        </d:propfind>";
    assert!(parse_carddav_request(content).props().is_empty());
}

#[test]
fn the_first_prop_is_the_one_that_counts() {
    let content = "<d:propfind xmlns:d=\"DAV:\"><d:prop><d:getetag/></d:prop>\
        <d:prop><d:getctag/></d:prop></d:propfind>";
    assert_eq!(vec!["getetag"], names(&parse_carddav_request(content)));
}

#[test]
fn a_report_is_read_like_a_propfind() {
    let content = "<?xml version=\"1.0\" encoding=\"utf-8\" ?>\
        <card:addressbook-multiget xmlns:d=\"DAV:\" xmlns:card=\"urn:ietf:params:xml:ns:carddav\">\
        <d:prop><d:getetag/><card:address-data/></d:prop>\
        <d:href>/carddav/addressbooks/users/user@example.org/contacts/1.vcf</d:href>\
        </card:addressbook-multiget>";
    assert_eq!(vec!["getetag", "address-data"], names(&parse_carddav_request(content)));
}

#[test]
fn grandchildren_of_prop_are_not_requested() {
    let content = "<d:propfind xmlns:d=\"DAV:\"><d:prop><d:a><d:b/></d:a><d:c/></d:prop>\
        </d:propfind>";
    assert_eq!(vec!["a", "c"], names(&parse_carddav_request(content)));
}

#[test]
fn request_from_a_list_of_nodes() {
    let nodes = vec![
        node(None, false, ""),
        node(Some(0), false, ""),
        node(Some(0), true, "propfind"),
        node(Some(2), false, ""),
        node(Some(2), true, "prop"),
        node(Some(4), true, "getetag"),
        node(Some(5), true, "inner"),
        node(Some(4), false, "getctag"),
        node(Some(4), true, "displayname"),
        node(Some(4), true, "getetag"),
        node(Some(2), true, "prop"),
        node(Some(10), true, "resourcetype"),
    ];
    assert_eq!(vec!["getetag", "displayname"], names(&request_from_nodes(&nodes)));
}

#[test]
fn request_from_no_nodes() {
    assert!(request_from_nodes(&Vec::new()).props().is_empty());
    let nodes = vec![node(None, false, ""), node(Some(0), true, "prop")];
    assert!(request_from_nodes(&nodes).props().is_empty());
}

#[test]
fn new_keeps_first_occurrences() {
    let request = PropRequest::new(vec![
        "b".to_string(),
        "a".to_string(),
        "b".to_string(),
        "c".to_string(),
        "a".to_string(),
    ]);
    assert_eq!(vec!["b", "a", "c"], names(&request));
}

#[test]
fn extraction_is_idempotent() {
    let content = "<propfind xmlns=\"DAV:\"><prop>\
        <getetag/><displayname/><getetag/></prop></propfind>";
    let once = parse_carddav_request(content);
    let twice = PropRequest::new(once.props().clone());
    assert_eq!(once.props(), twice.props());
    assert_eq!(vec!["getetag", "displayname"], names(&twice));
}

#[test]
fn a_body_is_read_from_its_bytes() {
    let body = "<d:propfind xmlns:d=\"DAV:\"><d:prop><d:getetag/><d:displayname/></d:prop>\
        </d:propfind>";
    assert_eq!(vec!["getetag", "displayname"], names(&parse_carddav_body(body.as_bytes())));
    let umlaut = "<propfind><prop><gr\u{fc}n/><getetag/></prop></propfind>";
    assert_eq!(vec!["gr\u{fc}n", "getetag"], names(&parse_carddav_body(umlaut.as_bytes())));
}

#[test]
fn bytes_that_are_no_text_ask_for_nothing() {
    assert!(parse_carddav_body(&[]).props().is_empty());
    assert!(parse_carddav_body(&[0xff, 0xfe, 0x3c]).props().is_empty());
    let mut cut = "<propfind><prop><getetag/></prop></propfind>".as_bytes().to_vec();
    cut.insert(10, 0xc3);
    assert!(parse_carddav_body(&cut).props().is_empty());
}
