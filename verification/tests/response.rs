use carddav_front::markup::{escape, write_multistatus};
use carddav_front::multistatus::assemble;
use carddav_front::resolver::{build_prop_responses, ResourceContext, ResourceKind};
use carddav_front::response::{build_response, entry_point};
use carddav_front::{build_carddav_response, parse_carddav_body, parse_carddav_request, PropRequest};

const DECLARATION: &str = "<?xml version=\"1.0\" encoding=\"UTF-8\"?>";
const ROOT: &str = "<d:multistatus xmlns:d=\"DAV:\" xmlns:card=\"urn:ietf:params:xml:ns:carddav\">";

fn request(names: &[&str]) -> PropRequest {
    PropRequest::new(names.iter().map(|name| name.to_string()).collect())
}

fn context(kind: ResourceKind, path: &str, identifier: &str) -> ResourceContext {
    ResourceContext { kind, path: path.to_string(), identifier: identifier.to_string() }
}

fn document(lines: &[&str]) -> String {
    let mut text = String::new();
    for line in lines {
        text.push_str(line);
        text.push('\n');
    }
    text
}

#[test]
fn test_build_carddav_response() {
    let expected = "<?xml version=\"1.0\" encoding=\"UTF-8\"?>\n\
<d:multistatus xmlns:d=\"DAV:\" xmlns:card=\"urn:ietf:params:xml:ns:carddav\">\n\
\x20 <d:response>\n\
\x20   <d:href>/</d:href>\n\
\x20   <d:propstat>\n\
\x20     <d:prop>\n\
\x20       <d:current-user-principal><d:href>/carddav/principals/users/test@example.org/</d:href></d:current-user-principal>\n\
\x20     </d:prop>\n\
\x20     <d:status>HTTP/1.1 200 OK</d:status>\n\
\x20   </d:propstat>\n\
\x20 </d:response>\n\
</d:multistatus>\n";

    let prop_request = PropRequest::new(vec!["current-user-principal".to_string()]);
    assert_eq!(expected, build_carddav_response(prop_request))
}

#[test]
fn one_found_and_one_unknown_property() {
    let expected = document(&[
        DECLARATION,
        ROOT,
        "  <d:response>",
        "    <d:href>/</d:href>",
        "    <d:propstat>",
        "      <d:prop>",
        "        <d:current-user-principal><d:href>/carddav/principals/users/test@example.org/</d:href></d:current-user-principal>",
        "      </d:prop>",
        "      <d:status>HTTP/1.1 200 OK</d:status>",
        "    </d:propstat>",
        "    <d:propstat>",
        "      <d:prop>",
        "        <d:unknown-prop/>",
        "      </d:prop>",
        "      <d:status>HTTP/1.1 404 Not Found</d:status>",
        "    </d:propstat>",
        "  </d:response>",
        "</d:multistatus>",
    ]);

    let prop_request = request(&["current-user-principal", "unknown-prop"]);
    let text = build_carddav_response(prop_request);
    assert_eq!(expected, text);
    assert_eq!(18, text.lines().count());
}

#[test]
fn found_properties_keep_the_order_of_the_request() {
    let expected = document(&[
        DECLARATION,
        ROOT,
        "  <d:response>",
        "    <d:href>/carddav/principals/users/rendered@example.org</d:href>",
        "    <d:propstat>",
        "      <d:prop>",
        "        <card:addressbook-home-set><d:href>/carddav/addressbooks/users/rendered@example.org/</d:href></card:addressbook-home-set>",
        "        <d:current-user-principal><d:href>/carddav/principals/users/rendered@example.org/</d:href></d:current-user-principal>",
        "      </d:prop>",
        "      <d:status>HTTP/1.1 200 OK</d:status>",
        "    </d:propstat>",
        "  </d:response>",
        "</d:multistatus>",
    ]);

    let ctx = context(
        ResourceKind::Principal,
        "/carddav/principals/users/rendered@example.org",
        "rendered@example.org",
    );
    let prop_request = request(&["addressbook-home-set", "current-user-principal"]);
    assert_eq!(expected, build_response(&prop_request, &ctx));

    let swapped = request(&["current-user-principal", "addressbook-home-set"]);
    let text = build_response(&swapped, &ctx);
    let principal = text.find("<d:current-user-principal>").unwrap();
    let home = text.find("<card:addressbook-home-set>").unwrap();
    assert!(principal < home);
}

#[test]
fn only_unsupported_names_give_one_group_under_404() {
    let expected = document(&[
        DECLARATION,
        ROOT,
        "  <d:response>",
        "    <d:href>/</d:href>",
        "    <d:propstat>",
        "      <d:prop>",
        "        <d:quota-used-bytes/>",
        "        <card:address-data/>",
        "      </d:prop>",
        "      <d:status>HTTP/1.1 404 Not Found</d:status>",
        "    </d:propstat>",
        "  </d:response>",
        "</d:multistatus>",
    ]);

    let text = build_carddav_response(request(&["quota-used-bytes", "address-data"]));
    assert_eq!(expected, text);
    assert_eq!(1, text.matches("<d:propstat>").count());
    assert!(!text.contains("HTTP/1.1 200 OK"));
}

#[test]
fn a_request_for_nothing_gets_no_group() {
    let expected = document(&[
        DECLARATION,
        ROOT,
        "  <d:response>",
        "    <d:href>/</d:href>",
        "  </d:response>",
        "</d:multistatus>",
    ]);

    assert_eq!(expected, build_carddav_response(PropRequest::empty()));
}

#[test]
fn values_are_written_by_their_shape() {
    let expected = document(&[
        DECLARATION,
        ROOT,
        "  <d:response>",
        "    <d:href>/carddav/addressbooks/users/user@example.org/contacts</d:href>",
        "    <d:propstat>",
        "      <d:prop>",
        "        <d:resourcetype/>",
        "        <d:displayname>user@example.org</d:displayname>",
        "        <d:getctag>0</d:getctag>",
        "        <card:supported-address-data/>",
        "      </d:prop>",
        "      <d:status>HTTP/1.1 200 OK</d:status>",
        "    </d:propstat>",
        "    <d:propstat>",
        "      <d:prop>",
        "        <d:getetag/>",
        "      </d:prop>",
        "      <d:status>HTTP/1.1 404 Not Found</d:status>",
        "    </d:propstat>",
        "  </d:response>",
        "</d:multistatus>",
    ]);

    let ctx = context(
        ResourceKind::Addressbook,
        "/carddav/addressbooks/users/user@example.org/contacts",
        "user@example.org",
    );
    let prop_request = request(&[
        "resourcetype",
        "displayname",
        "getetag",
        "getctag",
        "supported-address-data",
    ]);
    assert_eq!(expected, build_response(&prop_request, &ctx));
}

#[test]
fn escape_replaces_the_five_characters_of_markup() {
    assert_eq!("", escape(""));
    assert_eq!("plain text, 100%", escape("plain text, 100%"));
    assert_eq!("&amp;&quot;&apos;&lt;&gt;", escape("&\"'<>"));
    assert_eq!("a &lt; b &amp;&amp; c &gt; d", escape("a < b && c > d"));
    assert_eq!("&amp;amp;", escape("&amp;"));
    assert_eq!("gr\u{fc}n &amp; blau", escape("gr\u{fc}n & blau"));
}

#[test]
fn text_is_escaped_where_it_is_written() {
    let ctx = context(ResourceKind::Principal, "/a&b", "<me>");
    let text = build_response(&request(&["displayname", "current-user-principal"]), &ctx);
    assert!(text.contains("    <d:href>/a&amp;b</d:href>\n"));
    assert!(text.contains("        <d:displayname>&lt;me&gt;</d:displayname>\n"));
    assert!(text.contains("<d:href>/carddav/principals/users/&lt;me&gt;/</d:href>"));
}

#[test]
fn the_entry_point_is_the_root_of_the_one_user() {
    let ctx = entry_point();
    assert_eq!(context(ResourceKind::Root, "/", "test@example.org"), ctx);
    let prop_request = request(&["displayname", "getctag"]);
    assert_eq!(
        build_response(&prop_request, &ctx),
        build_carddav_response(request(&["displayname", "getctag"]))
    );
}

#[test]
fn an_empty_body_gets_a_response_without_a_group() {
    let resources = [
        (ResourceKind::Root, "/carddav"),
        (ResourceKind::Principal, "/carddav/principals/users/user@example.org"),
        (ResourceKind::AddressbookHome, "/carddav/addressbooks/users/user@example.org"),
        (ResourceKind::Addressbook, "/carddav/addressbooks/users/user@example.org/contacts"),
        (ResourceKind::Contact, "/carddav/addressbooks/users/user@example.org/contacts/1.vcf"),
    ];
    for (kind, path) in resources {
        let ctx = context(kind, path, "user@example.org");
        let href = format!("    <d:href>{}</d:href>", path);
        let expected = document(&[
            DECLARATION,
            ROOT,
            "  <d:response>",
            href.as_str(),
            "  </d:response>",
            "</d:multistatus>",
        ]);
        assert_eq!(expected, build_response(&parse_carddav_request(""), &ctx));
        assert_eq!(expected, build_response(&parse_carddav_body(b""), &ctx));
    }
}

#[test]
fn a_document_holds_the_responses_in_their_order() {
    let book = context(ResourceKind::Addressbook, "/books/1", "user@example.org");
    let contact = context(ResourceKind::Contact, "/books/1/2.vcf", "user@example.org");
    let prop_request = request(&["getctag", "getetag"]);
    let responses = vec![
        assemble(book.path.clone(), &build_prop_responses(&prop_request, &book)),
        assemble(contact.path.clone(), &build_prop_responses(&prop_request, &contact)),
    ];
    let expected = document(&[
        DECLARATION,
        ROOT,
        "  <d:response>",
        "    <d:href>/books/1</d:href>",
        "    <d:propstat>",
        "      <d:prop>",
        "        <d:getctag>0</d:getctag>",
        "      </d:prop>",
        "      <d:status>HTTP/1.1 200 OK</d:status>",
        "    </d:propstat>",
        "    <d:propstat>",
        "      <d:prop>",
        "        <d:getetag/>",
        "      </d:prop>",
        "      <d:status>HTTP/1.1 404 Not Found</d:status>",
        "    </d:propstat>",
        "  </d:response>",
        "  <d:response>",
        "    <d:href>/books/1/2.vcf</d:href>",
        "    <d:propstat>",
        "      <d:prop>",
        "        <d:getetag>0</d:getetag>",
        "      </d:prop>",
        "      <d:status>HTTP/1.1 200 OK</d:status>",
        "    </d:propstat>",
        "    <d:propstat>",
        "      <d:prop>",
        "        <d:getctag/>",
        "      </d:prop>",
        "      <d:status>HTTP/1.1 404 Not Found</d:status>",
        "    </d:propstat>",
        "  </d:response>",
        "</d:multistatus>",
    ]);
    assert_eq!(expected, write_multistatus(&responses));
    assert_eq!(
        document(&[DECLARATION, ROOT, "</d:multistatus>"]),
        write_multistatus(&Vec::new())
    );
}

#[test]
fn a_body_in_and_a_document_out() {
    let body = "<?xml version=\"1.0\" encoding=\"utf-8\"?>\
        <d:propfind xmlns:d=\"DAV:\" xmlns:card=\"urn:ietf:params:xml:ns:carddav\">\
        <d:prop><card:addressbook-home-set/><d:getetag/><card:addressbook-home-set/></d:prop>\
        </d:propfind>";
    let ctx = context(
        ResourceKind::Principal,
        "/carddav/principals/users/rendered@example.org",
        "rendered@example.org",
    );
    let text = build_response(&parse_carddav_body(body.as_bytes()), &ctx);
    let expected = document(&[
        DECLARATION,
        ROOT,
        "  <d:response>",
        "    <d:href>/carddav/principals/users/rendered@example.org</d:href>",
        "    <d:propstat>",
        "      <d:prop>",
        "        <card:addressbook-home-set><d:href>/carddav/addressbooks/users/rendered@example.org/</d:href></card:addressbook-home-set>",
        "      </d:prop>",
        "      <d:status>HTTP/1.1 200 OK</d:status>",
        "    </d:propstat>",
        "    <d:propstat>",
        "      <d:prop>",
        "        <d:getetag/>",
        "      </d:prop>",
        "      <d:status>HTTP/1.1 404 Not Found</d:status>",
        "    </d:propstat>",
        "  </d:response>",
        "</d:multistatus>",
    ]);
    assert_eq!(expected, text);
}
