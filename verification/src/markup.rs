//! The multistatus document as text.
//!
//! The document begins with the XML declaration. Below the root every
//! element stands on a line of its own, two spaces deeper than the element
//! that holds it, except that a property is written on one line with all that
//! it holds. Text and attribute values are escaped; names are written as they
//! are.

use crate::catalog::{qualified_name, spec_qualified_name, Namespace};
use crate::multistatus::{
    spec_status_line, status_line, MultistatusResponse, MultistatusView, PropStat, PropStatView,
};
use crate::resolver::{
    PropResponse, PropValue, PropertyResolution, ResolutionView, ResponseView, ValueView,
};
use vstd::prelude::*;
use vstd::string::*;

verus! {

/// `String::push`: the text with `c` behind its last character.
#[verifier::external_body]
fn push_char(text: &mut String, c: char)
    ensures
        final(text)@ == old(text)@.push(c),
{
    text.push(c);
}

/// What is written for one character of a text or of an attribute value: a
/// reference for each of the five characters that markup is made of, and any
/// other character itself.
pub open spec fn escaped_char(c: char) -> Seq<char> {
    if c == '&' {
        "&amp;"@
    } else if c == '"' {
        "&quot;"@
    } else if c == '\'' {
        "&apos;"@
    } else if c == '<' {
        "&lt;"@
    } else if c == '>' {
        "&gt;"@
    } else {
        seq![c]
    }
}

/// A text as it is written: character by character.
pub open spec fn escaped(text: Seq<char>) -> Seq<char>
    decreases text.len(),
{
    if text.len() == 0 {
        Seq::empty()
    } else {
        escaped(text.drop_last()) + escaped_char(text.last())
    }
}

/// Whether `c` is one of the five characters that are written as a
/// reference.
pub open spec fn is_markup(c: char) -> bool {
    c == '&' || c == '"' || c == '\'' || c == '<' || c == '>'
}

/// Two texts one after the other are escaped each for itself.
pub proof fn lemma_escaped_concat(first: Seq<char>, second: Seq<char>)
    ensures
        escaped(first + second) == escaped(first) + escaped(second),
    decreases second.len(),
{
    if second.len() == 0 {
        assert(first + second =~= first);
        assert(escaped(first) + escaped(second) =~= escaped(first));
    } else {
        lemma_escaped_concat(first, second.drop_last());
        assert((first + second).drop_last() =~= first + second.drop_last());
        assert(escaped(first + second) =~= escaped(first) + escaped(second));
    }
}

/// A text without any of the five characters is written as it is.
pub proof fn lemma_escaped_plain(text: Seq<char>)
    requires
        forall|i: int| 0 <= i < text.len() ==> !is_markup(#[trigger] text[i]),
    ensures
        escaped(text) == text,
    decreases text.len(),
{
    if text.len() > 0 {
        lemma_escaped_plain(text.drop_last());
        assert(!is_markup(text[text.len() - 1]));
        assert(escaped(text) =~= text);
    }
}

/// Escapes a text.
pub fn escape(text: &str) -> (out: String)
    ensures
        out@ == escaped(text@),
{
    let mut out = String::new();
    let ghost all = text@;
    assert(all.take(0) =~= Seq::empty());
    for c in it: text.chars()
        invariant
            it.seq() == all,
            out@ == escaped(all.take(it.index() as int)),
    {
        let ghost k = it.index() as int;
        assert(all.take(k + 1).drop_last() =~= all.take(k));
        if c == '&' {
            out.append("&amp;");
        } else if c == '"' {
            out.append("&quot;");
        } else if c == '\'' {
            out.append("&apos;");
        } else if c == '<' {
            out.append("&lt;");
        } else if c == '>' {
            out.append("&gt;");
        } else {
            push_char(&mut out, c);
            assert(out@ =~= escaped(all.take(k)) + seq![c]);
        }
    }
    assert(all.take(all.len() as int) =~= all);
    out
}

/// The tag that opens an element.
pub open spec fn opening(tag: Seq<char>) -> Seq<char> {
    "<"@ + tag + ">"@
}

/// The tag that closes an element.
pub open spec fn closing(tag: Seq<char>) -> Seq<char> {
    "</"@ + tag + ">"@
}

/// Writes the tag that opens an element.
fn opening_tag(tag: &str) -> (markup: String)
    ensures
        markup@ == opening(tag@),
{
    "<".to_owned().concat(tag).concat(">")
}

/// Writes the tag that closes an element.
fn closing_tag(tag: &str) -> (markup: String)
    ensures
        markup@ == closing(tag@),
{
    "</".to_owned().concat(tag).concat(">")
}

/// An element with nothing in it.
pub open spec fn spec_elem(tag: Seq<char>) -> Seq<char> {
    "<"@ + tag + "/>"@
}

/// Writes an empty element.
fn elem(tag: &str) -> (markup: String)
    ensures
        markup@ == spec_elem(tag@),
{
    "<".to_owned().concat(tag).concat("/>")
}

/// One attribute inside a tag: a space, the name, and the escaped value
/// between double quotes.
pub open spec fn spec_attribute(name: Seq<char>, value: Seq<char>) -> Seq<char> {
    " "@ + name + "=\""@ + escaped(value) + "\""@
}

/// Adds an attribute to a tag that is being written.
fn add_xmlns(elem: &mut String, xmlns: &(&str, &str))
    ensures
        final(elem)@ == old(elem)@ + spec_attribute(xmlns.0@, xmlns.1@),
{
    let value = escape(xmlns.1);
    elem.append(" ");
    elem.append(xmlns.0);
    elem.append("=\"");
    elem.append(value.as_str());
    elem.append("\"");
    assert(elem@ =~= old(elem)@ + spec_attribute(xmlns.0@, xmlns.1@));
}

/// The attributes as pairs of texts.
pub open spec fn pairs_of(attributes: Seq<(&str, &str)>) -> Seq<(Seq<char>, Seq<char>)> {
    attributes.map_values(|attribute: (&str, &str)| (attribute.0@, attribute.1@))
}

/// The attributes of a tag, in their order.
pub open spec fn attributes_text(attributes: Seq<(Seq<char>, Seq<char>)>) -> Seq<char>
    decreases attributes.len(),
{
    if attributes.len() == 0 {
        Seq::empty()
    } else {
        attributes_text(attributes.drop_last()) + spec_attribute(
            attributes.last().0,
            attributes.last().1,
        )
    }
}

/// The opening tag of an element with attributes.
pub open spec fn spec_elem_with_attrs(
    tag: Seq<char>,
    attributes: Seq<(Seq<char>, Seq<char>)>,
) -> Seq<char> {
    "<"@ + tag + attributes_text(attributes) + ">"@
}

/// Writes the opening tag of an element with attributes.
fn elem_with_attrs(tag: &str, attributes: &[(&str, &str)]) -> (markup: String)
    ensures
        markup@ == spec_elem_with_attrs(tag@, pairs_of(attributes@)),
{
    let ghost pairs = pairs_of(attributes@);
    let mut elem = "<".to_owned().concat(tag);
    let mut i: usize = 0;
    assert(elem@ =~= "<"@ + tag@ + attributes_text(pairs.take(0)));
    while i < attributes.len()
        invariant
            i <= attributes.len(),
            pairs == pairs_of(attributes@),
            elem@ == "<"@ + tag@ + attributes_text(pairs.take(i as int)),
        decreases attributes.len() - i,
    {
        assert(pairs.take(i + 1).drop_last() =~= pairs.take(i as int));
        add_xmlns(&mut elem, &attributes[i]);
        assert(elem@ =~= "<"@ + tag@ + attributes_text(pairs.take(i + 1)));
        i += 1;
    }
    assert(pairs.take(i as int) =~= pairs);
    elem.append(">");
    elem
}

/// An element on one line: its tags with `children` between them.
pub open spec fn spec_elem_with_children(tag: Seq<char>, children: Seq<char>) -> Seq<char> {
    opening(tag) + children + closing(tag)
}

/// Writes an element around what it holds.
fn elem_with_children(tag: &str, children: &str) -> (markup: String)
    ensures
        markup@ == spec_elem_with_children(tag@, children@),
{
    let close = closing_tag(tag);
    opening_tag(tag).concat(children).concat(close.as_str())
}

/// An element that holds a text.
pub open spec fn spec_text_node(tag: Seq<char>, text: Seq<char>) -> Seq<char> {
    spec_elem_with_children(tag, escaped(text))
}

/// Writes an element with text.
fn text_node(tag: &str, text: &str) -> (markup: String)
    ensures
        markup@ == spec_text_node(tag@, text@),
{
    let text = escape(text);
    elem_with_children(tag, text.as_str())
}

/// Two spaces for each level below the root.
pub open spec fn indent(level: nat) -> Seq<char>
    decreases level,
{
    if level == 0 {
        Seq::empty()
    } else {
        indent((level - 1) as nat) + "  "@
    }
}

/// One line of the document: `markup` at its level, and a line break.
pub open spec fn line(level: nat, markup: Seq<char>) -> Seq<char> {
    indent(level) + markup + "\n"@
}

/// Writes one line.
fn push_line(out: &mut String, level: usize, markup: &str)
    ensures
        final(out)@ == old(out)@ + line(level as nat, markup@),
{
    let ghost start = out@;
    let mut i: usize = 0;
    assert(out@ =~= start + indent(0));
    while i < level
        invariant
            i <= level,
            out@ == start + indent(i as nat),
        decreases level - i,
    {
        out.append("  ");
        i += 1;
        assert(out@ =~= start + indent(i as nat));
    }
    out.append(markup);
    out.append("\n");
    assert(out@ =~= start + line(level as nat, markup@));
}

/// Texts one after the other.
pub open spec fn joined(parts: Seq<Seq<char>>) -> Seq<char>
    decreases parts.len(),
{
    if parts.len() == 0 {
        Seq::empty()
    } else {
        joined(parts.drop_last()) + parts.last()
    }
}

/// One part more is written behind the others.
pub proof fn lemma_joined_push(parts: Seq<Seq<char>>, last: Seq<char>)
    ensures
        joined(parts.push(last)) == joined(parts) + last,
{
    assert(parts.push(last).drop_last() =~= parts);
}

/// One property as the response reports it. A property that was found holds
/// its value: a text, or a path in an `href` element. A property without a
/// value, and one that was not found, is an empty element.
pub open spec fn prop_markup(response: ResponseView) -> Seq<char> {
    let tag = spec_qualified_name(response.name);
    match response.resolution {
        ResolutionView::Found(ValueView::Text(text)) => spec_text_node(tag, text),
        ResolutionView::Found(ValueView::Href(path)) => spec_elem_with_children(
            tag,
            spec_text_node("d:href"@, path),
        ),
        _ => spec_elem(tag),
    }
}

/// Writes the element of one property.
fn prop_element(response: &PropResponse) -> (markup: String)
    ensures
        markup@ == prop_markup(response@),
{
    let tag = qualified_name(response.name.as_str());
    match &response.resolution {
        PropertyResolution::Found(PropValue::Text(text)) => text_node(tag.as_str(), text.as_str()),
        PropertyResolution::Found(PropValue::Href(path)) => {
            let href = text_node("d:href", path.as_str());
            elem_with_children(tag.as_str(), href.as_str())
        },
        _ => elem(tag.as_str()),
    }
}

/// The line of one property.
pub open spec fn prop_line(response: ResponseView) -> Seq<char> {
    line(4, prop_markup(response))
}

/// One group: its properties in a `prop` element, each on its line, and its
/// status line.
pub open spec fn propstat_text(group: PropStatView) -> Seq<char> {
    line(2, opening("d:propstat"@)) + line(3, opening("d:prop"@)) + joined(
        group.props.map_values(|p: ResponseView| prop_line(p)),
    ) + line(3, closing("d:prop"@)) + line(
        3,
        spec_text_node("d:status"@, spec_status_line(group.found)),
    ) + line(2, closing("d:propstat"@))
}

/// Writes one group.
fn propstat_element(out: &mut String, group: &PropStat)
    ensures
        final(out)@ == old(out)@ + propstat_text(group@),
{
    let ghost start = out@;
    let ghost props = group@.props;
    let ghost head = line(2, opening("d:propstat"@)) + line(3, opening("d:prop"@));
    push_line(out, 2, opening_tag("d:propstat").as_str());
    push_line(out, 3, opening_tag("d:prop").as_str());
    let mut i: usize = 0;
    assert(out@ =~= start + head + joined(
        props.take(0).map_values(|p: ResponseView| prop_line(p)),
    ));
    while i < group.props.len()
        invariant
            i <= group.props.len(),
            props == group.props.deep_view(),
            out@ == start + head + joined(
                props.take(i as int).map_values(|p: ResponseView| prop_line(p)),
            ),
        decreases group.props.len() - i,
    {
        let ghost before = props.take(i as int).map_values(|p: ResponseView| prop_line(p));
        let markup = prop_element(&group.props[i]);
        push_line(out, 4, markup.as_str());
        proof {
            assert(props.take(i + 1).map_values(|p: ResponseView| prop_line(p)) =~= before.push(
                prop_line(props[i as int]),
            ));
            lemma_joined_push(before, prop_line(props[i as int]));
            assert(out@ =~= start + head + (joined(before) + prop_line(props[i as int])));
        }
        i += 1;
    }
    assert(props.take(i as int) =~= props);
    push_line(out, 3, closing_tag("d:prop").as_str());
    push_line(out, 3, text_node("d:status", status_line(group.found)).as_str());
    push_line(out, 2, closing_tag("d:propstat").as_str());
    assert(out@ =~= start + propstat_text(group@));
}

/// The answer of one resource: its path in an `href` element, then its
/// groups.
pub open spec fn response_text(response: MultistatusView) -> Seq<char> {
    line(1, opening("d:response"@)) + line(2, spec_text_node("d:href"@, response.href)) + joined(
        response.propstats.map_values(|group: PropStatView| propstat_text(group)),
    ) + line(1, closing("d:response"@))
}

/// Writes the answer of one resource.
fn response_element(out: &mut String, response: &MultistatusResponse)
    ensures
        final(out)@ == old(out)@ + response_text(response@),
{
    let ghost start = out@;
    let ghost groups = response@.propstats;
    let ghost head = line(1, opening("d:response"@)) + line(
        2,
        spec_text_node("d:href"@, response.href@),
    );
    push_line(out, 1, opening_tag("d:response").as_str());
    push_line(out, 2, text_node("d:href", response.href.as_str()).as_str());
    let mut i: usize = 0;
    assert(out@ =~= start + head + joined(
        groups.take(0).map_values(|group: PropStatView| propstat_text(group)),
    ));
    while i < response.propstats.len()
        invariant
            i <= response.propstats.len(),
            groups == response.propstats.deep_view(),
            out@ == start + head + joined(
                groups.take(i as int).map_values(|group: PropStatView| propstat_text(group)),
            ),
        decreases response.propstats.len() - i,
    {
        let ghost before = groups.take(i as int).map_values(
            |group: PropStatView| propstat_text(group),
        );
        propstat_element(out, &response.propstats[i]);
        proof {
            assert(groups.take(i + 1).map_values(|group: PropStatView| propstat_text(group))
                =~= before.push(propstat_text(groups[i as int])));
            lemma_joined_push(before, propstat_text(groups[i as int]));
            assert(out@ =~= start + head + (joined(before) + propstat_text(groups[i as int])));
        }
        i += 1;
    }
    assert(groups.take(i as int) =~= groups);
    push_line(out, 1, closing_tag("d:response").as_str());
    assert(out@ =~= start + response_text(response@));
}

/// The line that every document begins with.
pub open spec fn declaration_line() -> Seq<char> {
    "<?xml version=\"1.0\" encoding=\"UTF-8\"?>\n"@
}

/// The tag that opens the root: it binds the two namespace prefixes, once
/// for the whole document.
pub open spec fn root_tag() -> Seq<char> {
    spec_elem_with_attrs(
        "d:multistatus"@,
        seq![Namespace::Dav.spec_declaration(), Namespace::CardDav.spec_declaration()],
    )
}

/// The whole document: the declaration, then the root with the answers of
/// the resources in their order.
pub open spec fn document_text(responses: Seq<MultistatusView>) -> Seq<char> {
    declaration_line() + line(0, root_tag()) + joined(
        responses.map_values(|response: MultistatusView| response_text(response)),
    ) + line(0, closing("d:multistatus"@))
}

/// Every response is as the assembler makes it.
pub open spec fn all_well_formed(responses: Seq<MultistatusView>) -> bool {
    forall|i: int| 0 <= i < responses.len() ==> (#[trigger] responses[i]).well_formed()
}

/// Writes the multistatus document that reports `responses`. The responses
/// are those of the assembler: a group without a property has no place in a
/// document.
pub fn write_multistatus(responses: &Vec<MultistatusResponse>) -> (text: String)
    requires
        all_well_formed(responses.deep_view()),
    ensures
        text@ == document_text(responses.deep_view()),
{
    let ghost all = responses.deep_view();
    let attributes = [Namespace::Dav.declaration(), Namespace::CardDav.declaration()];
    let root = elem_with_attrs("d:multistatus", &attributes);
    assert(pairs_of(attributes@) =~= seq![
        Namespace::Dav.spec_declaration(),
        Namespace::CardDav.spec_declaration(),
    ]);
    let mut out = "<?xml version=\"1.0\" encoding=\"UTF-8\"?>\n".to_owned();
    push_line(&mut out, 0, root.as_str());
    let ghost head = declaration_line() + line(0, root_tag());
    let mut i: usize = 0;
    assert(out@ =~= head + joined(
        all.take(0).map_values(|response: MultistatusView| response_text(response)),
    ));
    while i < responses.len()
        invariant
            i <= responses.len(),
            all == responses.deep_view(),
            out@ == head + joined(
                all.take(i as int).map_values(|response: MultistatusView| response_text(response)),
            ),
        decreases responses.len() - i,
    {
        let ghost before = all.take(i as int).map_values(
            |response: MultistatusView| response_text(response),
        );
        response_element(&mut out, &responses[i]);
        proof {
            assert(all.take(i + 1).map_values(|response: MultistatusView| response_text(response))
                =~= before.push(response_text(all[i as int])));
            lemma_joined_push(before, response_text(all[i as int]));
            assert(out@ =~= head + (joined(before) + response_text(all[i as int])));
        }
        i += 1;
    }
    assert(all.take(i as int) =~= all);
    push_line(&mut out, 0, closing_tag("d:multistatus").as_str());
    out
}

} // verus!
