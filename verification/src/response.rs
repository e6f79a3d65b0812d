//! From a request to the text of its response.

use crate::document::{requested_in_body, requested_properties};
use crate::markup::{
    all_well_formed, closing, declaration_line, document_text, joined, line, opening,
    propstat_text, root_tag, spec_text_node, write_multistatus,
};
use crate::multistatus::{
    assemble, assembled, lemma_nothing_asked, MultistatusView, PropStatView,
};
use crate::request::PropRequest;
use crate::resolver::{
    build_prop_responses, resolutions, ContextView, ResourceContext, ResourceKind,
};
use vstd::prelude::*;

verus! {

/// The response of the resource `ctx` to a request for `names`: the document
/// that holds the one assembled answer of that resource, as text.
pub open spec fn response_text(names: Seq<Seq<char>>, ctx: ContextView) -> Seq<char> {
    document_text(seq![assembled(ctx.path, resolutions(names, ctx))])
}

/// Answers a request for the resource `ctx`. The caller sends the text with
/// the status 207.
pub fn build_response(prop_request: &PropRequest, ctx: &ResourceContext) -> (text: String)
    ensures
        text@ == response_text(prop_request@, ctx@),
{
    let responses = build_prop_responses(prop_request, ctx);
    let response = assemble(ctx.path.clone(), &responses);
    let all = vec![response];
    assert(all.deep_view() =~= seq![assembled(ctx@.path, resolutions(prop_request@, ctx@))]);
    assert(all_well_formed(all.deep_view()));
    write_multistatus(&all)
}

/// The entry point of the service, as its one user sees it.
pub open spec fn spec_entry_point() -> ContextView {
    ContextView { kind: ResourceKind::Root, path: "/"@, identifier: "test@example.org"@ }
}

/// The resource that `build_carddav_response` answers for.
pub fn entry_point() -> (ctx: ResourceContext)
    ensures
        ctx@ == spec_entry_point(),
{
    ResourceContext {
        kind: ResourceKind::Root,
        path: "/".to_owned(),
        identifier: "test@example.org".to_owned(),
    }
}

/// Answers a request that is made at the entry point of the service.
pub fn build_carddav_response(prop_request: PropRequest) -> (text: String)
    ensures
        text@ == response_text(prop_request@, spec_entry_point()),
{
    let ctx = entry_point();
    build_response(&prop_request, &ctx)
}

/// A request without a body is no error, whatever resource it addresses: it
/// asks for nothing, and the response holds the path of the resource and no
/// group.
pub proof fn lemma_empty_body(ctx: ContextView)
    ensures
        requested_in_body(Seq::empty()) == Seq::<Seq<char>>::empty(),
        requested_properties(Seq::empty()) == Seq::<Seq<char>>::empty(),
        response_text(requested_in_body(Seq::empty()), ctx) == declaration_line() + line(
            0,
            root_tag(),
        ) + line(1, opening("d:response"@)) + line(2, spec_text_node("d:href"@, ctx.path)) + line(
            1,
            closing("d:response"@),
        ) + line(0, closing("d:multistatus"@)),
{
    assert(vstd::utf8::decode_utf8(Seq::empty()) =~= Seq::<char>::empty());
    lemma_nothing_asked(ctx.path, ctx);
    let response = assembled(ctx.path, resolutions(Seq::empty(), ctx));
    let none = response.propstats.map_values(|group: PropStatView| propstat_text(group));
    assert(joined(none) =~= Seq::<char>::empty());
    let one = seq![response].map_values(
        |response: MultistatusView| crate::markup::response_text(response),
    );
    assert(one.drop_last() =~= Seq::<Seq<char>>::empty());
    assert(joined(one.drop_last()) =~= Seq::<char>::empty());
    assert(joined(one) =~= crate::markup::response_text(response));
    assert(response_text(Seq::empty(), ctx) =~= declaration_line() + line(0, root_tag()) + line(
        1,
        opening("d:response"@),
    ) + line(2, spec_text_node("d:href"@, ctx.path)) + line(1, closing("d:response"@)) + line(
        0,
        closing("d:multistatus"@),
    ));
}

} // verus!
