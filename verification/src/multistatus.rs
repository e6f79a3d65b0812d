//! Assembling the answers for one resource: the properties that were found
//! in one group, those that were not in another, each group under its status.

use crate::resolver::{resolution, resolutions, ContextView, PropResponse, ResponseView};
use crate::sequences::{
    lemma_filter_all, lemma_filter_images, lemma_filter_push, lemma_filter_split,
    lemma_same_items_distinct,
};
use vstd::prelude::*;

verus! {

/// The status line of the properties that were found, and of the others.
pub open spec fn spec_status_line(found: bool) -> Seq<char> {
    if found {
        "HTTP/1.1 200 OK"@
    } else {
        "HTTP/1.1 404 Not Found"@
    }
}

/// The status line under which a group is reported.
pub fn status_line(found: bool) -> (line: &'static str)
    ensures
        line@ == spec_status_line(found),
{
    if found {
        "HTTP/1.1 200 OK"
    } else {
        "HTTP/1.1 404 Not Found"
    }
}

/// The properties of one response that share an outcome.
#[derive(Debug, PartialEq, Eq)]
pub struct PropStat {
    /// Whether this is the group of the properties that were found.
    pub found: bool,
    pub props: Vec<PropResponse>,
}

/// A group as the contracts see it.
pub struct PropStatView {
    pub found: bool,
    pub props: Seq<ResponseView>,
}

impl View for PropStat {
    type V = PropStatView;

    open spec fn view(&self) -> PropStatView {
        PropStatView { found: self.found, props: self.props.deep_view() }
    }
}

impl DeepView for PropStat {
    type V = PropStatView;

    open spec fn deep_view(&self) -> PropStatView {
        self@
    }
}

impl PropStat {
    /// The status line of this group.
    pub fn status(&self) -> (line: &'static str)
        ensures
            line@ == spec_status_line(self.found),
    {
        status_line(self.found)
    }
}

/// What one resource answers to a request: its path, and the groups of its
/// answers.
#[derive(Debug, PartialEq, Eq)]
pub struct MultistatusResponse {
    pub href: String,
    pub propstats: Vec<PropStat>,
}

/// A response as the contracts see it.
pub struct MultistatusView {
    pub href: Seq<char>,
    pub propstats: Seq<PropStatView>,
}

impl View for MultistatusResponse {
    type V = MultistatusView;

    open spec fn view(&self) -> MultistatusView {
        MultistatusView { href: self.href@, propstats: self.propstats.deep_view() }
    }
}

impl MultistatusView {
    /// A response as the assembler makes it: at most one group for each
    /// outcome, the group of the found properties first, no group without a
    /// property, and no property in the group of the other outcome.
    pub open spec fn well_formed(self) -> bool {
        &&& self.propstats.len() <= 2
        &&& self.propstats.len() == 2 ==> self.propstats[0].found && !self.propstats[1].found
        &&& forall|g: int|
            0 <= g < self.propstats.len() ==> (#[trigger] self.propstats[g]).props.len() > 0
        &&& forall|g: int, p: int|
            #![trigger self.propstats[g].props[p]]
            0 <= g < self.propstats.len() && 0 <= p < self.propstats[g].props.len() ==> (
            self.propstats[g].props[p].resolution is Found) == self.propstats[g].found
    }
}

impl DeepView for MultistatusResponse {
    type V = MultistatusView;

    open spec fn deep_view(&self) -> MultistatusView {
        self@
    }
}

/// The answers with the outcome `found`, in their order.
pub open spec fn outcome_part(responses: Seq<ResponseView>, found: bool) -> Seq<ResponseView> {
    responses.filter(|response: ResponseView| (response.resolution is Found) == found)
}

/// The group for `props`: none where there is no property to report.
pub open spec fn spec_propstat_block(props: Seq<ResponseView>, found: bool) -> Option<
    PropStatView,
> {
    if props.len() == 0 {
        None
    } else {
        Some(PropStatView { found, props })
    }
}

/// The groups that are there.
pub open spec fn present(block: Option<PropStatView>) -> Seq<PropStatView> {
    match block {
        Some(group) => seq![group],
        None => Seq::empty(),
    }
}

/// The response for the resource at `href`: the group of the found
/// properties first, then the group of the others, each only if it has a
/// property in it.
pub open spec fn assembled(href: Seq<char>, responses: Seq<ResponseView>) -> MultistatusView {
    MultistatusView {
        href,
        propstats: present(spec_propstat_block(outcome_part(responses, true), true)) + present(
            spec_propstat_block(outcome_part(responses, false), false),
        ),
    }
}

/// Whatever the answers are, what is assembled from them is well-formed.
pub proof fn lemma_assembled_well_formed(href: Seq<char>, responses: Seq<ResponseView>)
    ensures
        assembled(href, responses).well_formed(),
{
    let found = outcome_part(responses, true);
    let other = outcome_part(responses, false);
    let groups = assembled(href, responses).propstats;
    assert forall|g: int, p: int|
        #![trigger groups[g].props[p]]
        0 <= g < groups.len() && 0 <= p < groups[g].props.len() implies (
    groups[g].props[p].resolution is Found) == groups[g].found by {
        if found.len() > 0 && g == 0 {
            responses.lemma_filter_pred(
                |response: ResponseView| (response.resolution is Found) == true,
                p,
            );
        } else {
            responses.lemma_filter_pred(
                |response: ResponseView| (response.resolution is Found) == false,
                p,
            );
        }
    }
}

/// Copies the answers with the outcome `found`.
fn part_of(responses: &Vec<PropResponse>, found: bool) -> (part: Vec<PropResponse>)
    ensures
        part.deep_view() == outcome_part(responses.deep_view(), found),
{
    let ghost all = responses.deep_view();
    let ghost wanted = |response: ResponseView| (response.resolution is Found) == found;
    let mut part: Vec<PropResponse> = Vec::new();
    let mut i: usize = 0;
    proof {
        reveal(Seq::filter);
        assert(all.take(0) =~= Seq::empty());
        assert(part.deep_view() =~= all.take(0).filter(wanted));
    }
    while i < responses.len()
        invariant
            i <= responses.len(),
            all == responses.deep_view(),
            wanted == |response: ResponseView| (response.resolution is Found) == found,
            part.deep_view() == all.take(i as int).filter(wanted),
        decreases responses.len() - i,
    {
        let ghost before = part.deep_view();
        proof {
            assert(all.take(i + 1) =~= all.take(i as int).push(all[i as int]));
            lemma_filter_push(all.take(i as int), wanted, all[i as int]);
        }
        if responses[i].found() == found {
            part.push(responses[i].clone());
            assert(part.deep_view() =~= before.push(all[i as int]));
        }
        i += 1;
    }
    assert(all.take(i as int) =~= all);
    part
}

/// Puts properties of one outcome under their status. Without a property
/// there is no group: an empty one is never reported.
pub fn build_propstat_block(props: Vec<PropResponse>, found: bool) -> (block: Option<PropStat>)
    ensures
        block.deep_view() == spec_propstat_block(props.deep_view(), found),
{
    if props.len() == 0 {
        None
    } else {
        Some(PropStat { found, props })
    }
}

/// Assembles the response of the resource at `href` from its answers.
pub fn assemble(href: String, responses: &Vec<PropResponse>) -> (response: MultistatusResponse)
    ensures
        response@ == assembled(href@, responses.deep_view()),
        response@.well_formed(),
{
    proof {
        lemma_assembled_well_formed(href@, responses.deep_view());
    }
    let found_propstats = build_propstat_block(part_of(responses, true), true);
    let not_found_propstats = build_propstat_block(part_of(responses, false), false);
    let mut propstats: Vec<PropStat> = Vec::new();
    assert(propstats.deep_view() =~= Seq::empty());
    if let Some(group) = found_propstats {
        let ghost before = propstats.deep_view();
        propstats.push(group);
        assert(propstats.deep_view() =~= before.push(group@));
    }
    if let Some(group) = not_found_propstats {
        let ghost before = propstats.deep_view();
        propstats.push(group);
        assert(propstats.deep_view() =~= before.push(group@));
    }
    assert(propstats.deep_view() =~= present(found_propstats.deep_view()) + present(
        not_found_propstats.deep_view(),
    ));
    MultistatusResponse { href, propstats }
}

/// The names of the properties that `responses` answer for.
pub open spec fn names_of(responses: Seq<ResponseView>) -> Seq<Seq<char>> {
    responses.map_values(|response: ResponseView| response.name)
}

/// The names that a response reports, group after group.
pub open spec fn reported_names(response: MultistatusView) -> Seq<Seq<char>> {
    response.propstats.map_values(|group: PropStatView| names_of(group.props)).flatten()
}

/// The names of a request whose answer on the resource `ctx` is `found`.
pub open spec fn names_with_outcome(names: Seq<Seq<char>>, ctx: ContextView, found: bool) -> Seq<
    Seq<char>,
> {
    names.filter(|name: Seq<char>| (resolution(name, ctx) is Found) == found)
}

/// Each part of the answers holds the names of the request with that
/// outcome, in the order of the request.
pub proof fn lemma_part_names(names: Seq<Seq<char>>, ctx: ContextView, found: bool)
    ensures
        names_of(outcome_part(resolutions(names, ctx), found)) == names_with_outcome(
            names,
            ctx,
            found,
        ),
        forall|i: int|
            0 <= i < outcome_part(resolutions(names, ctx), found).len() ==> {
                let response = #[trigger] outcome_part(resolutions(names, ctx), found)[i];
                &&& response.resolution == resolution(response.name, ctx)
                &&& (response.resolution is Found) == found
            },
{
    let image = |name: Seq<char>| ResponseView { name, resolution: resolution(name, ctx) };
    let wanted = |response: ResponseView| (response.resolution is Found) == found;
    let back = |response: ResponseView| response.name;
    let all = resolutions(names, ctx);
    let part = outcome_part(all, found);
    assert(all =~= names.map_values(image));
    lemma_filter_images(names, image, wanted, back);
    assert(names.filter(|name: Seq<char>| wanted(image(name))) =~= names_with_outcome(
        names,
        ctx,
        found,
    )) by {
        assert((|name: Seq<char>| wanted(image(name))) =~= (|name: Seq<char>|
            (resolution(name, ctx) is Found) == found));
    }
    assert(names_of(part) =~= part.map_values(back));
    assert forall|i: int| 0 <= i < part.len() implies {
        let response = #[trigger] part[i];
        &&& response.resolution == resolution(response.name, ctx)
        &&& (response.resolution is Found) == found
    } by {
        all.lemma_filter_pred(wanted, i);
        all.lemma_filter_contains_rev(wanted, part[i]);
        let j = choose|j: int| 0 <= j < all.len() && all[j] == part[i];
        assert(all[j] == image(names[j]));
    }
}

/// The groups of an assembled response report the two parts of the answers:
/// first the properties that were found, then the others.
pub proof fn lemma_reported_names(href: Seq<char>, responses: Seq<ResponseView>)
    ensures
        reported_names(assembled(href, responses)) == names_of(outcome_part(responses, true))
            + names_of(outcome_part(responses, false)),
{
    let found = outcome_part(responses, true);
    let other = outcome_part(responses, false);
    let first = present(spec_propstat_block(found, true));
    let second = present(spec_propstat_block(other, false));
    let names = |group: PropStatView| names_of(group.props);
    assert((first + second).map_values(names) =~= first.map_values(names) + second.map_values(
        names,
    ));
    vstd::seq_lib::lemma_flatten_concat(first.map_values(names), second.map_values(names));
    assert(first.map_values(names).flatten() =~= names_of(found)) by {
        reveal_with_fuel(Seq::flatten, 2);
        if found.len() > 0 {
            assert(first.map_values(names) =~= seq![names_of(found)]);
            assert(seq![names_of(found)].drop_first() =~= Seq::<Seq<Seq<char>>>::empty());
        }
    }
    assert(second.map_values(names).flatten() =~= names_of(other)) by {
        reveal_with_fuel(Seq::flatten, 2);
        if other.len() > 0 {
            assert(second.map_values(names) =~= seq![names_of(other)]);
            assert(seq![names_of(other)].drop_first() =~= Seq::<Seq<Seq<char>>>::empty());
        }
    }
}

/// Every name of a request is reported exactly once: the names in the two
/// groups together are the names of the request, none is left out, none is
/// added and none stands in both groups or twice in one. Each stands in the
/// group of its outcome, with the answer that the resource gives for it.
pub proof fn lemma_every_name_reported_once(
    href: Seq<char>,
    names: Seq<Seq<char>>,
    ctx: ContextView,
)
    requires
        names.no_duplicates(),
    ensures
        reported_names(assembled(href, resolutions(names, ctx))).to_multiset()
            == names.to_multiset(),
        reported_names(assembled(href, resolutions(names, ctx))).no_duplicates(),
        forall|g: int, p: int|
            #![trigger assembled(href, resolutions(names, ctx)).propstats[g].props[p]]
            {
                let groups = assembled(href, resolutions(names, ctx)).propstats;
                0 <= g < groups.len() && 0 <= p < groups[g].props.len() ==> {
                    &&& groups[g].props[p].resolution == resolution(groups[g].props[p].name, ctx)
                    &&& (groups[g].props[p].resolution is Found) == groups[g].found
                }
            },
{
    let answers = resolutions(names, ctx);
    let response = assembled(href, answers);
    lemma_reported_names(href, answers);
    lemma_part_names(names, ctx, true);
    lemma_part_names(names, ctx, false);
    let is_found = |name: Seq<char>| (resolution(name, ctx) is Found) == true;
    let is_not = |name: Seq<char>| (resolution(name, ctx) is Found) == false;
    lemma_filter_split(names, is_found, is_not);
    lemma_same_items_distinct(names, reported_names(response));
    let found = outcome_part(answers, true);
    let other = outcome_part(answers, false);
    assert forall|g: int, p: int|
        0 <= g < response.propstats.len() && 0 <= p < response.propstats[g].props.len() implies {
        &&& (#[trigger] response.propstats[g].props[p]).resolution == resolution(
            response.propstats[g].props[p].name,
            ctx,
        )
        &&& (response.propstats[g].props[p].resolution is Found) == response.propstats[g].found
    } by {
        let group = response.propstats[g];
        if found.len() > 0 && g == 0 {
            assert(group.props[p] == found[p]);
        } else {
            assert(group.props[p] == other[p]);
        }
    }
}

/// Where the resource has every property of a request, the response holds
/// one group, under the status 200, and the properties stand in it in the
/// order of the request.
pub proof fn lemma_all_found(href: Seq<char>, names: Seq<Seq<char>>, ctx: ContextView)
    requires
        names.len() > 0,
        forall|i: int| 0 <= i < names.len() ==> resolution(#[trigger] names[i], ctx) is Found,
    ensures
        assembled(href, resolutions(names, ctx)).propstats == seq![
            PropStatView { found: true, props: resolutions(names, ctx) },
        ],
        names_of(resolutions(names, ctx)) == names,
{
    let answers = resolutions(names, ctx);
    lemma_filter_all(answers, |response: ResponseView| (response.resolution is Found) == true);
    lemma_filter_all(answers, |response: ResponseView| (response.resolution is Found) == false);
    assert(assembled(href, answers).propstats =~= seq![
        PropStatView { found: true, props: answers },
    ]);
    assert(names_of(answers) =~= names);
}

/// Two properties that the resource has are reported in the order in which
/// the request names them.
pub proof fn lemma_found_in_request_order(
    href: Seq<char>,
    first: Seq<char>,
    second: Seq<char>,
    ctx: ContextView,
)
    requires
        resolution(first, ctx) is Found,
        resolution(second, ctx) is Found,
    ensures
        assembled(href, resolutions(seq![first, second], ctx)).propstats.len() == 1,
        assembled(href, resolutions(seq![first, second], ctx)).propstats[0].found,
        names_of(assembled(href, resolutions(seq![first, second], ctx)).propstats[0].props)
            == seq![first, second],
{
    lemma_all_found(href, seq![first, second], ctx);
}

/// Where the resource has none of the properties of a request, the response
/// holds one group, under the status 404, and no group under 200.
pub proof fn lemma_none_found(href: Seq<char>, names: Seq<Seq<char>>, ctx: ContextView)
    requires
        names.len() > 0,
        forall|i: int| 0 <= i < names.len() ==> resolution(#[trigger] names[i], ctx) is NotFound,
    ensures
        assembled(href, resolutions(names, ctx)).propstats == seq![
            PropStatView { found: false, props: resolutions(names, ctx) },
        ],
{
    let answers = resolutions(names, ctx);
    lemma_filter_all(answers, |response: ResponseView| (response.resolution is Found) == true);
    lemma_filter_all(answers, |response: ResponseView| (response.resolution is Found) == false);
    assert(assembled(href, answers).propstats =~= seq![
        PropStatView { found: false, props: answers },
    ]);
}

/// A request that asks for nothing gets a response without a group.
pub proof fn lemma_nothing_asked(href: Seq<char>, ctx: ContextView)
    ensures
        assembled(href, resolutions(Seq::empty(), ctx)).propstats == Seq::<PropStatView>::empty(),
{
    reveal(Seq::filter);
    let answers = resolutions(Seq::empty(), ctx);
    assert(answers =~= Seq::empty());
    assert(assembled(href, answers).propstats =~= Seq::<PropStatView>::empty());
}

} // verus!
