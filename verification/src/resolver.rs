//! Resolving a requested property for a resource: to its value, or to the
//! finding that the resource does not have it.

use crate::catalog::{Property, Render, Scope, Source, Target};
use crate::request::PropRequest;
use vstd::prelude::*;
use vstd::string::*;

verus! {

/// The kinds of resource that the server has.
#[derive(Clone, Copy, Debug, PartialEq, Eq, Structural)]
pub enum ResourceKind {
    /// The entry point of the service.
    Root,
    /// A user's principal.
    Principal,
    /// The collection of a user's address books.
    AddressbookHome,
    /// One address book: a collection of contacts.
    Addressbook,
    /// One contact.
    Contact,
}

impl ResourceKind {
    pub open spec fn spec_within(self, scope: Scope) -> bool {
        match scope {
            Scope::Any => true,
            Scope::Principal => self == ResourceKind::Principal,
            Scope::Collection => self == ResourceKind::AddressbookHome || self
                == ResourceKind::Addressbook,
            Scope::Contact => self == ResourceKind::Contact,
        }
    }

    /// Whether a resource of this kind has the properties of `scope`.
    #[verifier::when_used_as_spec(spec_within)]
    pub fn within(self, scope: Scope) -> (within: bool)
        ensures
            within == self.spec_within(scope),
    {
        match scope {
            Scope::Any => true,
            Scope::Principal => matches!(self, ResourceKind::Principal),
            Scope::Collection => matches!(
                self,
                ResourceKind::AddressbookHome | ResourceKind::Addressbook
            ),
            Scope::Contact => matches!(self, ResourceKind::Contact),
        }
    }
}

/// The resource that a request addresses.
#[derive(Debug, PartialEq, Eq)]
pub struct ResourceContext {
    pub kind: ResourceKind,
    /// The path of the resource, as the response reports it.
    pub path: String,
    /// The user that the resource belongs to.
    pub identifier: String,
}

/// A resource as the contracts see it.
pub struct ContextView {
    pub kind: ResourceKind,
    pub path: Seq<char>,
    pub identifier: Seq<char>,
}

impl View for ResourceContext {
    type V = ContextView;

    open spec fn view(&self) -> ContextView {
        ContextView { kind: self.kind, path: self.path@, identifier: self.identifier@ }
    }
}

/// `/carddav/principals/users/`, the identifier, `/`.
pub open spec fn spec_principal_path(identifier: Seq<char>) -> Seq<char> {
    "/carddav/principals/users/"@ + identifier + "/"@
}

/// The path of a user's principal.
pub fn principal_path(identifier: &str) -> (path: String)
    ensures
        path@ == spec_principal_path(identifier@),
{
    "/carddav/principals/users/".to_owned().concat(identifier).concat("/")
}

/// `/carddav/addressbooks/users/`, the identifier, `/`.
pub open spec fn spec_addressbook_home_path(identifier: Seq<char>) -> Seq<char> {
    "/carddav/addressbooks/users/"@ + identifier + "/"@
}

/// The path of the collection of a user's address books.
pub fn addressbook_home_path(identifier: &str) -> (path: String)
    ensures
        path@ == spec_addressbook_home_path(identifier@),
{
    "/carddav/addressbooks/users/".to_owned().concat(identifier).concat("/")
}

/// The value of a property that was found.
#[derive(Debug, PartialEq, Eq)]
pub enum PropValue {
    /// Nothing beyond the property's name.
    Empty,
    /// A text.
    Text(String),
    /// The path of another resource.
    Href(String),
}

/// A value as the contracts see it.
pub enum ValueView {
    Empty,
    Text(Seq<char>),
    Href(Seq<char>),
}

impl View for PropValue {
    type V = ValueView;

    open spec fn view(&self) -> ValueView {
        match self {
            PropValue::Empty => ValueView::Empty,
            PropValue::Text(text) => ValueView::Text(text@),
            PropValue::Href(path) => ValueView::Href(path@),
        }
    }
}

impl Clone for PropValue {
    fn clone(&self) -> (copy: PropValue)
        ensures
            copy == *self,
    {
        match self {
            PropValue::Empty => PropValue::Empty,
            PropValue::Text(text) => PropValue::Text(text.clone()),
            PropValue::Href(path) => PropValue::Href(path.clone()),
        }
    }
}

/// What a resource answers when it is asked for one property.
#[derive(Debug, PartialEq, Eq)]
pub enum PropertyResolution {
    Found(PropValue),
    NotFound,
}

/// An answer as the contracts see it.
pub enum ResolutionView {
    Found(ValueView),
    NotFound,
}

impl View for PropertyResolution {
    type V = ResolutionView;

    open spec fn view(&self) -> ResolutionView {
        match self {
            PropertyResolution::Found(value) => ResolutionView::Found(value@),
            PropertyResolution::NotFound => ResolutionView::NotFound,
        }
    }
}

impl Clone for PropertyResolution {
    fn clone(&self) -> (copy: PropertyResolution)
        ensures
            copy == *self,
    {
        match self {
            PropertyResolution::Found(value) => PropertyResolution::Found(value.clone()),
            PropertyResolution::NotFound => PropertyResolution::NotFound,
        }
    }
}

/// The text that comes from `source` for the resource `ctx`.
pub open spec fn spec_text_of(source: Source, ctx: ContextView) -> Seq<char> {
    match source {
        Source::Identifier => ctx.identifier,
        Source::SyncTag => "0"@,
        Source::ContentType => "text/vcard; charset=utf-8"@,
        Source::Card => "BEGIN:VCARD\nVERSION:3.0\nFN:"@ + ctx.identifier + "\nEND:VCARD\n"@,
    }
}

/// Makes the text of a property whose value is a text.
fn text_of(source: Source, ctx: &ResourceContext) -> (text: String)
    ensures
        text@ == spec_text_of(source, ctx@),
{
    match source {
        Source::Identifier => ctx.identifier.clone(),
        Source::SyncTag => "0".to_owned(),
        Source::ContentType => "text/vcard; charset=utf-8".to_owned(),
        Source::Card => "BEGIN:VCARD\nVERSION:3.0\nFN:".to_owned().concat(
            ctx.identifier.as_str(),
        ).concat("\nEND:VCARD\n"),
    }
}

/// The path of `target` for the user of the resource `ctx`.
pub open spec fn spec_path_of(target: Target, ctx: ContextView) -> Seq<char> {
    match target {
        Target::Principal => spec_principal_path(ctx.identifier),
        Target::AddressbookHome => spec_addressbook_home_path(ctx.identifier),
    }
}

/// Makes the path that a property points to.
fn path_of(target: Target, ctx: &ResourceContext) -> (path: String)
    ensures
        path@ == spec_path_of(target, ctx@),
{
    match target {
        Target::Principal => principal_path(ctx.identifier.as_str()),
        Target::AddressbookHome => addressbook_home_path(ctx.identifier.as_str()),
    }
}

/// The value that the catalog's `render` makes for the resource `ctx`.
pub open spec fn spec_value_of(render: Render, ctx: ContextView) -> ValueView {
    match render {
        Render::SelfClosing => ValueView::Empty,
        Render::Value(source) => ValueView::Text(spec_text_of(source, ctx)),
        Render::Href(target) => ValueView::Href(spec_path_of(target, ctx)),
    }
}

/// Makes the value of a property.
fn value_of(render: Render, ctx: &ResourceContext) -> (value: PropValue)
    ensures
        value@ == spec_value_of(render, ctx@),
{
    match render {
        Render::SelfClosing => PropValue::Empty,
        Render::Value(source) => PropValue::Text(text_of(source, ctx)),
        Render::Href(target) => PropValue::Href(path_of(target, ctx)),
    }
}

/// What the resource `ctx` answers when it is asked for `name`: the value of
/// the property, if the catalog has one of that name and a resource of this
/// kind has it; otherwise that it is not found.
pub open spec fn resolution(name: Seq<char>, ctx: ContextView) -> ResolutionView {
    match Property::spec_lookup(name) {
        Some(property) => if ctx.kind.spec_within(property.spec_entry().scope) {
            ResolutionView::Found(spec_value_of(property.spec_entry().render, ctx))
        } else {
            ResolutionView::NotFound
        },
        None => ResolutionView::NotFound,
    }
}

/// Resolves one requested property for one resource.
pub fn resolve(name: &str, ctx: &ResourceContext) -> (found: PropertyResolution)
    ensures
        found@ == resolution(name@, ctx@),
{
    match Property::lookup(name) {
        Some(property) => {
            let entry = property.entry();
            if ctx.kind.within(entry.scope) {
                PropertyResolution::Found(value_of(entry.render, ctx))
            } else {
                PropertyResolution::NotFound
            }
        },
        None => PropertyResolution::NotFound,
    }
}

/// A name that the catalog does not have is not found, whatever the
/// resource.
pub proof fn lemma_unknown_not_found(name: Seq<char>, ctx: ContextView)
    requires
        forall|property: Property| property.spec_name() != name,
    ensures
        resolution(name, ctx) is NotFound,
{
    crate::catalog::lemma_lookup(name, Property::ResourceType);
}

/// One requested property with what the resource answered.
#[derive(Debug, PartialEq, Eq)]
pub struct PropResponse {
    /// The local name, as the request gave it.
    pub name: String,
    pub resolution: PropertyResolution,
}

/// A property and its answer as the contracts see them.
pub struct ResponseView {
    pub name: Seq<char>,
    pub resolution: ResolutionView,
}

impl View for PropResponse {
    type V = ResponseView;

    open spec fn view(&self) -> ResponseView {
        ResponseView { name: self.name@, resolution: self.resolution@ }
    }
}

impl DeepView for PropResponse {
    type V = ResponseView;

    open spec fn deep_view(&self) -> ResponseView {
        self@
    }
}

impl Clone for PropResponse {
    fn clone(&self) -> (copy: PropResponse)
        ensures
            copy == *self,
    {
        PropResponse { name: self.name.clone(), resolution: self.resolution.clone() }
    }
}

impl PropResponse {
    pub open spec fn spec_found(&self) -> bool {
        self.resolution is Found
    }

    /// Whether the resource has the property.
    #[verifier::when_used_as_spec(spec_found)]
    pub fn found(&self) -> (found: bool)
        ensures
            found == self.spec_found(),
    {
        matches!(self.resolution, PropertyResolution::Found(_))
    }
}

/// The answers of the resource `ctx` to the names of a request, in their
/// order.
pub open spec fn resolutions(names: Seq<Seq<char>>, ctx: ContextView) -> Seq<ResponseView> {
    names.map_values(|name: Seq<char>| ResponseView { name, resolution: resolution(name, ctx) })
}

/// Resolves every property of a request for one resource.
pub fn build_prop_responses(prop_request: &PropRequest, ctx: &ResourceContext) -> (responses: Vec<
    PropResponse,
>)
    ensures
        responses.deep_view() == resolutions(prop_request@, ctx@),
{
    let names = prop_request.props();
    let mut responses: Vec<PropResponse> = Vec::new();
    let mut i: usize = 0;
    while i < names.len()
        invariant
            i <= names.len(),
            names.deep_view() == prop_request@,
            responses.deep_view() == resolutions(prop_request@.take(i as int), ctx@),
        decreases names.len() - i,
    {
        let ghost before = responses.deep_view();
        let name = &names[i];
        let answer = resolve(name.as_str(), ctx);
        responses.push(PropResponse { name: name.clone(), resolution: answer });
        proof {
            assert(prop_request@[i as int] == name@);
            assert(responses.deep_view() =~= before.push(
                ResponseView { name: name@, resolution: resolution(name@, ctx@) },
            ));
            assert(resolutions(prop_request@.take(i + 1), ctx@) =~= resolutions(
                prop_request@.take(i as int),
                ctx@,
            ).push(ResponseView { name: name@, resolution: resolution(name@, ctx@) }));
        }
        i += 1;
    }
    assert(prop_request@.take(i as int) =~= prop_request@);
    responses
}

} // verus!
