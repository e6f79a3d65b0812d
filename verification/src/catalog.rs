//! The catalog of properties that the server knows: for each its name, the
//! namespace it belongs to, how its value is made and written, and the kind
//! of resource that has it. A name that is not in the catalog is not
//! supported anywhere.

use vstd::prelude::*;
use vstd::string::*;

verus! {

/// Whether two texts are the same.
pub fn same_text(a: &str, b: &str) -> (same: bool)
    ensures
        same == (a@ == b@),
{
    a.to_owned() == b.to_owned()
}

/// The two namespaces that a multistatus document binds on its root.
#[derive(Clone, Copy, Debug, PartialEq, Eq, Structural)]
pub enum Namespace {
    /// WebDAV itself, bound to `d`.
    Dav,
    /// The CardDAV extension, bound to `card`.
    CardDav,
}

impl Namespace {
    pub open spec fn spec_declaration(self) -> (Seq<char>, Seq<char>) {
        match self {
            Namespace::Dav => ("xmlns:d"@, "DAV:"@),
            Namespace::CardDav => ("xmlns:card"@, "urn:ietf:params:xml:ns:carddav"@),
        }
    }

    /// The attribute that binds the namespace to its prefix: its name and its
    /// value.
    pub fn declaration(self) -> (xmlns: (&'static str, &'static str))
        ensures
            (xmlns.0@, xmlns.1@) == self.spec_declaration(),
    {
        match self {
            Namespace::Dav => ("xmlns:d", "DAV:"),
            Namespace::CardDav => ("xmlns:card", "urn:ietf:params:xml:ns:carddav"),
        }
    }

    pub open spec fn spec_prefix(self) -> Seq<char> {
        match self {
            Namespace::Dav => "d"@,
            Namespace::CardDav => "card"@,
        }
    }

    /// The prefix that element names of this namespace carry.
    pub fn prefix(self) -> (prefix: &'static str)
        ensures
            prefix@ == self.spec_prefix(),
    {
        match self {
            Namespace::Dav => "d",
            Namespace::CardDav => "card",
        }
    }
}

/// Where the text of a property comes from.
#[derive(Clone, Copy, Debug, PartialEq, Eq, Structural)]
pub enum Source {
    /// The identifier of the user that the resource belongs to.
    Identifier,
    /// The tag that changes with the resource. Nothing is stored that could
    /// change, so the tag is always the same.
    SyncTag,
    /// The media type of a contact.
    ContentType,
    /// The card of a contact. No contacts are stored: the card holds the
    /// identifier and nothing else.
    Card,
}

/// The resource that a property points to.
#[derive(Clone, Copy, Debug, PartialEq, Eq, Structural)]
pub enum Target {
    /// The user's principal.
    Principal,
    /// The collection of the user's address books.
    AddressbookHome,
}

/// How the value of a property is made and written.
#[derive(Clone, Copy, Debug, PartialEq, Eq, Structural)]
pub enum Render {
    /// An empty element: the name alone says it all.
    SelfClosing,
    /// An element with a text.
    Value(Source),
    /// An element that holds one `href` element with the path of a resource.
    Href(Target),
}

/// The kind of resource that has a property.
#[derive(Clone, Copy, Debug, PartialEq, Eq, Structural)]
pub enum Scope {
    /// Every resource.
    Any,
    /// A user's principal resource.
    Principal,
    /// A collection of address books or of contacts.
    Collection,
    /// A single contact.
    Contact,
}

/// What the catalog holds of a property, beside its name.
#[derive(Clone, Copy, Debug, PartialEq, Eq, Structural)]
pub struct Entry {
    pub namespace: Namespace,
    pub render: Render,
    pub scope: Scope,
}

/// The properties of the catalog.
#[derive(Clone, Copy, Debug, PartialEq, Eq, Structural)]
pub enum Property {
    CurrentUserPrincipal,
    AddressbookHomeSet,
    ResourceType,
    DisplayName,
    GetCTag,
    GetETag,
    GetContentType,
    AddressData,
    SupportedAddressData,
}

impl Property {
    pub open spec fn spec_name(self) -> Seq<char> {
        match self {
            Property::CurrentUserPrincipal => "current-user-principal"@,
            Property::AddressbookHomeSet => "addressbook-home-set"@,
            Property::ResourceType => "resourcetype"@,
            Property::DisplayName => "displayname"@,
            Property::GetCTag => "getctag"@,
            Property::GetETag => "getetag"@,
            Property::GetContentType => "getcontenttype"@,
            Property::AddressData => "address-data"@,
            Property::SupportedAddressData => "supported-address-data"@,
        }
    }

    /// The local name under which a request asks for the property.
    pub fn name(self) -> (name: &'static str)
        ensures
            name@ == self.spec_name(),
    {
        match self {
            Property::CurrentUserPrincipal => "current-user-principal",
            Property::AddressbookHomeSet => "addressbook-home-set",
            Property::ResourceType => "resourcetype",
            Property::DisplayName => "displayname",
            Property::GetCTag => "getctag",
            Property::GetETag => "getetag",
            Property::GetContentType => "getcontenttype",
            Property::AddressData => "address-data",
            Property::SupportedAddressData => "supported-address-data",
        }
    }

    pub open spec fn spec_entry(self) -> Entry {
        match self {
            Property::CurrentUserPrincipal => Entry {
                namespace: Namespace::Dav,
                render: Render::Href(Target::Principal),
                scope: Scope::Any,
            },
            Property::AddressbookHomeSet => Entry {
                namespace: Namespace::CardDav,
                render: Render::Href(Target::AddressbookHome),
                scope: Scope::Principal,
            },
            Property::ResourceType => Entry {
                namespace: Namespace::Dav,
                render: Render::SelfClosing,
                scope: Scope::Any,
            },
            Property::DisplayName => Entry {
                namespace: Namespace::Dav,
                render: Render::Value(Source::Identifier),
                scope: Scope::Any,
            },
            Property::GetCTag => Entry {
                namespace: Namespace::Dav,
                render: Render::Value(Source::SyncTag),
                scope: Scope::Collection,
            },
            Property::GetETag => Entry {
                namespace: Namespace::Dav,
                render: Render::Value(Source::SyncTag),
                scope: Scope::Contact,
            },
            Property::GetContentType => Entry {
                namespace: Namespace::Dav,
                render: Render::Value(Source::ContentType),
                scope: Scope::Contact,
            },
            Property::AddressData => Entry {
                namespace: Namespace::CardDav,
                render: Render::Value(Source::Card),
                scope: Scope::Contact,
            },
            Property::SupportedAddressData => Entry {
                namespace: Namespace::CardDav,
                render: Render::SelfClosing,
                scope: Scope::Collection,
            },
        }
    }

    /// The entry of the property: all that the resolver and the writer know
    /// of it.
    #[verifier::when_used_as_spec(spec_entry)]
    pub fn entry(self) -> (entry: Entry)
        ensures
            entry == self.spec_entry(),
    {
        match self {
            Property::CurrentUserPrincipal => Entry {
                namespace: Namespace::Dav,
                render: Render::Href(Target::Principal),
                scope: Scope::Any,
            },
            Property::AddressbookHomeSet => Entry {
                namespace: Namespace::CardDav,
                render: Render::Href(Target::AddressbookHome),
                scope: Scope::Principal,
            },
            Property::ResourceType => Entry {
                namespace: Namespace::Dav,
                render: Render::SelfClosing,
                scope: Scope::Any,
            },
            Property::DisplayName => Entry {
                namespace: Namespace::Dav,
                render: Render::Value(Source::Identifier),
                scope: Scope::Any,
            },
            Property::GetCTag => Entry {
                namespace: Namespace::Dav,
                render: Render::Value(Source::SyncTag),
                scope: Scope::Collection,
            },
            Property::GetETag => Entry {
                namespace: Namespace::Dav,
                render: Render::Value(Source::SyncTag),
                scope: Scope::Contact,
            },
            Property::GetContentType => Entry {
                namespace: Namespace::Dav,
                render: Render::Value(Source::ContentType),
                scope: Scope::Contact,
            },
            Property::AddressData => Entry {
                namespace: Namespace::CardDav,
                render: Render::Value(Source::Card),
                scope: Scope::Contact,
            },
            Property::SupportedAddressData => Entry {
                namespace: Namespace::CardDav,
                render: Render::SelfClosing,
                scope: Scope::Collection,
            },
        }
    }

    /// The property that is called `name`, if the catalog has one.
    pub open spec fn spec_lookup(name: Seq<char>) -> Option<Property> {
        if exists|property: Property| property.spec_name() == name {
            Some(choose|property: Property| property.spec_name() == name)
        } else {
            None
        }
    }

    /// Looks a name up in the catalog.
    pub fn lookup(name: &str) -> (property: Option<Property>)
        ensures
            property == Property::spec_lookup(name@),
    {
        let found = if same_text(name, Property::CurrentUserPrincipal.name()) {
            Some(Property::CurrentUserPrincipal)
        } else if same_text(name, Property::AddressbookHomeSet.name()) {
            Some(Property::AddressbookHomeSet)
        } else if same_text(name, Property::ResourceType.name()) {
            Some(Property::ResourceType)
        } else if same_text(name, Property::DisplayName.name()) {
            Some(Property::DisplayName)
        } else if same_text(name, Property::GetCTag.name()) {
            Some(Property::GetCTag)
        } else if same_text(name, Property::GetETag.name()) {
            Some(Property::GetETag)
        } else if same_text(name, Property::GetContentType.name()) {
            Some(Property::GetContentType)
        } else if same_text(name, Property::AddressData.name()) {
            Some(Property::AddressData)
        } else if same_text(name, Property::SupportedAddressData.name()) {
            Some(Property::SupportedAddressData)
        } else {
            None
        };
        proof {
            if let Some(property) = found {
                lemma_lookup(name@, property);
            }
        }
        found
    }
}

/// No two properties of the catalog share a name.
pub proof fn lemma_names_differ(p: Property, q: Property)
    requires
        p != q,
    ensures
        p.spec_name() != q.spec_name(),
{
    reveal_strlit("current-user-principal");
    reveal_strlit("addressbook-home-set");
    reveal_strlit("resourcetype");
    reveal_strlit("displayname");
    reveal_strlit("getctag");
    reveal_strlit("getetag");
    reveal_strlit("getcontenttype");
    reveal_strlit("address-data");
    reveal_strlit("supported-address-data");
    let a = p.spec_name();
    let b = q.spec_name();
    if a.len() == b.len() {
        assert(a[0] != b[0] || a[3] != b[3]);
    }
}

/// The catalog is found by name: a property under its own name and under no
/// other, and a name that no property has finds nothing.
pub proof fn lemma_lookup(name: Seq<char>, p: Property)
    ensures
        Property::spec_lookup(name) == Some(p) <==> p.spec_name() == name,
        Property::spec_lookup(name) is None <==> forall|q: Property| q.spec_name() != name,
{
    if Property::spec_lookup(name) is Some {
        let q = Property::spec_lookup(name)->0;
        assert(q.spec_name() == name);
        if p.spec_name() == name && p != q {
            lemma_names_differ(p, q);
        }
    }
}

/// The prefix of the namespace of `name`, a colon, and `name`.
pub open spec fn spec_qualified_name(name: Seq<char>) -> Seq<char> {
    let namespace = match Property::spec_lookup(name) {
        Some(property) => property.spec_entry().namespace,
        None => Namespace::Dav,
    };
    namespace.spec_prefix() + ":"@ + name
}

/// The element name under which a response reports the property `name`: the
/// name behind the prefix of its namespace. A name that the catalog does not
/// have is reported in the namespace of WebDAV.
pub fn qualified_name(name: &str) -> (tag: String)
    ensures
        tag@ == spec_qualified_name(name@),
{
    let namespace = match Property::lookup(name) {
        Some(property) => property.entry().namespace,
        None => Namespace::Dav,
    };
    namespace.prefix().to_owned().concat(":").concat(name)
}

} // verus!
