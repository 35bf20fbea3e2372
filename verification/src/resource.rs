//! Resources: readable data with URI addressing.
//!
//! A resource is data that an agent can read. Unlike tools (which are
//! invoked), resources are fetched. Each resource has a URI, MIME type,
//! and content.

use vstd::prelude::*;
use vstd::utf8::encode_utf8;

verus! {

/// A resource definition.
#[derive(Debug, Clone)]
pub struct ResourceDef {
    pub uri: String,
    pub name: String,
    pub description: String,
    pub mime_type: String,
    /// Whether this resource supports subscription for change notifications.
    pub subscribable: bool,
    /// Estimated size in bytes (for context budgeting).
    pub estimated_size: Option<usize>,
}

impl ResourceDef {
    /// A plain-text resource with the given URI and name, no description,
    /// not subscribable and of unknown size.
    pub fn new(uri: &str, name: &str) -> (r: Self)
        ensures
            r.uri@ == uri@,
            r.name@ == name@,
            r.description@ == Seq::<char>::empty(),
            r.mime_type@ == "text/plain"@,
            !r.subscribable,
            r.estimated_size is None,
    {
        ResourceDef {
            uri: uri.to_owned(),
            name: name.to_owned(),
            description: String::new(),
            mime_type: "text/plain".to_owned(),
            subscribable: false,
            estimated_size: None,
        }
    }

    /// Sets the description.
    pub fn description(self, d: &str) -> (r: Self)
        ensures
            r.description@ == d@,
            r.uri == self.uri,
            r.name == self.name,
            r.mime_type == self.mime_type,
            r.subscribable == self.subscribable,
            r.estimated_size == self.estimated_size,
    {
        let mut r = self;
        r.description = d.to_owned();
        r
    }

    /// Sets the MIME type.
    pub fn mime_type(self, m: &str) -> (r: Self)
        ensures
            r.mime_type@ == m@,
            r.uri == self.uri,
            r.name == self.name,
            r.description == self.description,
            r.subscribable == self.subscribable,
            r.estimated_size == self.estimated_size,
    {
        let mut r = self;
        r.mime_type = m.to_owned();
        r
    }

    /// Marks the resource as supporting change subscriptions.
    pub fn subscribable(self) -> (r: Self)
        ensures
            r == (ResourceDef { subscribable: true, ..self }),
    {
        let mut r = self;
        r.subscribable = true;
        r
    }
}

/// Content returned when a resource is read.
#[derive(Debug, Clone)]
pub struct ResourceContent {
    pub uri: String,
    pub mime_type: String,
    pub data: ResourceData,
}

/// The actual data of a resource.
#[derive(Debug, Clone)]
pub enum ResourceData {
    Text(String),
    Binary(Vec<u8>),
}

/// The bytes of resource data: the UTF-8 encoding of text, or the binary
/// data itself.
pub open spec fn data_bytes(d: ResourceData) -> Seq<u8> {
    match d {
        ResourceData::Text(s) => encode_utf8(s@),
        ResourceData::Binary(b) => b@,
    }
}

impl ResourceData {
    /// The text, for text data.
    pub fn as_text(&self) -> (r: Option<&str>)
        ensures
            match *self {
                ResourceData::Text(s) => r is Some && r.unwrap()@ == s@,
                ResourceData::Binary(_) => r is None,
            },
    {
        match self {
            ResourceData::Text(s) => Some(s.as_str()),
            ResourceData::Binary(_) => None,
        }
    }

    /// The data as bytes.
    pub fn as_bytes(&self) -> (r: &[u8])
        ensures
            r@ == data_bytes(*self),
    {
        match self {
            ResourceData::Text(s) => s.as_str().as_bytes(),
            ResourceData::Binary(b) => b.as_slice(),
        }
    }

    /// Length of the data in bytes.
    pub fn len(&self) -> (n: usize)
        ensures
            n == data_bytes(*self).len(),
    {
        match self {
            ResourceData::Text(s) => s.as_str().as_bytes().len(),
            ResourceData::Binary(b) => b.len(),
        }
    }

    /// Whether the data has no bytes.
    pub fn is_empty(&self) -> (b: bool)
        ensures
            b == (data_bytes(*self).len() == 0),
    {
        self.len() == 0
    }
}

/// A resource change notification.
#[derive(Debug, Clone)]
pub struct ResourceChange {
    pub uri: String,
    pub change_type: ChangeType,
}

/// The kind of change a notification reports.
#[derive(Debug, Clone, Copy, PartialEq, Eq, Structural)]
pub enum ChangeType {
    Created,
    Updated,
    Deleted,
}

/// The lower-case name of a change kind.
pub open spec fn change_type_name(c: ChangeType) -> Seq<char> {
    match c {
        ChangeType::Created => "created"@,
        ChangeType::Updated => "updated"@,
        ChangeType::Deleted => "deleted"@,
    }
}

impl ChangeType {
    /// The lower-case name of this change kind, as it is displayed.
    pub fn to_string(&self) -> (r: String)
        ensures
            r@ == change_type_name(*self),
    {
        let s = match self {
            ChangeType::Created => "created",
            ChangeType::Updated => "updated",
            ChangeType::Deleted => "deleted",
        };
        s.to_owned()
    }
}

} // verus!
