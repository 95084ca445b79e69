//! Why a document is refused.

use vstd::prelude::*;

verus! {

/// The elements that a metadata document is made of.
#[derive(Debug, Clone, Copy, PartialEq, Eq, Structural)]
pub enum ElementKind {
    Edmx,
    DataServices,
    Schema,
    EntityType,
    Key,
    PropertyRef,
    Property,
    NavigationProperty,
    Association,
    End,
    EntityContainer,
    EntitySet,
    AssociationSet,
}

/// The attributes that those elements carry.
#[derive(Debug, Clone, Copy, PartialEq, Eq, Structural)]
pub enum AttributeKind {
    Version,
    Namespace,
    Name,
    Type,
    Nullable,
    MaxLength,
    FixedLength,
    Precision,
    Default,
    Relationship,
    ToRole,
    FromRole,
    Role,
    EntitySet,
    Multiplicity,
    EntityType,
    Association,
}

/// A structured account of what is wrong with a document. There is never a
/// partial result beside it.
#[derive(Debug, Clone, Copy, PartialEq, Eq, Structural)]
pub enum ParseError {
    /// The text is not well-formed XML.
    Malformed,
    /// The document has no element at its top, or more than one, or one that
    /// is no `Edmx`.
    UnexpectedRoot,
    /// The envelope's version is not one that is understood.
    UnsupportedVersion,
    /// A property's `Type` is none of the ten primitive kinds.
    UnknownType,
    /// An element lacks an attribute that it must have.
    MissingAttribute { element: ElementKind, attribute: AttributeKind },
    /// An attribute's value is not of the form that its kind asks for.
    InvalidAttribute { element: ElementKind, attribute: AttributeKind },
    /// An element lacks a child that it must have.
    MissingChild { parent: ElementKind, child: ElementKind },
    /// An element has more than one child of a kind that it may have once.
    DuplicateChild { parent: ElementKind, child: ElementKind },
    /// An association or association set has not exactly two ends.
    EndCount { parent: ElementKind },
}

impl ElementKind {
    /// The element's name in a document.
    pub open spec fn spec_tag(self) -> Seq<char> {
        match self {
            ElementKind::Edmx => "Edmx"@,
            ElementKind::DataServices => "DataServices"@,
            ElementKind::Schema => "Schema"@,
            ElementKind::EntityType => "EntityType"@,
            ElementKind::Key => "Key"@,
            ElementKind::PropertyRef => "PropertyRef"@,
            ElementKind::Property => "Property"@,
            ElementKind::NavigationProperty => "NavigationProperty"@,
            ElementKind::Association => "Association"@,
            ElementKind::End => "End"@,
            ElementKind::EntityContainer => "EntityContainer"@,
            ElementKind::EntitySet => "EntitySet"@,
            ElementKind::AssociationSet => "AssociationSet"@,
        }
    }

    /// The element's name in a document.
    pub fn tag(self) -> (r: &'static str)
        ensures
            r@ == self.spec_tag(),
    {
        match self {
            ElementKind::Edmx => "Edmx",
            ElementKind::DataServices => "DataServices",
            ElementKind::Schema => "Schema",
            ElementKind::EntityType => "EntityType",
            ElementKind::Key => "Key",
            ElementKind::PropertyRef => "PropertyRef",
            ElementKind::Property => "Property",
            ElementKind::NavigationProperty => "NavigationProperty",
            ElementKind::Association => "Association",
            ElementKind::End => "End",
            ElementKind::EntityContainer => "EntityContainer",
            ElementKind::EntitySet => "EntitySet",
            ElementKind::AssociationSet => "AssociationSet",
        }
    }

    /// No two kinds of element share a name.
    pub proof fn lemma_tags_differ(a: ElementKind, b: ElementKind)
        requires
            a != b,
        ensures
            a.spec_tag() != b.spec_tag(),
    {
        reveal_strlit("Edmx");
        reveal_strlit("DataServices");
        reveal_strlit("Schema");
        reveal_strlit("EntityType");
        reveal_strlit("Key");
        reveal_strlit("PropertyRef");
        reveal_strlit("Property");
        reveal_strlit("NavigationProperty");
        reveal_strlit("Association");
        reveal_strlit("End");
        reveal_strlit("EntityContainer");
        reveal_strlit("EntitySet");
        reveal_strlit("AssociationSet");
        if a.spec_tag().len() == b.spec_tag().len() {
            assert(a.spec_tag()[0] != b.spec_tag()[0] || a.spec_tag()[6] != b.spec_tag()[6]);
        }
    }
}

impl AttributeKind {
    /// The attribute's name in a document.
    pub open spec fn spec_name(self) -> Seq<char> {
        match self {
            AttributeKind::Version => "Version"@,
            AttributeKind::Namespace => "Namespace"@,
            AttributeKind::Name => "Name"@,
            AttributeKind::Type => "Type"@,
            AttributeKind::Nullable => "Nullable"@,
            AttributeKind::MaxLength => "MaxLength"@,
            AttributeKind::FixedLength => "FixedLength"@,
            AttributeKind::Precision => "Precision"@,
            AttributeKind::Default => "Default"@,
            AttributeKind::Relationship => "Relationship"@,
            AttributeKind::ToRole => "ToRole"@,
            AttributeKind::FromRole => "FromRole"@,
            AttributeKind::Role => "Role"@,
            AttributeKind::EntitySet => "EntitySet"@,
            AttributeKind::Multiplicity => "Multiplicity"@,
            AttributeKind::EntityType => "EntityType"@,
            AttributeKind::Association => "Association"@,
        }
    }

    /// The attribute's name in a document.
    pub fn name(self) -> (r: &'static str)
        ensures
            r@ == self.spec_name(),
    {
        match self {
            AttributeKind::Version => "Version",
            AttributeKind::Namespace => "Namespace",
            AttributeKind::Name => "Name",
            AttributeKind::Type => "Type",
            AttributeKind::Nullable => "Nullable",
            AttributeKind::MaxLength => "MaxLength",
            AttributeKind::FixedLength => "FixedLength",
            AttributeKind::Precision => "Precision",
            AttributeKind::Default => "Default",
            AttributeKind::Relationship => "Relationship",
            AttributeKind::ToRole => "ToRole",
            AttributeKind::FromRole => "FromRole",
            AttributeKind::Role => "Role",
            AttributeKind::EntitySet => "EntitySet",
            AttributeKind::Multiplicity => "Multiplicity",
            AttributeKind::EntityType => "EntityType",
            AttributeKind::Association => "Association",
        }
    }

    /// No two kinds of attribute share a name.
    pub proof fn lemma_names_differ(a: AttributeKind, b: AttributeKind)
        requires
            a != b,
        ensures
            a.spec_name() != b.spec_name(),
    {
        reveal_strlit("Version");
        reveal_strlit("Namespace");
        reveal_strlit("Name");
        reveal_strlit("Type");
        reveal_strlit("Nullable");
        reveal_strlit("MaxLength");
        reveal_strlit("FixedLength");
        reveal_strlit("Precision");
        reveal_strlit("Default");
        reveal_strlit("Relationship");
        reveal_strlit("ToRole");
        reveal_strlit("FromRole");
        reveal_strlit("Role");
        reveal_strlit("EntitySet");
        reveal_strlit("Multiplicity");
        reveal_strlit("EntityType");
        reveal_strlit("Association");
        if a.spec_name().len() == b.spec_name().len() {
            assert(a.spec_name()[0] != b.spec_name()[0] || a.spec_name()[1] != b.spec_name()[1]);
        }
    }
}

impl ParseError {
    /// The error in words.
    pub open spec fn spec_message(self) -> Seq<char> {
        match self {
            ParseError::Malformed => "the text is not well-formed XML"@,
            ParseError::UnexpectedRoot => "the document's one root element must be Edmx"@,
            ParseError::UnsupportedVersion => "the version of the envelope is not supported"@,
            ParseError::UnknownType => "the type of a property is no EDM primitive type"@,
            ParseError::MissingAttribute { element, attribute } => "missing attribute "@
                + attribute.spec_name() + " on "@ + element.spec_tag(),
            ParseError::InvalidAttribute { element, attribute } => "invalid attribute "@
                + attribute.spec_name() + " on "@ + element.spec_tag(),
            ParseError::MissingChild { parent, child } => "missing element "@ + child.spec_tag()
                + " in "@ + parent.spec_tag(),
            ParseError::DuplicateChild { parent, child } => "more than one element "@
                + child.spec_tag() + " in "@ + parent.spec_tag(),
            ParseError::EndCount { parent } => "not exactly two End elements in "@
                + parent.spec_tag(),
        }
    }

    /// The error in words.
    pub fn message(&self) -> (r: String)
        ensures
            r@ == self.spec_message(),
    {
        match *self {
            ParseError::Malformed => String::from_str("the text is not well-formed XML"),
            ParseError::UnexpectedRoot => String::from_str(
                "the document's one root element must be Edmx",
            ),
            ParseError::UnsupportedVersion => String::from_str(
                "the version of the envelope is not supported",
            ),
            ParseError::UnknownType => String::from_str(
                "the type of a property is no EDM primitive type",
            ),
            ParseError::MissingAttribute { element, attribute } => phrase(
                "missing attribute ",
                attribute.name(),
                " on ",
                element.tag(),
            ),
            ParseError::InvalidAttribute { element, attribute } => phrase(
                "invalid attribute ",
                attribute.name(),
                " on ",
                element.tag(),
            ),
            ParseError::MissingChild { parent, child } => phrase(
                "missing element ",
                child.tag(),
                " in ",
                parent.tag(),
            ),
            ParseError::DuplicateChild { parent, child } => phrase(
                "more than one element ",
                child.tag(),
                " in ",
                parent.tag(),
            ),
            ParseError::EndCount { parent } => {
                let mut text = String::from_str("not exactly two End elements in ");
                text.append(parent.tag());
                text
            },
        }
    }
}

fn phrase(a: &str, b: &str, c: &str, d: &str) -> (r: String)
    ensures
        r@ == a@ + b@ + c@ + d@,
{
    let mut text = String::from_str(a);
    text.append(b);
    text.append(c);
    text.append(d);
    text
}

} // verus!
