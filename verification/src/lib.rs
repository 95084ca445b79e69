//! A typed, immutable model of OData v2 CSDL metadata (the EDMX envelope),
//! with the lookups that make the tree usable.
//!
//! A document is read in three steps, each with its own contract:
//! [`xml::tokenize`] reads the tags of the text, [`tree::build_forest`]
//! builds elements from the tags, and [`decode::FromElement`] says what an
//! element stands for. [`Edmx::parse`] does all three. In the other
//! direction, [`encode::ToElement`] writes a model as elements, and
//! [`encode::lemma_document_round_trip`] states that what is written reads
//! back as it was.

pub mod decode;
pub mod encode;
pub mod error;
pub mod forms;
pub mod lexical;
pub mod literal;
pub mod model;
pub mod text;
pub mod timestamp;
pub mod tree;
pub mod words;
pub mod xml;

pub use crate::error::{AttributeKind, ElementKind, ParseError};
pub use crate::literal::FloatLiteral;
pub use crate::model::{
    default_true, Association, AssociationSet, DataServices, Edm, Edmx, EdmxVersion, End,
    EntityContainer, EntitySet, EntityType, Key, Multiplicity, NavigationProperty, Property,
    PropertyRef, PropertyType, Schema,
};
pub use crate::timestamp::NaiveTimestamp;
pub use crate::words::Offset;
