//! The document tree: from the `Edmx` root down to the facets of a property.
//!
//! A tree is built once, from a complete text, and read from then on. Every
//! type has a view that says what a value is apart from how it is stored;
//! the contracts of the library are stated over these views.

use vstd::prelude::*;

use crate::literal::FloatLiteral;
use crate::text::{first_position, same_text};
use crate::timestamp::NaiveTimestamp;
use crate::words::Offset;

verus! {

/// The ten EDM primitive kinds.
#[derive(Debug, Clone, Copy, PartialEq, Eq, Structural)]
pub enum Edm {
    Binary,
    Boolean,
    Byte,
    DateTime,
    DateTimeOffset,
    Decimal,
    Double,
    Int16,
    Int32,
    String,
}

impl Edm {
    /// The literal that stands for the kind in a property's `Type`.
    pub open spec fn spec_literal(self) -> Seq<char> {
        match self {
            Edm::Binary => "Edm.Binary"@,
            Edm::Boolean => "Edm.Boolean"@,
            Edm::Byte => "Edm.Byte"@,
            Edm::DateTime => "Edm.DateTime"@,
            Edm::DateTimeOffset => "Edm.DateTimeOffset"@,
            Edm::Decimal => "Edm.Decimal"@,
            Edm::Double => "Edm.Double"@,
            Edm::Int16 => "Edm.Int16"@,
            Edm::Int32 => "Edm.Int32"@,
            Edm::String => "Edm.String"@,
        }
    }

    /// The kind that a literal stands for: a literal stands for a kind only
    /// where it is that kind's literal, letter for letter.
    pub open spec fn spec_from_literal(text: Seq<char>) -> Option<Edm> {
        if text == Edm::Binary.spec_literal() {
            Some(Edm::Binary)
        } else if text == Edm::Boolean.spec_literal() {
            Some(Edm::Boolean)
        } else if text == Edm::Byte.spec_literal() {
            Some(Edm::Byte)
        } else if text == Edm::DateTime.spec_literal() {
            Some(Edm::DateTime)
        } else if text == Edm::DateTimeOffset.spec_literal() {
            Some(Edm::DateTimeOffset)
        } else if text == Edm::Decimal.spec_literal() {
            Some(Edm::Decimal)
        } else if text == Edm::Double.spec_literal() {
            Some(Edm::Double)
        } else if text == Edm::Int16.spec_literal() {
            Some(Edm::Int16)
        } else if text == Edm::Int32.spec_literal() {
            Some(Edm::Int32)
        } else if text == Edm::String.spec_literal() {
            Some(Edm::String)
        } else {
            None
        }
    }

    /// The literal that stands for this value in a document.
    pub fn literal(self) -> (r: &'static str)
        ensures
            r@ == self.spec_literal(),
    {
        match self {
            Edm::Binary => "Edm.Binary",
            Edm::Boolean => "Edm.Boolean",
            Edm::Byte => "Edm.Byte",
            Edm::DateTime => "Edm.DateTime",
            Edm::DateTimeOffset => "Edm.DateTimeOffset",
            Edm::Decimal => "Edm.Decimal",
            Edm::Double => "Edm.Double",
            Edm::Int16 => "Edm.Int16",
            Edm::Int32 => "Edm.Int32",
            Edm::String => "Edm.String",
        }
    }

    /// The value that a literal stands for, if it stands for one.
    pub fn from_literal(text: &str) -> (r: Option<Edm>)
        ensures
            r == Edm::spec_from_literal(text@),
    {
        if same_text(text, "Edm.Binary") {
            Some(Edm::Binary)
        } else if same_text(text, "Edm.Boolean") {
            Some(Edm::Boolean)
        } else if same_text(text, "Edm.Byte") {
            Some(Edm::Byte)
        } else if same_text(text, "Edm.DateTime") {
            Some(Edm::DateTime)
        } else if same_text(text, "Edm.DateTimeOffset") {
            Some(Edm::DateTimeOffset)
        } else if same_text(text, "Edm.Decimal") {
            Some(Edm::Decimal)
        } else if same_text(text, "Edm.Double") {
            Some(Edm::Double)
        } else if same_text(text, "Edm.Int16") {
            Some(Edm::Int16)
        } else if same_text(text, "Edm.Int32") {
            Some(Edm::Int32)
        } else if same_text(text, "Edm.String") {
            Some(Edm::String)
        } else {
            None
        }
    }

    /// A kind's literal stands for that kind.
    pub proof fn lemma_literal_round_trip(kind: Edm)
        ensures
            Edm::spec_from_literal(kind.spec_literal()) == Some(kind),
            kind.spec_literal().len() > 0,
    {
        reveal_strlit("Edm.Binary");
        reveal_strlit("Edm.Boolean");
        reveal_strlit("Edm.Byte");
        reveal_strlit("Edm.DateTime");
        reveal_strlit("Edm.DateTimeOffset");
        reveal_strlit("Edm.Decimal");
        reveal_strlit("Edm.Double");
        reveal_strlit("Edm.Int16");
        reveal_strlit("Edm.Int32");
        reveal_strlit("Edm.String");
        assert(Edm::Binary.spec_literal().len() == 10);
        assert(Edm::Boolean.spec_literal().len() == 11);
        assert(Edm::Byte.spec_literal().len() == 8);
        assert(Edm::DateTime.spec_literal().len() == 12);
        assert(Edm::DateTimeOffset.spec_literal().len() == 18);
        assert(Edm::Decimal.spec_literal().len() == 11);
        assert(Edm::Double.spec_literal().len() == 10);
        assert(Edm::Int16.spec_literal().len() == 9);
        assert(Edm::Int32.spec_literal().len() == 9);
        assert(Edm::String.spec_literal().len() == 10);
        assert(Edm::Decimal.spec_literal()[4] != Edm::Boolean.spec_literal()[4]);
        assert(Edm::Double.spec_literal()[4] != Edm::Binary.spec_literal()[4]);
        assert(Edm::Int32.spec_literal()[7] != Edm::Int16.spec_literal()[7]);
        assert(Edm::String.spec_literal()[4] != Edm::Binary.spec_literal()[4]);
        assert(Edm::String.spec_literal()[4] != Edm::Double.spec_literal()[4]);
    }
}

/// The versions of the envelope that are understood.
#[derive(Debug, Clone, Copy, PartialEq, Eq, Structural)]
pub enum EdmxVersion {
    V1_0,
}

impl EdmxVersion {
    /// The literal that stands for the version in the envelope.
    pub open spec fn spec_literal(self) -> Seq<char> {
        "1.0"@
    }

    /// The version that a literal stands for, if it stands for one.
    pub open spec fn spec_from_literal(text: Seq<char>) -> Option<EdmxVersion> {
        if text == "1.0"@ {
            Some(EdmxVersion::V1_0)
        } else {
            None
        }
    }

    /// The literal that stands for this value in a document.
    pub fn literal(self) -> (r: &'static str)
        ensures
            r@ == self.spec_literal(),
    {
        "1.0"
    }

    /// The value that a literal stands for, if it stands for one.
    pub fn from_literal(text: &str) -> (r: Option<EdmxVersion>)
        ensures
            r == EdmxVersion::spec_from_literal(text@),
    {
        if same_text(text, "1.0") {
            Some(EdmxVersion::V1_0)
        } else {
            None
        }
    }
}

/// What a `Nullable` marker stands for where a property carries none.
pub fn default_true() -> (r: bool)
    ensures
        r,
{
    true
}

/// The reference, by name, to the one property that is an entity's key.
#[derive(Debug, Clone, PartialEq, Eq)]
pub struct PropertyRef {
    pub name: String,
}

/// What a `PropertyRef` is, apart from how it is stored.
pub struct PropertyRefView {
    pub name: Seq<char>,
}

impl DeepView for PropertyRef {
    type V = PropertyRefView;

    open spec fn deep_view(&self) -> PropertyRefView {
        PropertyRefView { name: self.name@ }
    }
}

/// An entity's key. Only a key of one property can be held: a key made of
/// several, which the format allows, has no place in this model.
#[derive(Debug, Clone, PartialEq, Eq)]
pub struct Key {
    pub property_ref: PropertyRef,
}

/// What a `Key` is, apart from how it is stored.
pub struct KeyView {
    pub property_ref: PropertyRefView,
}

impl DeepView for Key {
    type V = KeyView;

    open spec fn deep_view(&self) -> KeyView {
        KeyView { property_ref: self.property_ref.deep_view() }
    }
}

/// One of the ten primitive kinds, with the facets that the kind has.
/// Facets are kept as they are given: nothing holds one against another.
#[derive(Debug, Clone, PartialEq, Eq)]
pub enum PropertyType {
    Binary { max_length: Option<u32>, fixed_length: Option<u32>, default: Option<Vec<u8>> },
    Boolean { default: Option<bool> },
    Byte { precision: Option<u8>, default: Option<Vec<u8>> },
    DateTime { precision: Option<u8>, default: Option<NaiveTimestamp> },
    DateTimeOffset { precision: Option<u8>, default: Option<Offset> },
    Decimal { precision: Option<u8>, default: Option<FloatLiteral> },
    Double { precision: Option<u8>, default: Option<FloatLiteral> },
    Int16 { precision: Option<u8>, default: Option<i16> },
    /// The default of an `Int32` is a run of bytes, not a number.
    Int32 { precision: Option<u8>, default: Option<Vec<u8>> },
    String { precision: Option<u8>, max_length: Option<u32>, fixed_length: Option<u32> },
}

/// What a `PropertyType` is, apart from how it is stored.
pub enum PropertyTypeView {
    Binary { max_length: Option<u32>, fixed_length: Option<u32>, default: Option<Seq<u8>> },
    Boolean { default: Option<bool> },
    Byte { precision: Option<u8>, default: Option<Seq<u8>> },
    DateTime { precision: Option<u8>, default: Option<NaiveTimestamp> },
    DateTimeOffset { precision: Option<u8>, default: Option<Offset> },
    Decimal { precision: Option<u8>, default: Option<Seq<char>> },
    Double { precision: Option<u8>, default: Option<Seq<char>> },
    Int16 { precision: Option<u8>, default: Option<i16> },
    Int32 { precision: Option<u8>, default: Option<Seq<u8>> },
    String { precision: Option<u8>, max_length: Option<u32>, fixed_length: Option<u32> },
}

impl DeepView for PropertyType {
    type V = PropertyTypeView;

    open spec fn deep_view(&self) -> PropertyTypeView {
        match self {
            PropertyType::Binary { max_length, fixed_length, default } => PropertyTypeView::Binary {
                max_length: *max_length,
                fixed_length: *fixed_length,
                default: default.deep_view(),
            },
            PropertyType::Boolean { default } => PropertyTypeView::Boolean { default: *default },
            PropertyType::Byte { precision, default } => PropertyTypeView::Byte {
                precision: *precision,
                default: default.deep_view(),
            },
            PropertyType::DateTime { precision, default } => PropertyTypeView::DateTime {
                precision: *precision,
                default: *default,
            },
            PropertyType::DateTimeOffset { precision, default } => PropertyTypeView::DateTimeOffset {
                precision: *precision,
                default: *default,
            },
            PropertyType::Decimal { precision, default } => PropertyTypeView::Decimal {
                precision: *precision,
                default: default.deep_view(),
            },
            PropertyType::Double { precision, default } => PropertyTypeView::Double {
                precision: *precision,
                default: default.deep_view(),
            },
            PropertyType::Int16 { precision, default } => PropertyTypeView::Int16 {
                precision: *precision,
                default: *default,
            },
            PropertyType::Int32 { precision, default } => PropertyTypeView::Int32 {
                precision: *precision,
                default: default.deep_view(),
            },
            PropertyType::String { precision, max_length, fixed_length } => PropertyTypeView::String {
                precision: *precision,
                max_length: *max_length,
                fixed_length: *fixed_length,
            },
        }
    }
}

impl PropertyTypeView {
    /// Which of the ten kinds this is.
    pub open spec fn kind(self) -> Edm {
        match self {
            PropertyTypeView::Binary { .. } => Edm::Binary,
            PropertyTypeView::Boolean { .. } => Edm::Boolean,
            PropertyTypeView::Byte { .. } => Edm::Byte,
            PropertyTypeView::DateTime { .. } => Edm::DateTime,
            PropertyTypeView::DateTimeOffset { .. } => Edm::DateTimeOffset,
            PropertyTypeView::Decimal { .. } => Edm::Decimal,
            PropertyTypeView::Double { .. } => Edm::Double,
            PropertyTypeView::Int16 { .. } => Edm::Int16,
            PropertyTypeView::Int32 { .. } => Edm::Int32,
            PropertyTypeView::String { .. } => Edm::String,
        }
    }
}

impl PropertyType {
    /// Which of the ten kinds this is.
    pub fn kind(&self) -> (r: Edm)
        ensures
            r == self.deep_view().kind(),
    {
        match self {
            PropertyType::Binary { .. } => Edm::Binary,
            PropertyType::Boolean { .. } => Edm::Boolean,
            PropertyType::Byte { .. } => Edm::Byte,
            PropertyType::DateTime { .. } => Edm::DateTime,
            PropertyType::DateTimeOffset { .. } => Edm::DateTimeOffset,
            PropertyType::Decimal { .. } => Edm::Decimal,
            PropertyType::Double { .. } => Edm::Double,
            PropertyType::Int16 { .. } => Edm::Int16,
            PropertyType::Int32 { .. } => Edm::Int32,
            PropertyType::String { .. } => Edm::String,
        }
    }
}

/// A property of an entity: a name, a primitive type, and whether it may be absent.
#[derive(Debug, Clone, PartialEq, Eq)]
pub struct Property {
    pub name: String,
    pub inner: PropertyType,
    pub nullable: bool,
}

/// What a `Property` is, apart from how it is stored.
pub struct PropertyView {
    pub name: Seq<char>,
    pub inner: PropertyTypeView,
    pub nullable: bool,
}

impl DeepView for Property {
    type V = PropertyView;

    open spec fn deep_view(&self) -> PropertyView {
        PropertyView { name: self.name@, inner: self.inner.deep_view(), nullable: self.nullable }
    }
}

/// A named link from one entity type to another. It names its association;
/// finding the association is left to the caller.
#[derive(Debug, Clone, PartialEq, Eq)]
pub struct NavigationProperty {
    pub name: String,
    pub relationship: String,
    pub to_role: String,
    pub from_role: String,
}

/// What a `NavigationProperty` is, apart from how it is stored.
pub struct NavigationPropertyView {
    pub name: Seq<char>,
    pub relationship: Seq<char>,
    pub to_role: Seq<char>,
    pub from_role: Seq<char>,
}

impl DeepView for NavigationProperty {
    type V = NavigationPropertyView;

    open spec fn deep_view(&self) -> NavigationPropertyView {
        NavigationPropertyView {
            name: self.name@,
            relationship: self.relationship@,
            to_role: self.to_role@,
            from_role: self.from_role@,
        }
    }
}

/// A named type with a key, properties and navigation properties.
#[derive(Debug, Clone, PartialEq, Eq)]
pub struct EntityType {
    pub name: String,
    pub key: Key,
    pub properties: Vec<Property>,
    pub navigations: Vec<NavigationProperty>,
}

/// What an `EntityType` is, apart from how it is stored.
pub struct EntityTypeView {
    pub name: Seq<char>,
    pub key: KeyView,
    pub properties: Seq<PropertyView>,
    pub navigations: Seq<NavigationPropertyView>,
}

impl DeepView for EntityType {
    type V = EntityTypeView;

    open spec fn deep_view(&self) -> EntityTypeView {
        EntityTypeView {
            name: self.name@,
            key: self.key.deep_view(),
            properties: self.properties.deep_view(),
            navigations: self.navigations.deep_view(),
        }
    }
}

/// One side of a relationship. The multiplicity is kept as it is written.
#[derive(Debug, Clone, PartialEq, Eq)]
pub struct End {
    pub role: Option<String>,
    pub entity_set: Option<String>,
    pub entity_type: Option<String>,
    pub multiplicity: Option<String>,
}

/// What an `End` is, apart from how it is stored.
pub struct EndView {
    pub role: Option<Seq<char>>,
    pub entity_set: Option<Seq<char>>,
    pub entity_type: Option<Seq<char>>,
    pub multiplicity: Option<Seq<char>>,
}

impl DeepView for End {
    type V = EndView;

    open spec fn deep_view(&self) -> EndView {
        EndView {
            role: self.role.deep_view(),
            entity_set: self.entity_set.deep_view(),
            entity_type: self.entity_type.deep_view(),
            multiplicity: self.multiplicity.deep_view(),
        }
    }
}

/// What a multiplicity marker says of a role, where the marker is one of
/// the three that the format knows.
#[derive(Debug, Clone, Copy, PartialEq, Eq, Structural)]
pub enum Multiplicity {
    /// `0..1`: at most one.
    ZeroOrOne,
    /// `1`: exactly one.
    One,
    /// `*`: any number.
    Many,
}

impl Multiplicity {
    /// The marker that stands for the multiplicity.
    pub open spec fn spec_marker(self) -> Seq<char> {
        match self {
            Multiplicity::ZeroOrOne => "0..1"@,
            Multiplicity::One => "1"@,
            Multiplicity::Many => "*"@,
        }
    }

    /// The multiplicity that a marker stands for, if it is one of the three.
    pub open spec fn spec_from_marker(text: Seq<char>) -> Option<Multiplicity> {
        if text == "0..1"@ {
            Some(Multiplicity::ZeroOrOne)
        } else if text == "1"@ {
            Some(Multiplicity::One)
        } else if text == "*"@ {
            Some(Multiplicity::Many)
        } else {
            None
        }
    }

    /// The marker that stands for the multiplicity.
    pub fn marker(self) -> (r: &'static str)
        ensures
            r@ == self.spec_marker(),
    {
        match self {
            Multiplicity::ZeroOrOne => "0..1",
            Multiplicity::One => "1",
            Multiplicity::Many => "*",
        }
    }

    /// The multiplicity that a marker stands for, if it is one of the three.
    pub fn from_marker(text: &str) -> (r: Option<Multiplicity>)
        ensures
            r == Multiplicity::spec_from_marker(text@),
    {
        if same_text(text, "0..1") {
            Some(Multiplicity::ZeroOrOne)
        } else if same_text(text, "1") {
            Some(Multiplicity::One)
        } else if same_text(text, "*") {
            Some(Multiplicity::Many)
        } else {
            None
        }
    }

    /// A multiplicity's marker stands for that multiplicity.
    pub proof fn lemma_marker_round_trip(multiplicity: Multiplicity)
        ensures
            Multiplicity::spec_from_marker(multiplicity.spec_marker()) == Some(multiplicity),
    {
        reveal_strlit("0..1");
        reveal_strlit("1");
        reveal_strlit("*");
        assert("0..1"@.len() == 4);
        assert("1"@.len() == 1);
        assert("*"@.len() == 1);
        assert("1"@[0] != "*"@[0]);
    }
}

impl End {
    /// What the role's multiplicity marker says, where the role has a marker
    /// and the marker is one of the three that the format knows. The marker
    /// itself stays as it was written, whatever it is.
    pub fn cardinality(&self) -> (r: Option<Multiplicity>)
        ensures
            r == match self.multiplicity {
                Some(marker) => Multiplicity::spec_from_marker(marker@),
                None => None,
            },
    {
        match &self.multiplicity {
            Some(marker) => Multiplicity::from_marker(marker.as_str()),
            None => None,
        }
    }
}

/// A named relationship between two roles.
#[derive(Debug, Clone, PartialEq, Eq)]
pub struct Association {
    pub name: String,
    pub ends: [End; 2],
}

/// What an `Association` is, apart from how it is stored.
pub struct AssociationView {
    pub name: Seq<char>,
    pub ends: Seq<EndView>,
}

impl DeepView for Association {
    type V = AssociationView;

    open spec fn deep_view(&self) -> AssociationView {
        AssociationView { name: self.name@, ends: self.ends.deep_view() }
    }
}

/// An association as a container holds it, with its two role bindings.
#[derive(Debug, Clone, PartialEq, Eq)]
pub struct AssociationSet {
    pub name: String,
    pub association: String,
    pub ends: [End; 2],
}

/// What an `AssociationSet` is, apart from how it is stored.
pub struct AssociationSetView {
    pub name: Seq<char>,
    pub association: Seq<char>,
    pub ends: Seq<EndView>,
}

impl DeepView for AssociationSet {
    type V = AssociationSetView;

    open spec fn deep_view(&self) -> AssociationSetView {
        AssociationSetView {
            name: self.name@,
            association: self.association@,
            ends: self.ends.deep_view(),
        }
    }
}

/// A named collection of the instances of one entity type.
#[derive(Debug, Clone, PartialEq, Eq)]
pub struct EntitySet {
    pub name: String,
    pub entity_type: String,
}

/// What an `EntitySet` is, apart from how it is stored.
pub struct EntitySetView {
    pub name: Seq<char>,
    pub entity_type: Seq<char>,
}

impl DeepView for EntitySet {
    type V = EntitySetView;

    open spec fn deep_view(&self) -> EntitySetView {
        EntitySetView { name: self.name@, entity_type: self.entity_type@ }
    }
}

/// The entity sets and association sets that a schema offers.
#[derive(Debug, Clone, PartialEq, Eq)]
pub struct EntityContainer {
    pub name: String,
    pub entity_sets: Vec<EntitySet>,
    pub association_sets: Vec<AssociationSet>,
}

/// What an `EntityContainer` is, apart from how it is stored.
pub struct EntityContainerView {
    pub name: Seq<char>,
    pub entity_sets: Seq<EntitySetView>,
    pub association_sets: Seq<AssociationSetView>,
}

impl DeepView for EntityContainer {
    type V = EntityContainerView;

    open spec fn deep_view(&self) -> EntityContainerView {
        EntityContainerView {
            name: self.name@,
            entity_sets: self.entity_sets.deep_view(),
            association_sets: self.association_sets.deep_view(),
        }
    }
}

/// A namespace with its types and associations. A schema without a
/// container is one that only declares types.
#[derive(Debug, Clone, PartialEq, Eq)]
pub struct Schema {
    pub namespace: String,
    pub entities: Vec<EntityType>,
    pub associations: Vec<Association>,
    pub entity_container: Option<EntityContainer>,
}

/// What a `Schema` is, apart from how it is stored.
pub struct SchemaView {
    pub namespace: Seq<char>,
    pub entities: Seq<EntityTypeView>,
    pub associations: Seq<AssociationView>,
    pub entity_container: Option<EntityContainerView>,
}

impl DeepView for Schema {
    type V = SchemaView;

    open spec fn deep_view(&self) -> SchemaView {
        SchemaView {
            namespace: self.namespace@,
            entities: self.entities.deep_view(),
            associations: self.associations.deep_view(),
            entity_container: self.entity_container.deep_view(),
        }
    }
}

/// The schemas of a document, in the order in which the document has them.
#[derive(Debug, Clone, PartialEq, Eq)]
pub struct DataServices {
    pub schemas: Vec<Schema>,
}

/// What a `DataServices` is, apart from how it is stored.
pub struct DataServicesView {
    pub schemas: Seq<SchemaView>,
}

impl DeepView for DataServices {
    type V = DataServicesView;

    open spec fn deep_view(&self) -> DataServicesView {
        DataServicesView { schemas: self.schemas.deep_view() }
    }
}

/// The root of a document.
#[derive(Debug, Clone, PartialEq, Eq)]
pub struct Edmx {
    pub version: EdmxVersion,
    pub data_services: DataServices,
}

/// What an `Edmx` is, apart from how it is stored.
pub struct EdmxView {
    pub version: EdmxVersion,
    pub data_services: DataServicesView,
}

impl DeepView for Edmx {
    type V = EdmxView;

    open spec fn deep_view(&self) -> EdmxView {
        EdmxView { version: self.version, data_services: self.data_services.deep_view() }
    }
}

/// Holds of the schemas whose namespace is `Default`, letter for letter.
pub open spec fn is_default_schema() -> spec_fn(Schema) -> bool {
    |schema: Schema| schema.namespace@ == "Default"@
}

/// Holds of the properties called `name`.
pub open spec fn is_called(name: Seq<char>) -> spec_fn(Property) -> bool {
    |property: Property| property.name@ == name
}

impl DataServices {
    /// The first schema whose namespace is `Default`, if there is one.
    pub open spec fn spec_default_schema(&self) -> Option<Schema> {
        match first_position(self.schemas@, is_default_schema(), 0) {
            Some(i) => Some(self.schemas@[i]),
            None => None,
        }
    }

    /// The first schema whose namespace is `Default`. That the schema a
    /// service means to be used is called so is a habit of services, not a
    /// rule of the format: a document may well have no such schema.
    pub fn default_schema(&self) -> (r: Option<&Schema>)
        ensures
            r == match self.spec_default_schema() {
                Some(schema) => Some(&schema),
                None => None,
            },
            r is Some <==> exists|i: int|
                0 <= i < self.schemas.len() && (#[trigger] self.schemas[i]).namespace@
                    == "Default"@,
            r matches Some(schema) ==> schema.namespace@ == "Default"@,
    {
        let mut i: usize = 0;
        while i < self.schemas.len()
            invariant
                i <= self.schemas.len(),
                forall|j: int| 0 <= j < i ==> !is_default_schema()(#[trigger] self.schemas@[j]),
            decreases self.schemas.len() - i,
        {
            if same_text(self.schemas[i].namespace.as_str(), "Default") {
                proof {
                    crate::text::lemma_first_position_is(
                        self.schemas@,
                        is_default_schema(),
                        0,
                        i as int,
                    );
                }
                return Some(&self.schemas[i]);
            }
            i += 1;
        }
        proof {
            crate::text::lemma_first_position_none(self.schemas@, is_default_schema(), 0);
        }
        None
    }
}

impl Edmx {
    /// The first schema whose namespace is `Default`, if there is one.
    pub open spec fn spec_default_schema(&self) -> Option<Schema> {
        self.data_services.spec_default_schema()
    }

    /// The first schema whose namespace is `Default`, if there is one.
    pub fn default_schema(&self) -> (r: Option<&Schema>)
        ensures
            r == match self.spec_default_schema() {
                Some(schema) => Some(&schema),
                None => None,
            },
            r is Some <==> exists|i: int|
                0 <= i < self.data_services.schemas.len() && (
                #[trigger] self.data_services.schemas[i]).namespace@ == "Default"@,
            r matches Some(schema) ==> schema.namespace@ == "Default"@,
    {
        self.data_services.default_schema()
    }
}

impl Schema {
    /// The container's entity sets. A schema without a container has none
    /// to show, which is not the same as a container without sets.
    pub fn entity_sets(&self) -> (r: Option<&Vec<EntitySet>>)
        ensures
            r == match self.entity_container {
                Some(container) => Some(&container.entity_sets),
                None => None,
            },
    {
        match &self.entity_container {
            Some(container) => Some(&container.entity_sets),
            None => None,
        }
    }

    /// The container's association sets, where the schema has a container.
    pub fn association_sets(&self) -> (r: Option<&Vec<AssociationSet>>)
        ensures
            r == match self.entity_container {
                Some(container) => Some(&container.association_sets),
                None => None,
            },
    {
        match &self.entity_container {
            Some(container) => Some(&container.association_sets),
            None => None,
        }
    }
}

impl EntityType {
    /// The first property that has the name which the key refers to.
    pub open spec fn spec_key_property(&self) -> Option<Property> {
        match first_position(self.properties@, is_called(self.key.property_ref.name@), 0) {
            Some(i) => Some(self.properties@[i]),
            None => None,
        }
    }

    /// The property that the key refers to. A key that names no property
    /// of the entity is no error: there is then nothing to return.
    pub fn key_property(&self) -> (r: Option<&Property>)
        ensures
            r == match self.spec_key_property() {
                Some(property) => Some(&property),
                None => None,
            },
            r is Some <==> exists|i: int|
                0 <= i < self.properties.len() && (#[trigger] self.properties[i]).name@
                    == self.key.property_ref.name@,
            r matches Some(property) ==> property.name@ == self.key.property_ref.name@,
    {
        let mut i: usize = 0;
        while i < self.properties.len()
            invariant
                i <= self.properties.len(),
                forall|j: int|
                    0 <= j < i ==> !is_called(self.key.property_ref.name@)(
                        #[trigger] self.properties@[j],
                    ),
            decreases self.properties.len() - i,
        {
            if self.properties[i].name == self.key.property_ref.name {
                proof {
                    crate::text::lemma_first_position_is(
                        self.properties@,
                        is_called(self.key.property_ref.name@),
                        0,
                        i as int,
                    );
                }
                return Some(&self.properties[i]);
            }
            i += 1;
        }
        proof {
            crate::text::lemma_first_position_none(
                self.properties@,
                is_called(self.key.property_ref.name@),
                0,
            );
        }
        None
    }
}

} // verus!
