use std::str::FromStr;

use odata_edmx::error::{AttributeKind, ElementKind, ParseError};
use odata_edmx::model::{default_true, Edm, Edmx, EdmxVersion, End, Multiplicity, PropertyType};

fn document(schemas: &str) -> String {
    format!(
        "<?xml version=\"1.0\" encoding=\"utf-8\"?>\n<edmx:Edmx Version=\"1.0\" xmlns:edmx=\"http://schemas.microsoft.com/ado/2007/06/edmx\">\n  <edmx:DataServices>\n{}\n  </edmx:DataServices>\n</edmx:Edmx>\n",
        schemas
    )
}

fn entity(properties: &str) -> String {
    document(&format!(
        "<Schema Namespace=\"Default\"><EntityType Name=\"Sag\"><Key><PropertyRef Name=\"id\"/></Key>{}</EntityType></Schema>",
        properties
    ))
}

#[test]
fn nullable_defaults_to_true() {
    assert!(default_true());
}

#[test]
fn test_parse_folketinget_metadata() {
    let mut sets = String::new();
    for i in 0..50 {
        sets.push_str(&format!(
            "      <EntitySet Name=\"Set{}\" EntityType=\"FT.Domain.Models.Type{}\" />\n",
            i, i
        ));
    }
    let text = document(&format!(
        "    <Schema Namespace=\"FT.Domain.Models\" xmlns=\"http://schemas.microsoft.com/ado/2009/11/edm\">\n      <EntityType Name=\"Afstemning\">\n        <Key><PropertyRef Name=\"id\" /></Key>\n        <Property Name=\"id\" Type=\"Edm.Int32\" Nullable=\"false\" />\n        <Property Name=\"konklusion\" Type=\"Edm.String\" />\n      </EntityType>\n    </Schema>\n    <Schema Namespace=\"Default\" xmlns=\"http://schemas.microsoft.com/ado/2009/11/edm\">\n      <EntityContainer Name=\"Container\" m:IsDefaultEntityContainer=\"true\">\n{}      </EntityContainer>\n    </Schema>",
        sets
    ));
    let edmx = Edmx::from_str(&text).unwrap();

    for set in edmx.default_schema().unwrap().entity_sets().unwrap() {
        println!("{:#?}", set);
    }

    assert_eq!(
        50,
        edmx.default_schema().unwrap().entity_sets().unwrap().len()
    );
}

#[test]
fn parses_the_envelope() {
    let edmx = Edmx::parse(&document("")).unwrap();
    assert_eq!(edmx.version, EdmxVersion::V1_0);
    assert!(edmx.data_services.schemas.is_empty());
    assert!(edmx.default_schema().is_none());
}

#[test]
fn string_property_without_nullable_is_nullable() {
    let edmx = Edmx::parse(&entity("<Property Name=\"titel\" Type=\"Edm.String\"/>")).unwrap();
    let entity = &edmx.data_services.schemas[0].entities[0];
    assert_eq!(entity.properties.len(), 1);
    let property = &entity.properties[0];
    assert_eq!(property.name, "titel");
    assert!(property.nullable);
    assert_eq!(
        property.inner,
        PropertyType::String { precision: None, max_length: None, fixed_length: None }
    );
    assert_eq!(property.inner.kind(), Edm::String);
}

#[test]
fn nullable_marker_is_read() {
    let edmx = Edmx::parse(&entity(
        "<Property Name=\"a\" Type=\"Edm.Boolean\" Nullable=\"false\"/><Property Name=\"b\" Type=\"Edm.Boolean\" Nullable=\"1\"/><Property Name=\"c\" Type=\"Edm.Boolean\" Nullable=\" 0 \"/>",
    ))
    .unwrap();
    let properties = &edmx.data_services.schemas[0].entities[0].properties;
    assert!(!properties[0].nullable);
    assert!(properties[1].nullable);
    assert!(!properties[2].nullable);
}

#[test]
fn unknown_type_fails_the_parse() {
    let result = Edmx::parse(&entity("<Property Name=\"x\" Type=\"Edm.Unknown\"/>"));
    assert_eq!(result, Err(ParseError::UnknownType));
}

#[test]
fn type_literals_are_case_sensitive() {
    let result = Edmx::parse(&entity("<Property Name=\"x\" Type=\"edm.string\"/>"));
    assert_eq!(result, Err(ParseError::UnknownType));
}

#[test]
fn unsupported_version_fails_the_parse() {
    let text = "<Edmx Version=\"2.0\"><DataServices/></Edmx>";
    assert_eq!(Edmx::parse(text), Err(ParseError::UnsupportedVersion));
}

#[test]
fn missing_version_fails_the_parse() {
    let text = "<Edmx><DataServices/></Edmx>";
    assert_eq!(
        Edmx::parse(text),
        Err(ParseError::MissingAttribute {
            element: ElementKind::Edmx,
            attribute: AttributeKind::Version
        })
    );
}

#[test]
fn missing_data_services_fails_the_parse() {
    let text = "<Edmx Version=\"1.0\"></Edmx>";
    assert_eq!(
        Edmx::parse(text),
        Err(ParseError::MissingChild {
            parent: ElementKind::Edmx,
            child: ElementKind::DataServices
        })
    );
}

#[test]
fn two_data_services_fail_the_parse() {
    let text = "<Edmx Version=\"1.0\"><DataServices/><DataServices/></Edmx>";
    assert_eq!(
        Edmx::parse(text),
        Err(ParseError::DuplicateChild {
            parent: ElementKind::Edmx,
            child: ElementKind::DataServices
        })
    );
}

#[test]
fn another_root_fails_the_parse() {
    assert_eq!(
        Edmx::parse("<Other Version=\"1.0\"><DataServices/></Other>"),
        Err(ParseError::UnexpectedRoot)
    );
    assert_eq!(Edmx::parse(""), Err(ParseError::UnexpectedRoot));
    assert_eq!(
        Edmx::parse("<Edmx Version=\"1.0\"><DataServices/></Edmx><Edmx Version=\"1.0\"><DataServices/></Edmx>"),
        Err(ParseError::UnexpectedRoot)
    );
}

#[test]
fn ill_formed_text_fails_the_parse() {
    assert_eq!(
        Edmx::parse("<Edmx Version=\"1.0\"><DataServices></Edmx>"),
        Err(ParseError::Malformed)
    );
    assert_eq!(
        Edmx::parse("<Edmx Version=\"1.0\"><DataServices>"),
        Err(ParseError::Malformed)
    );
    assert_eq!(
        Edmx::parse("<Edmx Version=\"1.0\" Version=\"1.0\"><DataServices/></Edmx>"),
        Err(ParseError::Malformed)
    );
    assert_eq!(
        Edmx::parse("<Edmx Version=1.0><DataServices/></Edmx>"),
        Err(ParseError::Malformed)
    );
    assert_eq!(
        Edmx::parse("<Edmx Version=\"&nothing;\"><DataServices/></Edmx>"),
        Err(ParseError::Malformed)
    );
}

#[test]
fn association_needs_exactly_two_ends() {
    let with = |ends: &str| {
        Edmx::parse(&document(&format!(
            "<Schema Namespace=\"N\"><Association Name=\"A\">{}</Association></Schema>",
            ends
        )))
    };
    let end = "<End Role=\"r\" Type=\"N.T\" Multiplicity=\"*\"/>";
    let error = Err(ParseError::EndCount { parent: ElementKind::Association });
    assert_eq!(with(""), error);
    assert_eq!(with(end), error);
    assert_eq!(with(&format!("{0}{0}{0}", end)), error);
    let edmx = with(&format!("{}<End Role=\"s\" EntitySet=\"Set\" Multiplicity=\"0..1\"/>", end)).unwrap();
    let association = &edmx.data_services.schemas[0].associations[0];
    assert_eq!(association.name, "A");
    assert_eq!(association.ends[0].role.as_deref(), Some("r"));
    assert_eq!(association.ends[0].entity_type.as_deref(), Some("N.T"));
    assert_eq!(association.ends[0].entity_set, None);
    assert_eq!(association.ends[0].multiplicity.as_deref(), Some("*"));
    assert_eq!(association.ends[1].role.as_deref(), Some("s"));
    assert_eq!(association.ends[1].entity_set.as_deref(), Some("Set"));
    assert_eq!(association.ends[1].multiplicity.as_deref(), Some("0..1"));
}

#[test]
fn association_set_needs_exactly_two_ends() {
    let with = |ends: &str| {
        Edmx::parse(&document(&format!(
            "<Schema Namespace=\"N\"><EntityContainer Name=\"C\"><AssociationSet Name=\"S\" Association=\"N.A\">{}</AssociationSet></EntityContainer></Schema>",
            ends
        )))
    };
    let end = "<End Role=\"r\" EntitySet=\"Set\"/>";
    let error = Err(ParseError::EndCount { parent: ElementKind::AssociationSet });
    assert_eq!(with(end), error);
    assert_eq!(with(&format!("{0}{0}{0}", end)), error);
    let edmx = with(&format!("{0}{0}", end)).unwrap();
    let sets = edmx.data_services.schemas[0].association_sets().unwrap();
    assert_eq!(sets.len(), 1);
    assert_eq!(sets[0].association, "N.A");
    assert_eq!(sets[0].ends[1].entity_set.as_deref(), Some("Set"));
}

#[test]
fn schema_without_container_has_no_sets_to_show() {
    let edmx = Edmx::parse(&document(
        "<Schema Namespace=\"Default\"/><Schema Namespace=\"Other\"><EntityContainer Name=\"C\"/></Schema>",
    ))
    .unwrap();
    let schemas = &edmx.data_services.schemas;
    assert!(schemas[0].entity_sets().is_none());
    assert!(schemas[0].association_sets().is_none());
    assert_eq!(schemas[1].entity_sets().map(|sets| sets.len()), Some(0));
    assert_eq!(schemas[1].association_sets().map(|sets| sets.len()), Some(0));
}

#[test]
fn default_schema_is_the_first_called_default() {
    let edmx = Edmx::parse(&document(
        "<Schema Namespace=\"default\"/><Schema Namespace=\"Default\"><EntityContainer Name=\"first\"/></Schema><Schema Namespace=\"Default\"/>",
    ))
    .unwrap();
    let schema = edmx.default_schema().unwrap();
    assert_eq!(schema.namespace, "Default");
    assert_eq!(schema.entity_container.as_ref().unwrap().name, "first");
    let none = Edmx::parse(&document("<Schema Namespace=\"Defaults\"/>")).unwrap();
    assert!(none.default_schema().is_none());
    assert!(none.data_services.default_schema().is_none());
}

#[test]
fn key_property_is_found_by_name() {
    let edmx = Edmx::parse(&entity(
        "<Property Name=\"other\" Type=\"Edm.String\"/><Property Name=\"id\" Type=\"Edm.Int16\" Nullable=\"false\"/>",
    ))
    .unwrap();
    let entity = &edmx.data_services.schemas[0].entities[0];
    let key = entity.key_property().unwrap();
    assert_eq!(key.name, "id");
    assert_eq!(key.inner.kind(), Edm::Int16);
}

#[test]
fn dangling_key_is_no_error() {
    let edmx = Edmx::parse(&entity("<Property Name=\"other\" Type=\"Edm.String\"/>")).unwrap();
    let entity = &edmx.data_services.schemas[0].entities[0];
    assert_eq!(entity.key.property_ref.name, "id");
    assert!(entity.key_property().is_none());
}

#[test]
fn composite_key_fails_the_parse() {
    let text = document(
        "<Schema Namespace=\"N\"><EntityType Name=\"T\"><Key><PropertyRef Name=\"a\"/><PropertyRef Name=\"b\"/></Key></EntityType></Schema>",
    );
    assert_eq!(
        Edmx::parse(&text),
        Err(ParseError::DuplicateChild {
            parent: ElementKind::Key,
            child: ElementKind::PropertyRef
        })
    );
}

#[test]
fn entity_without_key_fails_the_parse() {
    let text = document("<Schema Namespace=\"N\"><EntityType Name=\"T\"/></Schema>");
    assert_eq!(
        Edmx::parse(&text),
        Err(ParseError::MissingChild {
            parent: ElementKind::EntityType,
            child: ElementKind::Key
        })
    );
}

#[test]
fn unknown_elements_and_text_are_passed_over() {
    let text = document(
        "<!-- a comment --><Schema Namespace=\"N\">text<Using Namespace=\"X\"><Deep><Deeper><Deepest><More><AndMore><Schema Namespace=\"hidden\"/></AndMore></More></Deepest></Deeper></Deep></Using><ComplexType Name=\"C\"><Property Name=\"p\" Type=\"Edm.Unknown\"/></ComplexType><![CDATA[<Schema/>]]></Schema>",
    );
    let edmx = Edmx::parse(&text).unwrap();
    assert_eq!(edmx.data_services.schemas.len(), 1);
    assert!(edmx.data_services.schemas[0].entities.is_empty());
}

#[test]
fn navigation_properties_are_read() {
    let edmx = Edmx::parse(&entity(
        "<NavigationProperty Name=\"Sagstrin\" Relationship=\"N.A\" ToRole=\"to\" FromRole=\"from\"/>",
    ))
    .unwrap();
    let navigation = &edmx.data_services.schemas[0].entities[0].navigations[0];
    assert_eq!(navigation.name, "Sagstrin");
    assert_eq!(navigation.relationship, "N.A");
    assert_eq!(navigation.to_role, "to");
    assert_eq!(navigation.from_role, "from");
    assert_eq!(
        Edmx::parse(&entity("<NavigationProperty Name=\"n\" Relationship=\"N.A\" FromRole=\"from\"/>")),
        Err(ParseError::MissingAttribute {
            element: ElementKind::NavigationProperty,
            attribute: AttributeKind::ToRole
        })
    );
}

#[test]
fn references_in_values_are_resolved() {
    let edmx = Edmx::parse(&document("<Schema Namespace=\"A &amp; B &lt;&#65;&gt;\"/>")).unwrap();
    assert_eq!(edmx.data_services.schemas[0].namespace, "A & B <A>");
}

#[test]
fn error_messages_name_the_place() {
    assert_eq!(
        ParseError::MissingAttribute {
            element: ElementKind::EntitySet,
            attribute: AttributeKind::EntityType
        }
        .message(),
        "missing attribute EntityType on EntitySet"
    );
    assert_eq!(
        ParseError::EndCount { parent: ElementKind::Association }.message(),
        "not exactly two End elements in Association"
    );
    assert_eq!(ParseError::Malformed.message(), "the text is not well-formed XML");
}

#[test]
fn multiplicity_markers() {
    let end = |marker: Option<&str>| End {
        role: None,
        entity_set: None,
        entity_type: None,
        multiplicity: marker.map(|m| m.to_string()),
    };
    assert_eq!(end(Some("0..1")).cardinality(), Some(Multiplicity::ZeroOrOne));
    assert_eq!(end(Some("1")).cardinality(), Some(Multiplicity::One));
    assert_eq!(end(Some("*")).cardinality(), Some(Multiplicity::Many));
    assert_eq!(end(Some("1..*")).cardinality(), None);
    assert_eq!(end(Some(" 1")).cardinality(), None);
    assert_eq!(end(None).cardinality(), None);
    assert_eq!(end(Some("1..*")).multiplicity.as_deref(), Some("1..*"));
    for multiplicity in [Multiplicity::ZeroOrOne, Multiplicity::One, Multiplicity::Many] {
        assert_eq!(Multiplicity::from_marker(multiplicity.marker()), Some(multiplicity));
    }
}
