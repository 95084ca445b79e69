use odata_edmx::decode::FromElement;
use odata_edmx::encode::{push_tokens, ToElement};
use odata_edmx::error::{AttributeKind, ElementKind, ParseError};
use odata_edmx::literal::FloatLiteral;
use odata_edmx::model::{
    Association, AssociationSet, DataServices, Edmx, EdmxVersion, End, EntityContainer, EntitySet,
    EntityType, Key, NavigationProperty, Property, PropertyRef, PropertyType, Schema,
};
use odata_edmx::timestamp::NaiveTimestamp;
use odata_edmx::tree::{build_forest, write_element, Element};
use odata_edmx::words::Offset;
use odata_edmx::xml::{tokenize, Attribute, Token};

fn end(role: &str, set: Option<&str>, kind: Option<&str>, multiplicity: Option<&str>) -> End {
    End {
        role: Some(role.to_string()),
        entity_set: set.map(|s| s.to_string()),
        entity_type: kind.map(|s| s.to_string()),
        multiplicity: multiplicity.map(|s| s.to_string()),
    }
}

fn property(name: &str, inner: PropertyType, nullable: bool) -> Property {
    Property { name: name.to_string(), inner, nullable }
}

fn literal(text: &str) -> FloatLiteral {
    FloatLiteral { text: text.to_string() }
}

fn all_kinds() -> Vec<Property> {
    vec![
        property(
            "binary",
            PropertyType::Binary {
                max_length: Some(4294967295),
                fixed_length: Some(0),
                default: Some(vec![0, 1, 127, 255]),
            },
            true,
        ),
        property("binary_bare", PropertyType::Binary { max_length: None, fixed_length: None, default: None }, false),
        property("boolean", PropertyType::Boolean { default: Some(false) }, true),
        property("boolean_true", PropertyType::Boolean { default: Some(true) }, false),
        property("byte", PropertyType::Byte { precision: Some(255), default: Some(vec![9]) }, true),
        property(
            "datetime",
            PropertyType::DateTime {
                precision: Some(3),
                default: Some(NaiveTimestamp { seconds: 1442620564, nanoseconds: 123456789 }),
            },
            true,
        ),
        property(
            "leap",
            PropertyType::DateTime {
                precision: None,
                default: Some(NaiveTimestamp { seconds: 1435708799, nanoseconds: 1500000000 }),
            },
            true,
        ),
        property(
            "offset",
            PropertyType::DateTimeOffset {
                precision: Some(0),
                default: Some(Offset { seconds: u64::MAX, nanoseconds: 999999999 }),
            },
            false,
        ),
        property(
            "decimal",
            PropertyType::Decimal { precision: Some(18), default: Some(literal("-12.50")) },
            true,
        ),
        property(
            "double",
            PropertyType::Double { precision: None, default: Some(literal("+1.5E-300")) },
            true,
        ),
        property("nan", PropertyType::Double { precision: None, default: Some(literal("NaN")) }, true),
        property("int16", PropertyType::Int16 { precision: Some(5), default: Some(-32768) }, false),
        property("int16_max", PropertyType::Int16 { precision: None, default: Some(32767) }, true),
        property("int32", PropertyType::Int32 { precision: Some(10), default: Some(vec![1, 2]) }, true),
        property(
            "string",
            PropertyType::String { precision: Some(1), max_length: Some(50), fixed_length: Some(10) },
            true,
        ),
        property(
            "",
            PropertyType::String { precision: None, max_length: None, fixed_length: None },
            false,
        ),
    ]
}

fn model() -> Edmx {
    Edmx {
        version: EdmxVersion::V1_0,
        data_services: DataServices {
            schemas: vec![
                Schema {
                    namespace: "FT.Domain <Models> & \"more\" 'so'\tétè\n\r x ".to_string(),
                    entities: vec![
                        EntityType {
                            name: "Sag".to_string(),
                            key: Key { property_ref: PropertyRef { name: "id".to_string() } },
                            properties: all_kinds(),
                            navigations: vec![NavigationProperty {
                                name: "Sagstrin".to_string(),
                                relationship: "FT.Domain.Models.SagstrinSag".to_string(),
                                to_role: "Sagstrin".to_string(),
                                from_role: "Sag".to_string(),
                            }],
                        },
                        EntityType {
                            name: "Bare".to_string(),
                            key: Key { property_ref: PropertyRef { name: "dangling".to_string() } },
                            properties: vec![],
                            navigations: vec![],
                        },
                    ],
                    associations: vec![Association {
                        name: "SagstrinSag".to_string(),
                        ends: [
                            end("Sag", None, Some("FT.Domain.Models.Sag"), Some("0..1")),
                            end("Sagstrin", None, Some("FT.Domain.Models.Sagstrin"), Some("*")),
                        ],
                    }],
                    entity_container: None,
                },
                Schema {
                    namespace: "Default".to_string(),
                    entities: vec![],
                    associations: vec![],
                    entity_container: Some(EntityContainer {
                        name: "Container".to_string(),
                        entity_sets: vec![
                            EntitySet { name: "Sag".to_string(), entity_type: "FT.Domain.Models.Sag".to_string() },
                            EntitySet { name: "Sagstrin".to_string(), entity_type: "FT.Domain.Models.Sagstrin".to_string() },
                        ],
                        association_sets: vec![AssociationSet {
                            name: "SagstrinSagSet".to_string(),
                            association: "FT.Domain.Models.SagstrinSag".to_string(),
                            ends: [
                                end("Sag", Some("Sag"), None, None),
                                End { role: None, entity_set: None, entity_type: None, multiplicity: None },
                            ],
                        }],
                    }),
                },
                Schema {
                    namespace: "".to_string(),
                    entities: vec![],
                    associations: vec![],
                    entity_container: Some(EntityContainer {
                        name: "Empty".to_string(),
                        entity_sets: vec![],
                        association_sets: vec![],
                    }),
                },
            ],
        },
    }
}

#[test]
fn model_round_trips_through_text() {
    let model = model();
    assert!(model.is_representable());
    let text = model.to_xml().unwrap();
    assert_eq!(Edmx::parse(&text), Ok(model));
}

#[test]
fn model_round_trips_through_tokens() {
    let model = model();
    let tokens = model.to_tokens().unwrap();
    assert_eq!(Edmx::from_tokens(&tokens), Ok(model));
}

#[test]
fn text_and_tokens_agree() {
    let model = model();
    let text = model.to_xml().unwrap();
    assert_eq!(tokenize(&text), model.to_tokens());
}

#[test]
fn smallest_model_is_written_in_full() {
    let model = Edmx { version: EdmxVersion::V1_0, data_services: DataServices { schemas: vec![] } };
    assert_eq!(model.to_xml().as_deref(), Some("<Edmx Version=\"1.0\"><DataServices/></Edmx>"));
    assert_eq!(
        model.to_tokens(),
        Some(vec![
            Token::Open {
                name: "Edmx".to_string(),
                attributes: vec![Attribute { name: "Version".to_string(), value: "1.0".to_string() }],
            },
            Token::Open { name: "DataServices".to_string(), attributes: vec![] },
            Token::Close,
            Token::Close,
        ])
    );
}

#[test]
fn property_is_written_with_its_literals() {
    let property = property(
        "p<q",
        PropertyType::Binary { max_length: Some(16), fixed_length: None, default: Some(vec![1, 20]) },
        false,
    );
    let element = property.to_element().unwrap();
    let mut text = String::new();
    write_element(&element, &mut text);
    assert_eq!(
        text,
        "<Property Name=\"p&lt;q\" Type=\"Edm.Binary\" MaxLength=\"16\" Default=\"1 20\" Nullable=\"false\"/>"
    );
    assert_eq!(Property::from_element(&element), Ok(property));
}

#[test]
fn timestamp_out_of_range_cannot_be_written() {
    let mut model = model();
    model.data_services.schemas[0].entities[0].properties.push(property(
        "late",
        PropertyType::DateTime {
            precision: None,
            default: Some(NaiveTimestamp { seconds: i64::MAX, nanoseconds: 0 }),
        },
        true,
    ));
    assert_eq!(model.to_xml(), None);
    assert_eq!(model.to_tokens(), None);
    assert!(model.to_element().is_none());
    assert!(!model.is_representable());
}

#[test]
fn empty_optional_values_read_back_as_absent() {
    let written = End {
        role: Some(String::new()),
        entity_set: None,
        entity_type: Some("T".to_string()),
        multiplicity: None,
    };
    assert!(!written.is_representable());
    let element = written.to_element().unwrap();
    assert_eq!(
        End::from_element(&element),
        Ok(End { role: None, entity_set: None, entity_type: Some("T".to_string()), multiplicity: None })
    );
    let bytes = property("b", PropertyType::Int32 { precision: None, default: Some(vec![]) }, true);
    assert!(!bytes.is_representable());
    assert_eq!(
        Property::from_element(&bytes.to_element().unwrap()),
        Ok(property("b", PropertyType::Int32 { precision: None, default: None }, true))
    );
}

#[test]
fn offset_with_too_many_nanoseconds_reads_back_carried() {
    let written = property(
        "o",
        PropertyType::DateTimeOffset {
            precision: None,
            default: Some(Offset { seconds: 1, nanoseconds: 2_500_000_000 }),
        },
        true,
    );
    assert!(!written.is_representable());
    assert_eq!(
        Property::from_element(&written.to_element().unwrap()),
        Ok(property(
            "o",
            PropertyType::DateTimeOffset {
                precision: None,
                default: Some(Offset { seconds: 3, nanoseconds: 500_000_000 }),
            },
            true
        ))
    );
}

#[test]
fn ill_formed_literal_does_not_read_back() {
    let written = property(
        "d",
        PropertyType::Double { precision: None, default: Some(literal("about two")) },
        true,
    );
    assert!(!written.is_representable());
    assert_eq!(
        Property::from_element(&written.to_element().unwrap()),
        Err(ParseError::InvalidAttribute {
            element: ElementKind::Property,
            attribute: AttributeKind::Default
        })
    );
}

fn open(name: &str, attributes: &[(&str, &str)]) -> Token {
    Token::Open {
        name: name.to_string(),
        attributes: attributes
            .iter()
            .map(|(name, value)| Attribute { name: name.to_string(), value: value.to_string() })
            .collect(),
    }
}

#[test]
fn tokens_are_read_with_local_names_and_decoded_values() {
    let tokens = tokenize(
        "<?xml version=\"1.0\"?><!-- c --><a:b x:y = 'v&amp;w' z=\"&#9;t \n u\"> text <c/> &amp; </a:b>",
    );
    assert_eq!(
        tokens,
        Some(vec![
            open("b", &[("y", "v&w"), ("z", "\tt   u")]),
            open("c", &[]),
            Token::Close,
            Token::Close,
        ])
    );
    assert_eq!(tokenize(""), Some(vec![]));
    assert_eq!(tokenize("just text"), Some(vec![]));
    assert_eq!(tokenize("<a><b></a></b>"), None);
    assert_eq!(tokenize("</a>"), None);
    assert_eq!(tokenize("<a x=\"1\" x=\"2\"/>"), None);
    assert_eq!(tokenize("<a x/>"), None);
    assert_eq!(tokenize("<a"), None);
    assert_eq!(tokenize("<a>"), Some(vec![open("a", &[])]));
}

#[test]
fn forest_is_built_from_tokens() {
    let tokens = vec![
        open("a", &[("k", "v")]),
        open("b", &[]),
        Token::Close,
        open("c", &[]),
        open("d", &[]),
        Token::Close,
        Token::Close,
        Token::Close,
        open("e", &[]),
        Token::Close,
    ];
    let forest = build_forest(&tokens).unwrap();
    assert_eq!(forest.len(), 2);
    assert_eq!(forest[0].name, "a");
    assert_eq!(forest[0].attributes, vec![Attribute { name: "k".to_string(), value: "v".to_string() }]);
    assert_eq!(forest[0].children.len(), 2);
    assert_eq!(forest[0].children[0].name, "b");
    assert_eq!(forest[0].children[1].name, "c");
    assert_eq!(forest[0].children[1].children[0].name, "d");
    assert_eq!(forest[1].name, "e");
    let mut again = Vec::new();
    push_tokens(&forest[0], &mut again);
    push_tokens(&forest[1], &mut again);
    assert_eq!(again, tokens);
    assert_eq!(build_forest(&[Token::Close].to_vec()), None);
    assert_eq!(build_forest(&vec![open("a", &[])]), None);
    assert_eq!(build_forest(&vec![open("a", &[]), Token::Close, Token::Close]), None);
    assert_eq!(build_forest(&vec![]), Some(vec![]));
}

#[test]
fn elements_below_the_kept_depth_are_passed_over() {
    let depth = 100_000;
    let mut tokens = Vec::new();
    for _ in 0..depth {
        tokens.push(open("n", &[]));
    }
    for _ in 0..depth {
        tokens.push(Token::Close);
    }
    let forest = build_forest(&tokens).unwrap();
    let mut levels = 0;
    let mut at: Option<&Element> = forest.first();
    while let Some(element) = at {
        levels += 1;
        at = element.children.first();
    }
    assert_eq!(levels, 8);
    let mut text = String::new();
    for _ in 0..depth {
        text.push_str("<n>");
    }
    for _ in 0..depth {
        text.push_str("</n>");
    }
    assert_eq!(Edmx::parse(&text), Err(ParseError::UnexpectedRoot));
}

#[test]
fn from_tokens_refuses_what_is_no_document() {
    assert_eq!(Edmx::from_tokens(&vec![]), Err(ParseError::UnexpectedRoot));
    assert_eq!(Edmx::from_tokens(&vec![Token::Close]), Err(ParseError::Malformed));
    assert_eq!(
        Edmx::from_tokens(&vec![open("Edmx", &[("Version", "1.0")])]),
        Err(ParseError::Malformed)
    );
    assert_eq!(
        Edmx::from_tokens(&vec![
            open("Edmx", &[("Version", "1.0")]),
            open("DataServices", &[]),
            Token::Close,
            Token::Close
        ]),
        Ok(Edmx { version: EdmxVersion::V1_0, data_services: DataServices { schemas: vec![] } })
    );
    assert_eq!(
        Edmx::from_tokens(&vec![
            open("Edmx", &[("Other", "1.0"), ("Version", "1.0"), ("Version", "2.0")]),
            open("DataServices", &[]),
            Token::Close,
            Token::Close
        ]),
        Ok(Edmx { version: EdmxVersion::V1_0, data_services: DataServices { schemas: vec![] } })
    );
}

#[test]
fn every_representable_part_reads_back() {
    for property in all_kinds() {
        assert!(property.is_representable(), "{:?}", property);
        assert_eq!(Property::from_element(&property.to_element().unwrap()), Ok(property));
    }
    for schema in model().data_services.schemas {
        assert!(schema.is_representable());
        assert_eq!(Schema::from_element(&schema.to_element().unwrap()), Ok(schema));
    }
}
