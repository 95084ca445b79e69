use odata_edmx::error::{AttributeKind, ElementKind, ParseError};
use odata_edmx::lexical::{
    format_bool, format_i16, format_u64, parse_bool, parse_i16, parse_u32, parse_u8,
};
use odata_edmx::literal::{parse_float_literal, FloatLiteral};
use odata_edmx::model::{Edm, Edmx, EdmxVersion, PropertyType};
use odata_edmx::encode::ToElement;
use odata_edmx::model::Property;
use odata_edmx::timestamp::NaiveTimestamp;
use odata_edmx::words::{
    format_byte_list, format_offset, parse_byte_list, parse_offset, Offset,
};

fn property(attributes: &str) -> Result<PropertyType, ParseError> {
    let text = format!(
        "<Edmx Version=\"1.0\"><DataServices><Schema Namespace=\"N\"><EntityType Name=\"T\"><Key><PropertyRef Name=\"id\"/></Key><Property Name=\"p\" {}/></EntityType></Schema></DataServices></Edmx>",
        attributes
    );
    Edmx::parse(&text).map(|edmx| edmx.data_services.schemas[0].entities[0].properties[0].inner.clone())
}

fn parse_timestamp(text: &str) -> Option<NaiveTimestamp> {
    match property(&format!("Type=\"Edm.DateTime\" Default=\"{}\"", text)) {
        Ok(PropertyType::DateTime { default, .. }) => default,
        Err(error) => {
            assert_eq!(error, invalid(AttributeKind::Default));
            None
        }
        other => panic!("{:?}", other),
    }
}

fn format_timestamp(timestamp: NaiveTimestamp) -> Option<String> {
    let property = Property {
        name: "p".to_string(),
        inner: PropertyType::DateTime { precision: None, default: Some(timestamp) },
        nullable: true,
    };
    assert_eq!(property.to_element().is_some(), property.is_representable());
    property.to_element().map(|element| {
        element.attributes.iter().find(|a| a.name == "Default").unwrap().value.clone()
    })
}

fn invalid(attribute: AttributeKind) -> ParseError {
    ParseError::InvalidAttribute { element: ElementKind::Property, attribute }
}

#[test]
fn unsigned_numbers() {
    assert_eq!(parse_u8("0"), Some(0));
    assert_eq!(parse_u8("255"), Some(255));
    assert_eq!(parse_u8("256"), None);
    assert_eq!(parse_u8("+7"), Some(7));
    assert_eq!(parse_u8("007"), Some(7));
    assert_eq!(parse_u8(" \t12\r\n"), Some(12));
    assert_eq!(parse_u8("-1"), None);
    assert_eq!(parse_u8(""), None);
    assert_eq!(parse_u8("+"), None);
    assert_eq!(parse_u8("1 2"), None);
    assert_eq!(parse_u8("1a"), None);
    assert_eq!(parse_u8("\u{663}"), None);
    assert_eq!(parse_u32("4294967295"), Some(4294967295));
    assert_eq!(parse_u32("4294967296"), None);
    assert_eq!(parse_u32("000000000000000000000000000000000001"), Some(1));
}

#[test]
fn signed_numbers() {
    assert_eq!(parse_i16("-32768"), Some(i16::MIN));
    assert_eq!(parse_i16("32767"), Some(i16::MAX));
    assert_eq!(parse_i16("+32767"), Some(i16::MAX));
    assert_eq!(parse_i16("32768"), None);
    assert_eq!(parse_i16("-32769"), None);
    assert_eq!(parse_i16("-0"), Some(0));
    assert_eq!(parse_i16("-"), None);
    assert_eq!(parse_i16("--1"), None);
    assert_eq!(parse_i16("+-1"), None);
    assert_eq!(parse_i16(" -12 "), Some(-12));
}

#[test]
fn numbers_are_written_as_they_are_read() {
    assert_eq!(format_u64(0), "0");
    assert_eq!(format_u64(10), "10");
    assert_eq!(format_u64(u64::MAX), "18446744073709551615");
    assert_eq!(format_i16(i16::MIN), "-32768");
    assert_eq!(format_i16(-1), "-1");
    assert_eq!(format_i16(0), "0");
    assert_eq!(format_i16(i16::MAX), "32767");
    for n in [0u64, 9, 10, 99, 100, 1234567890, u64::MAX] {
        assert_eq!(
            parse_offset(&format!("{} 0", format_u64(n))),
            Some(Offset { seconds: n, nanoseconds: 0 })
        );
    }
    for n in [0u32, 9, 10, 4294967295] {
        assert_eq!(parse_u32(&format_u64(u64::from(n))), Some(n));
    }
    assert_eq!(parse_offset("18446744073709551616 0"), None);
    assert_eq!(parse_offset("99999999999999999999999999 0"), None);
    for n in [i16::MIN, -100, -1, 0, 1, 99, i16::MAX] {
        assert_eq!(parse_i16(&format_i16(n)), Some(n));
    }
}

#[test]
fn booleans() {
    assert_eq!(parse_bool("true"), Some(true));
    assert_eq!(parse_bool("1"), Some(true));
    assert_eq!(parse_bool("false"), Some(false));
    assert_eq!(parse_bool("0"), Some(false));
    assert_eq!(parse_bool(" true\n"), Some(true));
    assert_eq!(parse_bool("True"), None);
    assert_eq!(parse_bool("yes"), None);
    assert_eq!(parse_bool(""), None);
    assert_eq!(format_bool(true), "true");
    assert_eq!(format_bool(false), "false");
    assert_eq!(parse_bool(&format_bool(true)), Some(true));
    assert_eq!(parse_bool(&format_bool(false)), Some(false));
}

#[test]
fn byte_lists() {
    assert_eq!(parse_byte_list("1 2 255"), Some(vec![1, 2, 255]));
    assert_eq!(parse_byte_list("  7   8 "), Some(vec![7, 8]));
    assert_eq!(parse_byte_list("42"), Some(vec![42]));
    assert_eq!(parse_byte_list(""), Some(vec![]));
    assert_eq!(parse_byte_list("   "), Some(vec![]));
    assert_eq!(parse_byte_list("1 256"), None);
    assert_eq!(parse_byte_list("1,2"), None);
    assert_eq!(parse_byte_list("1 x 2"), None);
    assert_eq!(format_byte_list(&vec![]), "");
    assert_eq!(format_byte_list(&vec![0]), "0");
    assert_eq!(format_byte_list(&vec![1, 20, 255]), "1 20 255");
    let bytes: Vec<u8> = (0..=255).collect();
    assert_eq!(parse_byte_list(&format_byte_list(&bytes)), Some(bytes));
}

#[test]
fn offsets() {
    assert_eq!(parse_offset("3600 0"), Some(Offset { seconds: 3600, nanoseconds: 0 }));
    assert_eq!(parse_offset(" 1  500000000 "), Some(Offset { seconds: 1, nanoseconds: 500000000 }));
    assert_eq!(parse_offset("5 1500000000"), Some(Offset { seconds: 6, nanoseconds: 500000000 }));
    assert_eq!(
        parse_offset("18446744073709551615 999999999"),
        Some(Offset { seconds: u64::MAX, nanoseconds: 999999999 })
    );
    assert_eq!(parse_offset("18446744073709551615 1000000000"), None);
    assert_eq!(parse_offset("3600"), None);
    assert_eq!(parse_offset("1 2 3"), None);
    assert_eq!(parse_offset("1 4294967296"), None);
    assert_eq!(parse_offset("-1 0"), None);
    assert_eq!(parse_offset(""), None);
    assert_eq!(format_offset(Offset { seconds: 90, nanoseconds: 7 }), "90 7");
    let offset = Offset { seconds: 1234, nanoseconds: 999999999 };
    assert_eq!(parse_offset(&format_offset(offset)), Some(offset));
}

#[test]
fn float_literals() {
    for text in [
        "0", "1", "3.14", "-2.5", "+7", "1.", ".5", "1e10", "1E-10", "1.5e+3", "-.5E2", "inf",
        "-inf", "+Infinity", "NaN", "nan", "INFINITY", "iNf",
    ] {
        assert_eq!(
            parse_float_literal(text),
            Some(FloatLiteral { text: text.to_string() }),
            "{}",
            text
        );
        assert!(text.parse::<f64>().is_ok(), "{}", text);
    }
    for text in [
        "", ".", "+", "-", "e5", "1e", "1e+", "1.2.3", "1e5e5", "0x10", "1 2", "infinit", "nanx",
        "--1", "1_000", "1,5", "\u{661}", "1f", ".e5", "+.",
    ] {
        assert_eq!(parse_float_literal(text), None, "{}", text);
        assert!(text.parse::<f64>().is_err(), "{}", text);
    }
    assert_eq!(
        parse_float_literal("  12.5\t"),
        Some(FloatLiteral { text: "12.5".to_string() })
    );
}

#[test]
fn timestamps() {
    assert_eq!(
        parse_timestamp("1970-01-01T00:00:00"),
        Some(NaiveTimestamp { seconds: 0, nanoseconds: 0 })
    );
    assert_eq!(
        parse_timestamp("2015-09-18T23:56:04"),
        Some(NaiveTimestamp { seconds: 1442620564, nanoseconds: 0 })
    );
    assert_eq!(
        parse_timestamp("2015-09-18T23:56:04.5"),
        Some(NaiveTimestamp { seconds: 1442620564, nanoseconds: 500000000 })
    );
    assert_eq!(
        parse_timestamp("1969-12-31T23:59:59.25"),
        Some(NaiveTimestamp { seconds: -1, nanoseconds: 250000000 })
    );
    assert_eq!(
        parse_timestamp("2015-06-30T23:59:60"),
        Some(NaiveTimestamp { seconds: 1435708799, nanoseconds: 1000000000 })
    );
    assert_eq!(parse_timestamp("2015-09-18"), None);
    assert_eq!(parse_timestamp("2015-13-18T00:00:00"), None);
    assert_eq!(parse_timestamp("2015-09-18T23:56:04Z"), None);
    assert_eq!(parse_timestamp("foo"), None);
    assert_eq!(parse_timestamp(""), None);
    assert_eq!(
        format_timestamp(NaiveTimestamp { seconds: 1442620564, nanoseconds: 0 }).as_deref(),
        Some("2015-09-18T23:56:04")
    );
    assert_eq!(
        format_timestamp(NaiveTimestamp { seconds: 1442620564, nanoseconds: 500000000 }).as_deref(),
        Some("2015-09-18T23:56:04.500")
    );
    assert_eq!(format_timestamp(NaiveTimestamp { seconds: i64::MAX, nanoseconds: 0 }), None);
    assert_eq!(format_timestamp(NaiveTimestamp { seconds: 0, nanoseconds: 1000000000 }), None);
    for timestamp in [
        NaiveTimestamp { seconds: 0, nanoseconds: 0 },
        NaiveTimestamp { seconds: -1, nanoseconds: 999999999 },
        NaiveTimestamp { seconds: 1435708799, nanoseconds: 1250000000 },
        NaiveTimestamp { seconds: 253402300800, nanoseconds: 1 },
        NaiveTimestamp { seconds: -62198755200, nanoseconds: 0 },
        NaiveTimestamp { seconds: -8000000000000, nanoseconds: 5 },
        NaiveTimestamp { seconds: 8000000000000, nanoseconds: 123456789 },
    ] {
        let text = format_timestamp(timestamp).unwrap();
        assert_eq!(parse_timestamp(&text), Some(timestamp), "{}", text);
    }
}

#[test]
fn type_literals() {
    let kinds = [
        (Edm::Binary, "Edm.Binary"),
        (Edm::Boolean, "Edm.Boolean"),
        (Edm::Byte, "Edm.Byte"),
        (Edm::DateTime, "Edm.DateTime"),
        (Edm::DateTimeOffset, "Edm.DateTimeOffset"),
        (Edm::Decimal, "Edm.Decimal"),
        (Edm::Double, "Edm.Double"),
        (Edm::Int16, "Edm.Int16"),
        (Edm::Int32, "Edm.Int32"),
        (Edm::String, "Edm.String"),
    ];
    for (kind, literal) in kinds {
        assert_eq!(kind.literal(), literal);
        assert_eq!(Edm::from_literal(literal), Some(kind));
        assert_eq!(property(&format!("Type=\"{}\"", literal)).unwrap().kind(), kind);
    }
    assert_eq!(Edm::from_literal("Edm.Int64"), None);
    assert_eq!(Edm::from_literal(" Edm.String"), None);
    assert_eq!(Edm::from_literal(""), None);
    assert_eq!(EdmxVersion::V1_0.literal(), "1.0");
    assert_eq!(EdmxVersion::from_literal("1.0"), Some(EdmxVersion::V1_0));
    assert_eq!(EdmxVersion::from_literal("1"), None);
}

#[test]
fn facets_of_each_kind() {
    assert_eq!(
        property("Type=\"Edm.Binary\" MaxLength=\"16\" FixedLength=\"8\" Default=\"1 2 3\""),
        Ok(PropertyType::Binary {
            max_length: Some(16),
            fixed_length: Some(8),
            default: Some(vec![1, 2, 3])
        })
    );
    assert_eq!(
        property("Type=\"Edm.Boolean\" Default=\"true\""),
        Ok(PropertyType::Boolean { default: Some(true) })
    );
    assert_eq!(
        property("Type=\"Edm.Byte\" Precision=\"3\" Default=\"200\""),
        Ok(PropertyType::Byte { precision: Some(3), default: Some(vec![200]) })
    );
    assert_eq!(
        property("Type=\"Edm.DateTime\" Precision=\"3\" Default=\"2015-09-18T23:56:04\""),
        Ok(PropertyType::DateTime {
            precision: Some(3),
            default: Some(NaiveTimestamp { seconds: 1442620564, nanoseconds: 0 })
        })
    );
    assert_eq!(
        property("Type=\"Edm.DateTimeOffset\" Default=\"3600 0\""),
        Ok(PropertyType::DateTimeOffset {
            precision: None,
            default: Some(Offset { seconds: 3600, nanoseconds: 0 })
        })
    );
    assert_eq!(
        property("Type=\"Edm.Decimal\" Precision=\"10\" Default=\"12.50\""),
        Ok(PropertyType::Decimal {
            precision: Some(10),
            default: Some(FloatLiteral { text: "12.50".to_string() })
        })
    );
    assert_eq!(
        property("Type=\"Edm.Double\" Default=\"-1e-3\""),
        Ok(PropertyType::Double {
            precision: None,
            default: Some(FloatLiteral { text: "-1e-3".to_string() })
        })
    );
    assert_eq!(
        property("Type=\"Edm.Int16\" Precision=\"5\" Default=\"-12\""),
        Ok(PropertyType::Int16 { precision: Some(5), default: Some(-12) })
    );
    assert_eq!(
        property("Type=\"Edm.Int32\" Default=\"42\""),
        Ok(PropertyType::Int32 { precision: None, default: Some(vec![42]) })
    );
    assert_eq!(
        property("Type=\"Edm.String\" Precision=\"1\" MaxLength=\"50\" FixedLength=\"10\""),
        Ok(PropertyType::String {
            precision: Some(1),
            max_length: Some(50),
            fixed_length: Some(10)
        })
    );
}

#[test]
fn facets_of_other_kinds_are_not_looked_at() {
    assert_eq!(
        property("Type=\"Edm.Int16\" MaxLength=\"Max\" FixedLength=\"x\""),
        Ok(PropertyType::Int16 { precision: None, default: None })
    );
    assert_eq!(
        property("Type=\"Edm.String\" Default=\"anything\""),
        Ok(PropertyType::String { precision: None, max_length: None, fixed_length: None })
    );
    assert_eq!(
        property("Type=\"Edm.Boolean\" Precision=\"none\""),
        Ok(PropertyType::Boolean { default: None })
    );
}

#[test]
fn empty_facets_count_as_absent() {
    assert_eq!(
        property("Type=\"Edm.Binary\" MaxLength=\"\" Default=\"\""),
        Ok(PropertyType::Binary { max_length: None, fixed_length: None, default: None })
    );
    assert_eq!(
        property("Type=\"Edm.Int16\" Precision=\"\" Default=\"\" Nullable=\"\""),
        Ok(PropertyType::Int16 { precision: None, default: None })
    );
}

#[test]
fn ill_formed_facets_fail_the_parse() {
    assert_eq!(
        property("Type=\"Edm.String\" MaxLength=\"Max\""),
        Err(invalid(AttributeKind::MaxLength))
    );
    assert_eq!(
        property("Type=\"Edm.Binary\" FixedLength=\"-1\""),
        Err(invalid(AttributeKind::FixedLength))
    );
    assert_eq!(
        property("Type=\"Edm.Byte\" Precision=\"256\""),
        Err(invalid(AttributeKind::Precision))
    );
    assert_eq!(
        property("Type=\"Edm.Int16\" Default=\"40000\""),
        Err(invalid(AttributeKind::Default))
    );
    assert_eq!(
        property("Type=\"Edm.Int32\" Default=\"1000\""),
        Err(invalid(AttributeKind::Default))
    );
    assert_eq!(
        property("Type=\"Edm.Boolean\" Default=\"maybe\""),
        Err(invalid(AttributeKind::Default))
    );
    assert_eq!(
        property("Type=\"Edm.DateTime\" Default=\"yesterday\""),
        Err(invalid(AttributeKind::Default))
    );
    assert_eq!(
        property("Type=\"Edm.DateTimeOffset\" Default=\"PT1H\""),
        Err(invalid(AttributeKind::Default))
    );
    assert_eq!(
        property("Type=\"Edm.Double\" Default=\"1.2.3\""),
        Err(invalid(AttributeKind::Default))
    );
    assert_eq!(
        property("Type=\"Edm.String\" Nullable=\"no\""),
        Err(invalid(AttributeKind::Nullable))
    );
    assert_eq!(
        property("Nullable=\"false\""),
        Err(ParseError::MissingAttribute {
            element: ElementKind::Property,
            attribute: AttributeKind::Type
        })
    );
}

#[test]
fn facets_may_contradict_each_other() {
    assert_eq!(
        property("Type=\"Edm.String\" MaxLength=\"5\" FixedLength=\"10\""),
        Ok(PropertyType::String { precision: None, max_length: Some(5), fixed_length: Some(10) })
    );
}

#[test]
fn timestamps_at_the_ends_of_the_calendar() {
    let moments = [
        chrono::NaiveDateTime::MIN,
        chrono::NaiveDateTime::MAX,
        chrono::NaiveDate::from_ymd_opt(0, 1, 1).unwrap().and_hms_opt(0, 0, 0).unwrap(),
        chrono::NaiveDate::from_ymd_opt(-1, 12, 31).unwrap().and_hms_nano_opt(23, 59, 59, 1).unwrap(),
        chrono::NaiveDate::from_ymd_opt(9999, 12, 31).unwrap().and_hms_milli_opt(23, 59, 59, 999).unwrap(),
        chrono::NaiveDate::from_ymd_opt(10000, 1, 1).unwrap().and_hms_micro_opt(0, 0, 0, 1).unwrap(),
        chrono::NaiveDate::from_ymd_opt(2016, 12, 31).unwrap().and_hms_nano_opt(23, 59, 59, 1_999_999_999).unwrap(),
    ];
    for moment in moments {
        let timestamp = NaiveTimestamp {
            seconds: moment.and_utc().timestamp(),
            nanoseconds: moment.and_utc().timestamp_subsec_nanos(),
        };
        let text = format_timestamp(timestamp).unwrap();
        assert_eq!(text, format!("{:?}", moment));
        assert_eq!(parse_timestamp(&text), Some(timestamp), "{}", text);
    }
    let before = NaiveTimestamp {
        seconds: chrono::NaiveDateTime::MIN.and_utc().timestamp() - 1,
        nanoseconds: 0,
    };
    assert_eq!(format_timestamp(before), None);
    let after = NaiveTimestamp {
        seconds: chrono::NaiveDateTime::MAX.and_utc().timestamp() + 1,
        nanoseconds: 0,
    };
    assert_eq!(format_timestamp(after), None);
    assert_eq!(format_timestamp(NaiveTimestamp { seconds: 59, nanoseconds: 2_000_000_000 }), None);
    assert_eq!(format_timestamp(NaiveTimestamp { seconds: 58, nanoseconds: 1_000_000_000 }), None);
}
