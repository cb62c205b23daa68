//! Tests of attribute parsing.

use rune::ast::attribute::AttrInput;
use rune::ast::error::ParseErrorKind;
use rune::ast::parse::parse_all;
use rune::ast::Attribute;

#[test]
fn test_attr_input() {
    parse_all::<AttrInput>("= 1").unwrap();
    parse_all::<AttrInput>("= \"a\"").unwrap();
    parse_all::<AttrInput>("= b\"1\"").unwrap();
    parse_all::<AttrInput>("= false").unwrap();
    parse_all::<AttrInput>("= [1,2,3] }").unwrap();
    parse_all::<AttrInput>("= #{\"field\": [1,2,3] }").unwrap();
}

#[test]
fn test_attribute() {
    let test_strings: &[&'static str] = &[
        "#[foo]",
        "#[a::b::c]",
        "#[foo = \"hello world\"]",
        "#[foo = 1]",
        "#[foo = 1.3]",
        "#[foo = true]",
        "#[foo = b\"bytes\"]",
        "#[foo = (1, 2, \"string\")]",
        "#[foo = #{\"a\": 1} ]",
        r#"#[foo = Fred {"a": 1} ]"#,
        r#"#[foo = a::Fred {"a": #{ "b": 2 } } ]"#,
        "#[bar()]",
        "#[bar(baz)]",
        "#[derive(Debug, PartialEq, PartialOrd)]",
        "#[tracing::instrument(skip(non_debug))]",
        "#[zanzibar(a = \"z\", both = false, sasquatch::herring)]",
        r#"#[doc = "multiline \
                  docs are neat"
          ]"#,
    ];

    for s in test_strings.iter() {
        parse_all::<Attribute>(s).expect(s);
        let withbang = s.replacen("#[", "#![", 1);
        parse_all::<Attribute>(&withbang).expect(&withbang);
    }
}

#[test]
fn a_mismatched_delimiter_is_rejected() {
    assert!(parse_all::<AttrInput>("(a]").is_err());
    assert!(parse_all::<Attribute>("#[foo").is_err());
}

#[test]
fn source_outside_the_supported_range_is_rejected() {
    match parse_all::<Attribute>("#[caf\u{e9}]") {
        Err(e) => assert_eq!(e.kind, ParseErrorKind::UnsupportedByte),
        Ok(_) => panic!("an attribute with an unsupported byte parsed"),
    }
}

#[test]
fn an_unterminated_string_is_rejected() {
    match parse_all::<AttrInput>("= \"open") {
        Err(e) => assert_eq!(e.kind, ParseErrorKind::UnterminatedLiteral),
        Ok(_) => panic!("an unterminated string parsed"),
    }
}
