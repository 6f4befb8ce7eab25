use raytracer::parsers::{
    any_char, array_u32, either, match_literal, one_or_more, pred, string_in_quotes, AnyChar,
    IsWhitespace, Parser, PredParser,
};
use raytracer::xml::{
    attributes, data_or_elements, element, element_with_name, single_element, DataOrElements,
    Element,
};

#[test]
fn attribute_parser() {
    assert_eq!(
        Ok((
            "".to_string(),
            vec![
                ("one".to_string(), "1".to_string()),
                ("two".to_string(), "2".to_string())
            ]
        )),
        attributes().parse(" one=\"1\" two=\"2\"")
    );
}

#[test]
fn test_data_or_elements_with_data() {
    let doc = r#"foo</elem>"#;
    let res = data_or_elements().parse(doc);
    assert_eq!(
        Ok(("</elem>".to_string(), DataOrElements::Data("foo".to_string()))),
        res
    );
}

#[test]
fn test_data_or_elements_with_element() {
    let doc = r#"<foo/></elem>"#;
    let res = data_or_elements().parse(doc);
    let expected = DataOrElements::Elements(vec![Element {
        name: "foo".to_string(),
        data_or_elements: DataOrElements::Elements(vec![]),
        attributes: vec![],
    }]);
    assert_eq!(Ok(("</elem>".to_string(), expected)), res);
}

#[test]
fn test_data_or_elements_with_nothing() {
    let doc = r#"</elem>"#;
    let res = data_or_elements().parse(doc);
    let expected = DataOrElements::Data("".to_string());
    assert_eq!(Ok(("</elem>".to_string(), expected)), res);
}

#[test]
fn test_element_with_data() {
    let doc = r#"<elem>foo</elem>"#;
    let res = element().parse(doc);
    let expected = Element {
        name: "elem".to_string(),
        data_or_elements: DataOrElements::Data("foo".to_string()),
        attributes: vec![],
    };
    assert_eq!(res, Ok(("".to_string(), expected)));
}

#[test]
fn xml_parser() {
    let doc = r#"
        <top label="Top">
            <semi-bottom label="Bottom"/>
            <middle>
                <bottom label="Another bottom"/>
            </middle>
        </top>"#;
    let parsed_doc = Element {
        name: "top".to_string(),
        attributes: vec![("label".to_string(), "Top".to_string())],
        data_or_elements: DataOrElements::Elements(vec![
            Element {
                name: "semi-bottom".to_string(),
                attributes: vec![("label".to_string(), "Bottom".to_string())],
                data_or_elements: DataOrElements::Elements(vec![]),
            },
            Element {
                name: "middle".to_string(),
                attributes: vec![],
                data_or_elements: DataOrElements::Elements(vec![Element {
                    name: "bottom".to_string(),
                    attributes: vec![("label".to_string(), "Another bottom".to_string())],
                    data_or_elements: DataOrElements::Elements(vec![]),
                }]),
            },
        ]),
    };
    assert_eq!(Ok(("".to_string(), parsed_doc)), element().parse(doc));
}

#[test]
fn match_literal_accepts_and_rejects() {
    let p = match_literal("<tag");
    assert!(p.parse("<tag rest").is_ok());
    let r = p.parse("<tag rest").unwrap();
    assert_eq!(r.0, " rest".to_string());
    assert!(p.parse("<ta").is_err());
    assert!(p.parse("other").is_err());
}

#[test]
fn any_char_takes_one() {
    let r = any_char("ab").unwrap();
    assert_eq!(r, ("b".to_string(), 'a'));
    assert!(any_char("").is_err());
}

#[test]
fn string_in_quotes_reads_contents() {
    let p = string_in_quotes();
    let r = p.parse("\"hello\" tail").unwrap();
    assert_eq!(r, (" tail".to_string(), "hello".to_string()));
    assert!(p.parse("\"unterminated").is_err());
}

#[test]
fn array_u32_reads_numbers() {
    let p = array_u32();
    let r = p.parse("12 24 5").unwrap();
    assert_eq!(r.1, vec![12u32, 24u32, 5u32]);
    // an entry past the 32-bit range comes out as zero rather than stopping
    let r2 = p.parse("4294967296 7").unwrap();
    assert_eq!(r2.1, vec![0u32, 7u32]);
}

#[test]
fn either_takes_first_then_second() {
    let p = either(match_literal("a"), match_literal("b"));
    assert!(p.parse("a").is_ok());
    assert!(p.parse("b").is_ok());
    assert!(p.parse("c").is_err());
}

#[test]
fn one_or_more_needs_one() {
    let ws: PredParser<AnyChar, IsWhitespace> = pred(AnyChar {}, IsWhitespace {});
    let p = one_or_more(ws);
    assert!(p.parse("x").is_err());
    let r = p.parse("  x").unwrap();
    assert_eq!(r.0, "x".to_string());
    assert_eq!(r.1.len(), 2);
}

#[test]
fn element_with_name_checks_name() {
    let good = element_with_name("elem".to_string());
    assert!(good.parse("<elem>foo</elem>").is_ok());
    let bad = element_with_name("other".to_string());
    assert!(bad.parse("<elem>foo</elem>").is_err());
}

#[test]
fn single_element_reads_attributes() {
    let r = single_element().parse("<p a=\"1\"/>rest").unwrap();
    assert_eq!(r.0, "rest".to_string());
    assert_eq!(r.1.name, "p".to_string());
    assert_eq!(r.1.attributes, vec![("a".to_string(), "1".to_string())]);
}

#[test]
fn element_getters_find_things() {
    let r = element()
        .parse("<top label=\"Top\"><kid name=\"k\"/></top>")
        .unwrap();
    let e = r.1;
    assert_eq!(e.get_attrib_value("label").unwrap(), "Top");
    assert!(e.get_attrib_value("missing").is_err());
    let kid = e.get_child_by_name("kid").unwrap();
    assert_eq!(kid.name, "k".to_string().replace("k", "kid"));
    assert!(e.get_child_by_name("nope").is_err());
    let by_attrib = e.get_child_by_attrib(("name", "k".to_string())).unwrap();
    assert_eq!(by_attrib.name, "kid".to_string());
    assert!(e.get_as_data().is_err());
    let d = element().parse("<x>text</x>").unwrap().1;
    assert_eq!(d.get_as_data().unwrap(), "text");
}
