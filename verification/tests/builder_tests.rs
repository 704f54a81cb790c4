use pact_mock_server::builders::{
    DataType, Generator, GeneratorCategory, HttpPart, HttpPartBuilder, MatchingRule,
    StringPattern,
};
use pact_mock_server::contract::OptionalBody;
use pact_mock_server::json::{
    json_escape, i64_to_string, u64_to_string, value_text, JsonPattern, JsonScalarPattern,
    JsonValue, render_pattern,
};

#[test]
fn header_pattern() {
    let mut pattern = HttpPart::new();
    let term = StringPattern::term(
        String::from("application/.*"),
        String::from("application/json"),
    )
    .unwrap();
    pattern.header(&String::from("Content-Type"), &term);
    assert_eq!(
        pattern.headers,
        vec![(String::from("Content-Type"), vec![String::from("application/json")])]
    );
    assert_eq!(pattern.matching_rules.entries.len(), 1);
    let rule = &pattern.matching_rules.entries[0];
    assert_eq!(rule.category, "header");
    assert_eq!(rule.path, "$.Content-Type");
    assert!(matches!(&rule.rule, MatchingRule::Regex(r) if r == "application/.*"));

    let mut good = HttpPart::new();
    good.header(
        &String::from("Content-Type"),
        &StringPattern::Equality(String::from("application/xml")),
    );
    let mut bad = HttpPart::new();
    bad.header(
        &String::from("Content-Type"),
        &StringPattern::Equality(String::from("text/html")),
    );
    assert_eq!(good.headers[0].1, vec![String::from("application/xml")]);
    assert_eq!(bad.headers[0].1, vec![String::from("text/html")]);
    assert!(good.matching_rules.entries.is_empty());
}

#[test]
fn header_generator() {
    let mut actual = HttpPart::new();
    actual.header_from_provider_state(
        &String::from("Authorization"),
        &String::from("token"),
        &StringPattern::Equality(String::from("some-token")),
    );
    assert_eq!(
        actual.headers,
        vec![(String::from("Authorization"), vec![String::from("some-token")])]
    );
    assert_eq!(actual.generators.entries.len(), 1);
    let entry = &actual.generators.entries[0];
    assert_eq!(entry.category, GeneratorCategory::HEADER);
    assert_eq!(entry.path, "$.Authorization");
    let Generator::ProviderStateGenerator(expression, data_type) = &entry.generator;
    assert_eq!(expression, "token");
    assert_eq!(*data_type, Some(DataType::STRING));
}

#[test]
fn body_literal() {
    let mut pattern = HttpPart::new();
    pattern.body(&String::from("Hello"));
    assert!(matches!(&pattern.body, OptionalBody::Present(t, None) if t == "Hello"));
    let mut other = HttpPart::new();
    other.body(&String::from("Bye"));
    assert!(matches!(&other.body, OptionalBody::Present(t, None) if t == "Bye"));
}

#[test]
fn json_body_pattern() {
    let mut pattern = HttpPart::new();
    pattern.json_body(&JsonPattern::Object(vec![(
        String::from("message"),
        JsonScalarPattern::Like(JsonValue::Str(String::from("Hello"))),
    )]));
    match &pattern.body {
        OptionalBody::Present(text, Some(ct)) => {
            assert_eq!(text, "{\"message\":\"Hello\"}");
            assert_eq!(ct, "application/json");
        },
        _ => panic!("body not set"),
    }
    assert_eq!(pattern.matching_rules.entries.len(), 1);
    let rule = &pattern.matching_rules.entries[0];
    assert_eq!(rule.category, "body");
    assert_eq!(rule.path, "$.message");
    assert!(matches!(rule.rule, MatchingRule::Type));

    let mut good = HttpPart::new();
    good.json_body(&JsonPattern::Object(vec![(
        String::from("message"),
        JsonScalarPattern::Value(JsonValue::Str(String::from("Goodbye"))),
    )]));
    assert!(
        matches!(&good.body, OptionalBody::Present(t, Some(_)) if t == "{\"message\":\"Goodbye\"}")
    );
    assert!(good.matching_rules.entries.is_empty());
}

#[test]
fn header_values_accumulate_under_one_name() {
    let mut part = HttpPart::new();
    part.header(&String::from("Accept"), &StringPattern::Equality(String::from("text/html")));
    part.header(
        &String::from("Accept"),
        &StringPattern::Equality(String::from("application/json")),
    );
    part.header(&String::from("Host"), &StringPattern::Equality(String::from("localhost")));
    assert_eq!(part.headers.len(), 2);
    assert_eq!(
        part.headers[0],
        (
            String::from("Accept"),
            vec![String::from("text/html"), String::from("application/json")]
        )
    );
    assert_eq!(part.headers[1], (String::from("Host"), vec![String::from("localhost")]));
}

#[test]
fn content_type_helpers_set_the_header() {
    let mut html = HttpPart::new();
    html.html();
    assert_eq!(
        html.headers,
        vec![(String::from("Content-Type"), vec![String::from("text/html")])]
    );

    let mut json = HttpPart::new();
    json.json_utf8();
    assert_eq!(
        json.headers,
        vec![(
            String::from("Content-Type"),
            vec![String::from("application/json; charset=utf-8")]
        )]
    );
    assert_eq!(json.matching_rules.entries.len(), 1);
    assert!(matches!(
        &json.matching_rules.entries[0].rule,
        MatchingRule::Regex(r) if r == "^application/json; charset=(utf|UTF)-8$"
    ));
}

#[test]
fn body2_keeps_the_content_type() {
    let mut part = HttpPart::new();
    part.body2(&String::from("Hello"), &String::from("text/plain"));
    assert!(
        matches!(&part.body, OptionalBody::Present(t, Some(ct)) if t == "Hello" && ct == "text/plain")
    );
}

#[test]
fn term_requires_a_compiling_expression() {
    assert!(StringPattern::term(String::from("^[0-9]+$"), String::from("123")).is_some());
    assert!(StringPattern::term(String::from("(unclosed"), String::from("x")).is_none());
}

#[test]
fn json_text_of_scalars_is_exact() {
    assert_eq!(u64_to_string(0), "0");
    assert_eq!(u64_to_string(90210), "90210");
    assert_eq!(i64_to_string(-42), "-42");
    assert_eq!(i64_to_string(i64::MIN), "-9223372036854775808");
    assert_eq!(value_text(&JsonValue::Null), "null");
    assert_eq!(value_text(&JsonValue::Bool(true)), "true");
    assert_eq!(value_text(&JsonValue::Bool(false)), "false");
    assert_eq!(value_text(&JsonValue::Str(String::from("a\"b\\c"))), "\"a\\\"b\\\\c\"");
    assert_eq!(json_escape(&String::from("plain")), "plain");
}

#[test]
fn json_object_members_are_comma_separated() {
    let rendered = render_pattern(&JsonPattern::Object(vec![
        (String::from("name"), JsonScalarPattern::Value(JsonValue::Str(String::from("mai")))),
        (String::from("age"), JsonScalarPattern::Value(JsonValue::Int(5))),
        (String::from("street"), JsonScalarPattern::Term(String::from("^5th.*$"), String::from("5th"))),
    ]));
    assert_eq!(rendered, "{\"name\":\"mai\",\"age\":5,\"street\":\"5th\"}");
    assert_eq!(render_pattern(&JsonPattern::Object(vec![])), "{}");
    assert_eq!(
        render_pattern(&JsonPattern::Scalar(JsonScalarPattern::Like(JsonValue::Bool(true)))),
        "true"
    );
}
