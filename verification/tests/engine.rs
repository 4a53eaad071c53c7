use json_schema_1c::engine::{BuildRequest, Draft, JsonSchema1C};
use json_schema_1c::errors::{decimal, JsonSchema1CError, ParamType};
use json_schema_1c::report::{
    classify, format_error, format_errors, issues_of, BuildFailure, ValidationIssue,
};
use json_schema_1c::retrieve_handler::RetrieveHandler;
use serde_json::Value;

type Engine = JsonSchema1C<jsonschema::Validator>;

struct Retriever(RetrieveHandler);

impl jsonschema::Retrieve for Retriever {
    fn retrieve(
        &self,
        uri: &jsonschema::Uri<String>,
    ) -> Result<Value, Box<dyn std::error::Error + Send + Sync>> {
        self.0.retrieve(uri.as_str()).map_err(|text| text.into())
    }
}

fn build(
    request: BuildRequest,
) -> Result<jsonschema::Validator, jsonschema::ValidationError<'static>> {
    let mut options = jsonschema::options()
        .should_ignore_unknown_formats(request.ignore_unknown_formats)
        .should_validate_formats(request.validate_formats);
    if let Some(draft) = request.draft {
        options = options.with_draft(match draft {
            Draft::Draft4 => jsonschema::Draft::Draft4,
            Draft::Draft6 => jsonschema::Draft::Draft6,
            Draft::Draft7 => jsonschema::Draft::Draft7,
            Draft::Draft201909 => jsonschema::Draft::Draft201909,
            Draft::Draft202012 => jsonschema::Draft::Draft202012,
        });
    }
    for format in request.formats {
        options = options.with_format(format.name(), move |text: &str| format.check(text));
    }
    options
        .with_retriever(Retriever(request.retriever))
        .build(&request.schema)
}

fn compile(engine: &mut Engine, schema_json: &str) -> Result<(), JsonSchema1CError> {
    let request = engine.plan_main_schema(schema_json)?;
    engine.set_main_schema(schema_json.to_string(), build(request))
}

fn is_valid(engine: &Engine, instance_json: &str) -> Result<bool, JsonSchema1CError> {
    let (validator, instance) = engine.instance_to_check(instance_json)?;
    Ok(validator.is_valid(&instance))
}

fn validate(engine: &mut Engine, instance_json: &str) -> Result<(bool, String), JsonSchema1CError> {
    let issues = {
        let (validator, instance) = engine.instance_to_check(instance_json)?;
        let errors: Vec<jsonschema::ValidationError<'_>> =
            validator.iter_errors(&instance).collect();
        issues_of(&errors)
    };
    Ok(engine.validate(&issues))
}

const INN_SCHEMA: &str = r#"{"$id":"urn:s","type":"object","properties":{"inn":{"type":"string","format":"ru-inn-individual"}}}"#;

#[test]
fn end_to_end_inn_format() {
    let mut engine = Engine::new();
    assert_eq!(compile(&mut engine, INN_SCHEMA), Ok(()));
    assert_eq!(is_valid(&engine, r#"{"inn":"197715976499"}"#), Ok(true));
    assert_eq!(is_valid(&engine, r#"{"inn":"000000000000"}"#), Ok(false));

    let (validator, instance) = engine.instance_to_check(r#"{"inn":"000000000000"}"#).unwrap();
    let errors: Vec<jsonschema::ValidationError<'_>> = validator.iter_errors(&instance).collect();
    let issues = issues_of(&errors);
    assert_eq!(issues.len(), 1);
    assert_eq!(issues[0].instance_path, "/inn");
    assert_eq!(issues[0].schema_path, "/properties/inn/format");
    assert_eq!(issues[0].instance, "\"000000000000\"");
    assert_eq!(issues[0].message, errors[0].to_string());

    engine.set_format("{path}".to_string());
    let (valid, text) = validate(&mut engine, r#"{"inn":"000000000000"}"#).unwrap();
    assert!(!valid);
    assert_eq!(text, r#"["/inn"]"#);
    assert_eq!(engine.get_last_validation_errors(), r#"["/inn"]"#);

    let (valid, text) = validate(&mut engine, r#"{"inn":"197715976499"}"#).unwrap();
    assert!(valid);
    assert_eq!(text, "[]");
}

#[test]
fn every_format_of_the_catalog_reaches_the_validator() {
    let mut engine = Engine::new();
    engine.set_ignore_unknown_formats(false);
    let schema = r#"{"type":"object","properties":{
        "a":{"format":"ru-inn-individual"},
        "b":{"format":"ru-inn-legal-entity"},
        "c":{"format":"kz-iin"},
        "d":{"format":"local-date-time"},
        "e":{"format":"uuid"}}}"#;
    assert_eq!(compile(&mut engine, schema), Ok(()));
    assert_eq!(
        is_valid(
            &engine,
            r#"{"a":"197715976499","b":"6830692790","c":"181228500010","d":"2023-10-05T14:30:00","e":"123e4567-e89b-12d3-a456-426614174000"}"#
        ),
        Ok(true)
    );
    assert_eq!(is_valid(&engine, r#"{"a":"197715976490"}"#), Ok(false));
    assert_eq!(is_valid(&engine, r#"{"b":"6830692791"}"#), Ok(false));
    assert_eq!(is_valid(&engine, r#"{"c":"181228500011"}"#), Ok(false));
    assert_eq!(is_valid(&engine, r#"{"d":"2023-02-30T00:00:00"}"#), Ok(false));
    assert_eq!(is_valid(&engine, r#"{"e":"123e4567"}"#), Ok(false));
}

#[test]
fn catalog_switched_off_leaves_the_names_unknown() {
    let mut engine = Engine::new();
    engine.set_use_custom_formats(false);
    assert_eq!(compile(&mut engine, INN_SCHEMA), Ok(()));
    // the name is unknown and passed over
    assert_eq!(is_valid(&engine, r#"{"inn":"000000000000"}"#), Ok(true));

    engine.set_ignore_unknown_formats(false);
    let refused = compile(&mut engine, INN_SCHEMA);
    assert!(matches!(refused, Err(JsonSchema1CError::SchemaCompile { .. })), "{refused:?}");
    // the validator that was installed is still there
    assert_eq!(is_valid(&engine, r#"{"inn":"000000000000"}"#), Ok(true));
}

#[test]
fn formats_not_checked_when_switched_off() {
    let mut engine = Engine::new();
    engine.set_check_formats(false);
    assert_eq!(compile(&mut engine, INN_SCHEMA), Ok(()));
    assert_eq!(is_valid(&engine, r#"{"inn":"000000000000"}"#), Ok(true));
}

#[test]
fn unresolved_reference_fails_the_build() {
    let mut engine = Engine::new();
    let root = r#"{"$ref":"urn:x"}"#;
    assert_eq!(
        compile(&mut engine, root),
        Err(JsonSchema1CError::SchemaNotFound { uri: "urn:x".to_string() })
    );
    assert_eq!(engine.get_schema(), "");
    assert_eq!(is_valid(&engine, "1"), Err(JsonSchema1CError::SchemaNotInstalled));

    assert_eq!(engine.add_scheme(r#"{"$id":"urn:x","type":"integer"}"#), Ok(()));
    assert_eq!(compile(&mut engine, root), Ok(()));
    assert_eq!(engine.get_schema(), root);
    assert_eq!(is_valid(&engine, "1"), Ok(true));
    assert_eq!(is_valid(&engine, r#""one""#), Ok(false));
}

#[test]
fn built_validator_keeps_its_snapshot() {
    let mut engine = Engine::new();
    engine.add_scheme(r#"{"$id":"urn:x","type":"integer"}"#).unwrap();
    compile(&mut engine, r#"{"$ref":"urn:x"}"#).unwrap();
    assert_eq!(engine.delete_scheme("urn:x"), Ok(()));
    assert!(!engine.has_scheme("urn:x"));
    assert_eq!(is_valid(&engine, "1"), Ok(true));
    assert_eq!(is_valid(&engine, r#""one""#), Ok(false));

    // a later registration under the same URI does not reach it either
    engine.add_scheme(r#"{"$id":"urn:x","type":"string"}"#).unwrap();
    assert_eq!(is_valid(&engine, "1"), Ok(true));
    engine.delete_all_schemes();
    assert_eq!(is_valid(&engine, "1"), Ok(true));
}

#[test]
fn failed_build_leaves_the_installed_validator() {
    let mut engine = Engine::new();
    compile(&mut engine, r#"{"type":"integer"}"#).unwrap();
    assert!(matches!(
        compile(&mut engine, r#"{"type":"no such type"}"#),
        Err(JsonSchema1CError::SchemaCompile { .. })
    ));
    assert!(matches!(
        compile(&mut engine, "{ not json"),
        Err(JsonSchema1CError::JsonParse { .. })
    ));
    assert_eq!(
        compile(&mut engine, r#"{"$ref":"urn:missing"}"#),
        Err(JsonSchema1CError::SchemaNotFound { uri: "urn:missing".to_string() })
    );
    assert_eq!(engine.get_schema(), r#"{"type":"integer"}"#);
    assert_eq!(is_valid(&engine, "1"), Ok(true));
    assert_eq!(is_valid(&engine, "1.5"), Ok(false));
}

#[test]
fn unknown_dialect_is_reported() {
    let mut engine = Engine::new();
    assert_eq!(
        compile(&mut engine, r#"{"$schema":"urn:no-such-dialect","type":"integer"}"#),
        Err(JsonSchema1CError::UnknownDraft)
    );
    assert_eq!(engine.set_draft("5"), Err(JsonSchema1CError::UnknownDraft));
    assert_eq!(engine.get_draft(), None);
}

#[test]
fn dialect_is_chosen_by_name() {
    let mut engine = Engine::new();
    for (name, draft) in [
        ("4", Draft::Draft4),
        ("6", Draft::Draft6),
        ("7", Draft::Draft7),
        ("2019-09", Draft::Draft201909),
        ("2020-12", Draft::Draft202012),
    ] {
        assert_eq!(Draft::from_name(name), Some(draft));
        assert_eq!(draft.name(), name);
        assert_eq!(engine.set_draft(name), Ok(()));
        assert_eq!(engine.get_draft(), Some(draft));
    }
    assert_eq!(Draft::from_name("2020"), None);
    assert_eq!(Draft::from_name(""), None);
    assert_eq!(engine.set_draft("draft-07"), Err(JsonSchema1CError::UnknownDraft));
    assert_eq!(engine.get_draft(), Some(Draft::Draft202012));
    assert_eq!(engine.set_draft(""), Ok(()));
    assert_eq!(engine.get_draft(), None);

    // under draft 4 `exclusiveMinimum` is a switch, under later ones a bound
    engine.set_draft("4").unwrap();
    let plan = engine.plan_main_schema(r#"{"minimum":1,"exclusiveMinimum":true}"#).unwrap();
    assert_eq!(plan.draft, Some(Draft::Draft4));
    compile(&mut engine, r#"{"minimum":1,"exclusiveMinimum":true}"#).unwrap();
    assert_eq!(is_valid(&engine, "1"), Ok(false));
    assert_eq!(is_valid(&engine, "2"), Ok(true));
}

#[test]
fn plan_holds_the_configuration() {
    let mut engine = Engine::new();
    engine.add_scheme(r#"{"$id":"urn:x","type":"integer"}"#).unwrap();
    let plan = engine.plan_main_schema(r#"{"type":"string"}"#).unwrap();
    assert_eq!(plan.schema, serde_json::from_str::<Value>(r#"{"type":"string"}"#).unwrap());
    assert_eq!(plan.draft, None);
    assert_eq!(plan.formats.len(), 5);
    assert!(plan.ignore_unknown_formats);
    assert!(plan.validate_formats);
    assert!(plan.retriever.retrieve("urn:x").is_ok());

    engine.set_use_custom_formats(false);
    engine.set_ignore_unknown_formats(false);
    engine.set_check_formats(false);
    engine.delete_all_schemes();
    let plan = engine.plan_main_schema(r#"{"type":"string"}"#).unwrap();
    assert!(plan.formats.is_empty());
    assert!(!plan.ignore_unknown_formats);
    assert!(!plan.validate_formats);
    assert!(plan.retriever.retrieve("urn:x").is_err());
}

#[test]
fn new_engine_has_every_switch_on() {
    let engine = Engine::new();
    assert!(engine.get_use_custom_formats());
    assert!(engine.get_ignore_unknown_formats());
    assert!(engine.get_check_formats());
    assert_eq!(engine.get_draft(), None);
    assert_eq!(engine.get_format(), "");
    assert_eq!(engine.get_schema(), "");
    assert_eq!(engine.get_last_error(), "");
    assert_eq!(engine.get_last_validation_errors(), "");
    assert_eq!(engine.list_schemes(), "{}");
    assert!(matches!(engine.get_schema_self(), Err(JsonSchema1CError::SchemaNotInstalled)));
}

#[test]
fn check_before_any_build_is_refused() {
    let mut engine = Engine::new();
    assert_eq!(is_valid(&engine, "1"), Err(JsonSchema1CError::SchemaNotInstalled));
    // that nothing is installed is reported before the text is read
    assert_eq!(is_valid(&engine, "{ not json"), Err(JsonSchema1CError::SchemaNotInstalled));
    compile(&mut engine, "true").unwrap();
    assert!(matches!(is_valid(&engine, "{ not json"), Err(JsonSchema1CError::JsonParse { .. })));
    assert_eq!(is_valid(&engine, "1"), Ok(true));
}

#[test]
fn schemas_are_added_listed_and_deleted() {
    let mut engine = Engine::new();
    assert_eq!(engine.add_scheme(r#"{"$id":"urn:b","type":"integer"}"#), Ok(()));
    assert_eq!(engine.add_scheme(r#"{"$id":"urn:a"}"#), Ok(()));
    assert!(engine.has_scheme("urn:a"));
    assert!(engine.has_scheme("urn:b"));
    assert!(!engine.has_scheme("urn:c"));
    assert!(!engine.has_scheme("not a uri"));
    assert_eq!(
        engine.list_schemes(),
        r#"{"urn:a":{"$id":"urn:a"},"urn:b":{"$id":"urn:b","type":"integer"}}"#
    );
    assert_eq!(engine.add_scheme(r#"{"type":"integer"}"#), Err(JsonSchema1CError::PropertyIdMissing));
    assert_eq!(engine.add_scheme(r#"{"$id":1}"#), Err(JsonSchema1CError::PropertyIdNotString));
    assert_eq!(
        engine.add_scheme(r#"{"$id":"a b"}"#),
        Err(JsonSchema1CError::InvalidUri { value: "a b".to_string() })
    );
    assert!(matches!(engine.add_scheme("{"), Err(JsonSchema1CError::JsonParse { .. })));
    assert_eq!(engine.delete_scheme("urn:a"), Ok(()));
    assert_eq!(engine.delete_scheme("urn:a"), Ok(()));
    assert_eq!(
        engine.delete_scheme("a b"),
        Err(JsonSchema1CError::InvalidUri { value: "a b".to_string() })
    );
    assert_eq!(engine.list_schemes(), r#"{"urn:b":{"$id":"urn:b","type":"integer"}}"#);
    engine.delete_all_schemes();
    assert_eq!(engine.list_schemes(), "{}");
}

#[test]
fn only_the_last_error_is_kept() {
    let mut engine = Engine::new();
    let outcome = engine.add_scheme(r#"{"type":"integer"}"#);
    assert_eq!(engine.remember(outcome), None);
    assert_eq!(engine.get_last_error(), "Property '$id' not found in the schema");
    let outcome = engine.add_scheme(r#"{"$id":3}"#);
    assert_eq!(engine.remember(outcome), None);
    assert_eq!(engine.get_last_error(), "Property '$id' is not a string");
    let outcome = engine.add_scheme(r#"{"$id":"urn:x"}"#);
    assert_eq!(engine.remember(outcome), Some(()));
    assert_eq!(engine.get_last_error(), "");
    assert_eq!(engine.remember(Ok(7)), Some(7));
}

fn issue() -> ValidationIssue {
    ValidationIssue {
        instance_path: "/inn".to_string(),
        schema_path: "/properties/inn/format".to_string(),
        instance: "\"000\"".to_string(),
        message: "\"000\" is not a \"ru-inn-individual\"".to_string(),
    }
}

#[test]
fn error_is_written_by_the_template() {
    let template = "{path}: {error} (at {schema_path}, got {instance})".to_string();
    assert_eq!(
        format_error(&issue(), Some(&template)),
        "/inn: \"000\" is not a \"ru-inn-individual\" (at /properties/inn/format, got \"000\")"
    );
    assert_eq!(format_error(&issue(), None), "\"000\" is not a \"ru-inn-individual\"");
    let plain = "nothing to fill in".to_string();
    assert_eq!(format_error(&issue(), Some(&plain)), "nothing to fill in");
    let twice = "{path}{path} {unknown} {error".to_string();
    assert_eq!(format_error(&issue(), Some(&twice)), "/inn/inn {unknown} {error");
    let empty = String::new();
    assert_eq!(format_error(&issue(), Some(&empty)), "");
}

#[test]
fn placeholders_are_replaced_one_after_the_other() {
    // what stands in for `{path}` is itself read for the later placeholders
    let nested = ValidationIssue {
        instance_path: "{error}".to_string(),
        schema_path: "s".to_string(),
        instance: "i".to_string(),
        message: "{path}".to_string(),
    };
    let template = "{path}|{error}".to_string();
    assert_eq!(format_error(&nested, Some(&template)), "{path}|{path}");
}

#[test]
fn errors_are_written_in_their_order() {
    let mut second = issue();
    second.instance_path = "/b".to_string();
    let template = "{path}".to_string();
    assert_eq!(
        format_errors(&vec![issue(), second], Some(&template)),
        vec!["/inn".to_string(), "/b".to_string()]
    );
    assert_eq!(format_errors(&vec![], Some(&template)), Vec::<String>::new());
}

#[test]
fn report_is_a_json_array_of_texts() {
    let mut engine = Engine::new();
    let (valid, text) = engine.validate(&vec![issue()]);
    assert!(!valid);
    assert_eq!(text, r#"["\"000\" is not a \"ru-inn-individual\""]"#);
    assert_eq!(engine.get_last_validation_errors(), text);
    engine.set_format("{path} {instance}".to_string());
    assert_eq!(engine.get_format(), "{path} {instance}");
    let (valid, text) = engine.validate(&vec![issue(), issue()]);
    assert!(!valid);
    assert_eq!(text, r#"["/inn \"000\"","/inn \"000\""]"#);
    let (valid, text) = engine.validate(&vec![]);
    assert!(valid);
    assert_eq!(text, "[]");
    assert_eq!(engine.get_last_validation_errors(), "[]");
}

#[test]
fn validation_errors_are_reproducible() {
    let mut engine = Engine::new();
    compile(
        &mut engine,
        r#"{"type":"object","required":["a","b"],"properties":{"c":{"type":"integer"},"d":{"maxLength":1}}}"#,
    )
    .unwrap();
    let first = validate(&mut engine, r#"{"c":"x","d":"long"}"#).unwrap();
    let second = validate(&mut engine, r#"{"c":"x","d":"long"}"#).unwrap();
    assert!(!first.0);
    assert_eq!(first, second);
    let texts: Vec<String> = serde_json::from_str(&first.1).unwrap();
    assert_eq!(texts.len(), 4);
}

#[test]
fn failures_of_the_compiler_are_classified() {
    assert_eq!(
        classify(BuildFailure::Unretrievable { uri: "urn:x".to_string() }),
        JsonSchema1CError::SchemaNotFound { uri: "urn:x".to_string() }
    );
    assert_eq!(classify(BuildFailure::UnknownSpecification), JsonSchema1CError::UnknownDraft);
    assert_eq!(
        classify(BuildFailure::Invalid { path: "/type".to_string(), message: "bad".to_string() }),
        JsonSchema1CError::SchemaCompile { path: "/type".to_string(), message: "bad".to_string() }
    );
    let mut engine = Engine::new();
    assert_eq!(
        engine.install("{}".to_string(), Err(BuildFailure::UnknownSpecification)),
        Err(JsonSchema1CError::UnknownDraft)
    );
    assert_eq!(engine.get_schema(), "");
}

#[test]
fn every_error_has_its_text() {
    let cases = [
        (
            JsonSchema1CError::SchemaCompile { path: "/a".to_string(), message: "bad".to_string() },
            "Scheme compilation error: /a bad",
        ),
        (JsonSchema1CError::SchemaNotInstalled, "Scheme not installed"),
        (JsonSchema1CError::PropertyIdMissing, "Property '$id' not found in the schema"),
        (JsonSchema1CError::PropertyIdNotString, "Property '$id' is not a string"),
        (JsonSchema1CError::InvalidUri { value: "a b".to_string() }, "Invalid URI 'a b'"),
        (JsonSchema1CError::SchemaNotFound { uri: "urn:x".to_string() }, "Schema urn:x not found"),
        (
            JsonSchema1CError::ParamConversion { index: 12, expected_type: ParamType::String },
            "Failed to extract parameter 12 as 'string'",
        ),
        (
            JsonSchema1CError::ParamConversion { index: 0, expected_type: ParamType::Uri },
            "Failed to extract parameter 0 as 'uri'",
        ),
        (
            JsonSchema1CError::PropertyConversion { expected_type: ParamType::Bool },
            "Failed to extract property as 'bool'",
        ),
        (
            JsonSchema1CError::JsonParse { message: "EOF at line 1".to_string() },
            "JSON reading error: EOF at line 1",
        ),
        (JsonSchema1CError::UnknownDraft, "Unknown draft of JSON Schema"),
    ];
    for (error, text) in cases {
        assert_eq!(error.message(), text);
    }
    assert_eq!(ParamType::String.text(), "string");
    assert_eq!(ParamType::Bool.text(), "bool");
    assert_eq!(ParamType::Uri.text(), "uri");
}

#[test]
fn numbers_are_written_in_decimal() {
    assert_eq!(decimal(0), "0");
    assert_eq!(decimal(7), "7");
    assert_eq!(decimal(10), "10");
    assert_eq!(decimal(1905), "1905");
    assert_eq!(decimal(usize::MAX), usize::MAX.to_string());
}

#[test]
fn json_parse_error_carries_the_reason() {
    let mut engine = Engine::new();
    let reason = serde_json::from_str::<Value>("[1,").unwrap_err().to_string();
    assert_eq!(
        engine.add_scheme("[1,"),
        Err(JsonSchema1CError::JsonParse { message: reason.clone() })
    );
    assert!(matches!(
        engine.plan_main_schema("[1,"),
        Err(JsonSchema1CError::JsonParse { message }) if message == reason
    ));
}
