//! The engine: its configuration, its registry, the validator that is
//! installed, and the decisions around building and querying one. The
//! schema compiler itself stays outside: a build is planned here, carried
//! out by the caller, and its outcome is handed back to be installed.

use crate::errors::JsonSchema1CError;
use crate::formats::{active_formats, active_formats_of, Format};
use crate::json::{
    json_model, json_read, json_text, object_to_json, read_json, string_array, strings_to_json,
    JsonModel,
};
use crate::registry::{
    after_register, after_unregister, document_key, reports, KeyFault, SchemaRegistry,
};
use crate::report::{
    classify, failure_of, format_errors, rendered_all, reports_failure, BuildFailure,
    ValidationIssue,
};
use crate::retrieve_handler::RetrieveHandler;
use crate::uri::canonical_uri;
use vstd::prelude::*;
use vstd::string::StringExecFns;

verus! {

/// A dialect of JSON Schema.
#[derive(Clone, Copy, Debug, PartialEq, Eq, Structural)]
pub enum Draft {
    Draft4,
    Draft6,
    Draft7,
    Draft201909,
    Draft202012,
}

impl Draft {
    /// The name by which the host chooses the dialect.
    pub open spec fn spec_name(self) -> Seq<char> {
        match self {
            Draft::Draft4 => "4"@,
            Draft::Draft6 => "6"@,
            Draft::Draft7 => "7"@,
            Draft::Draft201909 => "2019-09"@,
            Draft::Draft202012 => "2020-12"@,
        }
    }

    /// The name by which the host chooses the dialect.
    pub fn name(&self) -> (name: &'static str)
        ensures
            name@ == self.spec_name(),
    {
        match self {
            Draft::Draft4 => "4",
            Draft::Draft6 => "6",
            Draft::Draft7 => "7",
            Draft::Draft201909 => "2019-09",
            Draft::Draft202012 => "2020-12",
        }
    }

    /// The dialect of that name; `None` where no dialect has it.
    pub fn from_name(name: &str) -> (res: Option<Draft>)
        ensures
            res matches Some(draft) ==> draft.spec_name() == name@,
            res is None ==> forall|draft: Draft| draft.spec_name() != name@,
    {
        let wanted = String::from_str(name);
        if wanted == String::from_str("4") {
            Some(Draft::Draft4)
        } else if wanted == String::from_str("6") {
            Some(Draft::Draft6)
        } else if wanted == String::from_str("7") {
            Some(Draft::Draft7)
        } else if wanted == String::from_str("2019-09") {
            Some(Draft::Draft201909)
        } else if wanted == String::from_str("2020-12") {
            Some(Draft::Draft202012)
        } else {
            None
        }
    }
}

/// No two dialects share a name.
pub proof fn lemma_draft_names_unique(a: Draft, b: Draft)
    requires
        a.spec_name() == b.spec_name(),
    ensures
        a == b,
{
    reveal_strlit("4");
    reveal_strlit("6");
    reveal_strlit("7");
    reveal_strlit("2019-09");
    reveal_strlit("2020-12");
    assert("4"@.len() == 1 && "6"@.len() == 1 && "7"@.len() == 1);
    assert("2019-09"@.len() == 7 && "2020-12"@.len() == 7);
    assert("4"@[0] == '4' && "6"@[0] == '6' && "7"@[0] == '7');
    assert("2019-09"@[2] == '1' && "2020-12"@[2] == '2');
}

/// What a validator is built with: the schema and all that the compiler
/// is to be told.
pub struct BuildRequest {
    /// The schema, read from its text.
    pub schema: serde_json::Value,
    /// The dialect to compile for; `None` leaves it to what the schema
    /// declares.
    pub draft: Option<Draft>,
    /// The formats to register with the compiler, in the catalog's order.
    pub formats: Vec<Format>,
    /// Whether a format that the compiler does not know is passed over.
    pub ignore_unknown_formats: bool,
    /// Whether formats are checked at all.
    pub validate_formats: bool,
    /// The resolver over the registry as it stood when the build was planned.
    pub retriever: RetrieveHandler,
}

/// The state of an engine as contracts speak of it.
pub struct EngineState<V> {
    /// The validator that is installed.
    pub installed: Option<V>,
    /// The text of the schema that it was built from.
    pub schema: Option<Seq<char>>,
    /// The documents of the registry, by canonical URI.
    pub registry: Map<Seq<char>, JsonModel>,
    /// The dialect chosen; `None` leaves it to the schema.
    pub draft: Option<Draft>,
    /// Whether the catalog of formats is registered with the compiler.
    pub use_custom_formats: bool,
    /// Whether a format that the compiler does not know is passed over.
    pub ignore_unknown_formats: bool,
    /// Whether formats are checked at all.
    pub validate_formats: bool,
    /// The template by which an error is written out.
    pub output_template: Option<Seq<char>>,
    /// The text of the error of the last operation, if it failed.
    pub last_error: Option<Seq<char>>,
    /// The errors of the last validation, as JSON text.
    pub last_validation_errors: Option<Seq<char>>,
}

/// A validation engine. `V` is the compiled validator that the schema
/// compiler builds; the engine keeps it and hands it out, and never looks
/// into it.
pub struct JsonSchema1C<V> {
    schema: Option<String>,
    compiled_schema: Option<V>,
    output_format: Option<String>,
    draft: Option<Draft>,
    use_custom_formats: bool,
    last_error: Option<JsonSchema1CError>,
    last_validation_errors: Option<String>,
    schema_store: SchemaRegistry,
    ignore_unknown_formats: bool,
    check_formats: bool,
}

/// The text of an optional string.
pub open spec fn text_of(text: Option<String>) -> Option<Seq<char>> {
    match text {
        Some(text) => Some(text@),
        None => None,
    }
}

/// The text of an optional string, empty where there is none.
pub open spec fn text_or_empty(text: Option<Seq<char>>) -> Seq<char> {
    match text {
        Some(text) => text,
        None => Seq::empty(),
    }
}

impl<V> View for JsonSchema1C<V> {
    type V = EngineState<V>;

    closed spec fn view(&self) -> EngineState<V> {
        EngineState {
            installed: self.compiled_schema,
            schema: text_of(self.schema),
            registry: self.schema_store@,
            draft: self.draft,
            use_custom_formats: self.use_custom_formats,
            ignore_unknown_formats: self.ignore_unknown_formats,
            validate_formats: self.check_formats,
            output_template: text_of(self.output_format),
            last_error: match self.last_error {
                Some(error) => Some(error.spec_message()),
                None => None,
            },
            last_validation_errors: text_of(self.last_validation_errors),
        }
    }
}

/// The state of an engine that was just made: nothing installed, nothing
/// registered, the dialect left to the schema, every switch on, no
/// template, no error.
pub open spec fn initial_state<V>() -> EngineState<V> {
    EngineState {
        installed: None,
        schema: None,
        registry: Map::empty(),
        draft: None,
        use_custom_formats: true,
        ignore_unknown_formats: true,
        validate_formats: true,
        output_template: None,
        last_error: None,
        last_validation_errors: None,
    }
}

/// The error that says that `text` is not JSON, for the reason `message`.
pub open spec fn reports_unreadable(error: JsonSchema1CError, message: Seq<char>) -> bool {
    error matches JsonSchema1CError::JsonParse { message: reported } && reported@ == message
}

/// The JSON array of the texts that report `issues`.
pub open spec fn report_model(issues: Seq<ValidationIssue>, template: Option<Seq<char>>) -> JsonModel {
    JsonModel::Array(
        Seq::new(issues.len(), |i: int| JsonModel::String(rendered_all(issues, template)[i])),
    )
}

impl<V> Default for JsonSchema1C<V> {
    /// An engine with nothing installed and nothing registered.
    fn default() -> (engine: Self)
        ensures
            engine@ == initial_state::<V>(),
    {
        JsonSchema1C::new()
    }
}

impl<V> JsonSchema1C<V> {
    /// An engine with nothing installed and nothing registered.
    pub fn new() -> (engine: Self)
        ensures
            engine@ == initial_state::<V>(),
    {
        JsonSchema1C {
            schema: None,
            compiled_schema: None,
            output_format: None,
            draft: None,
            use_custom_formats: true,
            last_error: None,
            last_validation_errors: None,
            schema_store: SchemaRegistry::new(),
            ignore_unknown_formats: true,
            check_formats: true,
        }
    }

    /// The text of the schema that is installed; empty where none is.
    pub fn get_schema(&self) -> (text: String)
        ensures
            text@ == text_or_empty(self@.schema),
    {
        match &self.schema {
            Some(text) => text.clone(),
            None => String::new(),
        }
    }

    /// The template by which errors are written out; empty where none is
    /// set.
    pub fn get_format(&self) -> (text: String)
        ensures
            text@ == text_or_empty(self@.output_template),
    {
        match &self.output_format {
            Some(text) => text.clone(),
            None => String::new(),
        }
    }

    /// Sets the template by which errors are written out.
    pub fn set_format(&mut self, template: String)
        ensures
            final(self)@ == (EngineState { output_template: Some(template@), ..old(self)@ }),
    {
        self.output_format = Some(template);
    }

    /// Whether the catalog of formats is registered with the compiler.
    pub fn get_use_custom_formats(&self) -> (on: bool)
        ensures
            on == self@.use_custom_formats,
    {
        self.use_custom_formats
    }

    /// Switches the catalog of formats on or off, as a whole.
    pub fn set_use_custom_formats(&mut self, on: bool)
        ensures
            final(self)@ == (EngineState { use_custom_formats: on, ..old(self)@ }),
    {
        self.use_custom_formats = on;
    }

    /// Whether a format that the compiler does not know is passed over.
    pub fn get_ignore_unknown_formats(&self) -> (on: bool)
        ensures
            on == self@.ignore_unknown_formats,
    {
        self.ignore_unknown_formats
    }

    /// Sets whether a format that the compiler does not know is passed over.
    pub fn set_ignore_unknown_formats(&mut self, on: bool)
        ensures
            final(self)@ == (EngineState { ignore_unknown_formats: on, ..old(self)@ }),
    {
        self.ignore_unknown_formats = on;
    }

    /// Whether formats are checked at all.
    pub fn get_check_formats(&self) -> (on: bool)
        ensures
            on == self@.validate_formats,
    {
        self.check_formats
    }

    /// Sets whether formats are checked at all.
    pub fn set_check_formats(&mut self, on: bool)
        ensures
            final(self)@ == (EngineState { validate_formats: on, ..old(self)@ }),
    {
        self.check_formats = on;
    }

    /// The dialect chosen; `None` where it is left to the schema.
    pub fn get_draft(&self) -> (draft: Option<Draft>)
        ensures
            draft == self@.draft,
    {
        self.draft
    }

    /// Chooses the dialect by its name; the empty name leaves it to the
    /// schema. A name that no dialect has is refused, and the choice stays
    /// as it was.
    pub fn set_draft(&mut self, name: &str) -> (res: Result<(), JsonSchema1CError>)
        ensures
            name@.len() == 0 ==> res is Ok && final(self)@ == (EngineState {
                draft: None,
                ..old(self)@
            }),
            name@.len() != 0 ==> match res {
                Ok(_) => exists|draft: Draft|
                    #![trigger draft.spec_name()]
                    draft.spec_name() == name@ && final(self)@ == (EngineState {
                        draft: Some(draft),
                        ..old(self)@
                    }),
                Err(error) => error is UnknownDraft && final(self)@ == old(self)@ && forall|
                    draft: Draft,
                | draft.spec_name() != name@,
            },
    {
        if name.unicode_len() == 0 {
            self.draft = None;
            return Ok(());
        }
        match Draft::from_name(name) {
            Some(draft) => {
                self.draft = Some(draft);
                Ok(())
            },
            None => Err(JsonSchema1CError::UnknownDraft),
        }
    }

    /// Reads `schema_json` and registers the document under its `"$id"`. A
    /// text that is not JSON, or a document that cannot be registered,
    /// leaves the engine as it was.
    pub fn add_scheme(&mut self, schema_json: &str) -> (res: Result<(), JsonSchema1CError>)
        ensures
            match json_read(schema_json@) {
                Err(message) => {
                    &&& final(self)@ == old(self)@
                    &&& res matches Err(error)
                    &&& reports_unreadable(error, message)
                },
                Ok(document) => {
                    &&& final(self)@ == (EngineState {
                        registry: after_register(old(self)@.registry, document),
                        ..old(self)@
                    })
                    &&& res is Ok <==> document_key(document) is Ok
                    &&& res matches Err(error) ==> reports(error, document_key(document)->Err_0)
                },
            },
    {
        match read_json(schema_json) {
            Err(message) => Err(JsonSchema1CError::JsonParse { message }),
            Ok(document) => {
                let mut store = SchemaRegistry::new();
                std::mem::swap(&mut self.schema_store, &mut store);
                let res = store.register(document);
                self.schema_store = store;
                res
            },
        }
    }

    /// Takes the document under `uri` out of the registry; that there is
    /// none is no error. A text that is no URI is refused.
    pub fn delete_scheme(&mut self, uri: &str) -> (res: Result<(), JsonSchema1CError>)
        ensures
            final(self)@ == (EngineState {
                registry: after_unregister(old(self)@.registry, uri@),
                ..old(self)@
            }),
            res is Ok <==> canonical_uri(uri@) is Some,
            res matches Err(error) ==> reports(error, KeyFault::NotUri(uri@)),
    {
        let mut store = SchemaRegistry::new();
        std::mem::swap(&mut self.schema_store, &mut store);
        let res = store.unregister(uri);
        self.schema_store = store;
        res
    }

    /// Takes every document out of the registry.
    pub fn delete_all_schemes(&mut self)
        ensures
            final(self)@ == (EngineState { registry: Map::empty(), ..old(self)@ }),
    {
        self.schema_store = SchemaRegistry::new();
    }

    /// Whether the registry holds a document under `uri`.
    pub fn has_scheme(&self, uri: &str) -> (found: bool)
        ensures
            found == (canonical_uri(uri@) matches Some(key) && self@.registry.contains_key(key)),
    {
        self.schema_store.contains(uri)
    }

    /// The registry as the text of one JSON object: each URI with its
    /// document.
    pub fn list_schemes(&self) -> (text: String)
        ensures
            text@ == json_text(JsonModel::Object(self@.registry)),
    {
        let pairs = self.schema_store.export();
        object_to_json(&pairs)
    }

    /// Plans a build of the validator for `schema_json`: the schema read
    /// from its text, the dialect, the formats and the switches as they are
    /// configured, and a resolver over a copy of the registry as it stands
    /// now. A text that is not JSON is refused.
    pub fn plan_main_schema(&self, schema_json: &str) -> (res: Result<BuildRequest, JsonSchema1CError>)
        ensures
            match json_read(schema_json@) {
                Err(message) => res matches Err(error) && reports_unreadable(error, message),
                Ok(document) => {
                    &&& res matches Ok(request)
                    &&& json_model(request.schema) == document
                    &&& request.draft == self@.draft
                    &&& request.formats@ == active_formats_of(self@.use_custom_formats)
                    &&& request.ignore_unknown_formats == self@.ignore_unknown_formats
                    &&& request.validate_formats == self@.validate_formats
                    &&& request.retriever@ == self@.registry
                },
            },
    {
        match read_json(schema_json) {
            Err(message) => Err(JsonSchema1CError::JsonParse { message }),
            Ok(schema) => Ok(
                BuildRequest {
                    schema,
                    draft: self.draft,
                    formats: active_formats(self.use_custom_formats),
                    ignore_unknown_formats: self.ignore_unknown_formats,
                    validate_formats: self.check_formats,
                    retriever: RetrieveHandler::new(self.schema_store.snapshot()),
                },
            ),
        }
    }

    /// Takes the outcome of a build. A validator is installed together with
    /// the text of its schema, in place of what was installed; a failure is
    /// reported and leaves what was installed untouched.
    pub fn install(&mut self, schema_json: String, outcome: Result<V, BuildFailure>) -> (res: Result<
        (),
        JsonSchema1CError,
    >)
        ensures
            match outcome {
                Ok(validator) => res is Ok && final(self)@ == (EngineState {
                    installed: Some(validator),
                    schema: Some(schema_json@),
                    ..old(self)@
                }),
                Err(failure) => {
                    &&& final(self)@ == old(self)@
                    &&& res matches Err(error)
                    &&& reports_failure(error, failure)
                },
            },
    {
        match outcome {
            Ok(validator) => {
                self.compiled_schema = Some(validator);
                self.schema = Some(schema_json);
                Ok(())
            },
            Err(failure) => Err(classify(failure)),
        }
    }

    /// Takes the outcome of a build as the schema compiler gives it: a
    /// validator is installed with the text of its schema; an error of the
    /// compiler is reported and leaves what was installed untouched.
    pub fn set_main_schema(
        &mut self,
        schema_json: String,
        outcome: Result<V, jsonschema::ValidationError<'static>>,
    ) -> (res: Result<(), JsonSchema1CError>)
        ensures
            match outcome {
                Ok(validator) => res is Ok && final(self)@ == (EngineState {
                    installed: Some(validator),
                    schema: Some(schema_json@),
                    ..old(self)@
                }),
                Err(_) => {
                    &&& final(self)@ == old(self)@
                    &&& res matches Err(error)
                    &&& error is SchemaNotFound || error is UnknownDraft || error is SchemaCompile
                },
            },
    {
        match outcome {
            Ok(validator) => self.install(schema_json, Ok(validator)),
            Err(error) => {
                let failure = failure_of(&error);
                self.install(schema_json, Err(failure))
            },
        }
    }

    /// The validator that is installed; an error where none is.
    pub fn get_schema_self(&self) -> (res: Result<&V, JsonSchema1CError>)
        ensures
            match self@.installed {
                Some(validator) => res matches Ok(found) && *found == validator,
                None => res matches Err(error) && error is SchemaNotInstalled,
            },
    {
        match &self.compiled_schema {
            Some(validator) => Ok(validator),
            None => Err(JsonSchema1CError::SchemaNotInstalled),
        }
    }

    /// What a check of `instance_json` needs: the validator that is
    /// installed and the document read from the text. That no validator is
    /// installed is reported first, a text that is not JSON second.
    pub fn instance_to_check(&self, instance_json: &str) -> (res: Result<
        (&V, serde_json::Value),
        JsonSchema1CError,
    >)
        ensures
            match self@.installed {
                None => res matches Err(error) && error is SchemaNotInstalled,
                Some(validator) => match json_read(instance_json@) {
                    Err(message) => res matches Err(error) && reports_unreadable(error, message),
                    Ok(document) => res matches Ok(pair) && *pair.0 == validator && json_model(
                        pair.1,
                    ) == document,
                },
            },
    {
        let validator = self.get_schema_self()?;
        match read_json(instance_json) {
            Err(message) => Err(JsonSchema1CError::JsonParse { message }),
            Ok(instance) => Ok((validator, instance)),
        }
    }

    /// Writes out what a validation found: whether the document is valid,
    /// which it is when nothing was found, and the JSON array of the texts
    /// that report `issues`, each by the template where one is set. The text
    /// is kept as the errors of the last validation.
    pub fn validate(&mut self, issues: &Vec<ValidationIssue>) -> (res: (bool, String))
        ensures
            res.0 == (issues@.len() == 0),
            res.1@ == json_text(report_model(issues@, old(self)@.output_template)),
            final(self)@ == (EngineState {
                last_validation_errors: Some(res.1@),
                ..old(self)@
            }),
    {
        let texts = match &self.output_format {
            Some(template) => format_errors(issues, Some(template)),
            None => format_errors(issues, None),
        };
        let text = strings_to_json(&texts);
        proof {
            assert(string_array(texts@) =~= report_model(issues@, old(self)@.output_template)) by {
                let wanted = report_model(issues@, old(self)@.output_template);
                assert(string_array(texts@)->Array_0 =~= wanted->Array_0);
            }
        }
        self.last_validation_errors = Some(text.clone());
        (issues.len() == 0, text)
    }

    /// Keeps the error of an operation, or forgets the one kept where the
    /// operation succeeded, and hands on what the operation gave.
    pub fn remember<T>(&mut self, outcome: Result<T, JsonSchema1CError>) -> (res: Option<T>)
        ensures
            match outcome {
                Ok(value) => res == Some(value) && final(self)@ == (EngineState {
                    last_error: None,
                    ..old(self)@
                }),
                Err(error) => res is None && final(self)@ == (EngineState {
                    last_error: Some(error.spec_message()),
                    ..old(self)@
                }),
            },
    {
        match outcome {
            Ok(value) => {
                self.last_error = None;
                Some(value)
            },
            Err(error) => {
                self.last_error = Some(error);
                None
            },
        }
    }

    /// The text of the error that is kept; empty where none is.
    pub fn get_last_error(&self) -> (text: String)
        ensures
            text@ == text_or_empty(self@.last_error),
    {
        match &self.last_error {
            Some(error) => error.message(),
            None => String::new(),
        }
    }

    /// The errors of the last validation, as JSON text; empty where there
    /// was none.
    pub fn get_last_validation_errors(&self) -> (text: String)
        ensures
            text@ == text_or_empty(self@.last_validation_errors),
    {
        match &self.last_validation_errors {
            Some(text) => text.clone(),
            None => String::new(),
        }
    }
}

} // verus!
