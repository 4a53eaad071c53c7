//! What the schema compiler and a validator report, as plain text, and how
//! a report is written out for the host.

use crate::errors::JsonSchema1CError;
use vstd::prelude::*;
use vstd::string::StringExecFns;

verus! {

/// `jsonschema::ValidationError`, an error of the schema compiler or of a
/// validator. Nothing inside it is visible to a proof.
#[verifier::external_type_specification]
#[verifier::external_body]
pub struct ExSchemaError<'a>(jsonschema::ValidationError<'a>);

/// One reason why a document does not meet the schema.
#[derive(Debug, PartialEq, Eq)]
pub struct ValidationIssue {
    /// Where in the document, as a JSON pointer.
    pub instance_path: String,
    /// Where in the schema, as a JSON pointer.
    pub schema_path: String,
    /// The part of the document that was refused, as JSON text.
    pub instance: String,
    /// The reason in words.
    pub message: String,
}

/// Why the schema compiler did not build a validator.
#[derive(Debug, PartialEq, Eq)]
pub enum BuildFailure {
    /// The schema refers to `uri`, and the resolver has no document for it.
    Unretrievable { uri: String },
    /// The schema declares a dialect that is not known.
    UnknownSpecification,
    /// The schema is refused at `path` for the reason `message`.
    Invalid { path: String, message: String },
}

/// The four parts of an error of `jsonschema`, each as the text that its
/// `Display` writes. Nothing is claimed of the texts.
#[verifier::external_body]
pub(crate) fn parts_of(error: &jsonschema::ValidationError<'_>) -> (parts: ValidationIssue) {
    ValidationIssue {
        instance_path: error.instance_path().to_string(),
        schema_path: error.schema_path().to_string(),
        instance: error.instance().to_string(),
        message: error.to_string(),
    }
}

/// What kind of failure an error of `jsonschema`'s compiler is: a document
/// that could not be retrieved, with its URI; an unknown dialect; or any
/// other, with its place and text. Nothing is claimed of which it is.
#[verifier::external_body]
pub(crate) fn failure_of(error: &jsonschema::ValidationError<'static>) -> (failure: BuildFailure) {
    match error.kind() {
        jsonschema::error::ValidationErrorKind::Referencing(
            jsonschema::ReferencingError::Unretrievable { uri, .. },
        ) => BuildFailure::Unretrievable { uri: uri.clone() },
        jsonschema::error::ValidationErrorKind::Referencing(
            jsonschema::ReferencingError::UnknownSpecification { .. },
        ) => BuildFailure::UnknownSpecification,
        _ => BuildFailure::Invalid {
            path: error.instance_path().to_string(),
            message: error.to_string(),
        },
    }
}

/// The parts of the errors that a validator found, one for each and in
/// their order.
pub fn issues_of(errors: &Vec<jsonschema::ValidationError<'_>>) -> (issues: Vec<ValidationIssue>)
    ensures
        issues@.len() == errors@.len(),
{
    let mut issues: Vec<ValidationIssue> = Vec::new();
    let mut i: usize = 0;
    while i < errors.len()
        invariant
            i <= errors@.len(),
            issues@.len() == i,
        decreases errors@.len() - i,
    {
        issues.push(parts_of(&errors[i]));
        i += 1;
    }
    issues
}

/// `text` with every occurrence of `from` replaced by `to`: the occurrences
/// are taken from the left and do not overlap.
pub open spec fn replace_all(text: Seq<char>, from: Seq<char>, to: Seq<char>) -> Seq<char>
    decreases text.len(),
{
    if from.len() == 0 || text.len() < from.len() {
        text
    } else if text.subrange(0, from.len() as int) == from {
        to + replace_all(text.subrange(from.len() as int, text.len() as int), from, to)
    } else {
        seq![text[0]] + replace_all(text.subrange(1, text.len() as int), from, to)
    }
}

/// `str::replace` with a string as the pattern: every match of `from`, found
/// from the left and not overlapping, is replaced by `to`.
#[verifier::external_body]
pub(crate) fn replace(text: &str, from: &str, to: &str) -> (res: String)
    requires
        from@.len() > 0,
    ensures
        res@ == replace_all(text@, from@, to@),
{
    text.replace(from, to)
}

impl ValidationIssue {
    /// `template` with the placeholders `{path}`, `{instance}`,
    /// `{schema_path}` and `{error}` replaced, in this order, by the parts of
    /// the error.
    pub open spec fn filled(self, template: Seq<char>) -> Seq<char> {
        replace_all(
            replace_all(
                replace_all(
                    replace_all(template, "{path}"@, self.instance_path@),
                    "{instance}"@,
                    self.instance@,
                ),
                "{schema_path}"@,
                self.schema_path@,
            ),
            "{error}"@,
            self.message@,
        )
    }

    /// The text that reports the error: the template filled in, or without
    /// a template the reason in words.
    pub open spec fn rendered(self, template: Option<Seq<char>>) -> Seq<char> {
        match template {
            Some(template) => self.filled(template),
            None => self.message@,
        }
    }
}

/// A text in which the first character of `from` does not occur is left as
/// it is.
pub proof fn lemma_replace_without_match(text: Seq<char>, from: Seq<char>, to: Seq<char>)
    requires
        from.len() > 0,
        !text.contains(from[0]),
    ensures
        replace_all(text, from, to) == text,
    decreases text.len(),
{
    if text.len() >= from.len() {
        let head = text.subrange(0, from.len() as int);
        assert(head[0] == text[0]);
        assert(text.contains(text[0]));
        let rest = text.subrange(1, text.len() as int);
        assert forall|c: char| rest.contains(c) implies text.contains(c) by {
            let k = choose|k: int| 0 <= k < rest.len() && rest[k] == c;
            assert(text[k + 1] == c);
        }
        lemma_replace_without_match(rest, from, to);
        assert(seq![text[0]] + rest =~= text);
    }
}

/// A template without an opening brace has no placeholder: every error is
/// reported by the template's own text.
pub proof fn lemma_template_without_placeholders(issue: ValidationIssue, template: Seq<char>)
    requires
        !template.contains('{'),
    ensures
        issue.filled(template) == template,
{
    reveal_strlit("{path}");
    reveal_strlit("{instance}");
    reveal_strlit("{schema_path}");
    reveal_strlit("{error}");
    lemma_replace_without_match(template, "{path}"@, issue.instance_path@);
    lemma_replace_without_match(template, "{instance}"@, issue.instance@);
    lemma_replace_without_match(template, "{schema_path}"@, issue.schema_path@);
    lemma_replace_without_match(template, "{error}"@, issue.message@);
}

/// The template as a contract speaks of it.
pub open spec fn template_text(template: Option<&String>) -> Option<Seq<char>> {
    match template {
        Some(template) => Some(template@),
        None => None,
    }
}

/// The text that reports `error`: `template` with its placeholders replaced
/// by the parts of the error, or without a template the error's own words.
pub fn format_error(error: &ValidationIssue, template: Option<&String>) -> (text: String)
    ensures
        text@ == error.rendered(template_text(template)),
{
    match template {
        Some(template) => {
            proof {
                reveal_strlit("{path}");
                reveal_strlit("{instance}");
                reveal_strlit("{schema_path}");
                reveal_strlit("{error}");
            }
            let with_path = replace(template.as_str(), "{path}", error.instance_path.as_str());
            let with_instance = replace(
                with_path.as_str(),
                "{instance}",
                error.instance.as_str(),
            );
            let with_schema_path = replace(
                with_instance.as_str(),
                "{schema_path}",
                error.schema_path.as_str(),
            );
            replace(with_schema_path.as_str(), "{error}", error.message.as_str())
        },
        None => error.message.clone(),
    }
}

/// The texts that report `errors`, one for each and in their order.
pub open spec fn rendered_all(errors: Seq<ValidationIssue>, template: Option<Seq<char>>) -> Seq<
    Seq<char>,
> {
    Seq::new(errors.len(), |i: int| errors[i].rendered(template))
}

/// The texts that report `errors`, one for each and in their order.
pub fn format_errors(errors: &Vec<ValidationIssue>, template: Option<&String>) -> (texts: Vec<
    String,
>)
    ensures
        texts@.len() == errors@.len(),
        forall|i: int|
            0 <= i < errors@.len() ==> (#[trigger] texts@[i])@ == errors@[i].rendered(
                template_text(template),
            ),
{
    let mut texts: Vec<String> = Vec::new();
    let mut i: usize = 0;
    while i < errors.len()
        invariant
            i <= errors@.len(),
            texts@.len() == i,
            forall|k: int|
                0 <= k < i ==> (#[trigger] texts@[k])@ == errors@[k].rendered(
                    template_text(template),
                ),
        decreases errors@.len() - i,
    {
        texts.push(format_error(&errors[i], template));
        i += 1;
    }
    texts
}

/// The error that reports a failure of the schema compiler.
pub open spec fn reports_failure(error: JsonSchema1CError, failure: BuildFailure) -> bool {
    match failure {
        BuildFailure::Unretrievable { uri } => error matches JsonSchema1CError::SchemaNotFound {
            uri: reported,
        } && reported@ == uri@,
        BuildFailure::UnknownSpecification => error is UnknownDraft,
        BuildFailure::Invalid { path, message } => error matches JsonSchema1CError::SchemaCompile {
            path: reported_path,
            message: reported_message,
        } && reported_path@ == path@ && reported_message@ == message@,
    }
}

/// The error that reports a failure of the schema compiler: a document that
/// could not be retrieved is a schema not found, an unknown dialect an
/// unknown draft, and anything else a schema that does not compile.
pub fn classify(failure: BuildFailure) -> (error: JsonSchema1CError)
    ensures
        reports_failure(error, failure),
{
    match failure {
        BuildFailure::Unretrievable { uri } => JsonSchema1CError::SchemaNotFound { uri },
        BuildFailure::UnknownSpecification => JsonSchema1CError::UnknownDraft,
        BuildFailure::Invalid { path, message } => JsonSchema1CError::SchemaCompile {
            path,
            message,
        },
    }
}

} // verus!
