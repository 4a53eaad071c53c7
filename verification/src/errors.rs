//! The errors of the engine and the texts that report them.

use vstd::prelude::*;
use vstd::string::StringExecFns;

verus! {

/// The type that a value handed over by the host was expected to have.
#[derive(Debug, Clone, Copy, PartialEq, Eq, Structural)]
pub enum ParamType {
    String,
    Bool,
    Uri,
}

impl ParamType {
    /// The name of the type as it stands in a message.
    pub open spec fn spec_text(self) -> Seq<char> {
        match self {
            ParamType::String => "string"@,
            ParamType::Bool => "bool"@,
            ParamType::Uri => "uri"@,
        }
    }

    /// The name of the type as it stands in a message.
    pub fn text(&self) -> (text: &'static str)
        ensures
            text@ == self.spec_text(),
    {
        match self {
            ParamType::String => "string",
            ParamType::Bool => "bool",
            ParamType::Uri => "uri",
        }
    }
}

/// Why an operation of the engine failed.
#[derive(Debug, PartialEq, Eq)]
pub enum JsonSchema1CError {
    /// The schema compiler refused the schema; `path` is where in it.
    SchemaCompile { path: String, message: String },
    /// A document was to be checked before any schema was installed.
    SchemaNotInstalled,
    /// A schema to register has no `"$id"`.
    PropertyIdMissing,
    /// The `"$id"` of a schema to register is not a string.
    PropertyIdNotString,
    /// The text is not a URI.
    InvalidUri { value: String },
    /// The schema refers to a document that the registry does not hold.
    SchemaNotFound { uri: String },
    /// The parameter at `index` has not the expected type.
    ParamConversion { index: usize, expected_type: ParamType },
    /// The value of a property has not the expected type.
    PropertyConversion { expected_type: ParamType },
    /// The text is not JSON.
    JsonParse { message: String },
    /// The draft asked for, or declared by the schema, is not a known one.
    UnknownDraft,
}

/// The character that writes the digit `d`, for `d` from 0 to 9.
pub open spec fn digit_char(d: nat) -> char {
    if d == 0 {
        '0'
    } else if d == 1 {
        '1'
    } else if d == 2 {
        '2'
    } else if d == 3 {
        '3'
    } else if d == 4 {
        '4'
    } else if d == 5 {
        '5'
    } else if d == 6 {
        '6'
    } else if d == 7 {
        '7'
    } else if d == 8 {
        '8'
    } else {
        '9'
    }
}

/// `n` in decimal, without leading zeros.
pub open spec fn decimal_text(n: nat) -> Seq<char>
    decreases n,
{
    if n < 10 {
        seq![digit_char(n)]
    } else {
        decimal_text(n / 10).push(digit_char(n % 10))
    }
}

/// `n` in decimal, without leading zeros.
pub fn decimal(n: usize) -> (text: String)
    ensures
        text@ == decimal_text(n as nat),
    decreases n,
{
    let digit: &'static str = match n % 10 {
        0 => "0",
        1 => "1",
        2 => "2",
        3 => "3",
        4 => "4",
        5 => "5",
        6 => "6",
        7 => "7",
        8 => "8",
        _ => "9",
    };
    proof {
        reveal_strlit("0");
        reveal_strlit("1");
        reveal_strlit("2");
        reveal_strlit("3");
        reveal_strlit("4");
        reveal_strlit("5");
        reveal_strlit("6");
        reveal_strlit("7");
        reveal_strlit("8");
        reveal_strlit("9");
        assert(digit@ =~= seq![digit_char((n % 10) as nat)]);
    }
    if n < 10 {
        String::from_str(digit)
    } else {
        let text = decimal(n / 10).concat(digit);
        assert(text@ =~= decimal_text(n as nat));
        text
    }
}

impl JsonSchema1CError {
    /// The text that reports the error.
    pub open spec fn spec_message(self) -> Seq<char> {
        match self {
            JsonSchema1CError::SchemaCompile { path, message } => "Scheme compilation error: "@
                + path@ + " "@ + message@,
            JsonSchema1CError::SchemaNotInstalled => "Scheme not installed"@,
            JsonSchema1CError::PropertyIdMissing => "Property '$id' not found in the schema"@,
            JsonSchema1CError::PropertyIdNotString => "Property '$id' is not a string"@,
            JsonSchema1CError::InvalidUri { value } => "Invalid URI '"@ + value@ + "'"@,
            JsonSchema1CError::SchemaNotFound { uri } => "Schema "@ + uri@ + " not found"@,
            JsonSchema1CError::ParamConversion { index, expected_type } =>
                "Failed to extract parameter "@ + decimal_text(index as nat) + " as '"@
                    + expected_type.spec_text() + "'"@,
            JsonSchema1CError::PropertyConversion { expected_type } =>
                "Failed to extract property as '"@ + expected_type.spec_text() + "'"@,
            JsonSchema1CError::JsonParse { message } => "JSON reading error: "@ + message@,
            JsonSchema1CError::UnknownDraft => "Unknown draft of JSON Schema"@,
        }
    }

    /// The text that reports the error.
    pub fn message(&self) -> (text: String)
        ensures
            text@ == self.spec_message(),
    {
        match self {
            JsonSchema1CError::SchemaCompile { path, message } => {
                String::from_str("Scheme compilation error: ").concat(path.as_str()).concat(
                    " ",
                ).concat(message.as_str())
            },
            JsonSchema1CError::SchemaNotInstalled => String::from_str("Scheme not installed"),
            JsonSchema1CError::PropertyIdMissing => String::from_str(
                "Property '$id' not found in the schema",
            ),
            JsonSchema1CError::PropertyIdNotString => String::from_str(
                "Property '$id' is not a string",
            ),
            JsonSchema1CError::InvalidUri { value } => {
                String::from_str("Invalid URI '").concat(value.as_str()).concat("'")
            },
            JsonSchema1CError::SchemaNotFound { uri } => {
                String::from_str("Schema ").concat(uri.as_str()).concat(" not found")
            },
            JsonSchema1CError::ParamConversion { index, expected_type } => {
                let number = decimal(*index);
                String::from_str("Failed to extract parameter ").concat(number.as_str()).concat(
                    " as '",
                ).concat(expected_type.text()).concat("'")
            },
            JsonSchema1CError::PropertyConversion { expected_type } => {
                String::from_str("Failed to extract property as '").concat(
                    expected_type.text(),
                ).concat("'")
            },
            JsonSchema1CError::JsonParse { message } => {
                String::from_str("JSON reading error: ").concat(message.as_str())
            },
            JsonSchema1CError::UnknownDraft => String::from_str("Unknown draft of JSON Schema"),
        }
    }
}

} // verus!
