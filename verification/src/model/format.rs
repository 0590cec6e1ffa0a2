//! Format detection for BPMN input (JSON or XML).

use vstd::prelude::*;
use crate::model::elements::ProcessDefinition;
use crate::model::xml::{definition_is, parse_bpmn_xml, xml_result};
use crate::model::xml_read::xml_events;
use crate::text::{chars_of, contains, contains_chars, ends_with, ends_with_chars, starts_with, starts_with_chars, trim, trim_chars};

verus! {

/// Supported BPMN serialization formats.
#[derive(Debug, Clone, Copy, PartialEq, Eq, Structural)]
pub enum BpmnFormat {
    /// JSON format
    Json,
    /// XML format (BPMN 2.0 standard)
    Xml,
}

/// Format detection error.
#[derive(Debug)]
pub enum DetectionError {
    /// The input is empty or its format cannot be told.
    UnableToDetect,
    /// The input is in no supported format.
    InvalidFormat(String),
}

/// Error of parsing BPMN input.
#[derive(Debug)]
pub enum ParseError {
    /// The JSON input is malformed or does not describe a process.
    Json(String),
    /// The XML input is malformed or does not describe a process.
    Xml(String),
    /// The format of the input cannot be told.
    Detection(DetectionError),
    /// The format is not supported.
    UnsupportedFormat,
}

/// Error of serializing a process definition.
#[derive(Debug)]
pub enum SerializeError {
    /// JSON serialization failed.
    Json(String),
    /// XML serialization failed.
    Xml(String),
    /// The format is not supported.
    UnsupportedFormat,
}

/// What `FormatDetector::detect` gives for `input`: the first rule that the
/// trimmed input meets decides.
pub open spec fn detect_spec(input: Seq<char>) -> Result<BpmnFormat, DetectionError> {
    let t = trim(input);
    if t.len() == 0 {
        Err(DetectionError::UnableToDetect)
    } else if starts_with(t, "<?xml"@) || starts_with(t, "<bpmn2:"@) || starts_with(t, "<bpmn:"@) {
        Ok(BpmnFormat::Xml)
    } else if starts_with(t, seq!['{']) || starts_with(t, seq!['[']) {
        Ok(BpmnFormat::Json)
    } else if contains(t, seq!['<']) && contains(t, seq!['>']) && (contains(t, "bpmn2:"@)
        || contains(t, "bpmn:"@) || contains(t, "definitions"@)) {
        Ok(BpmnFormat::Xml)
    } else {
        Err(DetectionError::UnableToDetect)
    }
}

/// How sure format detection is of the format it found, from most to
/// least sure for each format.
#[derive(Debug, Clone, Copy, PartialEq, Eq, Structural)]
pub enum DetectionConfidence {
    /// XML whose trimmed text starts with an XML declaration.
    XmlDeclaration,
    /// Other XML that holds a BPMN namespace prefix (`bpmn2:` or `bpmn:`).
    XmlNamespace,
    /// Other XML.
    XmlOther,
    /// JSON whose trimmed text is enclosed in braces.
    JsonObject,
    /// Other JSON.
    JsonOther,
}

/// How sure detection is that `input` is in the format `format`.
pub open spec fn confidence_spec(input: Seq<char>, format: BpmnFormat) -> DetectionConfidence {
    let t = trim(input);
    match format {
        BpmnFormat::Xml => if starts_with(t, "<?xml"@) {
            DetectionConfidence::XmlDeclaration
        } else if contains(input, "bpmn2:"@) || contains(input, "bpmn:"@) {
            DetectionConfidence::XmlNamespace
        } else {
            DetectionConfidence::XmlOther
        },
        BpmnFormat::Json => if starts_with(t, seq!['{']) && ends_with(t, seq!['}']) {
            DetectionConfidence::JsonObject
        } else {
            DetectionConfidence::JsonOther
        },
    }
}

/// Detects the format of BPMN input data (JSON or XML).
pub struct FormatDetector;

impl FormatDetector {
    /// Detects the format of `input`.
    pub fn detect(input: &str) -> (r: Result<BpmnFormat, DetectionError>)
        ensures
            r == detect_spec(input@),
    {
        let all = chars_of(input);
        let t = trim_chars(&all);
        if t.len() == 0 {
            return Err(DetectionError::UnableToDetect);
        }
        if starts_with_chars(&t, &chars_of("<?xml")) || starts_with_chars(&t, &chars_of("<bpmn2:"))
            || starts_with_chars(&t, &chars_of("<bpmn:")) {
            return Ok(BpmnFormat::Xml);
        }
        let open_brace = vec!['{'];
        let open_bracket = vec!['['];
        assert(open_brace@ =~= seq!['{']);
        assert(open_bracket@ =~= seq!['[']);
        if starts_with_chars(&t, &open_brace) || starts_with_chars(&t, &open_bracket) {
            return Ok(BpmnFormat::Json);
        }
        let lt = vec!['<'];
        let gt = vec!['>'];
        assert(lt@ =~= seq!['<']);
        assert(gt@ =~= seq!['>']);
        if contains_chars(&t, &lt) && contains_chars(&t, &gt) {
            if contains_chars(&t, &chars_of("bpmn2:")) || contains_chars(&t, &chars_of("bpmn:"))
                || contains_chars(&t, &chars_of("definitions")) {
                return Ok(BpmnFormat::Xml);
            }
        }
        Err(DetectionError::UnableToDetect)
    }

    /// Detects the format of `input`, with how sure the detection is.
    pub fn detect_with_confidence(input: &str) -> (r: Result<(BpmnFormat, DetectionConfidence), DetectionError>)
        ensures
            r == match detect_spec(input@) {
                Ok(f) => Ok((f, confidence_spec(input@, f))),
                Err(e) => Err(e),
            },
    {
        let format = match Self::detect(input) {
            Ok(f) => f,
            Err(e) => {
                return Err(e);
            },
        };
        let all = chars_of(input);
        let t = trim_chars(&all);
        let confidence = match format {
            BpmnFormat::Xml => if starts_with_chars(&t, &chars_of("<?xml")) {
                DetectionConfidence::XmlDeclaration
            } else if contains_chars(&all, &chars_of("bpmn2:")) || contains_chars(&all, &chars_of("bpmn:")) {
                DetectionConfidence::XmlNamespace
            } else {
                DetectionConfidence::XmlOther
            },
            BpmnFormat::Json => {
                let open_brace = vec!['{'];
                let close_brace = vec!['}'];
                assert(open_brace@ =~= seq!['{']);
                assert(close_brace@ =~= seq!['}']);
                if starts_with_chars(&t, &open_brace) && ends_with_chars(&t, &close_brace) {
                    DetectionConfidence::JsonObject
                } else {
                    DetectionConfidence::JsonOther
                }
            },
        };
        Ok((format, confidence))
    }
}

impl Clone for DetectionError {
    fn clone(&self) -> (r: Self)
        ensures
            r == *self,
    {
        match self {
            DetectionError::UnableToDetect => DetectionError::UnableToDetect,
            DetectionError::InvalidFormat(m) => DetectionError::InvalidFormat(m.clone()),
        }
    }
}

/// The text describing a detection error.
pub open spec fn detection_error_text(e: DetectionError) -> Seq<char> {
    match e {
        DetectionError::UnableToDetect => "Unable to detect format: input is empty or ambiguous"@,
        DetectionError::InvalidFormat(m) => "Invalid format: "@ + m@,
    }
}

impl DetectionError {
    /// The text describing this error.
    pub fn message(&self) -> (r: String)
        ensures
            r@ == detection_error_text(*self),
    {
        match self {
            DetectionError::UnableToDetect => "Unable to detect format: input is empty or ambiguous".to_owned(),
            DetectionError::InvalidFormat(m) => "Invalid format: ".to_owned().concat(m.as_str()),
        }
    }
}

/// The text describing a parse error.
pub open spec fn parse_error_text(e: ParseError) -> Seq<char> {
    match e {
        ParseError::Json(m) => "JSON parse error: "@ + m@,
        ParseError::Xml(m) => "XML parse error: "@ + m@,
        ParseError::Detection(d) => "Format detection error: "@ + detection_error_text(d),
        ParseError::UnsupportedFormat => "Unsupported format"@,
    }
}

impl ParseError {
    /// The text describing this error.
    pub fn message(&self) -> (r: String)
        ensures
            r@ == parse_error_text(*self),
    {
        match self {
            ParseError::Json(m) => "JSON parse error: ".to_owned().concat(m.as_str()),
            ParseError::Xml(m) => "XML parse error: ".to_owned().concat(m.as_str()),
            ParseError::Detection(d) => "Format detection error: ".to_owned().concat(d.message().as_str()),
            ParseError::UnsupportedFormat => "Unsupported format".to_owned(),
        }
    }
}

impl From<DetectionError> for ParseError {
    fn from(e: DetectionError) -> (r: Self) {
        ParseError::Detection(e)
    }
}

impl vstd::std_specs::convert::FromSpecImpl<DetectionError> for ParseError {
    open spec fn obeys_from_spec() -> bool {
        true
    }

    open spec fn from_spec(e: DetectionError) -> Self {
        ParseError::Detection(e)
    }
}

/// The text describing a serialize error.
pub open spec fn serialize_error_text(e: SerializeError) -> Seq<char> {
    match e {
        SerializeError::Json(m) => "JSON serialize error: "@ + m@,
        SerializeError::Xml(m) => "XML serialize error: "@ + m@,
        SerializeError::UnsupportedFormat => "Unsupported format"@,
    }
}

impl SerializeError {
    /// The text describing this error.
    pub fn message(&self) -> (r: String)
        ensures
            r@ == serialize_error_text(*self),
    {
        match self {
            SerializeError::Json(m) => "JSON serialize error: ".to_owned().concat(m.as_str()),
            SerializeError::Xml(m) => "XML serialize error: ".to_owned().concat(m.as_str()),
            SerializeError::UnsupportedFormat => "Unsupported format".to_owned(),
        }
    }
}

/// Parser for the BPMN JSON format.
#[derive(Debug)]
pub struct JsonParser;

impl JsonParser {
    /// The format this parser reads.
    pub fn format(&self) -> (r: BpmnFormat)
        ensures
            r == BpmnFormat::Json,
    {
        BpmnFormat::Json
    }
}

/// Parser for the BPMN 2.0 XML format.
#[derive(Debug)]
pub struct XmlParser;

impl XmlParser {
    /// Parses BPMN 2.0 XML into a process definition.
    pub fn parse(&self, input: &str) -> (r: Result<ProcessDefinition, ParseError>)
        ensures
            match xml_result(xml_events(input@).0, xml_events(input@).1) {
                Ok(st) => r matches Ok(d) && definition_is(d@, st),
                Err(m) => r matches Err(ParseError::Xml(e)) && e@ == m,
            },
    {
        parse_bpmn_xml(input)
    }

    /// The format this parser reads.
    pub fn format(&self) -> (r: BpmnFormat)
        ensures
            r == BpmnFormat::Xml,
    {
        BpmnFormat::Xml
    }
}

/// Parser that detects the format of its input and parses it accordingly.
#[derive(Debug)]
pub struct AutoParser;

} // verus!
