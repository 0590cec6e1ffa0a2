//! How sure format detection is, and text comparisons of JSON values.

use bpmn_engine::engine::evaluator::text_equals_verdict;
use bpmn_engine::model::format::{BpmnFormat, DetectionConfidence, DetectionError, FormatDetector};

#[test]
fn each_confidence_level_is_reached() {
    let cases = [
        ("  <?xml version=\"1.0\"?><definitions/>", BpmnFormat::Xml, DetectionConfidence::XmlDeclaration),
        ("<bpmn:definitions/>", BpmnFormat::Xml, DetectionConfidence::XmlNamespace),
        ("x <definitions> y", BpmnFormat::Xml, DetectionConfidence::XmlOther),
        (" {\"id\": \"p\"} \n", BpmnFormat::Json, DetectionConfidence::JsonObject),
        ("[1, 2]", BpmnFormat::Json, DetectionConfidence::JsonOther),
        ("{\"a\": 1} x", BpmnFormat::Json, DetectionConfidence::JsonOther),
    ];
    for (input, format, level) in cases {
        assert_eq!(FormatDetector::detect_with_confidence(input).unwrap(), (format, level), "{}", input);
    }
}

#[test]
fn confidence_fails_where_detection_fails() {
    assert!(matches!(FormatDetector::detect_with_confidence("   "), Err(DetectionError::UnableToDetect)));
    assert!(matches!(FormatDetector::detect_with_confidence("plain"), Err(DetectionError::UnableToDetect)));
}

#[test]
fn text_verdicts_ignore_ascii_case() {
    assert!(text_equals_verdict("[1,2]", "[1,2]", false));
    assert!(text_equals_verdict("{\"A\":true}", "{\"a\":TRUE}", false));
    assert!(!text_equals_verdict("{\"A\":true}", "{\"a\":TRUE}", true));
    assert!(!text_equals_verdict("[1,2]", "[1, 2]", false));
    assert!(text_equals_verdict("[1,2]", "[1, 2]", true));
    assert!(!text_equals_verdict("É", "é", false));
}
