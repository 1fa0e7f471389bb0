use hl7_ls::code_actions::{code_actions, requires_decoding, requires_encoding, CodeAction, Separators};
use hl7_ls::codelens::timestamp_code_lenses;
use hl7_ls::commands::encode_decode::{
    decode_selection, decode_text, encode_selection, encode_text, selected_text,
};
use hl7_ls::commands::send_message::{frame_message, reply_text, Reception};
use hl7_ls::completion::{handle_completion, CompletionItemKind};
use hl7_ls::diagnostics::{handle_diagnostics, ParseFailure, Severity};
use hl7_ls::document_symbols::{outline_version, segment_symbols, SymbolKind};
use hl7_ls::hover::{
    hover_text, hover_timestamp_value, message_version, CursorLocation, LocatedComponent,
    LocatedField, LocatedRepeat, LocatedSegment, LocatedSubcomponent,
};
use hl7_ls::message::{Component, Field, Message, Repeat, Segment, Span, Subcomponent};
use hl7_ls::selection_range::selection_ranges;
use hl7_ls::signature_help::{build_field_signature, build_segment_signature, signature_help};
use hl7_ls::spec::{
    component_table_values, describe_component, describe_field, field_parameters,
    field_table_values, segment_parameters, Catalog, DatatypeDefinition, FieldDefinition,
    FieldOptionality, FieldRepeatability, SegmentDefinition, TableDefinition, VersionDefinition,
};
use hl7_ls::text::{select, sort_texts};
use hl7_ls::utils::{lsp_range_to_std_range, std_range_to_lsp_range, Position, Range};
use hl7_ls::versions::{sort_versions, version_numbers};
use hl7_ls::workspace::specs::{FieldSpec, SegmentSpec, SpecEntry, WorkspaceSpec, WorkspaceSpecs};
use std::collections::HashMap;

fn span(r: &std::ops::Range<usize>) -> Span {
    Span { start: r.start, end: r.end }
}

fn tree(text: &str) -> Message {
    let parsed = hl7_parser::parse_message_with_lenient_newlines(text).expect("can parse");
    let mut segments = Vec::new();
    for s in parsed.segments() {
        let mut fields = Vec::new();
        for f in s.fields() {
            let mut repeats = Vec::new();
            for r in f.repeats() {
                let mut components = Vec::new();
                for c in r.components() {
                    let mut subcomponents = Vec::new();
                    for u in c.subcomponents() {
                        subcomponents
                            .push(Subcomponent { value: u.value.to_string(), range: span(&u.range) });
                    }
                    components.push(Component {
                        value: c.raw_value().to_string(),
                        subcomponents,
                        range: span(&c.range),
                    });
                }
                repeats.push(Repeat {
                    value: r.raw_value().to_string(),
                    components,
                    range: span(&r.range),
                });
            }
            fields.push(Field { value: f.raw_value().to_string(), repeats, range: span(&f.range) });
        }
        segments.push(Segment { name: s.name.to_string(), fields, range: span(&s.range) });
    }
    Message {
        segments,
        separators: Separators {
            field: parsed.separators.field,
            component: parsed.separators.component,
            subcomponent: parsed.separators.subcomponent,
            repetition: parsed.separators.repetition,
            escape: parsed.separators.escape,
        },
    }
}

fn locate(text: &str, offset: usize) -> Option<CursorLocation> {
    let parsed = hl7_parser::parse_message_with_lenient_newlines(text).expect("can parse");
    let cursor = parsed.locate_cursor(offset)?;
    Some(CursorLocation {
        label: cursor.to_string(),
        segment: cursor.segment.map(|(name, _, s)| LocatedSegment {
            name: name.to_string(),
            range: span(&s.range),
        }),
        field: cursor.field.map(|(n, f)| LocatedField {
            number: n,
            has_repeats: f.has_repeats(),
            value: f.raw_value().to_string(),
            range: span(&f.range),
        }),
        repeat: cursor.repeat.map(|(n, r)| LocatedRepeat {
            number: n,
            has_components: r.has_components(),
            range: span(&r.range),
        }),
        component: cursor.component.map(|(n, c)| LocatedComponent {
            number: n,
            value: c.raw_value().to_string(),
            range: span(&c.range),
        }),
        sub_component: cursor
            .sub_component
            .map(|(n, u)| LocatedSubcomponent { number: n, range: span(&u.range) }),
    })
}

fn definition(description: &str, datatype: &str) -> FieldDefinition {
    FieldDefinition {
        description: description.to_string(),
        datatype: datatype.to_string(),
        optionality: FieldOptionality::Optional,
        repeatability: FieldRepeatability::Single,
        max_length: None,
        table: None,
    }
}

fn version(name: &str) -> VersionDefinition {
    VersionDefinition {
        version: name.to_string(),
        segments: vec![
            SegmentDefinition {
                name: "MSH".to_string(),
                description: "Message Header".to_string(),
                fields: vec![],
            },
            SegmentDefinition {
                name: "PID".to_string(),
                description: "Patient Identification".to_string(),
                fields: vec![
                    FieldDefinition {
                        optionality: FieldOptionality::Required,
                        repeatability: FieldRepeatability::Bounded(3),
                        max_length: Some(4),
                        ..definition("Set ID", "SI")
                    },
                    FieldDefinition {
                        optionality: FieldOptionality::Conditional,
                        repeatability: FieldRepeatability::Unbounded,
                        ..definition("Patient ID", "CX")
                    },
                    FieldDefinition {
                        optionality: FieldOptionality::BackwardCompatibility,
                        table: Some(1),
                        ..definition("Sex", "IS")
                    },
                    FieldDefinition { table: Some(9), ..definition("Birth", "TS") },
                ],
            },
        ],
        datatypes: vec![
            DatatypeDefinition {
                name: "SI".to_string(),
                description: "Sequence ID".to_string(),
                subfields: vec![],
            },
            DatatypeDefinition {
                name: "CX".to_string(),
                description: "Extended Composite ID".to_string(),
                subfields: vec![
                    FieldDefinition {
                        optionality: FieldOptionality::Required,
                        ..definition("ID Number", "ST")
                    },
                    FieldDefinition { table: Some(1), ..definition("Assigned", "DTM") },
                ],
            },
            DatatypeDefinition {
                name: "DTM".to_string(),
                description: "Date/Time".to_string(),
                subfields: vec![],
            },
        ],
    }
}

fn catalog() -> Catalog {
    Catalog {
        versions: vec![version("2.10"), version("2.5"), version("2.7.1"), version("2.7"), version("2.3.1")],
        tables: vec![TableDefinition {
            id: 1,
            values: vec![
                ("M".to_string(), "Male".to_string()),
                ("F".to_string(), "Female".to_string()),
                ("F".to_string(), "Feminine".to_string()),
            ],
        }],
    }
}

fn document() -> Vec<String> {
    vec!["/".to_string(), "w".to_string(), "m.hl7".to_string()]
}

fn workspace() -> WorkspaceSpecs {
    let mut store = WorkspaceSpecs::empty();
    let mut fields = HashMap::new();
    fields.insert(
        1usize,
        FieldSpec { description: Some("Counter".to_string()), ..FieldSpec::default() },
    );
    store.upsert(SpecEntry {
        path: "/w/c.hl7v.toml".to_string(),
        location: vec!["/".to_string(), "w".to_string(), "c.hl7v.toml".to_string()],
        spec: WorkspaceSpec {
            name: "Custom".to_string(),
            segments: vec![SegmentSpec {
                name: "PID".to_string(),
                description: None,
                required: None,
                fields,
            }],
        },
    });
    store
}

const TEXT: &str = "MSH|^~\\&|app|fac|app2|fac2|20230312195905||ADT^A01|42|P|2.5\rPID|1~2|id^2023|F|2023";

#[test]
fn fields_are_described() {
    let c = catalog();
    assert_eq!(
        describe_field(&c, "2.5", "PID", 1),
        "Set ID, len: 4 (Sequence ID) [*required*/3]"
    );
    assert_eq!(
        describe_field(&c, "2.5", "PID", 2),
        "Patient ID, len: \u{221e} (Extended Composite ID) [*conditional*/\u{221e}]"
    );
    assert_eq!(
        describe_field(&c, "2.5", "PID", 3),
        "Sex, len: \u{221e} (Unknown datatype) [*backwards compatibility*/1]\n    Table values:\n      `F` (Female)\n      `F` (Feminine)\n      `M` (Male)"
    );
    assert_eq!(
        describe_field(&c, "2.5", "PID", 4),
        "Birth, len: \u{221e} (Unknown datatype) [*optional*/1]\n    Table values:\n"
    );
    assert_eq!(describe_field(&c, "2.5", "PID", 0), "Unknown field");
    assert_eq!(describe_field(&c, "2.5", "PID", 5), "Unknown field");
    assert_eq!(describe_field(&c, "2.5", "ZZZ", 1), "Unknown segment");
    assert_eq!(describe_field(&c, "1.0", "PID", 1), "Unknown segment");
}

#[test]
fn components_are_described() {
    let c = catalog();
    assert_eq!(
        describe_component(&c, "2.5", "PID", 2, 1),
        "ID Number, len: \u{221e} (Unknown datatype) [*required*/1]"
    );
    assert_eq!(
        describe_component(&c, "2.5", "PID", 2, 2),
        "Assigned, len: \u{221e} (Date/Time) [*optional*/1]\n  Table values:\n    `F` (Female)\n    `F` (Feminine)\n    `M` (Male)"
    );
    assert_eq!(describe_component(&c, "2.5", "PID", 2, 3), "Unknown component");
    assert_eq!(describe_component(&c, "2.5", "PID", 2, 0), "Unknown component");
    assert_eq!(describe_component(&c, "2.5", "PID", 3, 1), "Unknown component");
    assert_eq!(describe_component(&c, "2.5", "PID", 9, 1), "Unknown field");
    assert_eq!(describe_component(&c, "2.5", "ZZZ", 1, 1), "Unknown segment");
}

#[test]
fn values_of_fields_and_components() {
    let c = catalog();
    let sex = vec![
        ("F".to_string(), Some("Female".to_string())),
        ("F".to_string(), Some("Feminine".to_string())),
        ("M".to_string(), Some("Male".to_string())),
    ];
    assert_eq!(field_table_values(&c, "2.5", "PID", 3), Some(sex.clone()));
    assert_eq!(field_table_values(&c, "2.5", "PID", 1), None);
    assert_eq!(field_table_values(&c, "2.5", "PID", 4), None);
    assert_eq!(field_table_values(&c, "2.5", "PID", 0), None);
    assert_eq!(field_table_values(&c, "2.5", "ZZZ", 3), None);
    let versions: Vec<(String, Option<String>)> =
        ["2.3.1", "2.5", "2.7", "2.7.1", "2.10"].iter().map(|v| (v.to_string(), None)).collect();
    assert_eq!(field_table_values(&c, "2.5", "MSH", 12), Some(versions.clone()));
    assert_eq!(field_table_values(&c, "none", "MSH", 12), Some(versions));
    assert_eq!(component_table_values(&c, "2.5", "PID", 1, 1), Some(sex));
    assert_eq!(component_table_values(&c, "2.5", "PID", 1, 0), None);
    assert_eq!(component_table_values(&c, "2.5", "PID", 1, 2), None);
    assert_eq!(component_table_values(&c, "2.5", "PID", 0, 0), None);
    assert_eq!(component_table_values(&c, "2.5", "PID", usize::MAX, usize::MAX), None);
}

#[test]
fn parameters_of_segments_and_fields() {
    let c = catalog();
    assert_eq!(
        segment_parameters(&c, "2.5", "PID"),
        Some(vec![
            "*Set ID (Sequence ID)".to_string(),
            "?Patient ID (Extended Composite ID)".to_string(),
            "!Sex (IS)".to_string(),
            "Birth (TS)".to_string(),
        ])
    );
    assert_eq!(segment_parameters(&c, "2.5", "ZZZ"), None);
    assert_eq!(
        field_parameters(&c, "2.5", "PID", 2),
        Some(vec!["*ID Number (ST)".to_string(), "Assigned (Date/Time)".to_string()])
    );
    assert_eq!(field_parameters(&c, "2.5", "PID", 1), Some(vec![]));
    assert_eq!(field_parameters(&c, "2.5", "PID", 3), Some(vec![]));
    assert_eq!(field_parameters(&c, "2.5", "PID", 0), None);
    assert_eq!(field_parameters(&c, "2.5", "PID", 5), None);
}

fn by_numbers(versions: &mut Vec<String>) {
    versions.sort_by(|a, b| {
        let mut a = a.split('.').map(|s| s.parse::<u32>().unwrap_or(0)).collect::<Vec<u32>>();
        if a.len() == 2 {
            a.push(0);
        }
        let mut b = b.split('.').map(|s| s.parse::<u32>().unwrap_or(0)).collect::<Vec<u32>>();
        if b.len() == 2 {
            b.push(0);
        }
        a.cmp(&b)
    });
}

#[test]
fn versions_are_ordered_by_their_numbers() {
    let names = [
        "2.7.1", "2.10", "2.9", "2.7", "2.7.0", "2", "", "2.", ".5", "x.y", "2.+5", "2.-5", "3.1",
        "2.05", "2.5", "2.4294967295", "2.4294967296", "2.99999999999999999999", "1.2.3.4", "2.5.0",
        "2.5.1", "10", "2.5a", "2..1", "+2.5", "2.5.", "\u{e9}.1",
    ];
    let mut expected: Vec<String> = names.iter().map(|s| s.to_string()).collect();
    by_numbers(&mut expected);
    assert_eq!(sort_versions(names.iter().map(|s| s.to_string()).collect()), expected);
    assert_eq!(version_numbers("2.7.1"), vec![2, 7, 1]);
    assert_eq!(version_numbers("2.7"), vec![2, 7, 0]);
    assert_eq!(version_numbers("2"), vec![2]);
    assert_eq!(version_numbers(""), vec![0]);
    assert_eq!(version_numbers("2.+5.x.4294967295.4294967296"), vec![2, 5, 0, 4294967295, 0]);
    assert_eq!(sort_versions(vec![]), Vec::<String>::new());
}

#[test]
fn texts_are_sorted() {
    let words = ["b", "a", "", "ab", "B", "a", "\u{e9}", "z"];
    let mut expected: Vec<String> = words.iter().map(|s| s.to_string()).collect();
    expected.sort();
    assert_eq!(sort_texts(words.iter().map(|s| s.to_string()).collect()), expected);
}

#[test]
fn hover_on_a_segment() {
    let c = catalog();
    let location = locate(TEXT, 61).expect("located");
    assert_eq!(location.label, "PID");
    let text = hover_text(&c, &None, &document(), "2.5", &location, None);
    assert_eq!(
        text,
        "`PID`:\n  PID: Patient Identification\n\n---\n\n**More info**: [https://hl7-definition.caristix.com/v2/HL7v2.5/Segments/PID](https://hl7-definition.caristix.com/v2/HL7v2.5/Segments/PID)"
    );
}

#[test]
fn hover_on_a_field_with_repeats_and_a_workspace_note() {
    let c = catalog();
    let store = workspace();
    let offset = TEXT.find("1~2").unwrap() + 2;
    let location = locate(TEXT, offset).expect("located");
    assert_eq!(location.label, "PID.1[2]");
    let text = hover_text(&c, &Some(&store), &document(), "2.5", &location, Some("never shown".to_string()));
    assert_eq!(
        text,
        "`PID.1[2]`:\n  PID: Patient Identification\n  **PID.1[2]**: \n    Custom:\n      Counter\u{2020}\n  PID.1[2]: Set ID, len: 4 (Sequence ID) [*required*/3]\n\n---\n\n**More info**: [https://hl7-definition.caristix.com/v2/HL7v2.5/Fields/PID.1](https://hl7-definition.caristix.com/v2/HL7v2.5/Fields/PID.1)\n\n\u{2020}: Workspace description"
    );
    let plain = hover_text(&c, &None, &document(), "2.5", &location, None);
    assert!(!plain.contains('\u{2020}'));
}

#[test]
fn hover_on_a_component_and_a_timestamp() {
    let c = catalog();
    let offset = TEXT.find("id^2023").unwrap() + 4;
    let location = locate(TEXT, offset).expect("located");
    assert_eq!(location.label, "PID.2.2");
    assert_eq!(hover_timestamp_value(&c, "2.5", &location), Some("2023"));
    let text = hover_text(&c, &None, &document(), "2.5", &location, Some("  UTC: `x`".to_string()));
    assert_eq!(
        text,
        "`PID.2.2`:\n  PID: Patient Identification\n  PID.2: Patient ID, len: \u{221e} (Extended Composite ID) [*conditional*/\u{221e}]\n  PID.2.2: Assigned, len: \u{221e} (Date/Time) [*optional*/1]\n  Table values:\n    `F` (Female)\n    `F` (Feminine)\n    `M` (Male)\n\n---\n\n**Timestamp**:\n  UTC: `x`\n\n**More info**: [https://hl7-definition.caristix.com/v2/HL7v2.5/Fields/PID.2.2](https://hl7-definition.caristix.com/v2/HL7v2.5/Fields/PID.2.2)"
    );
    let first = locate(TEXT, offset - 3).expect("located");
    assert_eq!(hover_timestamp_value(&c, "2.5", &first), None);
    let birth = locate(TEXT, TEXT.len() - 1).expect("located");
    assert_eq!(birth.label, "PID.4");
    assert_eq!(hover_timestamp_value(&c, "2.5", &birth), Some("2023"));
}

#[test]
fn hover_with_an_unknown_version_and_without_a_segment() {
    let c = catalog();
    let location = locate(TEXT, 61).expect("located");
    let text = hover_text(&c, &None, &document(), "9.9", &location, None);
    assert!(text.starts_with("`PID`\n\nUnknown HL7 version `9.9`:\n  PID: Unknown segment\n\n---"));
    let nowhere = CursorLocation {
        label: "".to_string(),
        segment: None,
        field: None,
        repeat: None,
        component: None,
        sub_component: None,
    };
    assert_eq!(hover_text(&c, &None, &document(), "2.5", &nowhere, Some("t".to_string())), "``");
    assert_eq!(nowhere.hover_range(), None);
    assert_eq!(selection_ranges(&nowhere), None);
}

#[test]
fn the_version_of_a_message() {
    assert_eq!(message_version(&tree(TEXT)), "2.5");
    assert_eq!(message_version(&tree("MSH|^~\\&|a|b")), "2.7.1");
    let odd = tree("MSH|^~\\&|app|fac|app2|fac2|20230312195905||ADT^A01|42|P|9.9");
    assert_eq!(message_version(&odd), "9.9");
    assert_eq!(outline_version(&catalog(), &odd), "2.7.1");
    assert_eq!(outline_version(&catalog(), &tree(TEXT)), "2.5");
}

#[test]
fn ranges_around_a_cursor() {
    let offset = TEXT.find("id^2023").unwrap() + 4;
    let location = locate(TEXT, offset).expect("located");
    let ranges = selection_ranges(&location).expect("ranges");
    assert_eq!(ranges.len(), 5);
    assert_eq!(ranges[0], location.segment.as_ref().unwrap().range);
    assert_eq!(ranges[1], location.field.as_ref().unwrap().range);
    assert_eq!(ranges[2], location.repeat.as_ref().unwrap().range);
    assert_eq!(ranges[3], location.component.as_ref().unwrap().range);
    assert_eq!(ranges[4], location.sub_component.as_ref().unwrap().range);
    assert_eq!(location.hover_range(), Some(ranges[4]));
    let segment_only = locate(TEXT, 61).expect("located");
    assert_eq!(selection_ranges(&segment_only).map(|r| r.len()), Some(1));
    assert_eq!(segment_only.hover_range(), Some(segment_only.segment.as_ref().unwrap().range));
}

fn separators() -> Separators {
    Separators { field: '|', component: '^', subcomponent: '&', repetition: '~', escape: '\\' }
}

#[test]
fn actions_on_offer() {
    let c = catalog();
    let message = tree(TEXT);
    let s = separators();
    assert!(requires_encoding("a|b", &s));
    assert!(requires_encoding("\\", &s));
    assert!(!requires_encoding("ab", &s));
    assert!(!requires_encoding("", &s));
    assert!(requires_decoding("a\\F\\b", &s));
    assert!(!requires_decoding("a|b", &s));
    // inside the control id
    let id = TEXT.find("|42|").unwrap() + 1;
    let offered = code_actions(&c, &message, Some(Span { start: id, end: id + 2 }), "42", locate(TEXT, id).as_ref(), &s);
    assert_eq!(offered.len(), 1);
    assert!(matches!(offered[0], CodeAction::GenerateControlId));
    // in a timestamp field, with a delimiter selected
    let birth = TEXT.len() - 4;
    let location = locate(TEXT, birth).expect("located");
    let offered = code_actions(&c, &message, Some(Span { start: birth, end: birth + 3 }), "202", Some(&location), &s);
    assert_eq!(offered.len(), 1);
    match &offered[0] {
        CodeAction::SetTimestampToNow { title, range } => {
            assert_eq!(title, "Set PID.4 to now");
            assert_eq!(*range, location.repeat.as_ref().unwrap().range);
        }
        other => panic!("unexpected action {other:?}"),
    }
    // the separator before a field counts to the field before it
    let before = locate(TEXT, birth - 1).expect("located");
    let offered = code_actions(&c, &message, Some(Span { start: birth - 1, end: birth + 2 }), "|20", Some(&before), &s);
    assert_eq!(offered.len(), 1);
    assert!(matches!(offered[0], CodeAction::EncodeSelection));
    // an empty selection offers no recoding
    let offered = code_actions(&c, &message, Some(Span { start: 70, end: 70 }), "", locate(TEXT, 70).as_ref(), &s);
    assert!(offered.is_empty());
    let offered = code_actions(&c, &message, Some(Span { start: 62, end: 66 }), "\\F\\|", locate(TEXT, 62).as_ref(), &s);
    assert_eq!(offered.len(), 2);
    assert!(matches!(offered[0], CodeAction::EncodeSelection));
    assert!(matches!(offered[1], CodeAction::DecodeSelection));
    assert!(code_actions(&c, &message, None, "|", locate(TEXT, 62).as_ref(), &s).is_empty());
}

#[test]
fn signatures_of_segments_and_fields() {
    let c = catalog();
    let s = build_segment_signature(&c, "2.5", "|", "PID", 2).expect("signature");
    assert_eq!(
        s.label,
        "PID|*Set ID (Sequence ID)|?Patient ID (Extended Composite ID)|!Sex (IS)|Birth (TS)|"
    );
    assert_eq!(s.active_parameter, Some(1));
    assert_eq!(build_segment_signature(&c, "2.5", "|", "PID", 0).unwrap().active_parameter, None);
    assert_eq!(s.parameters.len(), 4);
    assert_eq!(s.parameters[0], (4, 25));
    assert_eq!(&s.label[s.parameters[0].0..s.parameters[0].1], "*Set ID (Sequence ID)");
    assert_eq!(&s.label[s.parameters[3].0..s.parameters[3].1], "Birth (TS)");
    assert!(build_segment_signature(&c, "2.5", "|", "ZZZ", 1).is_none());
    let f = build_field_signature(&c, "2.5", "^", "PID", 2, 2).expect("signature");
    assert_eq!(f.label, "PID.2|*ID Number (ST)^Assigned (Date/Time)^");
    assert_eq!(f.active_parameter, Some(1));
    assert_eq!(&f.label[f.parameters[1].0..f.parameters[1].1], "Assigned (Date/Time)");
    assert!(build_field_signature(&c, "2.5", "^", "PID", 9, 1).is_none());
    let offset = TEXT.find("id^2023").unwrap() + 4;
    let help = signature_help(&c, "2.5", "|", "^", &locate(TEXT, offset).unwrap()).expect("help");
    assert_eq!(help.signatures.len(), 2);
    assert_eq!(help.active_signature, 1);
    let help = signature_help(&c, "2.5", "|", "^", &locate(TEXT, TEXT.len() - 1).unwrap()).expect("help");
    assert_eq!(help.signatures.len(), 2);
    assert_eq!(help.signatures[1].parameters.len(), 0);
    assert_eq!(help.active_signature, 0);
    assert!(signature_help(&c, "2.5", "|", "^", &locate(TEXT, 61).unwrap()).is_none());
}

#[test]
fn completions_at_a_cursor() {
    let c = catalog();
    let sex = TEXT.find("|F|").unwrap() + 1;
    let items = handle_completion(&c, "2.5", locate(TEXT, sex).as_ref(), 20);
    let labels: Vec<(String, Option<String>)> =
        items.iter().map(|i| (i.label.clone(), i.detail.clone())).collect();
    assert_eq!(
        labels,
        vec![
            ("F".to_string(), Some("Female".to_string())),
            ("F".to_string(), Some("Feminine".to_string())),
            ("M".to_string(), Some("Male".to_string())),
        ]
    );
    assert!(items.iter().all(|i| i.kind == CompletionItemKind::Value));
    let second = TEXT.find("id^2023").unwrap() + 4;
    assert_eq!(handle_completion(&c, "2.5", locate(TEXT, second).as_ref(), 20).len(), 3);
    assert!(handle_completion(&c, "2.5", locate(TEXT, second - 3).as_ref(), 20).is_empty());
    // at the start of a line the segments of the fallback version are offered
    let names: Vec<String> =
        handle_completion(&c, "2.5", None, 2).iter().map(|i| i.label.clone()).collect();
    assert_eq!(names, vec!["MSH", "PID"]);
    assert!(handle_completion(&c, "2.5", None, 3).is_empty());
    assert!(handle_completion(&c, "2.5", None, 0).iter().all(|i| i.kind == CompletionItemKind::Class));
}

#[test]
fn lenses_on_timestamp_fields() {
    let c = catalog();
    let message = tree(TEXT);
    let lenses = timestamp_code_lenses(&c, &message);
    assert_eq!(lenses.len(), 1);
    assert_eq!(lenses[0].title, "Set PID.4 (2023) to now (UTC)");
    assert_eq!(lenses[0].range, message.segments[1].fields[3].range);
    let unknown = tree("MSH|^~\\&|app|fac|app2|fac2|20230312195905||ADT^A01|42|P|9.9\rPID|1|x|F|2023");
    assert!(timestamp_code_lenses(&c, &unknown).is_empty());
}

#[test]
fn messages_are_framed() {
    assert_eq!(frame_message("MSH|a\r\nPID|b\nPV1\r"), b"\x0bMSH|a\rPID|b\rPV1\r\x1c\r".to_vec());
    assert_eq!(frame_message(""), b"\x0b\x1c\r".to_vec());
    assert_eq!(frame_message("\r\r\n\n"), b"\x0b\r\r\r\x1c\r".to_vec());
    let text = "MSH|a\r\nPID|b\nPV1\r";
    let expected = format!("\x0B{}\x1C\r", text.replace("\r\n", "\r").replace('\n', "\r"));
    assert_eq!(frame_message(text), expected.into_bytes());
}

#[test]
fn replies_are_received() {
    let state = Reception::new().accept_all(b"noise\x0bMSA|AA\rERR\x1c\rrest");
    match &state {
        Reception::Complete(bytes) => assert_eq!(bytes, b"MSA|AA\rERR"),
        other => panic!("unexpected state {other:?}"),
    }
    assert!(state.is_over());
    assert_eq!(reply_text(&b"MSA|AA\rERR".to_vec()), b"MSA|AA\nERR".to_vec());
    assert!(matches!(Reception::new().accept_all(b"MSA|AA\x1c\r"), Reception::Waiting));
    let partial = Reception::new().accept_all(b"\x0bMSA\x1c");
    assert!(!partial.is_over());
    match partial.clone().accept(b'x') {
        Reception::Receiving(bytes) => assert_eq!(bytes, b"MSA\x1cx"),
        other => panic!("unexpected state {other:?}"),
    }
    assert!(matches!(partial.accept(b'\r'), Reception::Complete(_)));
    assert!(matches!(Reception::new().accept_all(b"\x0b\x1c\r"), Reception::Complete(b) if b.is_empty()));
    // a reply is cut off behind the greatest number of bytes
    let mut long = vec![0x0bu8];
    long.extend(std::iter::repeat(b'a').take(65535));
    let full = Reception::new().accept_all(&long);
    assert!(matches!(&full, Reception::Receiving(b) if b.len() == 65535));
    assert!(matches!(full.clone().accept(b'a'), Reception::TooLarge));
    let mut ending = long.clone();
    ending.pop();
    ending.push(0x1c);
    let last = Reception::new().accept_all(&ending);
    assert!(matches!(last.accept(b'\r'), Reception::Complete(b) if b.len() == 65534));
    assert!(matches!(Reception::TooLarge.accept(b'\r'), Reception::TooLarge));
}

#[test]
fn texts_are_encoded_and_decoded() {
    let s = separators();
    assert_eq!(
        encode_text(&s, "foo|bar^baz&quux~quuz\\corge\rquack\nduck"),
        r"foo\F\bar\S\baz\T\quux\R\quuz\E\corge\X0D\quack\X0A\duck"
    );
    assert_eq!(encode_text(&s, "h\u{e9}|"), "h\u{e9}\\F\\");
    assert_eq!(encode_text(&s, ""), "");
    assert_eq!(
        decode_text(&s, r"foo\F\bar\S\baz\T\quux\R\quuz\E\corge\X0D\quack\X0A\duck\.br\"),
        Some("foo|bar^baz&quux~quuz\\corge\rquack\nduck\r".to_string())
    );
    // a text with the escape character and other than ASCII characters is not decoded
    assert_eq!(decode_text(&s, "h\u{e9}\\F\\"), None);
    // a text without the escape character is decoded as it is
    assert_eq!(decode_text(&s, "h\u{e9}llo|"), Some("h\u{e9}llo|".to_string()));
    assert_eq!(decode_text(&s, "\u{e9}"), Some("\u{e9}".to_string()));
    assert_eq!(decode_text(&s, ""), Some("".to_string()));
    let odd = Separators { field: '#', ..separators() };
    assert_eq!(encode_text(&odd, "a#b|c"), "a\\F\\b|c");
    // encoding is what the parser's own delimiters make of a text
    let theirs = hl7_parser::message::Separators::default();
    for text in ["", "plain", "a|b^c&d~e\\f\rg\nh", "h\u{e9}|\u{1F600}^", "\\\\", "|||"] {
        assert_eq!(encode_text(&s, text), theirs.encode(text).to_string(), "{text:?}");
    }
    let same = Separators { field: '|', component: '|', subcomponent: '|', repetition: '|', escape: '|' };
    let same_theirs = hl7_parser::message::Separators {
        field: '|',
        component: '|',
        subcomponent: '|',
        repetition: '|',
        escape: '|',
        lenient_newlines: false,
    };
    assert_eq!(encode_text(&same, "a|b\r"), same_theirs.encode("a|b\r").to_string());
}

#[test]
fn selections_are_recoded() {
    let s = separators();
    let text = "ab\nc|d\\F\\e\n";
    let sel = |a: u32, b: u32| Range {
        start: Position { line: 1, character: a },
        end: Position { line: 1, character: b },
    };
    assert_eq!(selected_text(text, sel(0, 3)), Some("c|d"));
    assert_eq!(encode_selection(text, sel(0, 3), &s), Some("c\\F\\d".to_string()));
    assert_eq!(decode_selection(text, sel(2, 7), &s), Some("d|e".to_string()));
    assert_eq!(encode_selection(text, sel(0, 9), &s), None);
    assert_eq!(decode_selection(text, sel(3, 2), &s), None);
    let accented = "h\u{e9}llo|";
    let whole = Range {
        start: Position { line: 0, character: 0 },
        end: Position { line: 0, character: 6 },
    };
    assert_eq!(encode_selection(accented, whole, &s), Some("h\u{e9}llo".to_string()));
    assert_eq!(decode_selection(accented, whole, &s), Some("h\u{e9}llo".to_string()));
    let cut = Range { start: Position { line: 0, character: 0 }, end: Position { line: 0, character: 2 } };
    assert_eq!(selected_text(accented, cut), None);
}

#[test]
fn parts_of_texts_are_selected() {
    let text = "h\u{e9}llo";
    assert_eq!(select(text, Span { start: 0, end: 6 }), Some(text));
    assert_eq!(select(text, Span { start: 1, end: 3 }), Some("\u{e9}"));
    assert_eq!(select(text, Span { start: 3, end: 3 }), Some(""));
    assert_eq!(select(text, Span { start: 1, end: 2 }), None);
    assert_eq!(select(text, Span { start: 2, end: 3 }), None);
    assert_eq!(select(text, Span { start: 3, end: 1 }), None);
    assert_eq!(select(text, Span { start: 0, end: 7 }), None);
    for a in 0..8 {
        for b in 0..8 {
            assert_eq!(select(text, Span { start: a, end: b }), text.get(a..b));
        }
    }
}

#[test]
fn ranges_are_converted() {
    let text = "abc\r\ndef";
    let range = Range {
        start: Position { line: 0, character: 1 },
        end: Position { line: 1, character: 2 },
    };
    assert_eq!(lsp_range_to_std_range(text, range), Some(Span { start: 1, end: 7 }));
    assert_eq!(std_range_to_lsp_range(text, Span { start: 1, end: 7 }), range);
    let beyond = Range { start: range.start, end: Position { line: 1, character: 3 } };
    assert_eq!(lsp_range_to_std_range(text, beyond), None);
    let before = Range { start: Position { line: 2, character: 0 }, end: range.end };
    assert_eq!(lsp_range_to_std_range(text, before), None);
}

#[test]
fn the_outline_of_a_message() {
    let c = catalog();
    let message = tree(TEXT);
    let outline = segment_symbols(&c, "2.5", &message);
    assert_eq!(outline.len(), 2);
    assert_eq!(outline[0].name, "MSH");
    assert_eq!(outline[0].detail, Some("Message Header".to_string()));
    assert_eq!(outline[0].kind, SymbolKind::Class);
    assert_eq!(outline[1].range, message.segments[1].range);
    let fields = outline[1].children.as_ref().expect("fields");
    assert_eq!(fields.len(), 4);
    assert_eq!(fields[0].name, "PID.1");
    assert_eq!(fields[0].detail, Some("Set ID".to_string()));
    assert_eq!(fields[0].kind, SymbolKind::Field);
    // the entries below a field name it by its index
    let repeats = fields[0].children.as_ref().expect("repeats");
    assert_eq!(repeats.len(), 2);
    assert_eq!(repeats[0].name, "PID.0[1]");
    assert_eq!(repeats[1].name, "PID.0[2]");
    assert_eq!(repeats[1].detail, None);
    assert_eq!(repeats[1].range, message.segments[1].fields[0].repeats[1].range);
    let parts = repeats[1].children.as_ref().expect("components");
    assert_eq!(parts.len(), 1);
    assert_eq!(parts[0].name, "PID.0[2].1");
    let components = fields[1].children.as_ref().expect("components");
    assert_eq!(components.len(), 2);
    assert_eq!(components[0].name, "PID.1.1");
    assert_eq!(components[0].detail, Some("ID Number".to_string()));
    assert_eq!(components[1].detail, Some("Assigned".to_string()));
    assert!(components[1].children.is_none());
    assert_eq!(components[1].range, message.segments[1].fields[1].repeats[0].components[1].range);
    assert!(segment_symbols(&c, "2.5", &Message { segments: vec![], separators: Separators::standard() }).is_empty());
}

#[test]
fn diagnostics_of_a_document() {
    let c = catalog();
    let text = "MSH|^~\\&|app|fac|app2|fac2|20230312195905||ADT^A01|42|P|2.5\rPID||x|F|2023";
    let message = tree(text);
    let found = handle_diagnostics(&document(), text, Ok(&message), &c, &None);
    assert_eq!(found.len(), 1);
    assert_eq!(found[0].message, "Field is required");
    assert_eq!(found[0].severity, Severity::Warning);
    assert_eq!(found[0].code, Some("optionality".to_string()));
    assert_eq!(found[0].range.start, Position { line: 1, character: 4 });
    assert_eq!(found[0].range.end, Position { line: 1, character: 4 });
    let failed = handle_diagnostics(
        &document(),
        "PID|",
        Err(ParseFailure::FailedToParse { position: 0, message: "no header".to_string() }),
        &c,
        &None,
    );
    assert_eq!(failed.len(), 1);
    assert_eq!(failed[0].severity, Severity::Error);
    assert_eq!(failed[0].message, "no header");
    assert_eq!(failed[0].range.end, Position { line: 0, character: 1 });
}

#[test]
fn parsed_messages_are_well_formed() {
    let texts = [
        TEXT,
        "MSH|^~\\&",
        "MSH|^~\\&|",
        "MSH|^~\\&|a|b\rPID\rPV1|",
        "MSH|^~\\&|a|b\r\nPID|||x^y&z~w^^&&~|~\nPV1||h\u{e9}^\u{1F600}&|\r",
        "MSH#!@$%#a!b#c@d%e$F$\rPID#1@2#3!!4%%5",
        "MSH|^~\\&|EPIC|EPICADT|SMS|SMSADT|199912271408|CHARRIS|ADT^A04|1817457|D|2.5|\rEVN|A04|199912271408|||CHARRIS\rPID||0493575^^^2^ID 1|454721||DOE^JOHN^^^^|DOE^JOHN^^^^|19480203|M||B|254 MYSTREET AVE^^MYTOWN^OH^44123^USA||(216)123-4567|||M|NON|400003403~1129086|",
    ];
    for text in texts {
        let message = tree(text);
        assert!(message.is_well_formed(), "{text:?}");
        for s in &message.segments {
            assert!(s.is_well_formed(&message.separators));
        }
    }
}

#[test]
fn trees_that_no_parser_gives_are_not_well_formed() {
    let mut message = tree(TEXT);
    assert!(message.is_well_formed());
    // a raw text that is not that of the parts
    let mut changed = message.clone();
    changed.segments[1].fields[1].value = "id^2024".to_string();
    assert!(!changed.is_well_formed());
    let mut changed = message.clone();
    changed.segments[1].fields[1].repeats[0].components[0].subcomponents[0].value = "x".to_string();
    assert!(!changed.is_well_formed());
    // a part without parts
    let mut changed = message.clone();
    changed.segments[1].fields[0].repeats.clear();
    assert!(!changed.is_well_formed());
    // two fields at one place
    let mut changed = message.clone();
    changed.segments[1].fields[2].range = changed.segments[1].fields[1].range;
    assert!(!changed.is_well_formed());
    // a field outside its segment
    let mut changed = message.clone();
    changed.segments[1].fields[0].range = changed.segments[0].fields[0].range;
    assert!(!changed.is_well_formed());
    // segments that overlap
    let mut changed = message.clone();
    changed.segments[0].range.end = changed.segments[1].range.start;
    assert!(!changed.is_well_formed());
    // other delimiters than those of the text
    message.separators.component = '!';
    assert!(!message.is_well_formed());
    assert!(Message { segments: vec![], separators: Separators::standard() }.is_well_formed());
}
