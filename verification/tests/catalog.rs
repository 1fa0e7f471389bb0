use hl7_ls::spec::{
    is_component_a_timestamp, is_field_a_timestamp, is_valid_version, segment_description, Catalog,
    DatatypeDefinition, FieldDefinition, FieldOptionality, FieldRepeatability, SegmentDefinition,
    TableDefinition, VersionDefinition,
};

fn field(description: &str, datatype: &str) -> FieldDefinition {
    FieldDefinition {
        description: description.to_string(),
        datatype: datatype.to_string(),
        optionality: FieldOptionality::Optional,
        repeatability: FieldRepeatability::Single,
        max_length: None,
        table: None,
    }
}

fn catalog() -> Catalog {
    Catalog {
        versions: vec![
            VersionDefinition {
                version: "2.5".to_string(),
                segments: vec![
                    SegmentDefinition {
                        name: "EVN".to_string(),
                        description: "Event Type".to_string(),
                        fields: vec![field("Event Type Code", "ID"), field("Recorded", "TS")],
                    },
                    SegmentDefinition {
                        name: "PID".to_string(),
                        description: "Patient Identification".to_string(),
                        fields: vec![field("Set ID", "SI"), field("Patient ID", "CX")],
                    },
                    SegmentDefinition {
                        name: "PID".to_string(),
                        description: "shadowed".to_string(),
                        fields: vec![],
                    },
                ],
                datatypes: vec![DatatypeDefinition {
                    name: "CX".to_string(),
                    description: "Extended Composite ID".to_string(),
                    subfields: vec![field("ID Number", "ST"), field("Effective", "DTM")],
                }],
            },
            VersionDefinition { version: "2.7.1".to_string(), segments: vec![], datatypes: vec![] },
        ],
        tables: vec![
            TableDefinition { id: 1, values: vec![("F".to_string(), "Female".to_string())] },
            TableDefinition { id: 1, values: vec![] },
        ],
    }
}

#[test]
fn versions_are_known_by_their_definitions() {
    let c = catalog();
    assert!(is_valid_version(&c, "2.5"));
    assert!(is_valid_version(&c, "2.7.1"));
    assert!(!is_valid_version(&c, "2.6"));
    assert!(!is_valid_version(&c, ""));
    assert!(!is_valid_version(&c, "2.5 "));
}

#[test]
fn segments_are_described() {
    let c = catalog();
    assert_eq!(segment_description(&c, "2.5", "EVN"), "Event Type");
    assert_eq!(segment_description(&c, "2.5", "PID"), "Patient Identification");
    assert_eq!(segment_description(&c, "2.5", "ZZZ"), "Unknown segment");
    assert_eq!(segment_description(&c, "2.7.1", "EVN"), "Unknown segment");
    assert_eq!(segment_description(&c, "9", "EVN"), "Unknown segment");
}

#[test]
fn timestamp_fields_and_components() {
    let c = catalog();
    assert!(is_field_a_timestamp(&c, "2.5", "EVN", 2));
    assert!(!is_field_a_timestamp(&c, "2.5", "EVN", 1));
    assert!(!is_field_a_timestamp(&c, "2.5", "EVN", 0));
    assert!(!is_field_a_timestamp(&c, "2.5", "EVN", 3));
    assert!(!is_field_a_timestamp(&c, "2.6", "EVN", 2));
    assert!(is_component_a_timestamp(&c, "2.5", "PID", 2, 2));
    assert!(!is_component_a_timestamp(&c, "2.5", "PID", 2, 1));
    assert!(!is_component_a_timestamp(&c, "2.5", "PID", 2, 0));
    assert!(!is_component_a_timestamp(&c, "2.5", "PID", 1, 1));
}

#[test]
fn first_definition_counts() {
    let c = catalog();
    assert_eq!(c.get_segment("2.5", "PID").map(|s| s.fields.len()), Some(2));
    assert_eq!(c.table_values(1).map(|t| t.len()), Some(1));
    assert!(c.table_values(2).is_none());
    assert_eq!(c.get_field("2.5", "CX").map(|d| d.subfields.len()), Some(2));
    assert!(c.get_field("2.5", "ST").is_none());
    assert!(c.get_component("2.5", "PID", 2, 3).is_none());
}
