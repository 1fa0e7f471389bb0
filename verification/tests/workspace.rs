use hl7_ls::text::copy_pairs;
use hl7_ls::workspace::specs::{
    is_a_validator, ChangeEvent, ChangeKind, FieldSpec, FileReport, LoadError,
    SegmentSpec, SpecEntry, WorkspaceSpec, WorkspaceSpecs,
};
use std::collections::HashMap;

fn parts(path: &str) -> Vec<String> {
    let mut v = vec!["/".to_string()];
    v.extend(path.split('/').filter(|p| !p.is_empty()).map(|p| p.to_string()));
    v
}

fn pairs(values: &[(&str, &str)]) -> Vec<(String, String)> {
    values.iter().map(|(a, b)| (a.to_string(), b.to_string())).collect()
}

fn spec(name: &str, segment: &str, fields: Vec<(usize, FieldSpec)>) -> WorkspaceSpec {
    WorkspaceSpec {
        name: name.to_string(),
        segments: vec![SegmentSpec {
            name: segment.to_string(),
            description: None,
            required: None,
            fields: fields.into_iter().collect::<HashMap<usize, FieldSpec>>(),
        }],
    }
}

fn entry(path: &str, spec: WorkspaceSpec) -> SpecEntry {
    SpecEntry { path: path.to_string(), location: parts(path), spec }
}

fn report(path: &str, loaded: Result<WorkspaceSpec, LoadError>) -> FileReport {
    FileReport {
        path: path.to_string(),
        file_name: path.rsplit('/').next().unwrap().to_string(),
        is_file: true,
        location: parts(path),
        loaded,
    }
}

fn described() -> FieldSpec {
    FieldSpec {
        description: Some("Desc".to_string()),
        datatype: Some("ST".to_string()),
        required: Some(true),
        allowed_values: Some(pairs(&[("A", "Alpha"), ("B", "Beta")])),
    }
}

#[test]
fn override_files_are_known_by_their_name() {
    assert!(is_a_validator("custom.hl7v.toml", true));
    assert!(is_a_validator(".hl7v.toml", true));
    assert!(!is_a_validator("custom.hl7v.toml", false));
    assert!(!is_a_validator("custom.toml", true));
    assert!(!is_a_validator("custom.hl7v.toml.bak", true));
    assert!(!is_a_validator("", true));
}

#[test]
fn upsert_inserts_then_replaces() {
    let mut store = WorkspaceSpecs::empty();
    assert_eq!(store.len(), 0);
    assert!(store.upsert(entry("/w/a.hl7v.toml", spec("A", "PID", vec![]))));
    assert!(store.upsert(entry("/w/b.hl7v.toml", spec("B", "PID", vec![]))));
    assert_eq!(store.len(), 2);
    // the same content again changes nothing
    assert!(!store.upsert(entry("/w/a.hl7v.toml", spec("A", "PID", vec![]))));
    assert_eq!(store.len(), 2);
    // other content takes the place of the old
    assert!(store.upsert(entry("/w/a.hl7v.toml", spec("A2", "PID", vec![]))));
    assert_eq!(store.len(), 2);
    assert_eq!(store.get("/w/a.hl7v.toml").map(|s| s.name.clone()), Some("A2".to_string()));
    assert_eq!(store.entries()[0].path, "/w/a.hl7v.toml");
    assert_eq!(store.entries()[1].path, "/w/b.hl7v.toml");
    assert!(store.get("/w/c.hl7v.toml").is_none());
}

#[test]
fn a_changed_field_or_location_is_a_change() {
    let mut store = WorkspaceSpecs::empty();
    let with = |f: FieldSpec| entry("/w/a.hl7v.toml", spec("A", "PID", vec![(3, f)]));
    assert!(store.upsert(with(described())));
    assert!(!store.upsert(with(described())));
    assert!(store.upsert(with(FieldSpec { required: Some(false), ..described() })));
    assert!(store.upsert(with(FieldSpec { required: None, ..described() })));
    assert!(store.upsert(with(FieldSpec { description: None, ..described() })));
    assert!(store.upsert(with(FieldSpec { allowed_values: Some(pairs(&[("A", "Alpha")])), ..described() })));
    assert!(store.upsert(with(FieldSpec { allowed_values: None, ..described() })));
    assert!(!store.upsert(with(FieldSpec { allowed_values: None, ..described() })));
    assert!(store.upsert(entry("/w/a.hl7v.toml", spec("A", "PID", vec![(4, described())]))));
    assert!(store.upsert(entry("/w/a.hl7v.toml", spec("A", "PV1", vec![(4, described())]))));
    let mut moved = entry("/w/a.hl7v.toml", spec("A", "PV1", vec![(4, described())]));
    moved.location = parts("/v/a.hl7v.toml");
    assert!(store.upsert(moved));
    assert_eq!(store.len(), 1);
}

#[test]
fn remove_deletes_the_entry_if_present() {
    let mut store = WorkspaceSpecs::empty();
    store.upsert(entry("/w/a.hl7v.toml", spec("A", "PID", vec![])));
    store.upsert(entry("/w/b.hl7v.toml", spec("B", "PID", vec![])));
    assert!(!store.remove("/w/c.hl7v.toml"));
    assert!(store.remove("/w/a.hl7v.toml"));
    assert!(!store.remove("/w/a.hl7v.toml"));
    assert_eq!(store.len(), 1);
    assert_eq!(store.entries()[0].path, "/w/b.hl7v.toml");
}

#[test]
fn a_scan_passes_over_files_that_do_not_load() {
    let store = WorkspaceSpecs::new(vec![
        report("/w/a.hl7v.toml", Ok(spec("A", "PID", vec![]))),
        report("/w/bad.hl7v.toml", Err(LoadError::Malformed)),
        report("/w/gone.hl7v.toml", Err(LoadError::NotFound)),
        report("/w/notes.toml", Ok(spec("N", "PID", vec![]))),
        FileReport { is_file: false, ..report("/w/dir.hl7v.toml", Ok(spec("D", "PID", vec![]))) },
        report("/w/b.hl7v.toml", Ok(spec("B", "PID", vec![]))),
    ]);
    let paths: Vec<String> = store.entries().iter().map(|e| e.path.clone()).collect();
    assert_eq!(paths, vec!["/w/a.hl7v.toml", "/w/b.hl7v.toml"]);
    assert_eq!(WorkspaceSpecs::new(vec![]).len(), 0);
}

#[test]
fn events_update_the_store() {
    let mut store = WorkspaceSpecs::empty();
    let created = ChangeEvent {
        kind: ChangeKind::Created,
        files: vec![report("/w/a.hl7v.toml", Ok(spec("A", "PID", vec![])))],
    };
    assert!(store.update(created));
    assert_eq!(store.len(), 1);
    // a malformed reload keeps the entry and is no change
    let broken = ChangeEvent {
        kind: ChangeKind::Modified,
        files: vec![report("/w/a.hl7v.toml", Err(LoadError::Malformed))],
    };
    assert!(!store.update(broken));
    assert_eq!(store.get("/w/a.hl7v.toml").map(|s| s.name.clone()), Some("A".to_string()));
    // a reload with the same content is no change
    let same = ChangeEvent {
        kind: ChangeKind::Modified,
        files: vec![report("/w/a.hl7v.toml", Ok(spec("A", "PID", vec![])))],
    };
    assert!(!store.update(same));
    let modified = ChangeEvent {
        kind: ChangeKind::Modified,
        files: vec![
            report("/w/a.hl7v.toml", Ok(spec("A2", "PID", vec![]))),
            report("/w/readme.md", Ok(spec("R", "PID", vec![]))),
        ],
    };
    assert!(store.update(modified));
    assert_eq!(store.len(), 1);
    assert_eq!(store.get("/w/a.hl7v.toml").map(|s| s.name.clone()), Some("A2".to_string()));
    let other = ChangeEvent {
        kind: ChangeKind::Other,
        files: vec![report("/w/c.hl7v.toml", Ok(spec("C", "PID", vec![])))],
    };
    assert!(!store.update(other));
    let removed_other = ChangeEvent {
        kind: ChangeKind::Removed,
        files: vec![FileReport { is_file: false, ..report("/w/c.hl7v.toml", Err(LoadError::NotFound)) }],
    };
    assert!(!store.update(removed_other));
    let removed = ChangeEvent {
        kind: ChangeKind::Removed,
        files: vec![FileReport { is_file: false, ..report("/w/a.hl7v.toml", Err(LoadError::NotFound)) }],
    };
    assert!(store.update(removed));
    assert_eq!(store.len(), 0);
    assert!(!store.update(ChangeEvent { kind: ChangeKind::Removed, files: vec![] }));
}

#[test]
fn an_override_is_in_force_under_the_directory_of_its_file() {
    let applies = |file: &str, doc: &str| WorkspaceSpecs::spec_applies_to_document(&parts(file), &parts(doc));
    assert!(applies("/w/a.hl7v.toml", "/w/m.hl7"));
    assert!(applies("/w/a.hl7v.toml", "/w/sub/deep/m.hl7"));
    assert!(applies("/w/a.hl7v.toml", "/w"));
    assert!(applies("/a.hl7v.toml", "/anything/m.hl7"));
    assert!(!applies("/w/a.hl7v.toml", "/v/m.hl7"));
    assert!(!applies("/w/a.hl7v.toml", "/wx/m.hl7"));
    assert!(!applies("/w/sub/a.hl7v.toml", "/w/m.hl7"));
    assert!(!applies("/w/a.hl7v.toml", "/"));
    assert!(!WorkspaceSpecs::spec_applies_to_document(&vec![], &parts("/w/m.hl7")));
    assert!(!WorkspaceSpecs::spec_applies_to_document(&vec!["/".to_string()], &parts("/w/m.hl7")));
}

#[test]
fn a_field_is_annotated() {
    assert_eq!(
        described().annotation("My Spec"),
        Some(
            "\n    My Spec:\n      Desc (ST) [*required*] \n      Table values:\n        `A` (Alpha)\n        `B` (Beta)"
                .to_string()
        )
    );
    assert_eq!(FieldSpec::default().annotation("My Spec"), None);
    assert_eq!(
        FieldSpec { allowed_values: Some(vec![]), ..FieldSpec::default() }.annotation("S"),
        None
    );
    assert_eq!(
        FieldSpec { required: Some(false), ..FieldSpec::default() }.annotation("S"),
        Some("\n    S:\n      [*optional*]".to_string())
    );
    assert_eq!(
        FieldSpec { datatype: Some("NM".to_string()), ..FieldSpec::default() }.annotation("S"),
        Some("\n    S:\n      (NM)".to_string())
    );
    assert_eq!(
        FieldSpec { description: Some("".to_string()), required: Some(true), ..FieldSpec::default() }
            .annotation("S"),
        Some("\n    S:\n       [*required*]".to_string())
    );
}

#[test]
fn descriptions_of_all_overrides_in_force_are_joined() {
    let mut store = WorkspaceSpecs::empty();
    let note = |text: &str| FieldSpec { description: Some(text.to_string()), ..FieldSpec::default() };
    store.upsert(entry("/w/a.hl7v.toml", spec("A", "PID", vec![(3, note("first"))])));
    store.upsert(entry("/v/b.hl7v.toml", spec("B", "PID", vec![(3, note("elsewhere"))])));
    store.upsert(entry("/w/c.hl7v.toml", spec("C", "PID", vec![(3, FieldSpec::default())])));
    store.upsert(entry("/w/sub/d.hl7v.toml", spec("D", "PID", vec![(3, note("third"))])));
    store.upsert(entry("/e.hl7v.toml", spec("E", "PID", vec![(3, note("root")), (4, note("four"))])));
    let doc = parts("/w/sub/m.hl7");
    assert_eq!(
        store.describe_field(&doc, "PID", 3),
        "\n    A:\n      first\n\n    D:\n      third\n\n    E:\n      root"
    );
    assert_eq!(store.describe_field(&doc, "PID", 4), "\n    E:\n      four");
    assert_eq!(store.describe_field(&doc, "PID", 5), "");
    assert_eq!(store.describe_field(&doc, "PV1", 3), "");
    assert_eq!(store.describe_field(&parts("/w/m.hl7"), "PID", 3), "\n    A:\n      first\n\n    E:\n      root");
    assert_eq!(WorkspaceSpecs::empty().describe_field(&doc, "PID", 3), "");
}

#[test]
fn a_field_is_required_if_any_override_in_force_requires_it() {
    let mut store = WorkspaceSpecs::empty();
    let need = |r: Option<bool>| FieldSpec { required: r, ..FieldSpec::default() };
    store.upsert(entry("/w/a.hl7v.toml", spec("A", "PID", vec![(3, need(Some(false))), (5, need(None))])));
    store.upsert(entry("/w/b.hl7v.toml", spec("B", "PID", vec![(3, need(Some(true)))])));
    store.upsert(entry("/v/c.hl7v.toml", spec("C", "PID", vec![(4, need(Some(true)))])));
    let doc = parts("/w/m.hl7");
    assert!(store.is_field_required(&doc, "PID", 3));
    assert!(!store.is_field_required(&doc, "PID", 4));
    assert!(!store.is_field_required(&doc, "PID", 5));
    assert!(!store.is_field_required(&doc, "PV1", 3));
    assert!(store.is_field_required(&parts("/v/m.hl7"), "PID", 4));
    assert!(!store.is_field_required(&parts("/v/m.hl7"), "PID", 3));
    let mut whole = spec("S", "PV1", vec![]);
    whole.segments[0].required = Some(true);
    store.upsert(entry("/w/s.hl7v.toml", whole));
    assert!(store.is_field_required(&doc, "PV1", 1));
    assert!(store.is_field_required(&doc, "PV1", 99));
}

#[test]
fn the_first_override_with_a_table_wins() {
    let mut store = WorkspaceSpecs::empty();
    let codes = |v: &[(&str, &str)]| FieldSpec { allowed_values: Some(pairs(v)), ..FieldSpec::default() };
    store.upsert(entry("/v/a.hl7v.toml", spec("A", "PID", vec![(8, codes(&[("X", "out of scope")]))])));
    store.upsert(entry("/w/b.hl7v.toml", spec("B", "PID", vec![(8, FieldSpec::default())])));
    store.upsert(entry("/w/c.hl7v.toml", spec("C", "PID", vec![(8, codes(&[("M", "Male"), ("F", "Female")]))])));
    store.upsert(entry("/w/d.hl7v.toml", spec("D", "PID", vec![(8, codes(&[("O", "Other")]))])));
    let doc = parts("/w/m.hl7");
    assert_eq!(store.table_values(&doc, "PID", 8), pairs(&[("M", "Male"), ("F", "Female")]));
    assert_eq!(store.table_values(&doc, "PID", 9), vec![]);
    assert_eq!(store.table_values(&doc, "PV1", 8), vec![]);
    assert_eq!(store.table_values(&parts("/v/m.hl7"), "PID", 8), pairs(&[("X", "out of scope")]));
    assert_eq!(store.table_values(&parts("/u/m.hl7"), "PID", 8), vec![]);
}

#[test]
fn the_first_segment_of_a_name_counts() {
    let mut s = spec("A", "PID", vec![(1, described())]);
    s.segments.push(SegmentSpec {
        name: "PID".to_string(),
        description: None,
        required: Some(true),
        fields: HashMap::new(),
    });
    assert!(s.field("PID", 1).is_some());
    assert!(s.field("PID", 2).is_none());
    assert!(s.field("PV1", 1).is_none());
    assert!(s.requires_field("PID", 1));
    assert!(!s.requires_field("PID", 2));
    assert!(s.same_as(&s.clone()));
    assert!(!s.same_as(&spec("A", "PID", vec![(1, described())])));
}

#[test]
fn pairs_are_copied() {
    let v = pairs(&[("a", "b"), ("c", "d")]);
    assert_eq!(copy_pairs(&v), v);
}
