//! Override documents, and the store that holds those of a workspace, each
//! in force for the documents under the directory of its file.

use crate::text::{
    copy_pairs, ends_with, join, joined, optional_part, optional_text_eq, pairs_eq, push_optional,
    str_eq, texts_eq,
};
use std::collections::HashMap;
use vstd::prelude::*;

verus! {

broadcast use vstd::std_specs::hash::group_hash_axioms;

/// What an override document says of one field.
#[derive(Debug, Clone, Default, PartialEq)]
pub struct FieldSpec {
    pub description: Option<String>,
    pub datatype: Option<String>,
    pub required: Option<bool>,
    pub allowed_values: Option<Vec<(String, String)>>,
}

/// What an override document says of one segment; `fields` is keyed by the
/// number of the field, counted from 1.
#[derive(Debug, Clone, Default, PartialEq)]
pub struct SegmentSpec {
    pub name: String,
    pub description: Option<String>,
    pub required: Option<bool>,
    pub fields: HashMap<usize, FieldSpec>,
}

/// One override document.
#[derive(Debug, Clone, Default, PartialEq)]
pub struct WorkspaceSpec {
    /// Name of the custom spec
    pub name: String,
    /// Custom segments
    pub segments: Vec<SegmentSpec>,
}

/// The content of a `FieldSpec`.
#[verifier::ext_equal]
pub struct FieldSpecView {
    pub description: Option<Seq<char>>,
    pub datatype: Option<Seq<char>>,
    pub required: Option<bool>,
    pub allowed_values: Option<Seq<(Seq<char>, Seq<char>)>>,
}

/// The content of a `SegmentSpec`.
#[verifier::ext_equal]
pub struct SegmentSpecView {
    pub name: Seq<char>,
    pub description: Option<Seq<char>>,
    pub required: Option<bool>,
    pub fields: Map<usize, FieldSpecView>,
}

/// The content of a `WorkspaceSpec`.
#[verifier::ext_equal]
pub struct WorkspaceSpecView {
    pub name: Seq<char>,
    pub segments: Seq<SegmentSpecView>,
}

impl View for FieldSpec {
    type V = FieldSpecView;

    open spec fn view(&self) -> FieldSpecView {
        FieldSpecView {
            description: self.description.deep_view(),
            datatype: self.datatype.deep_view(),
            required: self.required,
            allowed_values: self.allowed_values.deep_view(),
        }
    }
}

impl View for SegmentSpec {
    type V = SegmentSpecView;

    open spec fn view(&self) -> SegmentSpecView {
        SegmentSpecView {
            name: self.name@,
            description: self.description.deep_view(),
            required: self.required,
            fields: Map::new(
                |k: usize| self.fields@.contains_key(k),
                |k: usize| self.fields@[k]@,
            ),
        }
    }
}

impl View for WorkspaceSpec {
    type V = WorkspaceSpecView;

    open spec fn view(&self) -> WorkspaceSpecView {
        WorkspaceSpecView {
            name: self.name@,
            segments: Seq::new(self.segments@.len(), |i: int| self.segments@[i]@),
        }
    }
}

/// The mark of a required or an optional field.
pub open spec fn required_mark(required: Option<bool>) -> Option<Seq<char>> {
    match required {
        Some(true) => Some("[*required*]"@),
        Some(false) => Some("[*optional*]"@),
        None => None,
    }
}

/// The datatype in round brackets.
pub open spec fn datatype_mark(datatype: Option<Seq<char>>) -> Option<Seq<char>> {
    match datatype {
        Some(d) => Some("("@ + d + ")"@),
        None => None,
    }
}

/// The line of one permitted code.
pub open spec fn value_line(value: (Seq<char>, Seq<char>)) -> Seq<char> {
    "        `"@ + value.0 + "` ("@ + value.1 + ")"@
}

/// The lines of the permitted codes, in their order.
pub open spec fn value_lines(values: Seq<(Seq<char>, Seq<char>)>) -> Seq<Seq<char>> {
    Seq::new(values.len(), |i: int| value_line(values[i]))
}

/// The heading and the lines of the permitted codes, where any line holds text.
pub open spec fn table_mark(allowed_values: Option<Seq<(Seq<char>, Seq<char>)>>) -> Option<
    Seq<char>,
> {
    let lines = match allowed_values {
        Some(values) => joined(value_lines(values), "\n"@),
        None => Seq::empty(),
    };
    if lines.len() == 0 {
        None
    } else {
        Some("\n      Table values:\n"@ + lines)
    }
}

impl FieldSpecView {
    /// What the override says of the field, piece by piece: the description,
    /// the datatype, the mark, the permitted codes.
    pub open spec fn parts(self) -> Seq<Seq<char>> {
        optional_part(self.description) + optional_part(datatype_mark(self.datatype))
            + optional_part(required_mark(self.required)) + optional_part(
            table_mark(self.allowed_values),
        )
    }

    /// The annotation of the field under the name of its document, or none
    /// where the override says nothing of the field.
    pub open spec fn annotation(self, spec_name: Seq<char>) -> Option<Seq<char>> {
        if self.parts().len() == 0 {
            None
        } else {
            Some("\n    "@ + spec_name + ":\n      "@ + joined(self.parts(), " "@))
        }
    }
}

/// The first segment at or after `from` with the given name.
pub open spec fn first_segment_from(
    segments: Seq<SegmentSpecView>,
    name: Seq<char>,
    from: int,
) -> Option<SegmentSpecView>
    decreases segments.len() - from,
{
    if from < 0 || from >= segments.len() {
        None
    } else if segments[from].name == name {
        Some(segments[from])
    } else {
        first_segment_from(segments, name, from + 1)
    }
}

impl WorkspaceSpecView {
    /// The first segment of the document with the given name.
    pub open spec fn segment(self, name: Seq<char>) -> Option<SegmentSpecView> {
        first_segment_from(self.segments, name, 0)
    }

    /// What the document says of a field of a segment.
    pub open spec fn field(self, segment: Seq<char>, field: usize) -> Option<FieldSpecView> {
        match self.segment(segment) {
            Some(s) => if s.fields.contains_key(field) {
                Some(s.fields[field])
            } else {
                None
            },
            None => None,
        }
    }

    /// The document marks the field, or the whole of its segment, required.
    pub open spec fn requires_field(self, segment: Seq<char>, field: usize) -> bool {
        match self.segment(segment) {
            Some(s) => s.required == Some(true) || (s.fields.contains_key(field)
                && s.fields[field].required == Some(true)),
            None => false,
        }
    }

    /// The annotation that the document gives a field.
    pub open spec fn annotation(self, segment: Seq<char>, field: usize) -> Option<Seq<char>> {
        match self.field(segment, field) {
            Some(f) => f.annotation(self.name),
            None => None,
        }
    }

    /// The permitted codes that the document defines for a field.
    pub open spec fn allowed_values(self, segment: Seq<char>, field: usize) -> Option<
        Seq<(Seq<char>, Seq<char>)>,
    > {
        match self.field(segment, field) {
            Some(f) => f.allowed_values,
            None => None,
        }
    }
}

impl FieldSpec {
    /// Whether two field overrides say the same.
    pub fn same_as(&self, other: &FieldSpec) -> (r: bool)
        ensures
            r == (self@ == other@),
    {
        let same_values = match (&self.allowed_values, &other.allowed_values) {
            (Some(a), Some(b)) => pairs_eq(a, b),
            (None, None) => true,
            _ => false,
        };
        let same_required = match (self.required, other.required) {
            (Some(a), Some(b)) => a == b,
            (None, None) => true,
            _ => false,
        };
        optional_text_eq(&self.description, &other.description) && optional_text_eq(
            &self.datatype,
            &other.datatype,
        ) && same_required && same_values
    }

    /// The lines of the permitted codes.
    fn value_lines(values: &Vec<(String, String)>) -> (r: Vec<String>)
        ensures
            r.deep_view() == value_lines(values.deep_view()),
    {
        let mut lines: Vec<String> = Vec::new();
        let mut i: usize = 0;
        while i < values.len()
            invariant
                i <= values@.len(),
                lines@.len() == i,
                forall|j: int| 0 <= j < i ==> lines@[j]@ == value_line(values@[j].deep_view()),
            decreases values@.len() - i,
        {
            let mut line = String::from_str("        `");
            line.append(values[i].0.as_str());
            line.append("` (");
            line.append(values[i].1.as_str());
            line.append(")");
            lines.push(line);
            i += 1;
        }
        assert(lines.deep_view() =~= value_lines(values.deep_view()));
        lines
    }

    /// The annotation of the field under the name of its document.
    pub fn annotation(&self, spec_name: &str) -> (r: Option<String>)
        ensures
            r.deep_view() == self@.annotation(spec_name@),
    {
        let mut parts: Vec<String> = Vec::new();
        assert(parts.deep_view() =~= Seq::<Seq<char>>::empty());
        push_optional(&mut parts, self.description.clone());
        let datatype = match &self.datatype {
            Some(d) => {
                let mut text = String::from_str("(");
                text.append(d.as_str());
                text.append(")");
                Some(text)
            },
            None => None,
        };
        push_optional(&mut parts, datatype);
        let required = match self.required {
            Some(true) => Some(String::from_str("[*required*]")),
            Some(false) => Some(String::from_str("[*optional*]")),
            None => None,
        };
        push_optional(&mut parts, required);
        let lines = match &self.allowed_values {
            Some(values) => join(&FieldSpec::value_lines(values), "\n"),
            None => String::new(),
        };
        let table = if lines.as_str().is_empty() {
            None
        } else {
            let mut text = String::from_str("\n      Table values:\n");
            text.append(lines.as_str());
            Some(text)
        };
        push_optional(&mut parts, table);
        assert(parts.deep_view() =~= self@.parts());
        if parts.len() == 0 {
            None
        } else {
            let mut text = String::from_str("\n    ");
            text.append(spec_name);
            text.append(":\n      ");
            text.append(join(&parts, " ").as_str());
            Some(text)
        }
    }
}

impl SegmentSpec {
    /// Whether two segment overrides say the same.
    pub fn same_as(&self, other: &SegmentSpec) -> (r: bool)
        ensures
            r == (self@ == other@),
    {
        let same_required = match (self.required, other.required) {
            (Some(a), Some(b)) => a == b,
            (None, None) => true,
            _ => false,
        };
        if !str_eq(self.name.as_str(), other.name.as_str()) || !optional_text_eq(
            &self.description,
            &other.description,
        ) || !same_required {
            return false;
        }
        if self.fields.len() != other.fields.len() {
            proof {
                if self@.fields == other@.fields {
                    assert(self.fields@.dom() =~= self@.fields.dom());
                    assert(other.fields@.dom() =~= other@.fields.dom());
                }
            }
            return false;
        }
        let mut same = true;
        for k in it: self.fields.keys()
            invariant
                same ==> forall|j: int|
                    0 <= j < it.index() ==> other.fields@.contains_key(*it.seq()[j])
                        && other.fields@[*it.seq()[j]]@ == self.fields@[*it.seq()[j]]@,
                !same ==> self@.fields != other@.fields,
        {
            match other.fields.get(k) {
                Some(theirs) => {
                    let ours = self.fields.get(k);
                    if !ours.unwrap().same_as(theirs) {
                        same = false;
                        assert(self@.fields[*k] != other@.fields[*k]);
                    }
                },
                None => {
                    same = false;
                    assert(self@.fields.contains_key(*k) && !other@.fields.contains_key(*k));
                },
            }
        }
        proof {
            if same {
                assert(self.fields@.dom().subset_of(other.fields@.dom()));
                vstd::set_lib::lemma_subset_equality(self.fields@.dom(), other.fields@.dom());
                assert(self@.fields =~= other@.fields);
                assert(self@ =~= other@);
            }
        }
        same
    }

    /// What the segment override says of the field with the given number.
    pub fn field(&self, number: usize) -> (r: Option<&FieldSpec>)
        ensures
            match r {
                Some(f) => self@.fields.contains_key(number) && self@.fields[number] == f@,
                None => !self@.fields.contains_key(number),
            },
    {
        self.fields.get(&number)
    }
}

impl WorkspaceSpec {
    /// Whether two override documents say the same.
    pub fn same_as(&self, other: &WorkspaceSpec) -> (r: bool)
        ensures
            r == (self@ == other@),
    {
        if !str_eq(self.name.as_str(), other.name.as_str()) {
            return false;
        }
        if self.segments.len() != other.segments.len() {
            assert(self@.segments.len() != other@.segments.len());
            return false;
        }
        let mut i: usize = 0;
        while i < self.segments.len()
            invariant
                self.segments@.len() == other.segments@.len(),
                i <= self.segments@.len(),
                forall|j: int| 0 <= j < i ==> self.segments@[j]@ == other.segments@[j]@,
            decreases self.segments@.len() - i,
        {
            if !self.segments[i].same_as(&other.segments[i]) {
                assert(self@.segments[i as int] != other@.segments[i as int]);
                return false;
            }
            i += 1;
        }
        assert(self@.segments =~= other@.segments);
        true
    }

    /// The first segment override with the given name.
    pub fn segment(&self, name: &str) -> (r: Option<&SegmentSpec>)
        ensures
            match r {
                Some(s) => self@.segment(name@) == Some(s@),
                None => self@.segment(name@) is None,
            },
    {
        let mut i: usize = 0;
        while i < self.segments.len()
            invariant
                i <= self.segments@.len(),
                self@.segment(name@) == first_segment_from(self@.segments, name@, i as int),
            decreases self.segments@.len() - i,
        {
            if str_eq(self.segments[i].name.as_str(), name) {
                return Some(&self.segments[i]);
            }
            i += 1;
        }
        None
    }

    /// What the document says of a field of a segment.
    pub fn field(&self, segment: &str, field: usize) -> (r: Option<&FieldSpec>)
        ensures
            match r {
                Some(f) => self@.field(segment@, field) == Some(f@),
                None => self@.field(segment@, field) is None,
            },
    {
        match self.segment(segment) {
            Some(s) => s.field(field),
            None => None,
        }
    }

    /// Whether the document marks the field, or the whole of its segment,
    /// required.
    pub fn requires_field(&self, segment: &str, field: usize) -> (r: bool)
        ensures
            r == self@.requires_field(segment@, field),
    {
        match self.segment(segment) {
            Some(s) => {
                let segment_required = match s.required {
                    Some(b) => b,
                    None => false,
                };
                let field_required = match s.field(field) {
                    Some(f) => match f.required {
                        Some(b) => b,
                        None => false,
                    },
                    None => false,
                };
                segment_required || field_required
            },
            None => false,
        }
    }
}

/// The end of the name of an override file.
pub open spec fn validator_suffix() -> Seq<char> {
    ".hl7v.toml"@
}

/// An override file is a regular file whose name ends in the marker.
pub open spec fn is_validator_file(file_name: Seq<char>, is_file: bool) -> bool {
    is_file && crate::text::is_suffix(
        vstd::utf8::encode_utf8(file_name),
        vstd::utf8::encode_utf8(validator_suffix()),
    )
}

/// Whether a directory entry is an override file, given its file name and
/// whether it is a regular file.
pub fn is_a_validator(file_name: &str, is_file: bool) -> (r: bool)
    ensures
        r == is_validator_file(file_name@, is_file),
{
    is_file && ends_with(file_name, ".hl7v.toml")
}

/// Why an override file could not be loaded.
#[derive(Debug, Clone, Copy, PartialEq, Eq, Structural)]
pub enum LoadError {
    /// The file is not there, or cannot be read.
    NotFound,
    /// The file does not hold an override document.
    Malformed,
}

/// An override document in force: the path of its file, the canonical
/// location of that file as path components from the root down, and what the
/// file holds.
#[derive(Debug, Clone)]
pub struct SpecEntry {
    pub path: String,
    pub location: Vec<String>,
    pub spec: WorkspaceSpec,
}

/// The content of a `SpecEntry`.
#[verifier::ext_equal]
pub struct SpecEntryView {
    pub path: Seq<char>,
    pub location: Seq<Seq<char>>,
    pub spec: WorkspaceSpecView,
}

impl View for SpecEntry {
    type V = SpecEntryView;

    open spec fn view(&self) -> SpecEntryView {
        SpecEntryView { path: self.path@, location: self.location.deep_view(), spec: self.spec@ }
    }
}

impl DeepView for SpecEntry {
    type V = SpecEntryView;

    open spec fn deep_view(&self) -> SpecEntryView {
        self@
    }
}

/// What was found of one file: its path and file name, whether it is a
/// regular file, its canonical location, and the outcome of loading it.
#[derive(Debug)]
pub struct FileReport {
    pub path: String,
    pub file_name: String,
    pub is_file: bool,
    pub location: Vec<String>,
    pub loaded: Result<WorkspaceSpec, LoadError>,
}

/// The content of a `FileReport`.
#[verifier::ext_equal]
pub struct FileReportView {
    pub path: Seq<char>,
    pub file_name: Seq<char>,
    pub is_file: bool,
    pub location: Seq<Seq<char>>,
    pub loaded: Result<WorkspaceSpecView, LoadError>,
}

impl View for FileReport {
    type V = FileReportView;

    open spec fn view(&self) -> FileReportView {
        FileReportView {
            path: self.path@,
            file_name: self.file_name@,
            is_file: self.is_file,
            location: self.location.deep_view(),
            loaded: match self.loaded {
                Ok(spec) => Ok(spec@),
                Err(e) => Err(e),
            },
        }
    }
}

impl DeepView for FileReport {
    type V = FileReportView;

    open spec fn deep_view(&self) -> FileReportView {
        self@
    }
}

/// What happened to the files of a change.
#[derive(Debug, Clone, Copy, PartialEq, Eq, Structural)]
pub enum ChangeKind {
    Created,
    Modified,
    Removed,
    Other,
}

/// A change in the file system: its kind and the files it touched.
#[derive(Debug)]
pub struct ChangeEvent {
    pub kind: ChangeKind,
    pub files: Vec<FileReport>,
}

/// No two entries have the same path.
pub open spec fn distinct_paths(entries: Seq<SpecEntryView>) -> bool {
    forall|i: int, j: int| 0 <= i < j < entries.len() ==> entries[i].path != entries[j].path
}

/// The index of the first entry at or after `from` with the given path.
pub open spec fn index_of_path(entries: Seq<SpecEntryView>, path: Seq<char>, from: int) -> Option<
    int,
>
    decreases entries.len() - from,
{
    if from < 0 || from >= entries.len() {
        None
    } else if entries[from].path == path {
        Some(from)
    } else {
        index_of_path(entries, path, from + 1)
    }
}

/// The entries with `entry` in the place of the one with its path, or at the
/// end where no entry has that path.
pub open spec fn upserted(entries: Seq<SpecEntryView>, entry: SpecEntryView) -> Seq<SpecEntryView> {
    match index_of_path(entries, entry.path, 0) {
        Some(i) => entries.update(i, entry),
        None => entries.push(entry),
    }
}

/// The entries without the one with the given path.
pub open spec fn removed(entries: Seq<SpecEntryView>, path: Seq<char>) -> Seq<SpecEntryView> {
    match index_of_path(entries, path, 0) {
        Some(i) => entries.remove(i),
        None => entries,
    }
}

/// An override file at `location` is in force for the document at `document`:
/// the directory of the file is the document or lies above it. Both are
/// canonical paths, given as their components from the root down.
pub open spec fn applies_to(location: Seq<Seq<char>>, document: Seq<Seq<char>>) -> bool {
    &&& location.len() >= 2
    &&& location.len() - 1 <= document.len()
    &&& forall|i: int| 0 <= i < location.len() - 1 ==> location[i] == document[i]
}

/// The annotations that the first `n` entries give a field of a document, in
/// the order of the entries.
pub open spec fn annotations_upto(
    entries: Seq<SpecEntryView>,
    document: Seq<Seq<char>>,
    segment: Seq<char>,
    field: usize,
    n: int,
) -> Seq<Seq<char>>
    decreases n,
{
    if n <= 0 {
        Seq::empty()
    } else {
        annotations_upto(entries, document, segment, field, n - 1) + if applies_to(
            entries[n - 1].location,
            document,
        ) {
            optional_part(entries[n - 1].spec.annotation(segment, field))
        } else {
            Seq::empty()
        }
    }
}

/// The annotations of a field from every entry in force, one after the other.
pub open spec fn field_description(
    entries: Seq<SpecEntryView>,
    document: Seq<Seq<char>>,
    segment: Seq<char>,
    field: usize,
) -> Seq<char> {
    joined(annotations_upto(entries, document, segment, field, entries.len() as int), "\n"@)
}

/// Some entry in force marks the field, or its segment, required.
pub open spec fn field_required(
    entries: Seq<SpecEntryView>,
    document: Seq<Seq<char>>,
    segment: Seq<char>,
    field: usize,
) -> bool {
    exists|i: int|
        0 <= i < entries.len() && applies_to(#[trigger] entries[i].location, document)
            && entries[i].spec.requires_field(segment, field)
}

/// The permitted codes of the first entry at or after `from` that is in force
/// and defines some for the field.
pub open spec fn first_table_from(
    entries: Seq<SpecEntryView>,
    document: Seq<Seq<char>>,
    segment: Seq<char>,
    field: usize,
    from: int,
) -> Option<Seq<(Seq<char>, Seq<char>)>>
    decreases entries.len() - from,
{
    if from < 0 || from >= entries.len() {
        None
    } else if applies_to(entries[from].location, document) && entries[from].spec.allowed_values(
        segment,
        field,
    ) is Some {
        entries[from].spec.allowed_values(segment, field)
    } else {
        first_table_from(entries, document, segment, field, from + 1)
    }
}

/// The permitted codes of a field: those of the first entry in force that
/// defines some, none where no entry does.
pub open spec fn field_table(
    entries: Seq<SpecEntryView>,
    document: Seq<Seq<char>>,
    segment: Seq<char>,
    field: usize,
) -> Seq<(Seq<char>, Seq<char>)> {
    match first_table_from(entries, document, segment, field, 0) {
        Some(values) => values,
        None => Seq::empty(),
    }
}

/// The entries after one file of a change was dealt with: a created or
/// modified override file that loaded takes its place, one that did not load
/// changes nothing, a removed file leaves.
pub open spec fn after_report(
    entries: Seq<SpecEntryView>,
    kind: ChangeKind,
    report: FileReportView,
) -> Seq<SpecEntryView> {
    match kind {
        ChangeKind::Created | ChangeKind::Modified => {
            if is_validator_file(report.file_name, report.is_file) {
                match report.loaded {
                    Ok(spec) => upserted(
                        entries,
                        SpecEntryView { path: report.path, location: report.location, spec },
                    ),
                    Err(_) => entries,
                }
            } else {
                entries
            }
        },
        ChangeKind::Removed => removed(entries, report.path),
        ChangeKind::Other => entries,
    }
}

/// The entries after the first `n` files of a change were dealt with.
pub open spec fn after_reports(
    entries: Seq<SpecEntryView>,
    kind: ChangeKind,
    reports: Seq<FileReportView>,
    n: int,
) -> Seq<SpecEntryView>
    decreases n,
{
    if n <= 0 {
        entries
    } else {
        after_report(after_reports(entries, kind, reports, n - 1), kind, reports[n - 1])
    }
}

/// One of the first `n` files of a change altered the entries.
pub open spec fn reports_change(
    entries: Seq<SpecEntryView>,
    kind: ChangeKind,
    reports: Seq<FileReportView>,
    n: int,
) -> bool
    decreases n,
{
    if n <= 0 {
        false
    } else {
        reports_change(entries, kind, reports, n - 1) || after_reports(entries, kind, reports, n)
            != after_reports(entries, kind, reports, n - 1)
    }
}

/// Where the search for a path ends: at the least index of an entry with the
/// path, or nowhere.
pub proof fn lemma_index_of_path(entries: Seq<SpecEntryView>, path: Seq<char>, from: int)
    requires
        0 <= from,
    ensures
        match index_of_path(entries, path, from) {
            Some(i) => from <= i < entries.len() && entries[i].path == path && forall|j: int|
                from <= j < i ==> entries[j].path != path,
            None => forall|j: int| from <= j < entries.len() ==> entries[j].path != path,
        },
    decreases entries.len() - from,
{
    if from < entries.len() && entries[from].path != path {
        lemma_index_of_path(entries, path, from + 1);
    }
}

/// Putting an entry in keeps the paths distinct.
pub proof fn lemma_upserted_distinct(entries: Seq<SpecEntryView>, entry: SpecEntryView)
    requires
        distinct_paths(entries),
    ensures
        distinct_paths(upserted(entries, entry)),
{
    lemma_index_of_path(entries, entry.path, 0);
}

/// Taking an entry out keeps the paths distinct, and leaves none with the path.
pub proof fn lemma_removed_distinct(entries: Seq<SpecEntryView>, path: Seq<char>)
    requires
        distinct_paths(entries),
    ensures
        distinct_paths(removed(entries, path)),
        index_of_path(removed(entries, path), path, 0) is None,
{
    lemma_index_of_path(entries, path, 0);
    let after = removed(entries, path);
    lemma_index_of_path(after, path, 0);
    match index_of_path(entries, path, 0) {
        Some(i) => {
            assert forall|j: int| 0 <= j < after.len() implies after[j].path != path by {
                if j < i {
                    assert(after[j] == entries[j]);
                } else {
                    assert(after[j] == entries[j + 1]);
                }
            }
            assert forall|a: int, b: int| 0 <= a < b < after.len() implies after[a].path
                != after[b].path by {
                let a0 = if a < i { a } else { a + 1 };
                let b0 = if b < i { b } else { b + 1 };
                assert(after[a] == entries[a0]);
                assert(after[b] == entries[b0]);
            }
        },
        None => {},
    }
}

/// The entry with the given path.
pub open spec fn entry_at(entries: Seq<SpecEntryView>, path: Seq<char>) -> Option<SpecEntryView> {
    match index_of_path(entries, path, 0) {
        Some(i) => Some(entries[i]),
        None => None,
    }
}

/// The entry at an index is the entry with its path.
pub proof fn lemma_entry_at_index(entries: Seq<SpecEntryView>, i: int)
    requires
        distinct_paths(entries),
        0 <= i < entries.len(),
    ensures
        index_of_path(entries, entries[i].path, 0) == Some(i),
        entry_at(entries, entries[i].path) == Some(entries[i]),
{
    lemma_index_of_path(entries, entries[i].path, 0);
}

/// Dealing with one file leaves the entries with other paths as they are.
pub proof fn lemma_report_touches_one_path(
    entries: Seq<SpecEntryView>,
    kind: ChangeKind,
    report: FileReportView,
    other: Seq<char>,
)
    requires
        distinct_paths(entries),
        other != report.path,
    ensures
        distinct_paths(after_report(entries, kind, report)),
        entry_at(after_report(entries, kind, report), other) == entry_at(entries, other),
{
    let after = after_report(entries, kind, report);
    lemma_index_of_path(entries, report.path, 0);
    lemma_index_of_path(entries, other, 0);
    lemma_index_of_path(after, other, 0);
    if after != entries {
        match kind {
            ChangeKind::Removed => {
                lemma_removed_distinct(entries, report.path);
                let i = index_of_path(entries, report.path, 0)->0;
                assert forall|j: int| 0 <= j < after.len() implies after[j] == entries[if j < i {
                    j
                } else {
                    j + 1
                }] by {}
                match index_of_path(entries, other, 0) {
                    Some(k) => {
                        let moved = if k < i {
                            k
                        } else {
                            k - 1
                        };
                        assert(after[moved] == entries[k]);
                        lemma_entry_at_index(after, moved);
                    },
                    None => {
                        if index_of_path(after, other, 0) is Some {
                            let j = index_of_path(after, other, 0)->0;
                            assert(after[j] == entries[if j < i {
                                j
                            } else {
                                j + 1
                            }]);
                        }
                    },
                }
            },
            _ => {
                let entry = SpecEntryView {
                    path: report.path,
                    location: report.location,
                    spec: report.loaded->Ok_0,
                };
                assert(after == upserted(entries, entry));
                lemma_upserted_distinct(entries, entry);
                match index_of_path(entries, other, 0) {
                    Some(k) => {
                        assert(after[k] == entries[k]);
                        lemma_entry_at_index(after, k);
                    },
                    None => {
                        if index_of_path(after, other, 0) is Some {
                            let j = index_of_path(after, other, 0)->0;
                            assert(after[j].path == other);
                            if j < entries.len() {
                                assert(entries[j].path == after[j].path);
                            }
                        }
                    },
                }
            },
        }
    }
}

/// Where dealing with one file alters the entries, it alters the entry with
/// the path of the file.
pub proof fn lemma_report_changes_its_path(
    entries: Seq<SpecEntryView>,
    kind: ChangeKind,
    report: FileReportView,
)
    requires
        distinct_paths(entries),
        after_report(entries, kind, report) != entries,
    ensures
        entry_at(after_report(entries, kind, report), report.path) != entry_at(
            entries,
            report.path,
        ),
{
    let after = after_report(entries, kind, report);
    lemma_index_of_path(entries, report.path, 0);
    match kind {
        ChangeKind::Removed => {
            lemma_removed_distinct(entries, report.path);
        },
        _ => {
            let entry = SpecEntryView {
                path: report.path,
                location: report.location,
                spec: report.loaded->Ok_0,
            };
            assert(after == upserted(entries, entry));
            lemma_upserted_distinct(entries, entry);
            match index_of_path(entries, report.path, 0) {
                Some(i) => {
                    assert(after[i] == entry);
                    lemma_entry_at_index(after, i);
                    if entry == entries[i] {
                        assert(after =~= entries);
                    }
                },
                None => {
                    assert(after[entries.len() as int] == entry);
                    lemma_entry_at_index(after, entries.len() as int);
                },
            }
        },
    }
}

/// The paths of the first `n` reports differ from each other.
pub open spec fn distinct_reports(reports: Seq<FileReportView>, n: int) -> bool {
    forall|i: int, j: int| 0 <= i < j < n ==> reports[i].path != reports[j].path
}

/// Where a change names no file twice, it alters the store exactly when the
/// store after it is another than the store before it.
pub proof fn lemma_change_is_difference(
    entries: Seq<SpecEntryView>,
    kind: ChangeKind,
    reports: Seq<FileReportView>,
    n: int,
)
    requires
        distinct_paths(entries),
        0 <= n <= reports.len(),
        distinct_reports(reports, n),
    ensures
        reports_change(entries, kind, reports, n) == (after_reports(entries, kind, reports, n)
            != entries),
        distinct_paths(after_reports(entries, kind, reports, n)),
        forall|path: Seq<char>|
            (forall|i: int| 0 <= i < n ==> reports[i].path != path) ==> entry_at(
                after_reports(entries, kind, reports, n),
                path,
            ) == entry_at(entries, path),
    decreases n,
{
    if n > 0 {
        lemma_change_is_difference(entries, kind, reports, n - 1);
        let before = after_reports(entries, kind, reports, n - 1);
        let after = after_reports(entries, kind, reports, n);
        let report = reports[n - 1];
        assert(after == after_report(before, kind, report));
        assert(entry_at(before, report.path) == entry_at(entries, report.path));
        if after != before {
            lemma_report_changes_its_path(before, kind, report);
        }
        assert forall|path: Seq<char>|
            (forall|i: int| 0 <= i < n ==> reports[i].path != path) implies entry_at(after, path)
            == entry_at(entries, path) by {
            assert(reports[n - 1].path != path);
            lemma_report_touches_one_path(before, kind, report, path);
            assert(forall|i: int| 0 <= i < n - 1 ==> reports[i].path != path);
        }
        lemma_distinct_after_report(before, kind, report);
    }
}

/// Dealing with one file keeps the paths distinct.
pub proof fn lemma_distinct_after_report(
    entries: Seq<SpecEntryView>,
    kind: ChangeKind,
    report: FileReportView,
)
    requires
        distinct_paths(entries),
    ensures
        distinct_paths(after_report(entries, kind, report)),
{
    let after = after_report(entries, kind, report);
    if after != entries {
        match kind {
            ChangeKind::Removed => {
                lemma_removed_distinct(entries, report.path);
            },
            _ => {
                lemma_upserted_distinct(
                    entries,
                    SpecEntryView {
                        path: report.path,
                        location: report.location,
                        spec: report.loaded->Ok_0,
                    },
                );
            },
        }
    }
}

/// The override documents of a workspace, in the order in which their files
/// were first seen. No two entries have the same path.
#[derive(Debug)]
pub struct WorkspaceSpecs {
    specs: Vec<SpecEntry>,
}

impl View for WorkspaceSpecs {
    type V = Seq<SpecEntryView>;

    closed spec fn view(&self) -> Seq<SpecEntryView> {
        self.specs.deep_view()
    }
}

impl WorkspaceSpecs {
    #[verifier::type_invariant]
    spec fn well_formed(self) -> bool {
        distinct_paths(self.specs.deep_view())
    }

    /// A store without entries.
    pub fn empty() -> (r: Self)
        ensures
            r@ == Seq::<SpecEntryView>::empty(),
    {
        let r = WorkspaceSpecs { specs: Vec::new() };
        assert(r.specs.deep_view() =~= Seq::<SpecEntryView>::empty());
        r
    }

    /// The store of a scan: of the files found, in their order, each override
    /// file that loaded has an entry; one that did not load is passed over.
    pub fn new(files: Vec<FileReport>) -> (r: Self)
        ensures
            r@ == after_reports(
                Seq::empty(),
                ChangeKind::Created,
                files.deep_view(),
                files@.len() as int,
            ),
            distinct_paths(r@),
    {
        let mut store = WorkspaceSpecs::empty();
        let _ = store.update(ChangeEvent { kind: ChangeKind::Created, files });
        store
    }

    /// The number of entries.
    pub fn len(&self) -> (r: usize)
        ensures
            r == self@.len(),
    {
        self.specs.len()
    }

    /// The entries, in their order.
    pub fn entries(&self) -> (r: &Vec<SpecEntry>)
        ensures
            r.deep_view() == self@,
            distinct_paths(self@),
    {
        proof {
            use_type_invariant(self);
        }
        &self.specs
    }

    /// The index of the entry with the given path.
    fn position(specs: &Vec<SpecEntry>, path: &str) -> (r: Option<usize>)
        ensures
            match r {
                Some(i) => i < specs@.len() && index_of_path(specs.deep_view(), path@, 0) == Some(
                    i as int,
                ),
                None => index_of_path(specs.deep_view(), path@, 0) is None,
            },
    {
        let mut i: usize = 0;
        while i < specs.len()
            invariant
                i <= specs@.len(),
                index_of_path(specs.deep_view(), path@, 0) == index_of_path(
                    specs.deep_view(),
                    path@,
                    i as int,
                ),
            decreases specs@.len() - i,
        {
            if str_eq(specs[i].path.as_str(), path) {
                return Some(i);
            }
            i += 1;
        }
        None
    }

    /// The document held for the file at `path`.
    pub fn get(&self, path: &str) -> (r: Option<&WorkspaceSpec>)
        ensures
            match r {
                Some(spec) => index_of_path(self@, path@, 0) is Some && self@[index_of_path(
                    self@,
                    path@,
                    0,
                )->0].spec == spec@,
                None => index_of_path(self@, path@, 0) is None,
            },
    {
        match WorkspaceSpecs::position(&self.specs, path) {
            Some(i) => Some(&self.specs[i].spec),
            None => None,
        }
    }

    /// Puts `entry` in the place of the entry with its path, or at the end
    /// where there is none. Tells whether the store is now another.
    pub fn upsert(&mut self, entry: SpecEntry) -> (changed: bool)
        ensures
            final(self)@ == upserted(old(self)@, entry@),
            changed == (final(self)@ != old(self)@),
            distinct_paths(final(self)@),
    {
        proof {
            use_type_invariant(&*self);
            lemma_upserted_distinct(self@, entry@);
            lemma_index_of_path(self@, entry@.path, 0);
        }
        let mut specs: Vec<SpecEntry> = Vec::new();
        assert(specs.deep_view() =~= Seq::<SpecEntryView>::empty());
        std::mem::swap(&mut specs, &mut self.specs);
        let ghost before = specs.deep_view();
        let changed = match WorkspaceSpecs::position(&specs, entry.path.as_str()) {
            Some(i) => {
                if texts_eq(&specs[i].location, &entry.location) && specs[i].spec.same_as(
                    &entry.spec,
                ) {
                    assert(specs[i as int]@ =~= entry@);
                    assert(before.update(i as int, entry@) =~= before);
                    false
                } else {
                    assert(before[i as int] != entry@);
                    specs.set(i, entry);
                    assert(specs.deep_view() =~= before.update(i as int, entry@));
                    assert(specs.deep_view()[i as int] != before[i as int]);
                    true
                }
            },
            None => {
                specs.push(entry);
                assert(specs.deep_view() =~= before.push(entry@));
                assert(specs.deep_view().len() != before.len());
                true
            },
        };
        self.specs = specs;
        changed
    }

    /// Takes out the entry with the given path, if there is one. Tells
    /// whether the store is now another.
    pub fn remove(&mut self, path: &str) -> (changed: bool)
        ensures
            final(self)@ == removed(old(self)@, path@),
            changed == (final(self)@ != old(self)@),
            changed == (index_of_path(old(self)@, path@, 0) is Some),
            distinct_paths(final(self)@),
    {
        proof {
            use_type_invariant(&*self);
            lemma_removed_distinct(self@, path@);
            lemma_index_of_path(self@, path@, 0);
        }
        let mut specs: Vec<SpecEntry> = Vec::new();
        assert(specs.deep_view() =~= Seq::<SpecEntryView>::empty());
        std::mem::swap(&mut specs, &mut self.specs);
        let ghost before = specs.deep_view();
        let changed = match WorkspaceSpecs::position(&specs, path) {
            Some(i) => {
                let _ = specs.remove(i);
                assert(specs.deep_view() =~= before.remove(i as int));
                assert(specs.deep_view().len() != before.len());
                true
            },
            None => false,
        };
        self.specs = specs;
        changed
    }

    /// Deals with the files of a change one after the other. Tells whether
    /// one of them altered the store.
    pub fn update(&mut self, event: ChangeEvent) -> (changed: bool)
        ensures
            final(self)@ == after_reports(
                old(self)@,
                event.kind,
                event.files.deep_view(),
                event.files@.len() as int,
            ),
            changed == reports_change(
                old(self)@,
                event.kind,
                event.files.deep_view(),
                event.files@.len() as int,
            ),
            distinct_paths(final(self)@),
    {
        proof {
            use_type_invariant(&*self);
        }
        let kind = event.kind;
        let mut files = event.files;
        let ghost reports = files.deep_view();
        let mut changed = false;
        let mut done: usize = 0;
        let total = files.len();
        while files.len() > 0
            invariant
                reports.len() == total,
                done <= total,
                files@.len() == total - done,
                forall|j: int| 0 <= j < files@.len() ==> files@[j]@ == reports[done + j],
                self@ == after_reports(old(self)@, kind, reports, done as int),
                changed == reports_change(old(self)@, kind, reports, done as int),
                distinct_paths(self@),
            decreases files@.len(),
        {
            let report = files.remove(0);
            assert(report@ == reports[done as int]);
            let ghost previous = self@;
            let step = match kind {
                ChangeKind::Created | ChangeKind::Modified => {
                    if is_a_validator(report.file_name.as_str(), report.is_file) {
                        match report.loaded {
                            Ok(spec) => self.upsert(
                                SpecEntry { path: report.path, location: report.location, spec },
                            ),
                            Err(_) => false,
                        }
                    } else {
                        false
                    }
                },
                ChangeKind::Removed => self.remove(report.path.as_str()),
                ChangeKind::Other => false,
            };
            assert(self@ == after_report(previous, kind, reports[done as int]));
            assert(step == (self@ != previous));
            changed = changed || step;
            done += 1;
        }
        changed
    }

    /// Whether an override file at `location` is in force for the document at
    /// `document`, both given as canonical path components.
    pub fn spec_applies_to_document(location: &Vec<String>, document: &Vec<String>) -> (r: bool)
        ensures
            r == applies_to(location.deep_view(), document.deep_view()),
    {
        if location.len() < 2 || location.len() - 1 > document.len() {
            return false;
        }
        let n = location.len() - 1;
        let mut i: usize = 0;
        while i < n
            invariant
                n == location@.len() - 1,
                n <= document@.len(),
                i <= n,
                forall|j: int| 0 <= j < i ==> location@[j]@ == document@[j]@,
            decreases n - i,
        {
            if !str_eq(location[i].as_str(), document[i].as_str()) {
                assert(location.deep_view()[i as int] != document.deep_view()[i as int]);
                return false;
            }
            i += 1;
        }
        true
    }

    /// What the override documents in force for a document say of a field:
    /// one annotation from each that says anything, a line break between them.
    pub fn describe_field(&self, document: &Vec<String>, segment: &str, field: usize) -> (r:
        String)
        ensures
            r@ == field_description(self@, document.deep_view(), segment@, field),
    {
        let mut lines: Vec<String> = Vec::new();
        assert(lines.deep_view() =~= Seq::<Seq<char>>::empty());
        let mut i: usize = 0;
        while i < self.specs.len()
            invariant
                i <= self.specs@.len(),
                lines.deep_view() == annotations_upto(
                    self@,
                    document.deep_view(),
                    segment@,
                    field,
                    i as int,
                ),
            decreases self.specs@.len() - i,
        {
            let entry = &self.specs[i];
            let ghost before = lines.deep_view();
            if WorkspaceSpecs::spec_applies_to_document(&entry.location, document) {
                match entry.spec.field(segment, field) {
                    Some(f) => {
                        push_optional(&mut lines, f.annotation(entry.spec.name.as_str()));
                    },
                    None => {
                        assert(lines.deep_view() =~= before + Seq::<Seq<char>>::empty());
                    },
                }
            } else {
                assert(lines.deep_view() =~= before + Seq::<Seq<char>>::empty());
            }
            i += 1;
        }
        join(&lines, "\n")
    }

    /// Whether any override document in force for a document marks the field,
    /// or its segment, required.
    pub fn is_field_required(&self, document: &Vec<String>, segment: &str, field: usize) -> (r:
        bool)
        ensures
            r == field_required(self@, document.deep_view(), segment@, field),
    {
        let mut i: usize = 0;
        while i < self.specs.len()
            invariant
                i <= self.specs@.len(),
                forall|j: int|
                    0 <= j < i ==> !(applies_to(
                        (#[trigger] self@[j]).location,
                        document.deep_view(),
                    ) && self@[j].spec.requires_field(segment@, field)),
            decreases self.specs@.len() - i,
        {
            let entry = &self.specs[i];
            if WorkspaceSpecs::spec_applies_to_document(&entry.location, document)
                && entry.spec.requires_field(segment, field) {
                assert(applies_to(self@[i as int].location, document.deep_view())
                    && self@[i as int].spec.requires_field(segment@, field));
                return true;
            }
            i += 1;
        }
        false
    }

    /// The permitted codes of a field: those of the first override document
    /// in force for the document that defines some, none where no such
    /// document does. Lists of several documents are never merged.
    pub fn table_values(&self, document: &Vec<String>, segment: &str, field: usize) -> (r: Vec<
        (String, String),
    >)
        ensures
            r.deep_view() == field_table(self@, document.deep_view(), segment@, field),
    {
        let mut i: usize = 0;
        while i < self.specs.len()
            invariant
                i <= self.specs@.len(),
                first_table_from(self@, document.deep_view(), segment@, field, 0)
                    == first_table_from(self@, document.deep_view(), segment@, field, i as int),
            decreases self.specs@.len() - i,
        {
            let entry = &self.specs[i];
            if WorkspaceSpecs::spec_applies_to_document(&entry.location, document) {
                match entry.spec.field(segment, field) {
                    Some(f) => match &f.allowed_values {
                        Some(values) => {
                            return copy_pairs(values);
                        },
                        None => {},
                    },
                    None => {},
                }
            }
            i += 1;
        }
        let r: Vec<(String, String)> = Vec::new();
        assert(r.deep_view() =~= Seq::<(Seq<char>, Seq<char>)>::empty());
        r
    }
}

} // verus!
