//! The standard catalog: for each version of the standard the definitions of
//! its segments and datatypes, and the tables of permitted codes.

use crate::lookup::{find_named, get_named, Named};
use crate::order::{in_order, sort, Order};
use crate::text::{
    decimal, decimal_digits, join, joined, lemma_lex_le_total, lex_le, sort_texts, sorted_texts,
    str_eq, str_le,
};
use crate::versions::{sort_versions, sorted_versions};
use vstd::prelude::*;

verus! {

/// Whether a field must hold a value.
#[derive(Debug, Clone, Copy, PartialEq, Eq, Structural)]
pub enum FieldOptionality {
    Required,
    Optional,
    Conditional,
    BackwardCompatibility,
}

/// How often a field may repeat.
#[derive(Debug, Clone, Copy, PartialEq, Eq, Structural)]
pub enum FieldRepeatability {
    Unbounded,
    Single,
    Bounded(usize),
}

/// The definition of one field of a segment, or of one component of a
/// composite datatype.
#[derive(Debug, Clone)]
pub struct FieldDefinition {
    pub description: String,
    pub datatype: String,
    pub optionality: FieldOptionality,
    pub repeatability: FieldRepeatability,
    pub max_length: Option<usize>,
    pub table: Option<u16>,
}

/// The definition of a segment: its fields in order, the first having number 1.
#[derive(Debug, Clone)]
pub struct SegmentDefinition {
    pub name: String,
    pub description: String,
    pub fields: Vec<FieldDefinition>,
}

/// The definition of a datatype: its components in order, none for a scalar.
#[derive(Debug, Clone)]
pub struct DatatypeDefinition {
    pub name: String,
    pub description: String,
    pub subfields: Vec<FieldDefinition>,
}

/// A table of permitted codes, each with its description.
#[derive(Debug, Clone)]
pub struct TableDefinition {
    pub id: u16,
    pub values: Vec<(String, String)>,
}

/// What one version of the standard defines.
#[derive(Debug, Clone)]
pub struct VersionDefinition {
    pub version: String,
    pub segments: Vec<SegmentDefinition>,
    pub datatypes: Vec<DatatypeDefinition>,
}

/// The standard catalog. A version is recognized when the catalog holds a
/// definition of it; where a name occurs twice, the first occurrence counts.
#[derive(Debug, Clone)]
pub struct Catalog {
    pub versions: Vec<VersionDefinition>,
    pub tables: Vec<TableDefinition>,
}

impl Named for VersionDefinition {
    open spec fn name_view(&self) -> Seq<char> {
        self.version@
    }

    fn is_named(&self, name: &str) -> (r: bool) {
        str_eq(self.version.as_str(), name)
    }
}

impl Named for SegmentDefinition {
    open spec fn name_view(&self) -> Seq<char> {
        self.name@
    }

    fn is_named(&self, name: &str) -> (r: bool) {
        str_eq(self.name.as_str(), name)
    }
}

impl Named for DatatypeDefinition {
    open spec fn name_view(&self) -> Seq<char> {
        self.name@
    }

    fn is_named(&self, name: &str) -> (r: bool) {
        str_eq(self.name.as_str(), name)
    }
}

/// The first table at or after `from` with the given number.
pub open spec fn find_table_from(tables: Seq<TableDefinition>, id: u16, from: int) -> Option<
    TableDefinition,
>
    decreases tables.len() - from,
{
    if from < 0 || from >= tables.len() {
        None
    } else if tables[from].id == id {
        Some(tables[from])
    } else {
        find_table_from(tables, id, from + 1)
    }
}

/// The datatypes whose values are timestamps.
pub open spec fn is_timestamp_datatype(datatype: Seq<char>) -> bool {
    datatype == "TS"@ || datatype == "DTM"@
}

/// Whether `datatype` names a timestamp datatype.
pub fn datatype_is_timestamp(datatype: &str) -> (r: bool)
    ensures
        r == is_timestamp_datatype(datatype@),
{
    str_eq(datatype, "TS") || str_eq(datatype, "DTM")
}

impl SegmentDefinition {
    /// The definition of the field with the given number, counted from 1.
    pub open spec fn spec_field(&self, number: int) -> Option<FieldDefinition> {
        if 1 <= number <= self.fields@.len() {
            Some(self.fields@[number - 1])
        } else {
            None
        }
    }

    pub fn field(&self, number: usize) -> (r: Option<&FieldDefinition>)
        ensures
            match r {
                Some(f) => self.spec_field(number as int) == Some(*f),
                None => self.spec_field(number as int) is None,
            },
    {
        if 1 <= number && number <= self.fields.len() {
            Some(&self.fields[number - 1])
        } else {
            None
        }
    }
}

impl DatatypeDefinition {
    /// The definition of the component with the given number, counted from 1.
    pub open spec fn spec_subfield(&self, number: int) -> Option<FieldDefinition> {
        if 1 <= number <= self.subfields@.len() {
            Some(self.subfields@[number - 1])
        } else {
            None
        }
    }

    pub fn subfield(&self, number: usize) -> (r: Option<&FieldDefinition>)
        ensures
            match r {
                Some(f) => self.spec_subfield(number as int) == Some(*f),
                None => self.spec_subfield(number as int) is None,
            },
    {
        if 1 <= number && number <= self.subfields.len() {
            Some(&self.subfields[number - 1])
        } else {
            None
        }
    }
}

impl Catalog {
    /// The catalog holds a definition of `version`.
    pub open spec fn knows_version(&self, version: Seq<char>) -> bool {
        find_named(self.versions@, version) is Some
    }

    /// The definition of a segment in a version.
    pub open spec fn segment(&self, version: Seq<char>, name: Seq<char>) -> Option<
        SegmentDefinition,
    > {
        match find_named(self.versions@, version) {
            Some(v) => find_named(v.segments@, name),
            None => None,
        }
    }

    /// The definition of a datatype in a version.
    pub open spec fn datatype(&self, version: Seq<char>, name: Seq<char>) -> Option<
        DatatypeDefinition,
    > {
        match find_named(self.versions@, version) {
            Some(v) => find_named(v.datatypes@, name),
            None => None,
        }
    }

    /// The codes and descriptions of a table.
    pub open spec fn table(&self, id: u16) -> Option<Seq<(Seq<char>, Seq<char>)>> {
        match find_table_from(self.tables@, id, 0) {
            Some(t) => Some(t.values.deep_view()),
            None => None,
        }
    }

    /// The definition of the field with the given number of a segment.
    pub open spec fn field(&self, version: Seq<char>, segment: Seq<char>, number: int) -> Option<
        FieldDefinition,
    > {
        match self.segment(version, segment) {
            Some(s) => s.spec_field(number),
            None => None,
        }
    }

    /// The definition of a component of the field with the given number: the
    /// component's place in the datatype of the field.
    pub open spec fn component(
        &self,
        version: Seq<char>,
        segment: Seq<char>,
        field: int,
        component: int,
    ) -> Option<FieldDefinition> {
        match self.field(version, segment, field) {
            Some(f) => match self.datatype(version, f.datatype@) {
                Some(d) => d.spec_subfield(component),
                None => None,
            },
            None => None,
        }
    }

    pub fn get_segment(&self, version: &str, name: &str) -> (r: Option<&SegmentDefinition>)
        ensures
            match r {
                Some(s) => self.segment(version@, name@) == Some(*s),
                None => self.segment(version@, name@) is None,
            },
    {
        match get_named(&self.versions, version) {
            Some(v) => get_named(&v.segments, name),
            None => None,
        }
    }

    pub fn get_field(&self, version: &str, datatype: &str) -> (r: Option<&DatatypeDefinition>)
        ensures
            match r {
                Some(d) => self.datatype(version@, datatype@) == Some(*d),
                None => self.datatype(version@, datatype@) is None,
            },
    {
        match get_named(&self.versions, version) {
            Some(v) => get_named(&v.datatypes, datatype),
            None => None,
        }
    }

    pub fn table_values(&self, table: u16) -> (r: Option<&Vec<(String, String)>>)
        ensures
            match r {
                Some(values) => self.table(table) == Some(values.deep_view()),
                None => self.table(table) is None,
            },
    {
        let mut i: usize = 0;
        while i < self.tables.len()
            invariant
                i <= self.tables@.len(),
                find_table_from(self.tables@, table, 0) == find_table_from(
                    self.tables@,
                    table,
                    i as int,
                ),
            decreases self.tables@.len() - i,
        {
            if self.tables[i].id == table {
                return Some(&self.tables[i].values);
            }
            i += 1;
        }
        None
    }

    pub fn get_segment_field(&self, version: &str, segment: &str, number: usize) -> (r: Option<
        &FieldDefinition,
    >)
        ensures
            match r {
                Some(f) => self.field(version@, segment@, number as int) == Some(*f),
                None => self.field(version@, segment@, number as int) is None,
            },
    {
        match self.get_segment(version, segment) {
            Some(s) => s.field(number),
            None => None,
        }
    }

    pub fn get_component(&self, version: &str, segment: &str, field: usize, component: usize) -> (r:
        Option<&FieldDefinition>)
        ensures
            match r {
                Some(c) => self.component(version@, segment@, field as int, component as int)
                    == Some(*c),
                None => self.component(version@, segment@, field as int, component as int) is None,
            },
    {
        match self.get_segment_field(version, segment, field) {
            Some(f) => match self.get_field(version, f.datatype.as_str()) {
                Some(d) => d.subfield(component),
                None => None,
            },
            None => None,
        }
    }
}

/// Whether the catalog recognizes `version`.
pub fn is_valid_version(catalog: &Catalog, version: &str) -> (r: bool)
    ensures
        r == catalog.knows_version(version@),
{
    get_named(&catalog.versions, version).is_some()
}

/// The description of a segment, for one the catalog does not define `Unknown segment`.
pub open spec fn segment_description_text(
    catalog: Catalog,
    version: Seq<char>,
    segment: Seq<char>,
) -> Seq<char> {
    match catalog.segment(version, segment) {
        Some(s) => s.description@,
        None => "Unknown segment"@,
    }
}

pub fn segment_description(catalog: &Catalog, version: &str, segment: &str) -> (r: String)
    ensures
        r@ == segment_description_text(*catalog, version@, segment@),
{
    match catalog.get_segment(version, segment) {
        Some(s) => s.description.clone(),
        None => String::from_str("Unknown segment"),
    }
}

/// The field with the given number is defined with a timestamp datatype.
pub open spec fn field_is_timestamp(
    catalog: Catalog,
    version: Seq<char>,
    segment: Seq<char>,
    field: int,
) -> bool {
    match catalog.field(version, segment, field) {
        Some(f) => is_timestamp_datatype(f.datatype@),
        None => false,
    }
}

pub fn is_field_a_timestamp(catalog: &Catalog, version: &str, segment: &str, field: usize) -> (r:
    bool)
    ensures
        r == field_is_timestamp(*catalog, version@, segment@, field as int),
{
    match catalog.get_segment_field(version, segment, field) {
        Some(f) => datatype_is_timestamp(f.datatype.as_str()),
        None => false,
    }
}

/// The component with the given number is defined with a timestamp datatype.
pub open spec fn component_is_timestamp(
    catalog: Catalog,
    version: Seq<char>,
    segment: Seq<char>,
    field: int,
    component: int,
) -> bool {
    match catalog.component(version, segment, field, component) {
        Some(c) => is_timestamp_datatype(c.datatype@),
        None => false,
    }
}

pub fn is_component_a_timestamp(
    catalog: &Catalog,
    version: &str,
    segment: &str,
    field: usize,
    component: usize,
) -> (r: bool)
    ensures
        r == component_is_timestamp(
            *catalog,
            version@,
            segment@,
            field as int,
            component as int,
        ),
{
    match catalog.get_component(version, segment, field, component) {
        Some(c) => datatype_is_timestamp(c.datatype.as_str()),
        None => false,
    }
}

/// How often a field may repeat, as text.
pub open spec fn repeatability_text(repeatability: FieldRepeatability) -> Seq<char> {
    match repeatability {
        FieldRepeatability::Unbounded => "∞"@,
        FieldRepeatability::Single => "1"@,
        FieldRepeatability::Bounded(n) => decimal_digits(n as nat),
    }
}

/// Whether a field must hold a value, as text.
pub open spec fn optionality_text(optionality: FieldOptionality) -> Seq<char> {
    match optionality {
        FieldOptionality::Required => "*required*"@,
        FieldOptionality::Optional => "*optional*"@,
        FieldOptionality::Conditional => "*conditional*"@,
        FieldOptionality::BackwardCompatibility => "*backwards compatibility*"@,
    }
}

/// The greatest length of a field, as text.
pub open spec fn length_text(max_length: Option<usize>) -> Seq<char> {
    match max_length {
        Some(l) => decimal_digits(l as nat),
        None => "∞"@,
    }
}

/// The description of a datatype, for one the catalog does not define
/// `Unknown datatype`.
pub open spec fn datatype_description(catalog: Catalog, version: Seq<char>, datatype: Seq<char>)
    -> Seq<char> {
    match catalog.datatype(version, datatype) {
        Some(d) => d.description@,
        None => "Unknown datatype"@,
    }
}

/// The line of one code of a table behind an indent.
pub open spec fn listed_line(indent: Seq<char>, value: (Seq<char>, Seq<char>)) -> Seq<char> {
    indent + "`"@ + value.0 + "` ("@ + value.1 + ")"@
}

/// The lines of the codes of a table, in the order of the table.
pub open spec fn listed_lines(indent: Seq<char>, values: Seq<(Seq<char>, Seq<char>)>) -> Seq<
    Seq<char>,
> {
    Seq::new(values.len(), |i: int| listed_line(indent, values[i]))
}

/// The table of a definition as text: nothing where the definition names no
/// table, else the heading and the lines of the codes in their order as
/// texts; only the heading where the catalog does not hold the table.
pub open spec fn table_text(
    catalog: Catalog,
    table: Option<u16>,
    indent: Seq<char>,
    heading: Seq<char>,
) -> Seq<char> {
    match table {
        Some(id) => heading + match catalog.table(id) {
            Some(values) => joined(sorted_texts(listed_lines(indent, values)), "\n"@),
            None => Seq::empty(),
        },
        None => Seq::empty(),
    }
}

/// A definition as text: description, length, datatype, optionality and
/// repeatability, and the table.
pub open spec fn definition_text(
    catalog: Catalog,
    version: Seq<char>,
    definition: FieldDefinition,
    indent: Seq<char>,
    heading: Seq<char>,
) -> Seq<char> {
    definition.description@ + ", len: "@ + length_text(definition.max_length) + " ("@
        + datatype_description(catalog, version, definition.datatype@) + ") ["@ + optionality_text(
        definition.optionality,
    ) + "/"@ + repeatability_text(definition.repeatability) + "]"@ + table_text(
        catalog,
        definition.table,
        indent,
        heading,
    )
}

/// What the catalog says of a field of a segment.
pub open spec fn field_text(catalog: Catalog, version: Seq<char>, segment: Seq<char>, field: int)
    -> Seq<char> {
    match catalog.segment(version, segment) {
        Some(s) => match s.spec_field(field) {
            Some(f) => definition_text(catalog, version, f, "      "@, "\n    Table values:\n"@),
            None => "Unknown field"@,
        },
        None => "Unknown segment"@,
    }
}

/// What the catalog says of a component of a field of a segment.
pub open spec fn component_text(
    catalog: Catalog,
    version: Seq<char>,
    segment: Seq<char>,
    field: int,
    component: int,
) -> Seq<char> {
    match catalog.segment(version, segment) {
        Some(s) => match s.spec_field(field) {
            Some(f) => match catalog.component(version, segment, field, component) {
                Some(c) => definition_text(catalog, version, c, "    "@, "\n  Table values:\n"@),
                None => "Unknown component"@,
            },
            None => "Unknown field"@,
        },
        None => "Unknown segment"@,
    }
}

fn repeatability_string(repeatability: FieldRepeatability) -> (r: String)
    ensures
        r@ == repeatability_text(repeatability),
{
    match repeatability {
        FieldRepeatability::Unbounded => String::from_str("∞"),
        FieldRepeatability::Single => String::from_str("1"),
        FieldRepeatability::Bounded(n) => decimal(n),
    }
}

fn optionality_str(optionality: FieldOptionality) -> (r: &'static str)
    ensures
        r@ == optionality_text(optionality),
{
    match optionality {
        FieldOptionality::Required => "*required*",
        FieldOptionality::Optional => "*optional*",
        FieldOptionality::Conditional => "*conditional*",
        FieldOptionality::BackwardCompatibility => "*backwards compatibility*",
    }
}

fn table_string(catalog: &Catalog, table: Option<u16>, indent: &str, heading: &str) -> (r: String)
    ensures
        r@ == table_text(*catalog, table, indent@, heading@),
{
    match table {
        Some(id) => {
            let mut text = String::from_str(heading);
            match catalog.table_values(id) {
                Some(values) => {
                    let mut lines: Vec<String> = Vec::new();
                    let mut i: usize = 0;
                    while i < values.len()
                        invariant
                            i <= values@.len(),
                            lines@.len() == i,
                            forall|j: int|
                                0 <= j < i ==> lines@[j]@ == listed_line(
                                    indent@,
                                    values@[j].deep_view(),
                                ),
                        decreases values@.len() - i,
                    {
                        let mut line = String::from_str(indent);
                        line.append("`");
                        line.append(values[i].0.as_str());
                        line.append("` (");
                        line.append(values[i].1.as_str());
                        line.append(")");
                        lines.push(line);
                        i += 1;
                    }
                    assert(lines.deep_view() =~= listed_lines(indent@, values.deep_view()));
                    text.append(join(&sort_texts(lines), "\n").as_str());
                },
                None => {
                    assert(text@ =~= heading@ + Seq::<char>::empty());
                },
            }
            text
        },
        None => String::new(),
    }
}

fn definition_string(
    catalog: &Catalog,
    version: &str,
    definition: &FieldDefinition,
    indent: &str,
    heading: &str,
) -> (r: String)
    ensures
        r@ == definition_text(*catalog, version@, *definition, indent@, heading@),
{
    let mut text = definition.description.clone();
    text.append(", len: ");
    match definition.max_length {
        Some(l) => text.append(decimal(l).as_str()),
        None => text.append("∞"),
    }
    text.append(" (");
    match catalog.get_field(version, definition.datatype.as_str()) {
        Some(d) => text.append(d.description.as_str()),
        None => text.append("Unknown datatype"),
    }
    text.append(") [");
    text.append(optionality_str(definition.optionality));
    text.append("/");
    text.append(repeatability_string(definition.repeatability).as_str());
    text.append("]");
    text.append(table_string(catalog, definition.table, indent, heading).as_str());
    text
}

/// What the catalog says of the field with the given number of a segment:
/// its description, length, datatype, optionality and repeatability, and the
/// codes of its table.
pub fn describe_field(catalog: &Catalog, version: &str, segment: &str, field: usize) -> (r: String)
    ensures
        r@ == field_text(*catalog, version@, segment@, field as int),
{
    match catalog.get_segment(version, segment) {
        Some(s) => match s.field(field) {
            Some(f) => definition_string(catalog, version, f, "      ", "\n    Table values:\n"),
            None => String::from_str("Unknown field"),
        },
        None => String::from_str("Unknown segment"),
    }
}

/// What the catalog says of the component with the given number of a field.
pub fn describe_component(
    catalog: &Catalog,
    version: &str,
    segment: &str,
    field: usize,
    component: usize,
) -> (r: String)
    ensures
        r@ == component_text(*catalog, version@, segment@, field as int, component as int),
{
    match catalog.get_segment(version, segment) {
        Some(s) => match s.field(field) {
            Some(f) => match catalog.get_field(version, f.datatype.as_str()) {
                Some(d) => match d.subfield(component) {
                    Some(c) => definition_string(
                        catalog,
                        version,
                        c,
                        "    ",
                        "\n  Table values:\n",
                    ),
                    None => String::from_str("Unknown component"),
                },
                None => String::from_str("Unknown component"),
            },
            None => String::from_str("Unknown field"),
        },
        None => String::from_str("Unknown segment"),
    }
}

/// The order of codes with their descriptions: by the code, and for one code
/// by the description, none coming first.
pub struct ByEntry;

/// The order of two optional descriptions.
pub open spec fn description_le(a: Option<Seq<char>>, b: Option<Seq<char>>) -> bool {
    match (a, b) {
        (None, _) => true,
        (Some(_), None) => false,
        (Some(x), Some(y)) => lex_le(vstd::utf8::encode_utf8(x), vstd::utf8::encode_utf8(y)),
    }
}

impl Order<(String, Option<String>)> for ByEntry {
    open spec fn le(a: (Seq<char>, Option<Seq<char>>), b: (Seq<char>, Option<Seq<char>>)) -> bool {
        if a.0 == b.0 {
            description_le(a.1, b.1)
        } else {
            lex_le(vstd::utf8::encode_utf8(a.0), vstd::utf8::encode_utf8(b.0))
        }
    }

    proof fn lemma_total(a: (Seq<char>, Option<Seq<char>>), b: (Seq<char>, Option<Seq<char>>)) {
        lemma_lex_le_total(vstd::utf8::encode_utf8(a.0), vstd::utf8::encode_utf8(b.0));
        match (a.1, b.1) {
            (Some(x), Some(y)) => {
                lemma_lex_le_total(vstd::utf8::encode_utf8(x), vstd::utf8::encode_utf8(y));
            },
            _ => {},
        }
    }

    fn compare(a: &(String, Option<String>), b: &(String, Option<String>)) -> (r: bool) {
        if str_eq(a.0.as_str(), b.0.as_str()) {
            match (&a.1, &b.1) {
                (None, _) => true,
                (Some(_), None) => false,
                (Some(x), Some(y)) => str_le(x.as_str(), y.as_str()),
            }
        } else {
            str_le(a.0.as_str(), b.0.as_str())
        }
    }
}

/// The codes of a table as entries, each with its description.
pub open spec fn described_entries(values: Seq<(Seq<char>, Seq<char>)>) -> Seq<
    (Seq<char>, Option<Seq<char>>),
> {
    Seq::new(values.len(), |i: int| (values[i].0, Some(values[i].1)))
}

/// Version names as entries without a description.
pub open spec fn bare_entries(names: Seq<Seq<char>>) -> Seq<(Seq<char>, Option<Seq<char>>)> {
    Seq::new(names.len(), |i: int| (names[i], None))
}

/// The codes of a table, each with its description, in order.
pub open spec fn table_entries(catalog: Catalog, table: Option<u16>) -> Option<
    Seq<(Seq<char>, Option<Seq<char>>)>,
> {
    match table {
        Some(id) => match catalog.table(id) {
            Some(values) => Some(
                in_order::<(String, Option<String>), ByEntry>(described_entries(values)),
            ),
            None => None,
        },
        None => None,
    }
}

/// The names of the versions that the catalog defines, in its order.
pub open spec fn version_names(catalog: Catalog) -> Seq<Seq<char>> {
    Seq::new(catalog.versions@.len(), |i: int| catalog.versions@[i].version@)
}

/// The values that a field may hold: for the version field of the header the
/// versions of the catalog in the order of their numbers, for any other field
/// the codes of its table in order.
pub open spec fn field_values(catalog: Catalog, version: Seq<char>, segment: Seq<char>, field: int)
    -> Option<Seq<(Seq<char>, Option<Seq<char>>)>> {
    if segment == "MSH"@ && field == 12 {
        Some(bare_entries(sorted_versions(version_names(catalog))))
    } else {
        match catalog.field(version, segment, field) {
            Some(f) => table_entries(catalog, f.table),
            None => None,
        }
    }
}

/// The values that a component may hold: the codes of its table in order.
/// Field and component are counted from 0.
pub open spec fn component_values(
    catalog: Catalog,
    version: Seq<char>,
    segment: Seq<char>,
    field: int,
    component: int,
) -> Option<Seq<(Seq<char>, Option<Seq<char>>)>> {
    match catalog.component(version, segment, field + 1, component + 1) {
        Some(c) => table_entries(catalog, c.table),
        None => None,
    }
}

fn table_entries_of(catalog: &Catalog, table: Option<u16>) -> (r: Option<
    Vec<(String, Option<String>)>,
>)
    ensures
        r.deep_view() == table_entries(*catalog, table),
{
    match table {
        Some(id) => match catalog.table_values(id) {
            Some(values) => {
                let mut entries: Vec<(String, Option<String>)> = Vec::new();
                let mut i: usize = 0;
                while i < values.len()
                    invariant
                        i <= values@.len(),
                        entries@.len() == i,
                        forall|j: int|
                            0 <= j < i ==> entries@[j].deep_view() == (
                                values@[j].0@,
                                Some(values@[j].1@),
                            ),
                    decreases values@.len() - i,
                {
                    entries.push((values[i].0.clone(), Some(values[i].1.clone())));
                    i += 1;
                }
                assert(entries.deep_view() =~= described_entries(values.deep_view()));
                Some(sort::<(String, Option<String>), ByEntry>(entries))
            },
            None => None,
        },
        None => None,
    }
}

/// The values that the field with the given number of a segment may hold.
pub fn field_table_values(catalog: &Catalog, version: &str, segment: &str, field: usize) -> (r:
    Option<Vec<(String, Option<String>)>>)
    ensures
        r.deep_view() == field_values(*catalog, version@, segment@, field as int),
{
    if str_eq(segment, "MSH") && field == 12 {
        let mut names: Vec<String> = Vec::new();
        let mut i: usize = 0;
        while i < catalog.versions.len()
            invariant
                i <= catalog.versions@.len(),
                names@.len() == i,
                forall|j: int| 0 <= j < i ==> names@[j]@ == catalog.versions@[j].version@,
            decreases catalog.versions@.len() - i,
        {
            names.push(catalog.versions[i].version.clone());
            i += 1;
        }
        assert(names.deep_view() =~= version_names(*catalog));
        let mut sorted = sort_versions(names);
        let ghost all = sorted.deep_view();
        let mut entries: Vec<(String, Option<String>)> = Vec::new();
        while sorted.len() > 0
            invariant
                entries@.len() + sorted@.len() == all.len(),
                forall|j: int|
                    0 <= j < sorted@.len() ==> sorted@[j]@ == all[entries@.len() + j],
                forall|j: int|
                    0 <= j < entries@.len() ==> entries@[j].deep_view() == (
                        all[j],
                        None::<Seq<char>>,
                    ),
            decreases sorted@.len(),
        {
            let name = sorted.remove(0);
            entries.push((name, None));
        }
        assert(entries.deep_view() =~= bare_entries(all));
        return Some(entries);
    }
    match catalog.get_segment_field(version, segment, field) {
        Some(f) => table_entries_of(catalog, f.table),
        None => None,
    }
}

/// The values that a component of a field may hold. Field and component are
/// counted from 0.
pub fn component_table_values(
    catalog: &Catalog,
    version: &str,
    segment: &str,
    field: usize,
    component: usize,
) -> (r: Option<Vec<(String, Option<String>)>>)
    ensures
        r.deep_view() == component_values(
            *catalog,
            version@,
            segment@,
            field as int,
            component as int,
        ),
{
    match catalog.get_segment(version, segment) {
        Some(s) => if field < s.fields.len() {
            match catalog.get_field(version, s.fields[field].datatype.as_str()) {
                Some(d) => if component < d.subfields.len() {
                    table_entries_of(catalog, d.subfields[component].table)
                } else {
                    None
                },
                None => None,
            }
        } else {
            None
        },
        None => None,
    }
}

/// The mark of the optionality of a parameter.
pub open spec fn optionality_mark(optionality: FieldOptionality) -> Seq<char> {
    match optionality {
        FieldOptionality::Required => "*"@,
        FieldOptionality::Optional => ""@,
        FieldOptionality::Conditional => "?"@,
        FieldOptionality::BackwardCompatibility => "!"@,
    }
}

/// A definition as a parameter: the mark, the description, and in round
/// brackets the description of the datatype, or its name where the catalog
/// does not define it.
pub open spec fn parameter_text(catalog: Catalog, version: Seq<char>, definition: FieldDefinition)
    -> Seq<char> {
    optionality_mark(definition.optionality) + definition.description@ + " ("@ + match catalog.datatype(
        version,
        definition.datatype@,
    ) {
        Some(d) => d.description@,
        None => definition.datatype@,
    } + ")"@
}

/// Definitions as parameters, in their order.
pub open spec fn parameter_texts(
    catalog: Catalog,
    version: Seq<char>,
    definitions: Seq<FieldDefinition>,
) -> Seq<Seq<char>> {
    Seq::new(definitions.len(), |i: int| parameter_text(catalog, version, definitions[i]))
}

/// The fields of a segment as parameters.
pub open spec fn segment_parameter_texts(catalog: Catalog, version: Seq<char>, segment: Seq<char>)
    -> Option<Seq<Seq<char>>> {
    match catalog.segment(version, segment) {
        Some(s) => Some(parameter_texts(catalog, version, s.fields@)),
        None => None,
    }
}

/// The components of a field as parameters, none for a field whose datatype
/// the catalog does not define.
pub open spec fn field_parameter_texts(
    catalog: Catalog,
    version: Seq<char>,
    segment: Seq<char>,
    field: int,
) -> Option<Seq<Seq<char>>> {
    match catalog.field(version, segment, field) {
        Some(f) => match catalog.datatype(version, f.datatype@) {
            Some(d) => Some(parameter_texts(catalog, version, d.subfields@)),
            None => Some(Seq::empty()),
        },
        None => None,
    }
}

fn optionality_mark_str(optionality: FieldOptionality) -> (r: &'static str)
    ensures
        r@ == optionality_mark(optionality),
{
    match optionality {
        FieldOptionality::Required => "*",
        FieldOptionality::Optional => "",
        FieldOptionality::Conditional => "?",
        FieldOptionality::BackwardCompatibility => "!",
    }
}

fn parameters_of(catalog: &Catalog, version: &str, definitions: &Vec<FieldDefinition>) -> (r: Vec<
    String,
>)
    ensures
        r.deep_view() == parameter_texts(*catalog, version@, definitions@),
{
    let mut parameters: Vec<String> = Vec::new();
    let mut i: usize = 0;
    while i < definitions.len()
        invariant
            i <= definitions@.len(),
            parameters@.len() == i,
            forall|j: int|
                0 <= j < i ==> parameters@[j]@ == parameter_text(
                    *catalog,
                    version@,
                    definitions@[j],
                ),
        decreases definitions@.len() - i,
    {
        let definition = &definitions[i];
        let mut text = String::from_str(optionality_mark_str(definition.optionality));
        text.append(definition.description.as_str());
        text.append(" (");
        match catalog.get_field(version, definition.datatype.as_str()) {
            Some(d) => text.append(d.description.as_str()),
            None => text.append(definition.datatype.as_str()),
        }
        text.append(")");
        parameters.push(text);
        i += 1;
    }
    assert(parameters.deep_view() =~= parameter_texts(*catalog, version@, definitions@));
    parameters
}

/// The fields of a segment as parameters.
pub fn segment_parameters(catalog: &Catalog, version: &str, segment: &str) -> (r: Option<
    Vec<String>,
>)
    ensures
        r.deep_view() == segment_parameter_texts(*catalog, version@, segment@),
{
    match catalog.get_segment(version, segment) {
        Some(s) => Some(parameters_of(catalog, version, &s.fields)),
        None => None,
    }
}

/// The components of the field with the given number as parameters.
pub fn field_parameters(catalog: &Catalog, version: &str, segment: &str, field: usize) -> (r:
    Option<Vec<String>>)
    ensures
        r.deep_view() == field_parameter_texts(*catalog, version@, segment@, field as int),
{
    match catalog.get_segment_field(version, segment, field) {
        Some(f) => match catalog.get_field(version, f.datatype.as_str()) {
            Some(d) => Some(parameters_of(catalog, version, &d.subfields)),
            None => {
                let none: Vec<String> = Vec::new();
                assert(none.deep_view() =~= Seq::<Seq<char>>::empty());
                Some(none)
            },
        },
        None => None,
    }
}

} // verus!
