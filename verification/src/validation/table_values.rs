//! The table pass: each repeat of a field with a table of permitted codes
//! must hold one of the codes. Codes that a workspace override in force
//! defines for the field take the place of the standard table; they count
//! for the fields of a segment that the standard does not define, too.

use super::optionality::overlay_of;
use super::{
    concat_upto, lemma_concat_member, lemma_concat_step, push_finding, Finding, FindingCode, ValidationCode,
    ValidationError,
};
use crate::diagnostics::Severity;
use crate::lookup::referent;
use crate::message::{Field, Message, Segment};
use crate::spec::{Catalog, SegmentDefinition};
use crate::order::{in_order, lemma_in_order, sort, Order};
use crate::text::{copy_pairs, join, joined, lemma_lex_le_total, lex_le, str_eq, str_le};
use crate::workspace::specs::{field_table, SpecEntryView, WorkspaceSpecs};
use vstd::prelude::*;

verus! {

/// The code `a` comes before the code `b`, or equals it, in the order of
/// their bytes.
pub open spec fn code_le(a: Seq<char>, b: Seq<char>) -> bool {
    lex_le(vstd::utf8::encode_utf8(a), vstd::utf8::encode_utf8(b))
}

/// The order of table entries by their codes.
pub struct ByCode;

impl Order<(String, String)> for ByCode {
    open spec fn le(a: (Seq<char>, Seq<char>), b: (Seq<char>, Seq<char>)) -> bool {
        code_le(a.0, b.0)
    }

    proof fn lemma_total(a: (Seq<char>, Seq<char>), b: (Seq<char>, Seq<char>)) {
        lemma_lex_le_total(vstd::utf8::encode_utf8(a.0), vstd::utf8::encode_utf8(b.0));
    }

    fn compare(a: &(String, String), b: &(String, String)) -> (r: bool) {
        str_le(a.0.as_str(), b.0.as_str())
    }
}

/// The entries of a table in the order of their codes; entries with one code
/// keep their order.
pub open spec fn sorted_by_code(table: Seq<(Seq<char>, Seq<char>)>) -> Seq<(Seq<char>, Seq<char>)> {
    in_order::<(String, String), ByCode>(table)
}

/// Each entry's code comes before the next entry's code, or equals it.
pub open spec fn ordered_by_code(table: Seq<(Seq<char>, Seq<char>)>) -> bool {
    forall|i: int| 0 <= i < table.len() - 1 ==> code_le(#[trigger] table[i].0, table[i + 1].0)
}

/// The line of one permitted code in a message.
pub open spec fn table_line(value: (Seq<char>, Seq<char>)) -> Seq<char> {
    "  - `"@ + value.0 + "` ("@ + value.1 + ")"@
}

/// The lines of the entries of a table, in their order.
pub open spec fn table_lines(table: Seq<(Seq<char>, Seq<char>)>) -> Seq<Seq<char>> {
    Seq::new(table.len(), |i: int| table_line(table[i]))
}

/// The message of a finding: every permitted code with its description, in
/// the order of the codes.
pub open spec fn table_message(table: Seq<(Seq<char>, Seq<char>)>) -> Seq<char> {
    "Invalid table value, expected one of:\n"@ + joined(
        table_lines(sorted_by_code(table)),
        "\n"@,
    )
}

/// `value` is one of the codes of the table.
pub open spec fn accepts(table: Seq<(Seq<char>, Seq<char>)>, value: Seq<char>) -> bool {
    exists|i: int| 0 <= i < table.len() && (#[trigger] table[i]).0 == value
}

/// The finding for a repeat of `field` whose value is no code of `table`.
pub open spec fn invalid_value(field: Field, table: Seq<(Seq<char>, Seq<char>)>) -> Finding {
    Finding {
        code: FindingCode::InvalidTableValue,
        message: table_message(table),
        range: field.range,
        severity: Severity::Info,
    }
}

/// The table that the standard gives the field at index `fi` of a segment
/// with the given definition, none for a segment without a definition.
pub open spec fn standard_table(
    catalog: Catalog,
    definition: Option<SegmentDefinition>,
    fi: int,
) -> Option<Seq<(Seq<char>, Seq<char>)>> {
    match definition {
        Some(d) => if 0 <= fi < d.fields@.len() {
            match d.fields@[fi].table {
                Some(id) => catalog.table(id),
                None => None,
            }
        } else {
            None
        },
        None => None,
    }
}

/// The codes that the workspace defines for the field at index `fi` of a
/// segment, none where it defines none.
pub open spec fn workspace_table(
    overlay: Option<Seq<SpecEntryView>>,
    document: Seq<Seq<char>>,
    segment: Seq<char>,
    fi: int,
) -> Seq<(Seq<char>, Seq<char>)> {
    match overlay {
        Some(entries) => field_table(entries, document, segment, (fi + 1) as usize),
        None => Seq::empty(),
    }
}

/// The table a field is held to: the codes of the workspace where it defines
/// any, the standard table otherwise. The two are never merged.
pub open spec fn resolved_table(
    workspace: Seq<(Seq<char>, Seq<char>)>,
    standard: Option<Seq<(Seq<char>, Seq<char>)>>,
) -> Option<Seq<(Seq<char>, Seq<char>)>> {
    if workspace.len() > 0 {
        Some(workspace)
    } else {
        standard
    }
}

/// The findings of each repeat of `field`.
pub open spec fn repeat_findings(field: Field, table: Seq<(Seq<char>, Seq<char>)>) -> spec_fn(
    int,
) -> Seq<Finding> {
    |ri: int|
        if accepts(table, field.repeats@[ri].value@) {
            Seq::empty()
        } else {
            seq![invalid_value(field, table)]
        }
}

/// The findings of a field: none for an empty field or one without a table,
/// else one for each repeat whose value is no code of the table.
pub open spec fn field_findings(field: Field, table: Option<Seq<(Seq<char>, Seq<char>)>>) -> Seq<
    Finding,
> {
    if field.spec_is_empty() {
        Seq::empty()
    } else {
        match table {
            Some(t) => concat_upto(field.repeats@.len() as int, repeat_findings(field, t)),
            None => Seq::empty(),
        }
    }
}

/// The findings of each field of `segment`, whose definition is the given
/// one if the catalog has one.
pub open spec fn fields_findings(
    segment: Segment,
    catalog: Catalog,
    definition: Option<SegmentDefinition>,
    overlay: Option<Seq<SpecEntryView>>,
    document: Seq<Seq<char>>,
) -> spec_fn(int) -> Seq<Finding> {
    |fi: int|
        field_findings(
            segment.fields@[fi],
            resolved_table(
                workspace_table(overlay, document, segment.name@, fi),
                standard_table(catalog, definition, fi),
            ),
        )
}

/// The findings of a segment: those of its fields. The fields of a segment
/// that the catalog does not define are held to the codes of the workspace.
pub open spec fn segment_findings(
    segment: Segment,
    catalog: Catalog,
    version: Seq<char>,
    overlay: Option<Seq<SpecEntryView>>,
    document: Seq<Seq<char>>,
) -> Seq<Finding> {
    concat_upto(
        segment.fields@.len() as int,
        fields_findings(
            segment,
            catalog,
            catalog.segment(version, segment.name@),
            overlay,
            document,
        ),
    )
}

/// The findings of each segment of `message`.
pub open spec fn segments_findings(
    message: Message,
    catalog: Catalog,
    version: Seq<char>,
    overlay: Option<Seq<SpecEntryView>>,
    document: Seq<Seq<char>>,
) -> spec_fn(int) -> Seq<Finding> {
    |si: int| segment_findings(message.segments@[si], catalog, version, overlay, document)
}

/// The findings of the table pass.
pub open spec fn findings(
    message: Message,
    catalog: Catalog,
    version: Seq<char>,
    overlay: Option<Seq<SpecEntryView>>,
    document: Seq<Seq<char>>,
) -> Seq<Finding> {
    concat_upto(
        message.segments@.len() as int,
        segments_findings(message, catalog, version, overlay, document),
    )
}

/// Where the workspace defines codes for a field, the findings of the field
/// are the same whatever the standard table holds, or whether there is one.
pub proof fn lemma_workspace_table_takes_precedence(
    field: Field,
    workspace: Seq<(Seq<char>, Seq<char>)>,
    standard: Option<Seq<(Seq<char>, Seq<char>)>>,
    other_standard: Option<Seq<(Seq<char>, Seq<char>)>>,
)
    requires
        workspace.len() > 0,
    ensures
        resolved_table(workspace, standard) == Some(workspace),
        field_findings(field, resolved_table(workspace, standard)) == field_findings(
            field,
            resolved_table(workspace, other_standard),
        ),
{
}

/// Where the workspace defines codes for a field of a segment, the findings
/// of the field are the same whatever catalog the pass is given, and whether
/// or how the catalog defines the segment: the standard table is not
/// consulted.
pub proof fn lemma_standard_table_is_not_consulted(
    segment: Segment,
    overlay: Option<Seq<SpecEntryView>>,
    document: Seq<Seq<char>>,
    fi: int,
    catalog: Catalog,
    definition: Option<SegmentDefinition>,
    other_catalog: Catalog,
    other_definition: Option<SegmentDefinition>,
)
    requires
        workspace_table(overlay, document, segment.name@, fi).len() > 0,
    ensures
        fields_findings(segment, catalog, definition, overlay, document)(fi) == fields_findings(
            segment,
            other_catalog,
            other_definition,
            overlay,
            document,
        )(fi),
        fields_findings(segment, catalog, definition, overlay, document)(fi) == field_findings(
            segment.fields@[fi],
            Some(workspace_table(overlay, document, segment.name@, fi)),
        ),
{
}

/// Every finding of the pass has the code of a value outside its table, and
/// is at the range of a field of the message.
pub proof fn lemma_findings_are_of_fields(
    message: Message,
    catalog: Catalog,
    version: Seq<char>,
    overlay: Option<Seq<SpecEntryView>>,
    document: Seq<Seq<char>>,
    finding: Finding,
)
    requires
        findings(message, catalog, version, overlay, document).contains(finding),
    ensures
        finding.code == FindingCode::InvalidTableValue,
        finding.severity == Severity::Info,
        exists|si: int, fi: int|
            message.has_field(si, fi) && finding.range == (#[trigger] message.field_at(
                si,
                fi,
            )).range,
{
    let f = segments_findings(message, catalog, version, overlay, document);
    lemma_concat_member(message.segments@.len() as int, f, finding);
    let si = choose|si: int| 0 <= si < message.segments@.len() && (#[trigger] f(si)).contains(
        finding,
    );
    let segment = message.segments@[si];
    let g = fields_findings(
        segment,
        catalog,
        catalog.segment(version, segment.name@),
        overlay,
        document,
    );
    lemma_concat_member(segment.fields@.len() as int, g, finding);
    let fi = choose|fi: int| 0 <= fi < segment.fields@.len() && (#[trigger] g(fi)).contains(
        finding,
    );
    let field = segment.fields@[fi];
    let table = resolved_table(
        workspace_table(overlay, document, segment.name@, fi),
        standard_table(catalog, catalog.segment(version, segment.name@), fi),
    )->0;
    let h = repeat_findings(field, table);
    lemma_concat_member(field.repeats@.len() as int, h, finding);
    let ri = choose|ri: int| 0 <= ri < field.repeats@.len() && (#[trigger] h(ri)).contains(finding);
    assert(h(ri) == seq![invalid_value(field, table)]);
    assert(seq![invalid_value(field, table)][0] == invalid_value(field, table));
    assert(message.has_field(si, fi) && finding.range == message.field_at(si, fi).range);
}

/// The sorted table is in the order of its codes and holds the entries of
/// the table, each as often as the table does.
pub proof fn lemma_sorted_by_code(table: Seq<(Seq<char>, Seq<char>)>)
    ensures
        ordered_by_code(sorted_by_code(table)),
        sorted_by_code(table).len() == table.len(),
        sorted_by_code(table).to_multiset() == table.to_multiset(),
{
    lemma_in_order::<(String, String), ByCode>(table);
    let sorted = sorted_by_code(table);
    assert forall|i: int| 0 <= i < sorted.len() - 1 implies code_le(
        #[trigger] sorted[i].0,
        sorted[i + 1].0,
    ) by {
        assert(ByCode::le(sorted[i], sorted[i + 1]));
    }
}

/// The entries of a table in the order of their codes.
pub fn sort_by_code(table: &Vec<(String, String)>) -> (r: Vec<(String, String)>)
    ensures
        r.deep_view() == sorted_by_code(table.deep_view()),
{
    sort::<(String, String), ByCode>(copy_pairs(table))
}

/// The message that lists the entries of a table in the order of their codes.
pub fn table_message_text(table: &Vec<(String, String)>) -> (r: String)
    ensures
        r@ == table_message(table.deep_view()),
{
    let sorted = sort_by_code(table);
    let mut lines: Vec<String> = Vec::new();
    let mut i: usize = 0;
    while i < sorted.len()
        invariant
            i <= sorted@.len(),
            lines@.len() == i,
            forall|j: int| 0 <= j < i ==> lines@[j]@ == table_line(sorted@[j].deep_view()),
        decreases sorted@.len() - i,
    {
        let mut line = String::from_str("  - `");
        line.append(sorted[i].0.as_str());
        line.append("` (");
        line.append(sorted[i].1.as_str());
        line.append(")");
        lines.push(line);
        i += 1;
    }
    assert(lines.deep_view() =~= table_lines(sorted.deep_view()));
    let mut text = String::from_str("Invalid table value, expected one of:\n");
    text.append(join(&lines, "\n").as_str());
    text
}

/// Whether `value` is one of the codes of `table`.
pub fn table_accepts(table: &Vec<(String, String)>, value: &str) -> (r: bool)
    ensures
        r == accepts(table.deep_view(), value@),
{
    let mut i: usize = 0;
    while i < table.len()
        invariant
            i <= table@.len(),
            forall|j: int| 0 <= j < i ==> (#[trigger] table.deep_view()[j]).0 != value@,
        decreases table@.len() - i,
    {
        if str_eq(table[i].0.as_str(), value) {
            assert(table.deep_view()[i as int].0 == value@);
            return true;
        }
        i += 1;
    }
    false
}

fn check_field(field: &Field, table: Option<&Vec<(String, String)>>, errors: &mut Vec<ValidationError>)
    ensures
        final(errors).deep_view() == old(errors).deep_view() + field_findings(
            *field,
            table.deep_view(),
        ),
{
    let ghost start = errors.deep_view();
    if field.is_empty() {
        assert(errors.deep_view() =~= start + Seq::<Finding>::empty());
        return ;
    }
    match table {
        Some(t) => {
            let ghost f = repeat_findings(*field, t.deep_view());
            let mut ri: usize = 0;
            assert(errors.deep_view() =~= start + concat_upto(0, f));
            while ri < field.repeats.len()
                invariant
                    ri <= field.repeats@.len(),
                    f == repeat_findings(*field, t.deep_view()),
                    errors.deep_view() == start + concat_upto(ri as int, f),
                decreases field.repeats@.len() - ri,
            {
                let ghost before = errors.deep_view();
                if !table_accepts(t, field.repeats[ri].value.as_str()) {
                    push_finding(
                        errors,
                        ValidationError::new(
                            ValidationCode::InvalidTableValue,
                            table_message_text(t),
                            field.range,
                            Severity::Info,
                        ),
                    );
                }
                proof {
                    lemma_concat_step(start, ri as int, f);
                    assert(errors.deep_view() =~= before + f(ri as int));
                }
                ri += 1;
            }
        },
        None => {
            assert(errors.deep_view() =~= start + Seq::<Finding>::empty());
        },
    }
}

fn check_segment(
    document: &Vec<String>,
    segment: &Segment,
    catalog: &Catalog,
    version: &str,
    workspace_specs: &Option<&WorkspaceSpecs>,
    errors: &mut Vec<ValidationError>,
)
    ensures
        final(errors).deep_view() == old(errors).deep_view() + segment_findings(
            *segment,
            *catalog,
            version@,
            overlay_of(*workspace_specs),
            document.deep_view(),
        ),
{
    let ghost start = errors.deep_view();
    let ghost overlay = overlay_of(*workspace_specs);
    let definition = catalog.get_segment(version, segment.name.as_str());
    let ghost f = fields_findings(
        *segment,
        *catalog,
        referent(definition),
        overlay,
        document.deep_view(),
    );
    let mut fi: usize = 0;
    assert(errors.deep_view() =~= start + concat_upto(0, f));
    while fi < segment.fields.len()
        invariant
            fi <= segment.fields@.len(),
            overlay == overlay_of(*workspace_specs),
            referent(definition) == catalog.segment(version@, segment.name@),
            f == fields_findings(
                *segment,
                *catalog,
                referent(definition),
                overlay,
                document.deep_view(),
            ),
            errors.deep_view() == start + concat_upto(fi as int, f),
        decreases segment.fields@.len() - fi,
    {
        let by_workspace: Vec<(String, String)> = match workspace_specs {
            Some(specs) => specs.table_values(document, segment.name.as_str(), fi + 1),
            None => Vec::new(),
        };
        assert(by_workspace.deep_view() =~= workspace_table(
            overlay,
            document.deep_view(),
            segment.name@,
            fi as int,
        ));
        let by_standard: Option<&Vec<(String, String)>> = match definition {
            Some(d) => if fi < d.fields.len() {
                match d.fields[fi].table {
                    Some(id) => catalog.table_values(id),
                    None => None,
                }
            } else {
                None
            },
            None => None,
        };
        assert(by_standard.deep_view() == standard_table(
            *catalog,
            referent(definition),
            fi as int,
        ));
        if by_workspace.len() > 0 {
            check_field(&segment.fields[fi], Some(&by_workspace), errors);
        } else {
            check_field(&segment.fields[fi], by_standard, errors);
        }
        proof {
            lemma_concat_step(start, fi as int, f);
        }
        fi += 1;
    }
}

/// Reports each repeat of a field whose value is no code of the table that
/// the field is held to.
pub fn validate_message(
    document: &Vec<String>,
    message: &Message,
    catalog: &Catalog,
    version: &str,
    workspace_specs: &Option<&WorkspaceSpecs>,
) -> (errors: Vec<ValidationError>)
    ensures
        errors.deep_view() == findings(
            *message,
            *catalog,
            version@,
            overlay_of(*workspace_specs),
            document.deep_view(),
        ),
{
    let mut errors: Vec<ValidationError> = Vec::new();
    let ghost f = segments_findings(
        *message,
        *catalog,
        version@,
        overlay_of(*workspace_specs),
        document.deep_view(),
    );
    assert(errors.deep_view() =~= concat_upto(0, f));
    let mut si: usize = 0;
    while si < message.segments.len()
        invariant
            si <= message.segments@.len(),
            f == segments_findings(
                *message,
                *catalog,
                version@,
                overlay_of(*workspace_specs),
                document.deep_view(),
            ),
            errors.deep_view() == concat_upto(si as int, f),
        decreases message.segments@.len() - si,
    {
        check_segment(document, &message.segments[si], catalog, version, workspace_specs, &mut errors);
        si += 1;
    }
    errors
}

} // verus!
