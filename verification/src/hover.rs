//! The text shown for the place of a cursor in a message: what the standard
//! and the workspace say of the segment, field and component there.

use crate::message::{Message, Span};
use crate::spec::{
    component_is_timestamp, component_text, describe_component, describe_field,
    field_is_timestamp, field_text, is_component_a_timestamp, is_field_a_timestamp,
    is_valid_version, segment_description, segment_description_text, Catalog,
};
use crate::text::{decimal, decimal_digits};
use crate::validation::msh::{fallback_version, version_field};
use crate::validation::optionality::overlay_of;
use crate::workspace::specs::{field_description, SpecEntryView, WorkspaceSpecs};
use vstd::prelude::*;

verus! {

/// The segment a cursor is in: its name and its range.
#[derive(Debug, Clone)]
pub struct LocatedSegment {
    pub name: String,
    pub range: Span,
}

/// The field a cursor is in: its number, whether it holds more than one
/// repeat, its raw value and its range.
#[derive(Debug, Clone)]
pub struct LocatedField {
    pub number: usize,
    pub has_repeats: bool,
    pub value: String,
    pub range: Span,
}

/// The repeat a cursor is in: its number, whether it holds more than one
/// component, and its range.
#[derive(Debug, Clone)]
pub struct LocatedRepeat {
    pub number: usize,
    pub has_components: bool,
    pub range: Span,
}

/// The component a cursor is in: its number, its raw value and its range.
#[derive(Debug, Clone)]
pub struct LocatedComponent {
    pub number: usize,
    pub value: String,
    pub range: Span,
}

/// The subcomponent a cursor is in: its number and its range.
#[derive(Debug, Clone)]
pub struct LocatedSubcomponent {
    pub number: usize,
    pub range: Span,
}

/// The place of a cursor in a message: the place as text, and the parts of
/// the message the cursor is in, from the segment down as far as it goes.
#[derive(Debug, Clone)]
pub struct CursorLocation {
    pub label: String,
    pub segment: Option<LocatedSegment>,
    pub field: Option<LocatedField>,
    pub repeat: Option<LocatedRepeat>,
    pub component: Option<LocatedComponent>,
    pub sub_component: Option<LocatedSubcomponent>,
}

/// The version that the header of a message names, the fallback where it
/// names none.
pub open spec fn named_version(message: Message) -> Seq<char> {
    match version_field(message) {
        Some(field) => field.value@,
        None => fallback_version(),
    }
}

pub fn message_version(message: &Message) -> (r: &str)
    ensures
        r@ == named_version(*message),
{
    match message.header_field(12) {
        Some(field) => field.value.as_str(),
        None => "2.7.1",
    }
}

impl CursorLocation {
    /// The cursor is in a component of a repeat that holds several.
    pub open spec fn in_component(self) -> bool {
        self.component is Some && match self.repeat {
            Some(r) => r.has_components,
            None => false,
        }
    }

    /// The number of the repeat in square brackets, for a field that holds
    /// several repeats.
    pub open spec fn repeat_mark(self) -> Seq<char> {
        match self.field {
            Some(f) => if f.has_repeats {
                "["@ + decimal_digits(
                    match self.repeat {
                        Some(r) => r.number as nat,
                        None => 0,
                    },
                ) + "]"@
            } else {
                Seq::empty()
            },
            None => Seq::empty(),
        }
    }

    /// The smallest part of the message the cursor is in.
    pub open spec fn innermost(self) -> Option<Span> {
        match self.sub_component {
            Some(s) => Some(s.range),
            None => match self.component {
                Some(c) => Some(c.range),
                None => match self.repeat {
                    Some(r) => Some(r.range),
                    None => match self.field {
                        Some(f) => Some(f.range),
                        None => match self.segment {
                            Some(s) => Some(s.range),
                            None => None,
                        },
                    },
                },
            },
        }
    }

    /// The range that a hover covers: the smallest part of the message the
    /// cursor is in.
    pub fn hover_range(&self) -> (r: Option<Span>)
        ensures
            r == self.innermost(),
    {
        match &self.sub_component {
            Some(s) => Some(s.range),
            None => match &self.component {
                Some(c) => Some(c.range),
                None => match &self.repeat {
                    Some(r) => Some(r.range),
                    None => match &self.field {
                        Some(f) => Some(f.range),
                        None => match &self.segment {
                            Some(s) => Some(s.range),
                            None => None,
                        },
                    },
                },
            },
        }
    }
}

/// The value under the cursor that is a timestamp by the catalog: that of the
/// component the cursor is in, or else that of the field.
pub open spec fn timestamp_value(catalog: Catalog, version: Seq<char>, location: CursorLocation)
    -> Option<Seq<char>> {
    match (location.segment, location.field) {
        (Some(s), Some(f)) => if location.in_component() {
            if component_is_timestamp(
                catalog,
                version,
                s.name@,
                f.number as int,
                location.component->0.number as int,
            ) {
                Some(location.component->0.value@)
            } else {
                None
            }
        } else if field_is_timestamp(catalog, version, s.name@, f.number as int) {
            Some(f.value@)
        } else {
            None
        },
        _ => None,
    }
}

/// The value under the cursor that a hover shows as a point in time, if the
/// catalog defines the place of the cursor as a timestamp.
pub fn hover_timestamp_value<'a>(catalog: &Catalog, version: &str, location: &'a CursorLocation)
    -> (r: Option<&'a str>)
    ensures
        match r {
            Some(v) => timestamp_value(*catalog, version@, *location) == Some(v@),
            None => timestamp_value(*catalog, version@, *location) is None,
        },
{
    match (&location.segment, &location.field) {
        (Some(s), Some(f)) => {
            let has_components = match &location.repeat {
                Some(r) => r.has_components,
                None => false,
            };
            match (&location.component, has_components) {
                (Some(c), true) => {
                    if is_component_a_timestamp(
                        catalog,
                        version,
                        s.name.as_str(),
                        f.number,
                        c.number,
                    ) {
                        Some(c.value.as_str())
                    } else {
                        None
                    }
                },
                _ => {
                    if is_field_a_timestamp(catalog, version, s.name.as_str(), f.number) {
                        Some(f.value.as_str())
                    } else {
                        None
                    }
                },
            }
        },
        _ => None,
    }
}

/// The address of the page of a segment, a field or a component.
pub open spec fn more_info(version: Seq<char>, location: CursorLocation) -> Option<Seq<char>> {
    match location.segment {
        Some(s) => Some(
            "https://hl7-definition.caristix.com/v2/HL7v"@ + version + match location.field {
                Some(f) => "/Fields/"@ + s.name@ + "."@ + decimal_digits(f.number as nat)
                    + if location.in_component() {
                    "."@ + decimal_digits(location.component->0.number as nat)
                } else {
                    Seq::empty()
                },
                None => "/Segments/"@ + s.name@,
            },
        ),
        None => None,
    }
}

/// What the workspace says of the field under the cursor; empty where there
/// is no workspace or the cursor is in no field.
pub open spec fn workspace_note(
    overlay: Option<Seq<SpecEntryView>>,
    document: Seq<Seq<char>>,
    location: CursorLocation,
) -> Seq<char> {
    match (overlay, location.segment, location.field) {
        (Some(entries), Some(s), Some(f)) => field_description(
            entries,
            document,
            s.name@,
            f.number,
        ),
        _ => Seq::empty(),
    }
}

/// The lines of a hover on the field under the cursor: what the workspace
/// says of it, what the standard says of it, and what the standard says of
/// the component under the cursor.
pub open spec fn field_lines(
    catalog: Catalog,
    overlay: Option<Seq<SpecEntryView>>,
    document: Seq<Seq<char>>,
    version: Seq<char>,
    location: CursorLocation,
) -> Seq<char> {
    match (location.segment, location.field) {
        (Some(s), Some(f)) => {
            let place = s.name@ + "."@ + decimal_digits(f.number as nat);
            let note = workspace_note(overlay, document, location);
            (if note.len() > 0 {
                "\n  **"@ + place + location.repeat_mark() + "**: "@ + note + "†"@
            } else {
                Seq::empty()
            }) + "\n  "@ + place + location.repeat_mark() + ": "@ + field_text(
                catalog,
                version,
                s.name@,
                f.number as int,
            ) + if location.in_component() {
                "\n  "@ + place + "."@ + decimal_digits(location.component->0.number as nat)
                    + ": "@ + component_text(
                    catalog,
                    version,
                    s.name@,
                    f.number as int,
                    location.component->0.number as int,
                )
            } else {
                Seq::empty()
            }
        },
        _ => Seq::empty(),
    }
}

/// The lines of a hover on the segment under the cursor: a note where the
/// catalog does not know the version, the description of the segment, and
/// the lines on the field.
pub open spec fn segment_lines(
    catalog: Catalog,
    overlay: Option<Seq<SpecEntryView>>,
    document: Seq<Seq<char>>,
    version: Seq<char>,
    location: CursorLocation,
) -> Seq<char> {
    match location.segment {
        Some(s) => (if catalog.knows_version(version) {
            Seq::empty()
        } else {
            "\n\nUnknown HL7 version `"@ + version + "`"@
        }) + ":\n  "@ + s.name@ + ": "@ + segment_description_text(catalog, version, s.name@)
            + field_lines(catalog, overlay, document, version, location),
        None => Seq::empty(),
    }
}

/// What follows the lines of a hover: behind a rule the point in time, the
/// address of further reading, and the note on the workspace, each where
/// there is one.
pub open spec fn footer(
    timestamp: Option<Seq<char>>,
    address: Option<Seq<char>>,
    noted: bool,
) -> Seq<char> {
    (if address is Some || timestamp is Some || noted {
        "\n\n---"@
    } else {
        Seq::empty()
    }) + (match timestamp {
        Some(t) => "\n\n**Timestamp**:\n"@ + t,
        None => Seq::empty(),
    }) + (match address {
        Some(a) => "\n\n**More info**: ["@ + a + "]("@ + a + ")"@,
        None => Seq::empty(),
    }) + (if noted {
        "\n\n†: Workspace description"@
    } else {
        Seq::empty()
    })
}

/// The point in time that a hover shows: the one given, where the place of
/// the cursor is a timestamp.
pub open spec fn shown_timestamp(
    catalog: Catalog,
    version: Seq<char>,
    location: CursorLocation,
    timestamp: Option<Seq<char>>,
) -> Option<Seq<char>> {
    if timestamp_value(catalog, version, location) is Some {
        timestamp
    } else {
        None
    }
}

/// The text of a hover at the place of a cursor.
pub open spec fn hover_content(
    catalog: Catalog,
    overlay: Option<Seq<SpecEntryView>>,
    document: Seq<Seq<char>>,
    version: Seq<char>,
    location: CursorLocation,
    timestamp: Option<Seq<char>>,
) -> Seq<char> {
    "`"@ + location.label@ + "`"@ + segment_lines(catalog, overlay, document, version, location)
        + footer(
        shown_timestamp(catalog, version, location, timestamp),
        more_info(version, location),
        workspace_note(overlay, document, location).len() > 0,
    )
}

fn repeat_mark_text(location: &CursorLocation) -> (r: String)
    ensures
        r@ == location.repeat_mark(),
{
    let mut mark = String::new();
    match &location.field {
        Some(f) => {
            if f.has_repeats {
                mark.append("[");
                let number = match &location.repeat {
                    Some(r) => r.number,
                    None => 0,
                };
                mark.append(decimal(number).as_str());
                mark.append("]");
            }
        },
        None => {},
    }
    assert(mark@ =~= location.repeat_mark());
    mark
}

/// Whether the cursor is in a component of a repeat that holds several.
fn is_in_component(location: &CursorLocation) -> (r: bool)
    ensures
        r == location.in_component(),
{
    let has_components = match &location.repeat {
        Some(r) => r.has_components,
        None => false,
    };
    location.component.is_some() && has_components
}

fn workspace_note_text(
    workspace_specs: &Option<&WorkspaceSpecs>,
    document: &Vec<String>,
    location: &CursorLocation,
) -> (r: String)
    ensures
        r@ == workspace_note(overlay_of(*workspace_specs), document.deep_view(), *location),
{
    match (workspace_specs, &location.segment, &location.field) {
        (Some(specs), Some(s), Some(f)) => specs.describe_field(
            document,
            s.name.as_str(),
            f.number,
        ),
        _ => String::new(),
    }
}

fn more_info_text(version: &str, location: &CursorLocation) -> (r: Option<String>)
    ensures
        r.deep_view() == more_info(version@, *location),
{
    match &location.segment {
        Some(s) => {
            let mut url = String::from_str("https://hl7-definition.caristix.com/v2/HL7v");
            url.append(version);
            match &location.field {
                Some(f) => {
                    url.append("/Fields/");
                    url.append(s.name.as_str());
                    url.append(".");
                    url.append(decimal(f.number).as_str());
                    if is_in_component(location) {
                        match &location.component {
                            Some(c) => {
                                url.append(".");
                                url.append(decimal(c.number).as_str());
                            },
                            None => {},
                        }
                    }
                },
                None => {
                    url.append("/Segments/");
                    url.append(s.name.as_str());
                },
            }
            assert(url@ =~= more_info(version@, *location)->0);
            Some(url)
        },
        None => None,
    }
}

fn field_lines_text(
    catalog: &Catalog,
    workspace_specs: &Option<&WorkspaceSpecs>,
    document: &Vec<String>,
    version: &str,
    location: &CursorLocation,
) -> (r: String)
    ensures
        r@ == field_lines(
            *catalog,
            overlay_of(*workspace_specs),
            document.deep_view(),
            version@,
            *location,
        ),
{
    match (&location.segment, &location.field) {
        (Some(s), Some(f)) => {
            let mut place = s.name.clone();
            place.append(".");
            place.append(decimal(f.number).as_str());
            let mark = repeat_mark_text(location);
            let note = workspace_note_text(workspace_specs, document, location);
            let mut noted = String::new();
            if !note.as_str().is_empty() {
                noted.append("\n  **");
                noted.append(place.as_str());
                noted.append(mark.as_str());
                noted.append("**: ");
                noted.append(note.as_str());
                noted.append("†");
            }
            let mut standard = String::from_str("\n  ");
            standard.append(place.as_str());
            standard.append(mark.as_str());
            standard.append(": ");
            standard.append(describe_field(catalog, version, s.name.as_str(), f.number).as_str());
            let mut part = String::new();
            if is_in_component(location) {
                match &location.component {
                    Some(c) => {
                        part.append("\n  ");
                        part.append(place.as_str());
                        part.append(".");
                        part.append(decimal(c.number).as_str());
                        part.append(": ");
                        part.append(
                            describe_component(
                                catalog,
                                version,
                                s.name.as_str(),
                                f.number,
                                c.number,
                            ).as_str(),
                        );
                    },
                    None => {},
                }
            }
            let mut text = noted;
            text.append(standard.as_str());
            text.append(part.as_str());
            assert(text@ =~= field_lines(
                *catalog,
                overlay_of(*workspace_specs),
                document.deep_view(),
                version@,
                *location,
            ));
            text
        },
        _ => String::new(),
    }
}

fn segment_lines_text(
    catalog: &Catalog,
    workspace_specs: &Option<&WorkspaceSpecs>,
    document: &Vec<String>,
    version: &str,
    location: &CursorLocation,
) -> (r: String)
    ensures
        r@ == segment_lines(
            *catalog,
            overlay_of(*workspace_specs),
            document.deep_view(),
            version@,
            *location,
        ),
{
    match &location.segment {
        Some(s) => {
            let mut text = String::new();
            if !is_valid_version(catalog, version) {
                text.append("\n\nUnknown HL7 version `");
                text.append(version);
                text.append("`");
            }
            text.append(":\n  ");
            text.append(s.name.as_str());
            text.append(": ");
            text.append(segment_description(catalog, version, s.name.as_str()).as_str());
            text.append(
                field_lines_text(catalog, workspace_specs, document, version, location).as_str(),
            );
            assert(text@ =~= segment_lines(
                *catalog,
                overlay_of(*workspace_specs),
                document.deep_view(),
                version@,
                *location,
            ));
            text
        },
        None => String::new(),
    }
}

fn footer_text(timestamp: &Option<String>, address: &Option<String>, noted: bool) -> (r: String)
    ensures
        r@ == footer(timestamp.deep_view(), address.deep_view(), noted),
{
    let mut rule = String::new();
    if address.is_some() || timestamp.is_some() || noted {
        rule.append("\n\n---");
    }
    let mut time = String::new();
    match timestamp {
        Some(t) => {
            time.append("\n\n**Timestamp**:\n");
            time.append(t.as_str());
        },
        None => {},
    }
    let mut more = String::new();
    match address {
        Some(a) => {
            more.append("\n\n**More info**: [");
            more.append(a.as_str());
            more.append("](");
            more.append(a.as_str());
            more.append(")");
        },
        None => {},
    }
    let mut text = rule;
    text.append(time.as_str());
    text.append(more.as_str());
    if noted {
        text.append("\n\n†: Workspace description");
    }
    assert(text@ =~= footer(timestamp.deep_view(), address.deep_view(), noted));
    text
}

/// The text of a hover at the place of a cursor in a message of the given
/// version. `timestamp` is the value that `hover_timestamp_value` gives,
/// rendered as a point in time.
pub fn hover_text(
    catalog: &Catalog,
    workspace_specs: &Option<&WorkspaceSpecs>,
    document: &Vec<String>,
    version: &str,
    location: &CursorLocation,
    timestamp: Option<String>,
) -> (r: String)
    ensures
        r@ == hover_content(
            *catalog,
            overlay_of(*workspace_specs),
            document.deep_view(),
            version@,
            *location,
            timestamp.deep_view(),
        ),
{
    let shown = match hover_timestamp_value(catalog, version, location) {
        Some(_) => timestamp,
        None => None,
    };
    let address = more_info_text(version, location);
    let note = workspace_note_text(workspace_specs, document, location);
    let noted = !note.as_str().is_empty();
    let mut text = String::from_str("`");
    text.append(location.label.as_str());
    text.append("`");
    text.append(
        segment_lines_text(catalog, workspace_specs, document, version, location).as_str(),
    );
    text.append(footer_text(&shown, &address, noted).as_str());
    text
}

} // verus!
