//! Completions: the values that the place of a cursor may hold, or the names
//! of the segments at the start of a line.

use crate::hover::CursorLocation;
use crate::lookup::find_named;
use crate::spec::{
    component_table_values, component_values, field_table_values, field_values, Catalog,
};
use vstd::prelude::*;

verus! {

/// What a completion stands for.
#[derive(Debug, Clone, Copy, PartialEq, Eq, Structural)]
pub enum CompletionItemKind {
    /// A value of a field or component.
    Value,
    /// The name of a segment.
    Class,
}

/// One completion: its label, a detail shown beside it, and its kind.
#[derive(Debug, Clone)]
pub struct CompletionItem {
    pub label: String,
    pub detail: Option<String>,
    pub kind: CompletionItemKind,
}

/// The content of a `CompletionItem`.
pub struct CompletionItemView {
    pub label: Seq<char>,
    pub detail: Option<Seq<char>>,
    pub kind: CompletionItemKind,
}

impl View for CompletionItem {
    type V = CompletionItemView;

    open spec fn view(&self) -> CompletionItemView {
        CompletionItemView {
            label: self.label@,
            detail: self.detail.deep_view(),
            kind: self.kind,
        }
    }
}

impl DeepView for CompletionItem {
    type V = CompletionItemView;

    open spec fn deep_view(&self) -> CompletionItemView {
        self@
    }
}

/// The version whose segments are offered at the start of a line.
pub open spec fn segments_version() -> Seq<char> {
    "2.7.1"@
}

/// The values that the place of a cursor may hold: those of the component
/// where the cursor is in a repeat of several components, else those of the
/// field; none outside a field.
pub open spec fn values_at(catalog: Catalog, version: Seq<char>, location: CursorLocation) -> Option<
    Seq<(Seq<char>, Option<Seq<char>>)>,
> {
    match (location.segment, location.field) {
        (Some(s), Some(f)) => if location.repeat is Some && location.repeat->0.has_components {
            match location.component {
                Some(c) => if f.number >= 1 && c.number >= 1 {
                    component_values(catalog, version, s.name@, f.number - 1, c.number - 1)
                } else {
                    None
                },
                None => None,
            }
        } else {
            field_values(catalog, version, s.name@, f.number as int)
        },
        _ => None,
    }
}

/// Values as completions, in their order.
pub open spec fn value_items(values: Seq<(Seq<char>, Option<Seq<char>>)>) -> Seq<
    CompletionItemView,
> {
    Seq::new(
        values.len(),
        |i: int|
            CompletionItemView {
                label: values[i].0,
                detail: values[i].1,
                kind: CompletionItemKind::Value,
            },
    )
}

/// The names of the segments of a version as completions, in the order of
/// the catalog.
pub open spec fn segment_items(catalog: Catalog, version: Seq<char>) -> Seq<CompletionItemView> {
    match find_named(catalog.versions@, version) {
        Some(v) => Seq::new(
            v.segments@.len(),
            |i: int|
                CompletionItemView {
                    label: v.segments@[i].name@,
                    detail: None,
                    kind: CompletionItemKind::Class,
                },
        ),
        None => Seq::empty(),
    }
}

/// The completions at the place of a cursor in the given column: the values
/// that the place may hold; where there are none and the column is one of the
/// first three, the names of the segments.
pub open spec fn completions(
    catalog: Catalog,
    version: Seq<char>,
    location: Option<CursorLocation>,
    column: u32,
) -> Seq<CompletionItemView> {
    let values = match location {
        Some(l) => match values_at(catalog, version, l) {
            Some(v) => value_items(v),
            None => Seq::empty(),
        },
        None => Seq::empty(),
    };
    if values.len() == 0 && column < 3 {
        segment_items(catalog, segments_version())
    } else {
        values
    }
}

/// The values that the place of a cursor may hold.
pub fn completion_values(catalog: &Catalog, version: &str, location: &CursorLocation) -> (r: Option<
    Vec<(String, Option<String>)>,
>)
    ensures
        r.deep_view() == values_at(*catalog, version@, *location),
{
    match (&location.segment, &location.field) {
        (Some(s), Some(f)) => {
            let has_components = match &location.repeat {
                Some(r) => r.has_components,
                None => false,
            };
            if has_components {
                match &location.component {
                    Some(c) => if f.number >= 1 && c.number >= 1 {
                        component_table_values(
                            catalog,
                            version,
                            s.name.as_str(),
                            f.number - 1,
                            c.number - 1,
                        )
                    } else {
                        None
                    },
                    None => None,
                }
            } else {
                field_table_values(catalog, version, s.name.as_str(), f.number)
            }
        },
        _ => None,
    }
}

/// The names of the segments of a version as completions.
pub fn segment_completions(catalog: &Catalog, version: &str) -> (r: Vec<CompletionItem>)
    ensures
        r.deep_view() == segment_items(*catalog, version@),
{
    let mut items: Vec<CompletionItem> = Vec::new();
    match crate::lookup::get_named(&catalog.versions, version) {
        Some(v) => {
            let mut i: usize = 0;
            while i < v.segments.len()
                invariant
                    i <= v.segments@.len(),
                    items@.len() == i,
                    forall|j: int|
                        0 <= j < i ==> items@[j]@ == (CompletionItemView {
                            label: v.segments@[j].name@,
                            detail: None,
                            kind: CompletionItemKind::Class,
                        }),
                decreases v.segments@.len() - i,
            {
                items.push(
                    CompletionItem {
                        label: v.segments[i].name.clone(),
                        detail: None,
                        kind: CompletionItemKind::Class,
                    },
                );
                i += 1;
            }
            assert(items.deep_view() =~= segment_items(*catalog, version@));
        },
        None => {
            assert(items.deep_view() =~= segment_items(*catalog, version@));
        },
    }
    items
}

/// The completions at the place of a cursor in the given column.
pub fn handle_completion(
    catalog: &Catalog,
    version: &str,
    location: Option<&CursorLocation>,
    column: u32,
) -> (r: Vec<CompletionItem>)
    ensures
        r.deep_view() == completions(
            *catalog,
            version@,
            crate::lookup::referent(location),
            column,
        ),
{
    let mut items: Vec<CompletionItem> = Vec::new();
    assert(items.deep_view() =~= Seq::<CompletionItemView>::empty());
    match location {
        Some(l) => match completion_values(catalog, version, l) {
            Some(values) => {
                let ghost all = values.deep_view();
                let mut rest = values;
                while rest.len() > 0
                    invariant
                        items@.len() + rest@.len() == all.len(),
                        forall|j: int|
                            0 <= j < rest@.len() ==> rest@[j].deep_view() == all[items@.len() + j],
                        forall|j: int|
                            0 <= j < items@.len() ==> items@[j]@ == (CompletionItemView {
                                label: all[j].0,
                                detail: all[j].1,
                                kind: CompletionItemKind::Value,
                            }),
                    decreases rest@.len(),
                {
                    let (label, detail) = rest.remove(0);
                    items.push(CompletionItem { label, detail, kind: CompletionItemKind::Value });
                }
                assert(items.deep_view() =~= value_items(all));
            },
            None => {},
        },
        None => {},
    }
    if items.len() == 0 && column < 3 {
        segment_completions(catalog, "2.7.1")
    } else {
        items
    }
}

} // verus!
