//! The outline of a message: its segments, their fields, and the repeats and
//! components of the fields.

use crate::message::{Field, Message, Repeat, Segment, Span};
use crate::spec::Catalog;
use crate::text::{decimal, decimal_digits};
use vstd::prelude::*;

verus! {

/// What an entry of the outline stands for.
#[derive(Debug, Clone, Copy, PartialEq, Eq, Structural)]
pub enum SymbolKind {
    Class,
    Field,
}

/// An entry of the outline without entries below it.
#[derive(Debug, Clone)]
pub struct Leaf {
    pub name: String,
    pub detail: Option<String>,
    pub kind: SymbolKind,
    pub range: Span,
}

/// An entry of the outline with the entries below it, if it has any.
#[derive(Debug, Clone)]
pub struct Branch<T> {
    pub name: String,
    pub detail: Option<String>,
    pub kind: SymbolKind,
    pub range: Span,
    pub children: Option<Vec<T>>,
}

/// The content of a `Leaf`.
pub struct LeafView {
    pub name: Seq<char>,
    pub detail: Option<Seq<char>>,
    pub kind: SymbolKind,
    pub range: Span,
}

/// The content of a `Branch`.
pub struct BranchView<V> {
    pub name: Seq<char>,
    pub detail: Option<Seq<char>>,
    pub kind: SymbolKind,
    pub range: Span,
    pub children: Option<Seq<V>>,
}

impl DeepView for Leaf {
    type V = LeafView;

    open spec fn deep_view(&self) -> LeafView {
        LeafView {
            name: self.name@,
            detail: self.detail.deep_view(),
            kind: self.kind,
            range: self.range,
        }
    }
}

impl<T: DeepView> DeepView for Branch<T> {
    type V = BranchView<T::V>;

    open spec fn deep_view(&self) -> BranchView<T::V> {
        BranchView {
            name: self.name@,
            detail: self.detail.deep_view(),
            kind: self.kind,
            range: self.range,
            children: self.children.deep_view(),
        }
    }
}

/// The entry of a repeat or of a component directly below a field.
pub type PartSymbol = Branch<Leaf>;

/// The entry of a field.
pub type FieldSymbol = Branch<PartSymbol>;

/// The entry of a segment.
pub type SegmentSymbol = Branch<FieldSymbol>;

/// The number of a repeat in square brackets, or nothing.
pub open spec fn repeat_label(repeat: Option<usize>) -> Seq<char> {
    match repeat {
        Some(number) => "["@ + decimal_digits(number as nat) + "]"@,
        None => Seq::empty(),
    }
}

/// The description that the catalog has of the component at index `ci` of the
/// field at index `fi` of a segment.
pub open spec fn component_detail(
    catalog: Catalog,
    version: Seq<char>,
    segment: Seq<char>,
    fi: int,
    ci: int,
) -> Option<Seq<char>> {
    match catalog.component(version, segment, fi + 1, ci + 1) {
        Some(c) => Some(c.description@),
        None => None,
    }
}

/// The entries of the components of a repeat. `field` is the number by which
/// the entries name the field, `fi` the index of the field in its segment,
/// `repeat` the number of the repeat where the entries name it.
pub open spec fn component_entries(
    catalog: Catalog,
    version: Seq<char>,
    segment: Seq<char>,
    field: nat,
    fi: int,
    repeat: Option<usize>,
    components: Repeat,
) -> Seq<LeafView> {
    Seq::new(
        components.components@.len(),
        |ci: int|
            LeafView {
                name: segment + "."@ + decimal_digits(field) + repeat_label(repeat) + "."@
                    + decimal_digits((ci + 1) as nat),
                detail: component_detail(catalog, version, segment, fi, ci),
                kind: SymbolKind::Field,
                range: components.components@[ci].range,
            },
    )
}

/// The leaves as entries without anything below them.
pub open spec fn as_parts(leaves: Seq<LeafView>) -> Seq<BranchView<LeafView>> {
    Seq::new(
        leaves.len(),
        |i: int|
            BranchView {
                name: leaves[i].name,
                detail: leaves[i].detail,
                kind: leaves[i].kind,
                range: leaves[i].range,
                children: None,
            },
    )
}

/// A list, or nothing for an empty list.
pub open spec fn unless_empty<V>(items: Seq<V>) -> Option<Seq<V>> {
    if items.len() == 0 {
        None
    } else {
        Some(items)
    }
}

/// The entries below a field: nothing for a field without repeats, the
/// components of the repeat for a field of one repeat, else the repeats with
/// their components.
pub open spec fn repeat_entries(
    catalog: Catalog,
    version: Seq<char>,
    segment: Seq<char>,
    field: nat,
    fi: int,
    repeats: Field,
) -> Option<Seq<BranchView<LeafView>>> {
    if repeats.repeats@.len() == 0 {
        None
    } else if repeats.repeats@.len() == 1 {
        unless_empty(
            as_parts(
                component_entries(catalog, version, segment, field, fi, None, repeats.repeats@[0]),
            ),
        )
    } else {
        Some(
            Seq::new(
                repeats.repeats@.len(),
                |ri: int|
                    BranchView {
                        name: segment + "."@ + decimal_digits(field) + repeat_label(
                            Some((ri + 1) as usize),
                        ),
                        detail: None,
                        kind: SymbolKind::Field,
                        range: repeats.repeats@[ri].range,
                        children: unless_empty(
                            component_entries(
                                catalog,
                                version,
                                segment,
                                field,
                                fi,
                                Some((ri + 1) as usize),
                                repeats.repeats@[ri],
                            ),
                        ),
                    },
            ),
        )
    }
}

/// The description that the catalog has of the field at index `fi` of a
/// segment.
pub open spec fn field_detail(catalog: Catalog, version: Seq<char>, segment: Seq<char>, fi: int)
    -> Option<Seq<char>> {
    match catalog.field(version, segment, fi + 1) {
        Some(f) => Some(f.description@),
        None => None,
    }
}

/// The entries of the fields of a segment. The entry of a field goes by its
/// number; the entries below it name the field by its index.
pub open spec fn field_entries(catalog: Catalog, version: Seq<char>, segment: Segment) -> Seq<
    BranchView<BranchView<LeafView>>,
> {
    Seq::new(
        segment.fields@.len(),
        |fi: int|
            BranchView {
                name: segment.name@ + "."@ + decimal_digits((fi + 1) as nat),
                detail: field_detail(catalog, version, segment.name@, fi),
                kind: SymbolKind::Field,
                range: segment.fields@[fi].range,
                children: repeat_entries(
                    catalog,
                    version,
                    segment.name@,
                    fi as nat,
                    fi,
                    segment.fields@[fi],
                ),
            },
    )
}

/// The outline of a message.
pub open spec fn segment_entries(catalog: Catalog, version: Seq<char>, message: Message) -> Seq<
    BranchView<BranchView<BranchView<LeafView>>>,
> {
    Seq::new(
        message.segments@.len(),
        |si: int|
            BranchView {
                name: message.segments@[si].name@,
                detail: match catalog.segment(version, message.segments@[si].name@) {
                    Some(d) => Some(d.description@),
                    None => None,
                },
                kind: SymbolKind::Class,
                range: message.segments@[si].range,
                children: Some(field_entries(catalog, version, message.segments@[si])),
            },
    )
}

fn repeat_label_text(repeat: Option<usize>) -> (r: String)
    ensures
        r@ == repeat_label(repeat),
{
    match repeat {
        Some(number) => {
            let mut text = String::from_str("[");
            text.append(decimal(number).as_str());
            text.append("]");
            text
        },
        None => String::new(),
    }
}

/// The entries of the components of a repeat of the field at index `field`,
/// which name the repeat by the number `repeat` where one is given.
pub fn component_symbols(
    catalog: &Catalog,
    version: &str,
    segment: &str,
    field: usize,
    repeat: Option<usize>,
    components: &Repeat,
) -> (r: Vec<Leaf>)
    ensures
        r.deep_view() == component_entries(
            *catalog,
            version@,
            segment@,
            field as nat,
            field as int,
            repeat,
            *components,
        ),
{
    let ghost wanted = component_entries(
        *catalog,
        version@,
        segment@,
        field as nat,
        field as int,
        repeat,
        *components,
    );
    let mut symbols: Vec<Leaf> = Vec::new();
    let mut ci: usize = 0;
    while ci < components.components.len()
        invariant
            ci <= components.components@.len(),
            wanted == component_entries(
                *catalog,
                version@,
                segment@,
                field as nat,
                field as int,
                repeat,
                *components,
            ),
            symbols@.len() == ci,
            forall|j: int| 0 <= j < ci ==> symbols@[j].deep_view() == wanted[j],
        decreases components.components@.len() - ci,
    {
        let mut name = String::from_str(segment);
        name.append(".");
        name.append(decimal(field).as_str());
        name.append(repeat_label_text(repeat).as_str());
        name.append(".");
        name.append(decimal(ci + 1).as_str());
        let detail = match catalog.get_segment(version, segment) {
            Some(s) => if field < s.fields.len() {
                match catalog.get_field(version, s.fields[field].datatype.as_str()) {
                    Some(d) => if ci < d.subfields.len() {
                        Some(d.subfields[ci].description.clone())
                    } else {
                        None
                    },
                    None => None,
                }
            } else {
                None
            },
            None => None,
        };
        symbols.push(
            Leaf { name, detail, kind: SymbolKind::Field, range: components.components[ci].range },
        );
        ci += 1;
    }
    assert(symbols.deep_view() =~= wanted);
    symbols
}

fn leaves_as_parts(leaves: Vec<Leaf>) -> (r: Vec<PartSymbol>)
    ensures
        r.deep_view() == as_parts(leaves.deep_view()),
{
    let ghost all = leaves.deep_view();
    let mut rest = leaves;
    let mut parts: Vec<PartSymbol> = Vec::new();
    while rest.len() > 0
        invariant
            parts@.len() + rest@.len() == all.len(),
            forall|j: int| 0 <= j < rest@.len() ==> rest@[j].deep_view() == all[parts@.len() + j],
            forall|j: int| 0 <= j < parts@.len() ==> parts@[j].deep_view() == as_parts(all)[j],
        decreases rest@.len(),
    {
        let leaf = rest.remove(0);
        parts.push(
            Branch {
                name: leaf.name,
                detail: leaf.detail,
                kind: leaf.kind,
                range: leaf.range,
                children: None,
            },
        );
    }
    assert(parts.deep_view() =~= as_parts(all));
    parts
}

/// The entries below a field.
pub fn repeat_symbols(
    catalog: &Catalog,
    version: &str,
    segment: &str,
    field: usize,
    repeats: &Field,
) -> (r: Option<Vec<PartSymbol>>)
    ensures
        r.deep_view() == repeat_entries(
            *catalog,
            version@,
            segment@,
            field as nat,
            field as int,
            *repeats,
        ),
{
    let n = repeats.repeats.len();
    if n == 0 {
        None
    } else if n == 1 {
        let parts = leaves_as_parts(
            component_symbols(catalog, version, segment, field, None, &repeats.repeats[0]),
        );
        if parts.len() == 0 {
            None
        } else {
            Some(parts)
        }
    } else {
        let ghost wanted = repeat_entries(
            *catalog,
            version@,
            segment@,
            field as nat,
            field as int,
            *repeats,
        )->0;
        let mut symbols: Vec<PartSymbol> = Vec::new();
        let mut ri: usize = 0;
        while ri < n
            invariant
                n == repeats.repeats@.len(),
                n > 1,
                ri <= n,
                repeat_entries(
                    *catalog,
                    version@,
                    segment@,
                    field as nat,
                    field as int,
                    *repeats,
                ) == Some(wanted),
                symbols@.len() == ri,
                forall|j: int| 0 <= j < ri ==> symbols@[j].deep_view() == wanted[j],
            decreases n - ri,
        {
            let mut name = String::from_str(segment);
            name.append(".");
            name.append(decimal(field).as_str());
            name.append(repeat_label_text(Some(ri + 1)).as_str());
            let components = component_symbols(
                catalog,
                version,
                segment,
                field,
                Some(ri + 1),
                &repeats.repeats[ri],
            );
            let children = if components.len() == 0 {
                None
            } else {
                Some(components)
            };
            symbols.push(
                Branch {
                    name,
                    detail: None,
                    kind: SymbolKind::Field,
                    range: repeats.repeats[ri].range,
                    children,
                },
            );
            ri += 1;
        }
        assert(symbols.deep_view() =~= wanted);
        Some(symbols)
    }
}

/// The entries of the fields of a segment.
pub fn field_symbols(catalog: &Catalog, version: &str, segment: &Segment) -> (r: Vec<FieldSymbol>)
    ensures
        r.deep_view() == field_entries(*catalog, version@, *segment),
{
    let ghost wanted = field_entries(*catalog, version@, *segment);
    let mut symbols: Vec<FieldSymbol> = Vec::new();
    let mut fi: usize = 0;
    while fi < segment.fields.len()
        invariant
            fi <= segment.fields@.len(),
            wanted == field_entries(*catalog, version@, *segment),
            symbols@.len() == fi,
            forall|j: int| 0 <= j < fi ==> symbols@[j].deep_view() == wanted[j],
        decreases segment.fields@.len() - fi,
    {
        let mut name = segment.name.clone();
        name.append(".");
        name.append(decimal(fi + 1).as_str());
        let detail = match catalog.get_segment_field(version, segment.name.as_str(), fi + 1) {
            Some(f) => Some(f.description.clone()),
            None => None,
        };
        let children = repeat_symbols(
            catalog,
            version,
            segment.name.as_str(),
            fi,
            &segment.fields[fi],
        );
        symbols.push(
            Branch {
                name,
                detail,
                kind: SymbolKind::Field,
                range: segment.fields[fi].range,
                children,
            },
        );
        fi += 1;
    }
    assert(symbols.deep_view() =~= wanted);
    symbols
}

/// The outline of a message.
pub fn segment_symbols(catalog: &Catalog, version: &str, message: &Message) -> (r: Vec<
    SegmentSymbol,
>)
    ensures
        r.deep_view() == segment_entries(*catalog, version@, *message),
{
    let ghost wanted = segment_entries(*catalog, version@, *message);
    let mut symbols: Vec<SegmentSymbol> = Vec::new();
    let mut si: usize = 0;
    while si < message.segments.len()
        invariant
            si <= message.segments@.len(),
            wanted == segment_entries(*catalog, version@, *message),
            symbols@.len() == si,
            forall|j: int| 0 <= j < si ==> symbols@[j].deep_view() == wanted[j],
        decreases message.segments@.len() - si,
    {
        let segment = &message.segments[si];
        let detail = match catalog.get_segment(version, segment.name.as_str()) {
            Some(d) => Some(d.description.clone()),
            None => None,
        };
        symbols.push(
            Branch {
                name: segment.name.clone(),
                detail,
                kind: SymbolKind::Class,
                range: segment.range,
                children: Some(field_symbols(catalog, version, segment)),
            },
        );
        si += 1;
    }
    assert(symbols.deep_view() =~= wanted);
    symbols
}

/// The version by which a message is outlined: the one its header names
/// where the catalog knows it, the fallback otherwise.
pub fn outline_version<'m>(catalog: &Catalog, message: &'m Message) -> (r: &'m str)
    ensures
        r@ == crate::validation::msh::resolved_version(*message, *catalog),
{
    match message.header_field(12) {
        Some(field) => if crate::spec::is_valid_version(catalog, field.value.as_str()) {
            field.value.as_str()
        } else {
            "2.7.1"
        },
        None => "2.7.1",
    }
}

} // verus!
