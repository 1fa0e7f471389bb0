//! The parse tree of a message: segments, fields, repeats, components and
//! subcomponents, each with its raw text and its byte range in the source.
//!
//! The validation takes any tree. A tree as a parser gives it is well formed:
//! the raw text of a part is the raw texts of its parts with the delimiter
//! between them, and the fields lie one behind the other in the source.

use crate::text::{join, joined, lemma_join_of_one_part, push_char, str_eq};
use vstd::prelude::*;

verus! {

/// A byte range `[start, end)` in the source text of a message.
#[derive(Debug, Clone, Copy, PartialEq, Eq, Structural)]
pub struct Span {
    pub start: usize,
    pub end: usize,
}

/// The characters that delimit the parts of a message, and the escape
/// character.
#[derive(Debug, Clone, Copy, PartialEq, Eq, Structural)]
pub struct Separators {
    pub field: char,
    pub component: char,
    pub subcomponent: char,
    pub repetition: char,
    pub escape: char,
}

impl Separators {
    /// `c` is one of the delimiters, or the escape character.
    pub open spec fn is_special(self, c: char) -> bool {
        self.field == c || self.component == c || self.subcomponent == c || self.repetition == c
            || self.escape == c
    }

    /// The delimiters that a message has unless it names others.
    pub open spec fn spec_standard() -> Separators {
        Separators {
            field: '|',
            component: '^',
            subcomponent: '&',
            repetition: '~',
            escape: '\\',
        }
    }

    #[verifier::when_used_as_spec(spec_standard)]
    pub fn standard() -> (r: Separators)
        ensures
            r == Separators::spec_standard(),
    {
        Separators {
            field: '|',
            component: '^',
            subcomponent: '&',
            repetition: '~',
            escape: '\\',
        }
    }
}

/// The smallest part of a field's value.
#[derive(Debug, Clone)]
pub struct Subcomponent {
    pub value: String,
    pub range: Span,
}

/// One component of a repeat.
#[derive(Debug, Clone)]
pub struct Component {
    pub value: String,
    pub subcomponents: Vec<Subcomponent>,
    pub range: Span,
}

/// One occurrence of a repeating field value.
#[derive(Debug, Clone)]
pub struct Repeat {
    pub value: String,
    pub components: Vec<Component>,
    pub range: Span,
}

/// One field of a segment.
#[derive(Debug, Clone)]
pub struct Field {
    pub value: String,
    pub repeats: Vec<Repeat>,
    pub range: Span,
}

/// One segment: its name and its fields, the first field having number 1.
#[derive(Debug, Clone)]
pub struct Segment {
    pub name: String,
    pub fields: Vec<Field>,
    pub range: Span,
}

/// A parsed message: its segments, and the delimiters that its header names.
#[derive(Debug, Clone)]
pub struct Message {
    pub segments: Vec<Segment>,
    pub separators: Separators,
}

impl Component {
    /// The raw texts of the subcomponents.
    pub open spec fn parts(&self) -> Seq<Seq<char>> {
        Seq::new(self.subcomponents@.len(), |i: int| self.subcomponents@[i].value@)
    }

    /// The component has a subcomponent, and its raw text is the raw texts of
    /// its subcomponents with the delimiter between them.
    pub open spec fn well_formed(&self, separators: Separators) -> bool {
        &&& self.subcomponents@.len() >= 1
        &&& self.value@ == joined(self.parts(), seq![separators.subcomponent])
    }

    /// No subcomponent holds any text.
    pub open spec fn spec_is_empty(&self) -> bool {
        forall|i: int|
            0 <= i < self.subcomponents@.len() ==> (#[trigger] self.subcomponents@[i]).value@.len()
                == 0
    }

    #[verifier::when_used_as_spec(spec_is_empty)]
    pub fn is_empty(&self) -> (r: bool)
        ensures
            r == self.spec_is_empty(),
    {
        let mut i: usize = 0;
        while i < self.subcomponents.len()
            invariant
                i <= self.subcomponents@.len(),
                forall|j: int|
                    0 <= j < i ==> (#[trigger] self.subcomponents@[j]).value@.len() == 0,
            decreases self.subcomponents@.len() - i,
        {
            if !self.subcomponents[i].value.as_str().is_empty() {
                return false;
            }
            i += 1;
        }
        true
    }

    pub fn raw_value(&self) -> (r: &str)
        ensures
            r@ == self.value@,
    {
        self.value.as_str()
    }
}

impl Repeat {
    /// The raw texts of the components.
    pub open spec fn parts(&self) -> Seq<Seq<char>> {
        Seq::new(self.components@.len(), |i: int| self.components@[i].value@)
    }

    /// The repeat has a component, its components are well formed, and its
    /// raw text is the raw texts of its components with the delimiter between
    /// them.
    pub open spec fn well_formed(&self, separators: Separators) -> bool {
        &&& self.components@.len() >= 1
        &&& forall|i: int|
            0 <= i < self.components@.len() ==> (#[trigger] self.components@[i]).well_formed(
                separators,
            )
        &&& self.value@ == joined(self.parts(), seq![separators.component])
    }

    /// The raw text holds neither of the delimiters of components and
    /// subcomponents.
    pub open spec fn is_plain(&self, separators: Separators) -> bool {
        !self.value@.contains(separators.component) && !self.value@.contains(
            separators.subcomponent,
        )
    }

    /// Every component is empty.
    pub open spec fn spec_is_empty(&self) -> bool {
        forall|i: int|
            0 <= i < self.components@.len() ==> (#[trigger] self.components@[i]).spec_is_empty()
    }

    #[verifier::when_used_as_spec(spec_is_empty)]
    pub fn is_empty(&self) -> (r: bool)
        ensures
            r == self.spec_is_empty(),
    {
        let mut i: usize = 0;
        while i < self.components.len()
            invariant
                i <= self.components@.len(),
                forall|j: int| 0 <= j < i ==> (#[trigger] self.components@[j]).spec_is_empty(),
            decreases self.components@.len() - i,
        {
            if !self.components[i].is_empty() {
                return false;
            }
            i += 1;
        }
        true
    }

    pub open spec fn spec_has_components(&self) -> bool {
        self.components@.len() > 1
    }

    /// The repeat is made of more than one component.
    #[verifier::when_used_as_spec(spec_has_components)]
    pub fn has_components(&self) -> (r: bool)
        ensures
            r == self.spec_has_components(),
    {
        self.components.len() > 1
    }

    pub fn raw_value(&self) -> (r: &str)
        ensures
            r@ == self.value@,
    {
        self.value.as_str()
    }
}

impl Field {
    /// The raw texts of the repeats.
    pub open spec fn parts(&self) -> Seq<Seq<char>> {
        Seq::new(self.repeats@.len(), |i: int| self.repeats@[i].value@)
    }

    /// The field has a repeat, its repeats are well formed, and its raw text
    /// is the raw texts of its repeats with the delimiter between them.
    pub open spec fn well_formed(&self, separators: Separators) -> bool {
        &&& self.repeats@.len() >= 1
        &&& forall|i: int|
            0 <= i < self.repeats@.len() ==> (#[trigger] self.repeats@[i]).well_formed(separators)
        &&& self.value@ == joined(self.parts(), seq![separators.repetition])
    }

    /// Every repeat is empty.
    pub open spec fn spec_is_empty(&self) -> bool {
        forall|i: int| 0 <= i < self.repeats@.len() ==> (#[trigger] self.repeats@[i]).spec_is_empty()
    }

    #[verifier::when_used_as_spec(spec_is_empty)]
    pub fn is_empty(&self) -> (r: bool)
        ensures
            r == self.spec_is_empty(),
    {
        let mut i: usize = 0;
        while i < self.repeats.len()
            invariant
                i <= self.repeats@.len(),
                forall|j: int| 0 <= j < i ==> (#[trigger] self.repeats@[j]).spec_is_empty(),
            decreases self.repeats@.len() - i,
        {
            if !self.repeats[i].is_empty() {
                return false;
            }
            i += 1;
        }
        true
    }

    /// The first repeat is made of more than one component.
    pub open spec fn spec_is_componentized(&self) -> bool {
        self.repeats@.len() > 0 && self.repeats@[0].components@.len() > 1
    }

    #[verifier::when_used_as_spec(spec_is_componentized)]
    pub fn is_componentized(&self) -> (r: bool)
        ensures
            r == self.spec_is_componentized(),
    {
        self.repeats.len() > 0 && self.repeats[0].has_components()
    }

    pub open spec fn spec_has_repeats(&self) -> bool {
        self.repeats@.len() > 1
    }

    /// The field holds more than one repeat.
    #[verifier::when_used_as_spec(spec_has_repeats)]
    pub fn has_repeats(&self) -> (r: bool)
        ensures
            r == self.spec_has_repeats(),
    {
        self.repeats.len() > 1
    }

    pub fn raw_value(&self) -> (r: &str)
        ensures
            r@ == self.value@,
    {
        self.value.as_str()
    }
}

impl Segment {
    /// The fields are well formed, lie within the segment, and begin one
    /// behind the other.
    pub open spec fn well_formed(&self, separators: Separators) -> bool {
        &&& self.range.start <= self.range.end
        &&& forall|i: int|
            0 <= i < self.fields@.len() ==> {
                &&& (#[trigger] self.fields@[i]).well_formed(separators)
                &&& self.range.start <= self.fields@[i].range.start
                &&& self.fields@[i].range.start <= self.fields@[i].range.end
                &&& self.fields@[i].range.end <= self.range.end
            }
        &&& forall|i: int, j: int|
            0 <= i < j < self.fields@.len() ==> (#[trigger] self.fields@[i]).range.start < (
            #[trigger] self.fields@[j]).range.start
    }

    /// The field with the given number, counted from 1.
    pub open spec fn spec_field(&self, number: int) -> Option<Field> {
        if 1 <= number <= self.fields@.len() {
            Some(self.fields@[number - 1])
        } else {
            None
        }
    }

    pub fn field(&self, number: usize) -> (r: Option<&Field>)
        ensures
            match r {
                Some(f) => self.spec_field(number as int) == Some(*f),
                None => self.spec_field(number as int) is None,
            },
    {
        if 1 <= number && number <= self.fields.len() {
            Some(&self.fields[number - 1])
        } else {
            None
        }
    }
}

impl Message {
    /// The segments are well formed, and each ends before the next begins.
    pub open spec fn well_formed(&self) -> bool {
        &&& forall|i: int|
            0 <= i < self.segments@.len() ==> (#[trigger] self.segments@[i]).well_formed(
                self.separators,
            )
        &&& forall|i: int, j: int|
            0 <= i < j < self.segments@.len() ==> (#[trigger] self.segments@[i]).range.end < (
            #[trigger] self.segments@[j]).range.start
    }

    /// The field at index `fi` of the segment at index `si`.
    pub open spec fn field_at(&self, si: int, fi: int) -> Field {
        self.segments@[si].fields@[fi]
    }

    /// There is a field at index `fi` of the segment at index `si`.
    pub open spec fn has_field(&self, si: int, fi: int) -> bool {
        0 <= si < self.segments@.len() && 0 <= fi < self.segments@[si].fields@.len()
    }

    /// The field of the header, the first segment, with the given number.
    pub open spec fn spec_header_field(&self, number: int) -> Option<Field> {
        if self.segments@.len() > 0 {
            self.segments@[0].spec_field(number)
        } else {
            None
        }
    }

    pub fn header_field(&self, number: usize) -> (r: Option<&Field>)
        ensures
            match r {
                Some(f) => self.spec_header_field(number as int) == Some(*f),
                None => self.spec_header_field(number as int) is None,
            },
    {
        if self.segments.len() > 0 {
            self.segments[0].field(number)
        } else {
            None
        }
    }
}

/// The text of one character.
fn delimiter_text(c: char) -> (r: String)
    ensures
        r@ == seq![c],
{
    let mut text = String::new();
    push_char(&mut text, c);
    assert(text@ =~= seq![c]);
    text
}

impl Component {
    /// Whether the component is well formed.
    pub fn is_well_formed(&self, separators: &Separators) -> (r: bool)
        ensures
            r == self.well_formed(*separators),
    {
        if self.subcomponents.len() < 1 {
            return false;
        }
        let mut parts: Vec<String> = Vec::new();
        let mut i: usize = 0;
        while i < self.subcomponents.len()
            invariant
                i <= self.subcomponents@.len(),
                parts@.len() == i,
                forall|j: int| 0 <= j < i ==> parts@[j]@ == self.subcomponents@[j].value@,
            decreases self.subcomponents@.len() - i,
        {
            parts.push(self.subcomponents[i].value.clone());
            i += 1;
        }
        assert(parts.deep_view() =~= self.parts());
        let delimiter = delimiter_text(separators.subcomponent);
        str_eq(self.value.as_str(), join(&parts, delimiter.as_str()).as_str())
    }
}

impl Repeat {
    /// Whether the repeat is well formed.
    pub fn is_well_formed(&self, separators: &Separators) -> (r: bool)
        ensures
            r == self.well_formed(*separators),
    {
        if self.components.len() < 1 {
            return false;
        }
        let mut parts: Vec<String> = Vec::new();
        let mut i: usize = 0;
        while i < self.components.len()
            invariant
                i <= self.components@.len(),
                parts@.len() == i,
                forall|j: int| 0 <= j < i ==> parts@[j]@ == self.components@[j].value@,
                forall|j: int|
                    0 <= j < i ==> (#[trigger] self.components@[j]).well_formed(*separators),
            decreases self.components@.len() - i,
        {
            if !self.components[i].is_well_formed(separators) {
                return false;
            }
            parts.push(self.components[i].value.clone());
            i += 1;
        }
        assert(parts.deep_view() =~= self.parts());
        let delimiter = delimiter_text(separators.component);
        str_eq(self.value.as_str(), join(&parts, delimiter.as_str()).as_str())
    }
}

impl Field {
    /// Whether the field is well formed.
    pub fn is_well_formed(&self, separators: &Separators) -> (r: bool)
        ensures
            r == self.well_formed(*separators),
    {
        if self.repeats.len() < 1 {
            return false;
        }
        let mut parts: Vec<String> = Vec::new();
        let mut i: usize = 0;
        while i < self.repeats.len()
            invariant
                i <= self.repeats@.len(),
                parts@.len() == i,
                forall|j: int| 0 <= j < i ==> parts@[j]@ == self.repeats@[j].value@,
                forall|j: int|
                    0 <= j < i ==> (#[trigger] self.repeats@[j]).well_formed(*separators),
            decreases self.repeats@.len() - i,
        {
            if !self.repeats[i].is_well_formed(separators) {
                return false;
            }
            parts.push(self.repeats[i].value.clone());
            i += 1;
        }
        assert(parts.deep_view() =~= self.parts());
        let delimiter = delimiter_text(separators.repetition);
        str_eq(self.value.as_str(), join(&parts, delimiter.as_str()).as_str())
    }
}

impl Segment {
    /// Whether the segment is well formed.
    pub fn is_well_formed(&self, separators: &Separators) -> (r: bool)
        ensures
            r == self.well_formed(*separators),
    {
        if self.range.start > self.range.end {
            return false;
        }
        let mut i: usize = 0;
        while i < self.fields.len()
            invariant
                i <= self.fields@.len(),
                forall|j: int|
                    0 <= j < i ==> {
                        &&& (#[trigger] self.fields@[j]).well_formed(*separators)
                        &&& self.range.start <= self.fields@[j].range.start
                        &&& self.fields@[j].range.start <= self.fields@[j].range.end
                        &&& self.fields@[j].range.end <= self.range.end
                    },
                forall|j: int, k: int|
                    0 <= j < k < i ==> (#[trigger] self.fields@[j]).range.start < (
                    #[trigger] self.fields@[k]).range.start,
            decreases self.fields@.len() - i,
        {
            let field = &self.fields[i];
            if !field.is_well_formed(separators) || field.range.start < self.range.start
                || field.range.start > field.range.end || field.range.end > self.range.end {
                return false;
            }
            if i > 0 && self.fields[i - 1].range.start >= field.range.start {
                assert(!(self.fields@[i - 1].range.start < self.fields@[i as int].range.start));
                return false;
            }
            i += 1;
        }
        true
    }
}

impl Message {
    /// Whether the message is well formed.
    pub fn is_well_formed(&self) -> (r: bool)
        ensures
            r == self.well_formed(),
    {
        let mut i: usize = 0;
        while i < self.segments.len()
            invariant
                i <= self.segments@.len(),
                forall|j: int|
                    0 <= j < i ==> (#[trigger] self.segments@[j]).well_formed(self.separators),
                forall|j: int, k: int|
                    0 <= j < k < i ==> (#[trigger] self.segments@[j]).range.end < (
                    #[trigger] self.segments@[k]).range.start,
            decreases self.segments@.len() - i,
        {
            if !self.segments[i].is_well_formed(&self.separators) {
                return false;
            }
            if i > 0 && self.segments[i - 1].range.end >= self.segments[i].range.start {
                assert(!(self.segments@[i - 1].range.end < self.segments@[i as int].range.start));
                return false;
            }
            i += 1;
        }
        true
    }
}

/// A well-formed component without text is empty.
pub proof fn lemma_component_without_text(component: Component, separators: Separators)
    requires
        component.well_formed(separators),
        component.value@.len() == 0,
    ensures
        component.spec_is_empty(),
        component.subcomponents@.len() == 1,
{
    lemma_join_of_one_part(component.parts(), separators.subcomponent);
    assert(component.parts()[0] == component.subcomponents@[0].value@);
}

/// A well-formed repeat without text is empty.
pub proof fn lemma_repeat_without_text(repeat: Repeat, separators: Separators)
    requires
        repeat.well_formed(separators),
        repeat.value@.len() == 0,
    ensures
        repeat.spec_is_empty(),
{
    lemma_join_of_one_part(repeat.parts(), separators.component);
    assert(repeat.parts()[0] == repeat.components@[0].value@);
    lemma_component_without_text(repeat.components@[0], separators);
}

/// A well-formed field without text is empty.
pub proof fn lemma_field_without_text(field: Field, separators: Separators)
    requires
        field.well_formed(separators),
        field.value@.len() == 0,
    ensures
        field.spec_is_empty(),
{
    lemma_join_of_one_part(field.parts(), separators.repetition);
    assert(field.parts()[0] == field.repeats@[0].value@);
    lemma_repeat_without_text(field.repeats@[0], separators);
}

/// A well-formed repeat whose text holds no delimiter of components or
/// subcomponents is one component of one subcomponent, which holds the text
/// of the repeat; where there is text, the repeat is not empty.
pub proof fn lemma_plain_repeat(repeat: Repeat, separators: Separators)
    requires
        repeat.well_formed(separators),
        repeat.is_plain(separators),
    ensures
        repeat.components@.len() == 1,
        repeat.components@[0].value@ == repeat.value@,
        repeat.components@[0].subcomponents@.len() == 1,
        repeat.components@[0].subcomponents@[0].value@ == repeat.value@,
        repeat.value@.len() > 0 ==> !repeat.spec_is_empty(),
        repeat.value@.len() > 0 ==> !repeat.components@[0].spec_is_empty(),
{
    lemma_join_of_one_part(repeat.parts(), separators.component);
    let component = repeat.components@[0];
    assert(repeat.parts()[0] == component.value@);
    lemma_join_of_one_part(component.parts(), separators.subcomponent);
    assert(component.parts()[0] == component.subcomponents@[0].value@);
}

/// A well-formed field whose text holds no delimiter of repeats is one
/// repeat, which holds the text of the field.
pub proof fn lemma_field_of_one_repeat(field: Field, separators: Separators)
    requires
        field.well_formed(separators),
        !field.value@.contains(separators.repetition),
    ensures
        field.repeats@.len() == 1,
        field.repeats@[0].value@ == field.value@,
        field.repeats@[0].well_formed(separators),
{
    lemma_join_of_one_part(field.parts(), separators.repetition);
    assert(field.parts()[0] == field.repeats@[0].value@);
}

/// No two fields of a well-formed message have the same range.
pub proof fn lemma_field_ranges_differ(message: Message, si: int, fi: int, sj: int, fj: int)
    requires
        message.well_formed(),
        message.has_field(si, fi),
        message.has_field(sj, fj),
        si != sj || fi != fj,
    ensures
        message.field_at(si, fi).range != message.field_at(sj, fj).range,
{
    let a = message.segments@[si];
    let b = message.segments@[sj];
    assert(a.well_formed(message.separators));
    assert(b.well_formed(message.separators));
    let x = a.fields@[fi];
    let y = b.fields@[fj];
    assert(a.range.start <= x.range.start && x.range.end <= a.range.end);
    assert(b.range.start <= y.range.start && y.range.end <= b.range.end);
    assert(x.range.start <= x.range.end);
    assert(y.range.start <= y.range.end);
    if si == sj {
        if fi < fj {
            assert(a.fields@[fi].range.start < a.fields@[fj].range.start);
        } else {
            assert(a.fields@[fj].range.start < a.fields@[fi].range.start);
        }
    } else if si < sj {
        assert(message.segments@[si].range.end < message.segments@[sj].range.start);
    } else {
        assert(message.segments@[sj].range.end < message.segments@[si].range.start);
    }
}

} // verus!
