//! The four numeric fields of a five-field expression: minute, hour, day of
//! the month and month.

use crate::cron::error::{
    invalid_number, not_a_number, out_of_range, ErrorModel, ParseError, Quantity, Role,
};
use crate::number::{decimal, number, padded, parse_u32, push_decimal, push_padded};
use crate::split::{joined, pieces, split, views};
use crate::text::{
    equals_str, find_char, halves, has_prefix, push_str, split_once, strip_prefix,
};
use vstd::arithmetic::div_mod::lemma_fundamental_div_mod_converse;
use vstd::prelude::*;

verus! {

/// Which of the four numeric fields a token belongs to.
#[derive(Clone, Copy, Debug, PartialEq, Eq, Structural)]
pub enum FieldType {
    Minute,
    Hour,
    DayOfMonth,
    Month,
}

impl FieldType {
    /// The quantity that the numbers of the field stand for.
    pub open spec fn quantity(self) -> Quantity {
        match self {
            FieldType::Minute => Quantity::Minute,
            FieldType::Hour => Quantity::Hour,
            FieldType::DayOfMonth => Quantity::DayOfMonth,
            FieldType::Month => Quantity::Month,
        }
    }

    /// The least value of the field.
    pub open spec fn min(self) -> u32 {
        self.quantity().min()
    }

    /// The greatest value of the field.
    pub open spec fn max(self) -> u32 {
        self.quantity().max()
    }

    /// The quantity that the numbers of the field stand for.
    pub fn kind(self) -> (q: Quantity)
        ensures
            q == self.quantity(),
    {
        match self {
            FieldType::Minute => Quantity::Minute,
            FieldType::Hour => Quantity::Hour,
            FieldType::DayOfMonth => Quantity::DayOfMonth,
            FieldType::Month => Quantity::Month,
        }
    }

    /// The least and the greatest value of the field: minute 0 to 59, hour
    /// 0 to 23, day of the month 1 to 31, month 1 to 12.
    pub fn range(self) -> (r: (u32, u32))
        ensures
            r == (self.min(), self.max()),
            r.0 <= r.1 <= 59,
    {
        match self {
            FieldType::Minute => (0, 59),
            FieldType::Hour => (0, 23),
            FieldType::DayOfMonth => (1, 31),
            FieldType::Month => (1, 12),
        }
    }

    /// The least value of the field.
    pub fn start(self) -> (r: u32)
        ensures
            r == self.min(),
    {
        self.range().0
    }
}

/// One member of a list in a numeric field.
#[derive(Debug, PartialEq, Eq)]
pub enum Element {
    /// One value.
    Single(u32),
    /// Every `step`-th value, counted from `start`, the least of the field.
    SteppedAny { start: u32, step: u32 },
    /// The values from `lo` to `hi`.
    Range { lo: u32, hi: u32 },
    /// The values that a range with a step was expanded into.
    SteppedRangeExpanded(Vec<u32>),
}

/// A member of a list as contracts speak of it.
pub enum ElementModel {
    Single(u32),
    SteppedAny { start: u32, step: u32 },
    Range { lo: u32, hi: u32 },
    SteppedRangeExpanded(Seq<u32>),
}

impl View for Element {
    type V = ElementModel;

    open spec fn view(&self) -> ElementModel {
        match self {
            Element::Single(n) => ElementModel::Single(*n),
            Element::SteppedAny { start, step } => ElementModel::SteppedAny {
                start: *start,
                step: *step,
            },
            Element::Range { lo, hi } => ElementModel::Range { lo: *lo, hi: *hi },
            Element::SteppedRangeExpanded(values) => ElementModel::SteppedRangeExpanded(values@),
        }
    }
}

/// One of the four numeric fields.
#[derive(Debug, PartialEq, Eq)]
pub enum FieldElement {
    /// `*`: every value.
    Any,
    /// One value.
    Single(u32),
    /// Every `step`-th value, counted from `start`, the least of the field.
    SteppedAny { start: u32, step: u32 },
    /// The values from `lo` to `hi`.
    Range { lo: u32, hi: u32 },
    /// The values that a range with a step was expanded into.
    SteppedRangeExpanded(Vec<u32>),
    /// Several members, in the order in which they were written.
    List(Vec<Element>),
}

/// A numeric field as contracts speak of it.
pub enum FieldModel {
    Any,
    Single(u32),
    SteppedAny { start: u32, step: u32 },
    Range { lo: u32, hi: u32 },
    SteppedRangeExpanded(Seq<u32>),
    List(Seq<ElementModel>),
}

/// The members of a list as contracts speak of them.
pub open spec fn element_models(items: Seq<Element>) -> Seq<ElementModel> {
    Seq::new(items.len(), |i: int| items[i]@)
}

impl View for FieldElement {
    type V = FieldModel;

    open spec fn view(&self) -> FieldModel {
        match self {
            FieldElement::Any => FieldModel::Any,
            FieldElement::Single(n) => FieldModel::Single(*n),
            FieldElement::SteppedAny { start, step } => FieldModel::SteppedAny {
                start: *start,
                step: *step,
            },
            FieldElement::Range { lo, hi } => FieldModel::Range { lo: *lo, hi: *hi },
            FieldElement::SteppedRangeExpanded(values) => FieldModel::SteppedRangeExpanded(
                values@,
            ),
            FieldElement::List(items) => FieldModel::List(element_models(items@)),
        }
    }
}

/// The values, each with two digits.
pub open spec fn padded_all(values: Seq<u32>) -> Seq<Seq<char>> {
    Seq::new(values.len(), |i: int| padded(values[i] as nat))
}

/// The texts of the members of a list.
pub open spec fn element_texts(items: Seq<ElementModel>) -> Seq<Seq<char>> {
    Seq::new(items.len(), |i: int| items[i].text())
}

impl ElementModel {
    /// The text of the member in a calendar expression: a single value with
    /// two digits; a stepped wildcard as start, slash and step; a range as
    /// its ends with two dots between them; an expanded range as its values,
    /// each with two digits, with commas between them.
    pub open spec fn text(self) -> Seq<char> {
        match self {
            ElementModel::Single(n) => padded(n as nat),
            ElementModel::SteppedAny { start, step } => decimal(start as nat) + "/"@ + decimal(
                step as nat,
            ),
            ElementModel::Range { lo, hi } => decimal(lo as nat) + ".."@ + decimal(hi as nat),
            ElementModel::SteppedRangeExpanded(values) => joined(padded_all(values), ","@),
        }
    }

    /// Whether every value of the member lies within the bounds of the field
    /// `ft`, a stepped wildcard starts at the least value of the field, and
    /// expanded values ascend.
    pub open spec fn within(self, ft: FieldType) -> bool {
        match self {
            ElementModel::Single(n) => ft.quantity().admits(n),
            ElementModel::SteppedAny { start, step } => start == ft.min(),
            ElementModel::Range { lo, hi } => ft.quantity().admits(lo) && ft.quantity().admits(hi),
            ElementModel::SteppedRangeExpanded(values) => {
                &&& forall|i: int| 0 <= i < values.len() ==> ft.quantity().admits(#[trigger] values[i])
                &&& forall|i: int, j: int| 0 <= i < j < values.len() ==> values[i] < values[j]
            },
        }
    }
}

impl FieldModel {
    /// The field that is the single member `item`.
    pub open spec fn of_element(item: ElementModel) -> FieldModel {
        match item {
            ElementModel::Single(n) => FieldModel::Single(n),
            ElementModel::SteppedAny { start, step } => FieldModel::SteppedAny { start, step },
            ElementModel::Range { lo, hi } => FieldModel::Range { lo, hi },
            ElementModel::SteppedRangeExpanded(values) => FieldModel::SteppedRangeExpanded(values),
        }
    }

    /// The text of the field in a calendar expression: `*` for every value,
    /// the members of a list in their order with commas between them, and
    /// any other field as the text of its one member.
    pub open spec fn text(self) -> Seq<char> {
        match self {
            FieldModel::Any => "*"@,
            FieldModel::Single(n) => ElementModel::Single(n).text(),
            FieldModel::SteppedAny { start, step } => ElementModel::SteppedAny { start, step }.text(),
            FieldModel::Range { lo, hi } => ElementModel::Range { lo, hi }.text(),
            FieldModel::SteppedRangeExpanded(values) => ElementModel::SteppedRangeExpanded(
                values,
            ).text(),
            FieldModel::List(items) => joined(element_texts(items), ","@),
        }
    }

    /// Whether every member of the field is within the bounds of `ft`.
    pub open spec fn within(self, ft: FieldType) -> bool {
        match self {
            FieldModel::Any => true,
            FieldModel::Single(n) => ElementModel::Single(n).within(ft),
            FieldModel::SteppedAny { start, step } => ElementModel::SteppedAny { start, step }.within(
                ft,
            ),
            FieldModel::Range { lo, hi } => ElementModel::Range { lo, hi }.within(ft),
            FieldModel::SteppedRangeExpanded(values) => ElementModel::SteppedRangeExpanded(
                values,
            ).within(ft),
            FieldModel::List(items) => forall|i: int|
                0 <= i < items.len() ==> (#[trigger] items[i]).within(ft),
        }
    }
}

/// How many values a range from `a` to `b` with the step `s` expands into.
pub open spec fn stepped_count(a: u32, b: u32, s: u32) -> nat {
    if a <= b && s >= 1 {
        ((b - a) / (s as int) + 1) as nat
    } else {
        0
    }
}

/// The values `a`, `a + s`, `a + 2s` and so on, as far as they do not
/// exceed `b`.
pub open spec fn stepped(a: u32, b: u32, s: u32) -> Seq<u32> {
    Seq::new(stepped_count(a, b, s), |k: int| (a + k * s) as u32)
}

/// The failure for a token of a numeric field that is no number.
pub open spec fn no_number(token: Seq<char>) -> ErrorModel {
    not_a_number(Role::Field, token)
}

/// What a range with a step stands for: `<first>-<last>/<step>`, cut at the
/// first slash and then at the first hyphen before it. The three tokens must
/// be numbers, the ends within the bounds of the field and the step at least
/// one; the step is read first, then the ends. A first end beyond the last
/// is accepted and expands into no value.
pub open spec fn stepped_range_of(token: Seq<char>, ft: FieldType) -> Result<
    ElementModel,
    ErrorModel,
> {
    match halves(token, '/') {
        None => Err(no_number(token)),
        Some((range, step_text)) => match number(step_text) {
            None => Err(no_number(step_text)),
            Some(step) => match halves(range, '-') {
                None => Err(no_number(range)),
                Some((first, last)) => match number(first) {
                    None => Err(no_number(first)),
                    Some(a) => match number(last) {
                        None => Err(no_number(last)),
                        Some(b) => if !ft.quantity().admits(a) {
                            Err(out_of_range(ft.quantity(), a))
                        } else if !ft.quantity().admits(b) {
                            Err(out_of_range(ft.quantity(), b))
                        } else if step == 0 {
                            Err(out_of_range(Quantity::Step, step))
                        } else {
                            Ok(ElementModel::SteppedRangeExpanded(stepped(a, b, step)))
                        },
                    },
                },
            },
        },
    }
}

/// What a plain range stands for: `<first>-<last>`, cut at the first hyphen.
/// Both tokens must be numbers within the bounds of the field. Whether the
/// first end may exceed the last is left open: such a range is accepted as
/// it is written.
pub open spec fn range_of(first: Seq<char>, last: Seq<char>, ft: FieldType) -> Result<
    ElementModel,
    ErrorModel,
> {
    match number(first) {
        None => Err(no_number(first)),
        Some(a) => match number(last) {
            None => Err(no_number(last)),
            Some(b) => if !ft.quantity().admits(a) {
                Err(out_of_range(ft.quantity(), a))
            } else if !ft.quantity().admits(b) {
                Err(out_of_range(ft.quantity(), b))
            } else {
                Ok(ElementModel::Range { lo: a, hi: b })
            },
        },
    }
}

/// What one member of a numeric field stands for. `*/<step>` is a stepped
/// wildcard; a token with a hyphen and a slash is a range with a step; a
/// token with a hyphen is a range; any other token is a single value.
pub open spec fn element_of(token: Seq<char>, ft: FieldType) -> Result<ElementModel, ErrorModel> {
    if has_prefix(token, "*/"@) {
        match number(token.skip(2)) {
            None => Err(no_number(token.skip(2))),
            Some(step) => Ok(ElementModel::SteppedAny { start: ft.min(), step }),
        }
    } else if token.contains('-') && token.contains('/') {
        stepped_range_of(token, ft)
    } else {
        match halves(token, '-') {
            Some((first, last)) => range_of(first, last, ft),
            None => match number(token) {
                None => Err(no_number(token)),
                Some(n) => if ft.quantity().admits(n) {
                    Ok(ElementModel::Single(n))
                } else {
                    Err(out_of_range(ft.quantity(), n))
                },
            },
        }
    }
}

/// What the members `parts` of a list stand for, or the failure of the first
/// of them that stands for nothing.
pub open spec fn elements_of(parts: Seq<Seq<char>>, ft: FieldType) -> Result<
    Seq<ElementModel>,
    ErrorModel,
>
    decreases parts.len(),
{
    if parts.len() == 0 {
        Ok(Seq::empty())
    } else {
        match elements_of(parts.drop_last(), ft) {
            Err(e) => Err(e),
            Ok(items) => match element_of(parts.last(), ft) {
                Err(e) => Err(e),
                Ok(item) => Ok(items.push(item)),
            },
        }
    }
}

/// What the token of a numeric field stands for. `*` is every value; a token
/// with a comma is a list of its pieces between the commas, none of which is
/// itself read as a list; any other token is a single member.
pub open spec fn field_of(token: Seq<char>, ft: FieldType) -> Result<FieldModel, ErrorModel> {
    if token == "*"@ {
        Ok(FieldModel::Any)
    } else if pieces(token, ',').len() > 1 {
        match elements_of(pieces(token, ','), ft) {
            Err(e) => Err(e),
            Ok(items) => Ok(FieldModel::List(items)),
        }
    } else {
        match element_of(token, ft) {
            Err(e) => Err(e),
            Ok(item) => Ok(FieldModel::of_element(item)),
        }
    }
}

/// A failure among the first members is the failure of the whole list.
pub proof fn lemma_elements_stop(parts: Seq<Seq<char>>, ft: FieldType, k: int)
    requires
        0 <= k <= parts.len(),
        elements_of(parts.take(k), ft) is Err,
    ensures
        elements_of(parts, ft) == elements_of(parts.take(k), ft),
    decreases parts.len() - k,
{
    if k == parts.len() {
        assert(parts.take(k) == parts);
    } else {
        assert(parts.drop_last().take(k) == parts.take(k));
        lemma_elements_stop(parts.drop_last(), ft, k);
    }
}

/// The number that `token` denotes, or the failure for a token that is no
/// number.
fn field_number(token: &[char]) -> (r: Result<u32, ParseError>)
    ensures
        r matches Ok(n) ==> number(token@) == Some(n),
        r matches Err(e) ==> number(token@) is None && e@ == no_number(token@),
{
    match parse_u32(token) {
        Some(n) => Ok(n),
        None => Err(invalid_number(Role::Field, token)),
    }
}

/// Passes a number that keeps the bounds of `q`.
fn check(q: Quantity, n: u32) -> (r: Result<(), ParseError>)
    ensures
        r is Ok == q.admits(n),
        r matches Err(e) ==> e@ == out_of_range(q, n),
{
    if q.contains(n) {
        Ok(())
    } else {
        Err(ParseError::OutOfRange { quantity: q, got: n })
    }
}

/// The values from `a` to `b` in steps of `s`.
fn expand(a: u32, b: u32, s: u32) -> (values: Vec<u32>)
    requires
        s >= 1,
    ensures
        values@ == stepped(a, b, s),
{
    let mut values: Vec<u32> = Vec::new();
    let mut v: u64 = a as u64;
    let ghost mut k: int = 0;
    while v <= b as u64
        invariant
            s >= 1,
            0 <= k,
            v == a + k * s,
            k > 0 ==> a + (k - 1) * s <= b,
            values@.len() == k,
            forall|j: int| 0 <= j < k ==> #[trigger] values@[j] == a + j * s,
        decreases
                if v <= b {
                    b + 1 - v
                } else {
                    0
                },
    {
        values.push(v as u32);
        proof {
            assert((k + 1) * s == k * s + s) by (nonlinear_arith);
            assert((k + 1 - 1) * s == k * s);
            k = k + 1;
        }
        v = v + s as u64;
    }
    proof {
        if a <= b {
            assert(k > 0);
            let r = (b - a) - (k - 1) * s;
            assert(k * s == (k - 1) * s + s) by (nonlinear_arith);
            lemma_fundamental_div_mod_converse(b - a, s as int, k - 1, r);
        } else {
            assert(k == 0);
        }
        assert(values@ =~= stepped(a, b, s));
    }
    values
}

/// One member of a numeric field.
pub fn parse_single_element(element: &[char], field_type: FieldType) -> (r: Result<
    Element,
    ParseError,
>)
    ensures
        r matches Ok(item) ==> element_of(element@, field_type) == Ok::<ElementModel, ErrorModel>(
            item@,
        ),
        r matches Err(e) ==> element_of(element@, field_type) == Err::<ElementModel, ErrorModel>(
            e@,
        ),
{
    let q = field_type.kind();
    if let Some(step_text) = strip_prefix(element, "*/") {
        proof {
            reveal_strlit("*/");
        }
        let step = field_number(step_text)?;
        return Ok(Element::SteppedAny { start: field_type.start(), step });
    }
    proof {
        crate::text::lemma_position(element@, '-');
        crate::text::lemma_position(element@, '/');
    }
    if find_char(element, '-').is_some() && find_char(element, '/').is_some() {
        let (range, step_text) = match split_once(element, '/') {
            Some(pair) => pair,
            None => {
                return Err(invalid_number(Role::Field, element));
            },
        };
        let step = field_number(step_text)?;
        let (first, last) = match split_once(range, '-') {
            Some(pair) => pair,
            None => {
                return Err(invalid_number(Role::Field, range));
            },
        };
        let a = field_number(first)?;
        let b = field_number(last)?;
        check(q, a)?;
        check(q, b)?;
        if step == 0 {
            return Err(ParseError::OutOfRange { quantity: Quantity::Step, got: step });
        }
        return Ok(Element::SteppedRangeExpanded(expand(a, b, step)));
    }
    if let Some((first, last)) = split_once(element, '-') {
        let a = field_number(first)?;
        let b = field_number(last)?;
        check(q, a)?;
        check(q, b)?;
        return Ok(Element::Range { lo: a, hi: b });
    }
    let n = field_number(element)?;
    check(q, n)?;
    Ok(Element::Single(n))
}

/// One of the four numeric fields.
pub fn parse_field(field: &[char], field_type: FieldType) -> (r: Result<FieldElement, ParseError>)
    ensures
        r matches Ok(f) ==> field_of(field@, field_type) == Ok::<FieldModel, ErrorModel>(f@),
        r matches Err(e) ==> field_of(field@, field_type) == Err::<FieldModel, ErrorModel>(e@),
{
    if equals_str(field, "*") {
        return Ok(FieldElement::Any);
    }
    let parts = split(field, ',');
    if parts.len() > 1 {
        let ghost all = views(parts@);
        let mut items: Vec<Element> = Vec::new();
        let mut i: usize = 0;
        assert(all.take(0) == Seq::<Seq<char>>::empty());
        assert(element_models(items@) == Seq::<ElementModel>::empty());
        while i < parts.len()
            invariant
                i <= parts@.len(),
                all == views(parts@),
                all == pieces(field@, ','),
                all.len() > 1,
                field@ != "*"@,
                elements_of(all.take(i as int), field_type) == Ok::<Seq<ElementModel>, ErrorModel>(
                    element_models(items@),
                ),
            decreases parts@.len() - i,
        {
            let ghost before = element_models(items@);
            assert(all.take(i as int + 1).drop_last() == all.take(i as int));
            assert(all.take(i as int + 1).last() == parts@[i as int]@);
            match parse_single_element(parts[i], field_type) {
                Err(e) => {
                    proof {
                        lemma_elements_stop(all, field_type, i as int + 1);
                    }
                    return Err(e);
                },
                Ok(item) => {
                    items.push(item);
                    assert(element_models(items@) == before.push(item@));
                },
            }
            i += 1;
        }
        assert(all.take(parts@.len() as int) == all);
        return Ok(FieldElement::List(items));
    }
    match parse_single_element(field, field_type)? {
        Element::Single(n) => Ok(FieldElement::Single(n)),
        Element::SteppedAny { start, step } => Ok(FieldElement::SteppedAny { start, step }),
        Element::Range { lo, hi } => Ok(FieldElement::Range { lo, hi }),
        Element::SteppedRangeExpanded(values) => Ok(FieldElement::SteppedRangeExpanded(values)),
    }
}

fn push_single(out: &mut Vec<char>, n: u32)
    ensures
        final(out)@ == old(out)@ + ElementModel::Single(n).text(),
{
    push_padded(out, n);
}

fn push_stepped_any(out: &mut Vec<char>, start: u32, step: u32)
    ensures
        final(out)@ == old(out)@ + (ElementModel::SteppedAny { start, step }).text(),
{
    push_decimal(out, start as u64);
    push_str(out, "/");
    push_decimal(out, step as u64);
}

fn push_range(out: &mut Vec<char>, lo: u32, hi: u32)
    ensures
        final(out)@ == old(out)@ + (ElementModel::Range { lo, hi }).text(),
{
    push_decimal(out, lo as u64);
    push_str(out, "..");
    push_decimal(out, hi as u64);
}

fn push_expanded(out: &mut Vec<char>, values: &Vec<u32>)
    ensures
        final(out)@ == old(out)@ + ElementModel::SteppedRangeExpanded(values@).text(),
{
    let ghost texts = padded_all(values@);
    let mut i: usize = 0;
    assert(texts.take(0) == Seq::<Seq<char>>::empty());
    assert(old(out)@ + Seq::<char>::empty() == old(out)@);
    while i < values.len()
        invariant
            i <= values@.len(),
            texts == padded_all(values@),
            out@ == old(out)@ + joined(texts.take(i as int), ","@),
        decreases values@.len() - i,
    {
        assert(texts.take(i as int + 1).drop_last() == texts.take(i as int));
        assert(texts.take(i as int + 1).last() == padded(values@[i as int] as nat));
        if i > 0 {
            push_str(out, ",");
        }
        push_padded(out, values[i]);
        i += 1;
    }
    assert(texts.take(values@.len() as int) == texts);
}

impl Element {
    /// Appends the text of the member to `out`.
    pub fn push_to(&self, out: &mut Vec<char>)
        ensures
            final(out)@ == old(out)@ + self@.text(),
    {
        match self {
            Element::Single(n) => push_single(out, *n),
            Element::SteppedAny { start, step } => push_stepped_any(out, *start, *step),
            Element::Range { lo, hi } => push_range(out, *lo, *hi),
            Element::SteppedRangeExpanded(values) => push_expanded(out, values),
        }
    }
}

impl FieldElement {
    /// The text of the field in a calendar expression.
    pub fn render(&self) -> (out: Vec<char>)
        ensures
            out@ == self@.text(),
    {
        let mut out: Vec<char> = Vec::new();
        match self {
            FieldElement::Any => push_str(&mut out, "*"),
            FieldElement::Single(n) => push_single(&mut out, *n),
            FieldElement::SteppedAny { start, step } => push_stepped_any(&mut out, *start, *step),
            FieldElement::Range { lo, hi } => push_range(&mut out, *lo, *hi),
            FieldElement::SteppedRangeExpanded(values) => push_expanded(&mut out, values),
            FieldElement::List(items) => {
                let ghost texts = element_texts(element_models(items@));
                let mut i: usize = 0;
                assert(texts.take(0) == Seq::<Seq<char>>::empty());
                while i < items.len()
                    invariant
                        i <= items@.len(),
                        texts == element_texts(element_models(items@)),
                        out@ == joined(texts.take(i as int), ","@),
                    decreases items@.len() - i,
                {
                    assert(texts.take(i as int + 1).drop_last() == texts.take(i as int));
                    assert(texts.take(i as int + 1).last() == items@[i as int]@.text());
                    if i > 0 {
                        push_str(&mut out, ",");
                    }
                    items[i].push_to(&mut out);
                    i += 1;
                }
                assert(texts.take(items@.len() as int) == texts);
            },
        }
        out
    }
}

} // verus!
