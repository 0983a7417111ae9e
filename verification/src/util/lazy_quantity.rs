//! A quantity that is kept in its textual form until a second value has to be
//! added to it

use vstd::prelude::*;
use csv::ByteRecord;
use crate::util::buffer::{self, Buffer, BufferLike};
use crate::util::number::{self, format_u64, parse_decimal_prefix, saturating_add};
use crate::util::record::{self, push_field};

verus! {

/// The abstract value of a lazy quantity
pub enum QuantityView {
    Zero,
    Single(Seq<u8>),
    Aggregate(u64),
}

/// A quantity aggregated lazily: parsed only once two values are added
#[derive(Copy, Clone)]
pub enum LazyQuantity<'a> {
    /// Contains a zero quantity (result of no aggregation)
    Zero,
    /// Contains a single quantity in its textual form
    Single(&'a [u8]),
    /// Contains an aggregated quantity in its numeric form
    Aggregate(u64),
}

impl<'a> View for LazyQuantity<'a> {
    type V = QuantityView;

    open spec fn view(&self) -> QuantityView {
        match self {
            LazyQuantity::Zero => QuantityView::Zero,
            LazyQuantity::Single(s) => QuantityView::Single(s@),
            LazyQuantity::Aggregate(n) => QuantityView::Aggregate(*n),
        }
    }
}

/// Adding `quantity` (in its textual form) to `q`: a zero quantity becomes the
/// text; a single text is parsed and, when that succeeds, added as a number
/// (else the new text replaces it); a number adds the parsed text, saturating
/// (or stays unchanged when the text does not parse)
pub open spec fn plus_spec(q: QuantityView, quantity: Seq<u8>) -> QuantityView {
    match q {
        QuantityView::Zero => QuantityView::Single(quantity),
        QuantityView::Single(current) => match number::parse_prefix_u64(current) {
            None => QuantityView::Single(quantity),
            Some(v) => match number::parse_prefix_u64(quantity) {
                None => QuantityView::Aggregate(v),
                Some(w) => QuantityView::Aggregate(number::sat_add(v, w)),
            },
        },
        QuantityView::Aggregate(c) => match number::parse_prefix_u64(quantity) {
            None => QuantityView::Aggregate(c),
            Some(w) => QuantityView::Aggregate(number::sat_add(c, w)),
        },
    }
}

/// The textual form of a quantity
pub open spec fn text_of(q: QuantityView) -> Seq<u8> {
    match q {
        QuantityView::Zero => seq![48u8],
        QuantityView::Single(s) => s,
        QuantityView::Aggregate(n) => number::dec_repr(n as nat),
    }
}

impl<'a> LazyQuantity<'a> {
    /// The zero quantity
    pub fn new() -> (r: Self)
        ensures
            r@ == QuantityView::Zero,
    {
        LazyQuantity::Zero
    }

    /// Whether this is the zero quantity
    pub fn is_zero(&self) -> (r: bool)
        ensures
            r == (self@ is Zero),
    {
        match self {
            LazyQuantity::Zero => true,
            _ => false,
        }
    }

    /// Adds the given quantity to this one
    pub fn plus(self, quantity: &'a [u8]) -> (r: Self)
        ensures
            r@ == plus_spec(self@, quantity@),
        decreases
            if self@ is Single {
                1int
            } else {
                0int
            },
    {
        match self {
            LazyQuantity::Zero => LazyQuantity::Single(quantity),
            LazyQuantity::Single(current) => {
                match parse_decimal_prefix(current) {
                    None => LazyQuantity::Single(quantity),
                    Some(as_int) => LazyQuantity::Aggregate(as_int).plus(quantity),
                }
            },
            LazyQuantity::Aggregate(current_int) => match parse_decimal_prefix(quantity) {
                None => self,
                Some(as_int) => LazyQuantity::Aggregate(saturating_add(current_int, as_int)),
            },
        }
    }

    /// Writes the textual form of the quantity at the start of the buffer
    /// (as much as fits), returning the number of bytes written
    pub fn write_to<const CAP: usize>(self, dest: &mut Buffer<CAP>) -> (n: usize)
        ensures
            final(dest).b@ == buffer::written(old(dest).b@, text_of(self@)).0,
            n == buffer::written(old(dest).b@, text_of(self@)).1,
            final(dest).len == old(dest).len,
    {
        match self {
            LazyQuantity::Zero => {
                let zero: [u8; 1] = [48u8];
                let r = dest.write(zero.as_slice());
                assert(zero@ =~= seq![48u8]);
                r
            },
            LazyQuantity::Single(current) => dest.write(current),
            LazyQuantity::Aggregate(current_int) => {
                let formatted = format_u64(current_int);
                dest.write(formatted.as_slice())
            },
        }
    }

    /// Writes the quantity to a record, using the working buffer as an
    /// intermediate
    pub fn write_to_record<const CAP: usize>(
        self,
        working: &mut Buffer<CAP>,
        record: &mut ByteRecord,
    )
        ensures
            record::record_fields(*final(record)) == record::record_fields(*old(record)).push(
                buffer::written(old(working).b@, text_of(self@)).0.subrange(
                    0,
                    buffer::written(old(working).b@, text_of(self@)).1,
                ),
            ),
            final(working).len == 0,
            final(working).b@ == buffer::zeroed(
                buffer::written(old(working).b@, text_of(self@)).0,
                0,
                buffer::written(old(working).b@, text_of(self@)).1,
            ),
    {
        working.len = self.write_to(working);
        push_field(record, working.content());
        working.clear();
    }
}

/// The fields written for the quantities `qs`, one after the other, through a
/// working buffer starting as `t`, and the working buffer afterwards: each
/// quantity's text is written at the start of the buffer (as much as fits),
/// taken as the field, and those bytes zeroed again
pub open spec fn quantity_fields(t: Seq<u8>, qs: Seq<QuantityView>) -> (Seq<Seq<u8>>, Seq<u8>)
    decreases qs.len(),
{
    if qs.len() == 0 {
        (Seq::empty(), t)
    } else {
        let w = buffer::written(t, text_of(qs[0]));
        let rest = quantity_fields(buffer::zeroed(w.0, 0, w.1), qs.drop_first());
        (seq![w.0.subrange(0, w.1)] + rest.0, rest.1)
    }
}

/// Writing quantities one after the other is writing the first, then the rest
pub proof fn lemma_quantity_fields_push(t: Seq<u8>, qs: Seq<QuantityView>, q: QuantityView)
    ensures
        quantity_fields(t, qs.push(q)) == (
            quantity_fields(t, qs).0 + quantity_fields(quantity_fields(t, qs).1, seq![q]).0,
            quantity_fields(quantity_fields(t, qs).1, seq![q]).1,
        ),
    decreases qs.len(),
{
    if qs.len() > 0 {
        let w = buffer::written(t, text_of(qs[0]));
        let t2 = buffer::zeroed(w.0, 0, w.1);
        assert(qs.push(q).drop_first() =~= qs.drop_first().push(q));
        lemma_quantity_fields_push(t2, qs.drop_first(), q);
        assert(quantity_fields(t, qs.push(q)).0 =~= quantity_fields(t, qs).0 + quantity_fields(
            quantity_fields(t, qs).1,
            seq![q],
        ).0);
    } else {
        assert(qs.push(q) =~= seq![q]);
        assert(quantity_fields(t, qs).0 + quantity_fields(t, seq![q]).0 =~= quantity_fields(
            t,
            seq![q],
        ).0);
    }
}

/// Writing quantities through a zeroed working buffer leaves it zeroed
pub proof fn lemma_quantity_fields_keep_zero(t: Seq<u8>, qs: Seq<QuantityView>)
    requires
        forall|i: int| 0 <= i < t.len() ==> t[i] == 0u8,
    ensures
        quantity_fields(t, qs).1 == t,
    decreases qs.len(),
{
    if qs.len() > 0 {
        let w = buffer::written(t, text_of(qs[0]));
        assert(buffer::zeroed(w.0, 0, w.1) =~= t);
        lemma_quantity_fields_keep_zero(t, qs.drop_first());
    }
}

/// One field is written per quantity
pub proof fn lemma_quantity_fields_len(t: Seq<u8>, qs: Seq<QuantityView>)
    ensures
        quantity_fields(t, qs).0.len() == qs.len(),
    decreases qs.len(),
{
    if qs.len() > 0 {
        let w = buffer::written(t, text_of(qs[0]));
        lemma_quantity_fields_len(buffer::zeroed(w.0, 0, w.1), qs.drop_first());
    }
}

/// A single value is kept and written exactly as it was read, without being
/// parsed
pub proof fn law_single_value_kept_as_text(text: Seq<u8>)
    ensures
        text_of(plus_spec(QuantityView::Zero, text)) == text,
{
}

/// A quantity after adding each of the texts in turn
pub open spec fn plus_all(q: QuantityView, texts: Seq<Seq<u8>>) -> QuantityView
    decreases texts.len(),
{
    if texts.len() == 0 {
        q
    } else {
        plus_all(plus_spec(q, texts[0]), texts.drop_first())
    }
}

/// `acc` with each of the values added in turn, saturating at the largest
/// `u64`
pub open spec fn sat_sum_from(acc: u64, vals: Seq<u64>) -> u64
    decreases vals.len(),
{
    if vals.len() == 0 {
        acc
    } else {
        sat_sum_from(number::sat_add(acc, vals[0]), vals.drop_first())
    }
}

/// Adding texts that all parse to a total adds their values to it
pub proof fn lemma_plus_all_aggregate(acc: u64, texts: Seq<Seq<u8>>, vals: Seq<u64>)
    requires
        texts.len() == vals.len(),
        forall|i: int| 0 <= i < texts.len() ==> number::parse_prefix_u64(#[trigger] texts[i]) == Some(
            vals[i],
        ),
    ensures
        plus_all(QuantityView::Aggregate(acc), texts) == QuantityView::Aggregate(
            sat_sum_from(acc, vals),
        ),
    decreases texts.len(),
{
    if texts.len() > 0 {
        assert(number::parse_prefix_u64(texts[0]) == Some(vals[0]));
        let rest = texts.drop_first();
        assert forall|i: int| 0 <= i < rest.len() implies number::parse_prefix_u64(
            #[trigger] rest[i],
        ) == Some(vals.drop_first()[i]) by {
            assert(rest[i] == texts[i + 1]);
        }
        lemma_plus_all_aggregate(number::sat_add(acc, vals[0]), rest, vals.drop_first());
    }
}

/// Two or more values that all parse are added up (saturating at the
/// largest `u64`)
pub proof fn law_values_add_up(texts: Seq<Seq<u8>>, vals: Seq<u64>)
    requires
        texts.len() == vals.len(),
        texts.len() >= 2,
        forall|i: int| 0 <= i < texts.len() ==> number::parse_prefix_u64(#[trigger] texts[i]) == Some(
            vals[i],
        ),
    ensures
        plus_all(QuantityView::Zero, texts) == QuantityView::Aggregate(sat_sum_from(0, vals)),
{
    assert(number::parse_prefix_u64(texts[0]) == Some(vals[0]));
    assert(number::parse_prefix_u64(texts[1]) == Some(vals[1]));
    let rest = texts.drop_first().drop_first();
    let rest_vals = vals.drop_first().drop_first();
    assert forall|i: int| 0 <= i < rest.len() implies number::parse_prefix_u64(#[trigger] rest[i])
        == Some(rest_vals[i]) by {
        assert(rest[i] == texts[i + 2]);
    }
    lemma_plus_all_aggregate(number::sat_add(vals[0], vals[1]), rest, rest_vals);
    assert(plus_all(QuantityView::Zero, texts) == plus_all(
        plus_spec(QuantityView::Zero, texts[0]),
        texts.drop_first(),
    ));
    assert(texts.drop_first()[0] == texts[1]);
    assert(plus_all(QuantityView::Single(texts[0]), texts.drop_first()) == plus_all(
        QuantityView::Aggregate(number::sat_add(vals[0], vals[1])),
        rest,
    ));
    assert(number::sat_add(0, vals[0]) == vals[0]);
    assert(vals.drop_first()[0] == vals[1]);
    assert(sat_sum_from(0, vals) == sat_sum_from(number::sat_add(0, vals[0]), vals.drop_first()));
    assert(sat_sum_from(vals[0], vals.drop_first()) == sat_sum_from(
        number::sat_add(vals[0], vals[1]),
        rest_vals,
    ));
}

/// Adding a value that does not parse to a total leaves the total as it is
pub proof fn law_unparsed_value_ignored(n: u64, b: Seq<u8>)
    requires
        number::parse_prefix_u64(b) is None,
    ensures
        plus_spec(QuantityView::Aggregate(n), b) == QuantityView::Aggregate(n),
{
}

} // verus!
