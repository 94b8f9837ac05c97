//! A value of the language, with its collections held in small vectors.
use smallvec::SmallVec;
use vstd::prelude::*;

use crate::hashing::{le_u32, push_u32};
use crate::parser_output::TypeData;
use crate::sorting::{bools_of, ints_of, sort_bools, sort_ints, sorted_bools, sorted_ints};

verus! {

/// A collection of integers, held inline while it is small.
#[verifier::external_body]
pub struct IntVec {
    data: SmallVec<[i32; 6]>,
}

/// A collection of booleans, held inline while it is small.
#[verifier::external_body]
pub struct BoolVec {
    data: SmallVec<[bool; 24]>,
}

/// The integers a small vector holds, in order.
pub uninterp spec fn int_items(v: IntVec) -> Seq<i32>;

/// The booleans a small vector holds, in order.
pub uninterp spec fn bool_items(v: BoolVec) -> Seq<bool>;

/// How long a small vector may grow here: well below the lengths at which
/// growing it overflows its capacity computation.
pub open spec fn small_limit() -> nat {
    0x1000_0000_0000_0000
}

/// Calls `SmallVec::new`, which makes an empty vector.
#[verifier::external_body]
fn int_vec_new() -> (r: IntVec)
    ensures
        int_items(r) == Seq::<i32>::empty(),
{
    IntVec { data: SmallVec::new() }
}

/// Calls `SmallVec::push`, which appends an item.
#[verifier::external_body]
fn int_vec_push(v: &mut IntVec, x: i32)
    requires
        int_items(*old(v)).len() < small_limit(),
    ensures
        int_items(*final(v)) == int_items(*old(v)).push(x),
{
    v.data.push(x)
}

/// Calls `SmallVec::extend_from_slice`, which appends the slice's items in
/// order.
#[verifier::external_body]
fn int_vec_extend_from_slice(v: &mut IntVec, s: &[i32])
    requires
        int_items(*old(v)).len() + s@.len() < small_limit(),
    ensures
        int_items(*final(v)) == int_items(*old(v)) + s@,
{
    v.data.extend_from_slice(s)
}

/// Calls `SmallVec::as_slice`, which views the items in order.
#[verifier::external_body]
fn int_vec_as_slice(v: &IntVec) -> (r: &[i32])
    ensures
        r@ == int_items(*v),
{
    v.data.as_slice()
}

/// Calls `SmallVec::new`, which makes an empty vector.
#[verifier::external_body]
fn bool_vec_new() -> (r: BoolVec)
    ensures
        bool_items(r) == Seq::<bool>::empty(),
{
    BoolVec { data: SmallVec::new() }
}

/// Calls `SmallVec::extend_from_slice`, which appends the slice's items in
/// order.
#[verifier::external_body]
fn bool_vec_extend_from_slice(v: &mut BoolVec, s: &[bool])
    requires
        bool_items(*old(v)).len() + s@.len() < small_limit(),
    ensures
        bool_items(*final(v)) == bool_items(*old(v)) + s@,
{
    v.data.extend_from_slice(s)
}

/// Calls `SmallVec::as_slice`, which views the items in order.
#[verifier::external_body]
fn bool_vec_as_slice(v: &BoolVec) -> (r: &[bool])
    ensures
        r@ == bool_items(*v),
{
    v.data.as_slice()
}

/// A value: a boolean, an integer, or a collection of either.
pub enum Datum {
    Bool(bool),
    Int(i32),
    CollectionOfInt(IntVec),
    CollectionOfBool(BoolVec),
}

/// The type of a value.
pub open spec fn datum_type(d: Datum) -> TypeData {
    match d {
        Datum::CollectionOfInt(_) => TypeData::CollectionOfInt,
        Datum::CollectionOfBool(_) => TypeData::CollectionOfBool,
        Datum::Bool(_) => TypeData::Bool,
        Datum::Int(_) => TypeData::Int,
    }
}

/// The sum of the integers.
pub open spec fn seq_sum(s: Seq<i32>) -> int
    decreases s.len(),
{
    if s.len() == 0 {
        0
    } else {
        seq_sum(s.drop_last()) + s.last()
    }
}

/// The sum of two sequences laid end to end is the sum of their sums; one
/// integer sums to itself, and nothing to zero.
pub proof fn lemma_sum_concat(a: Seq<i32>, b: Seq<i32>)
    ensures
        seq_sum(a + b) == seq_sum(a) + seq_sum(b),
        seq_sum(Seq::<i32>::empty()) == 0,
        forall|x: i32| #[trigger] seq_sum(seq![x]) == x as int,
    decreases b.len(),
{
    assert forall|x: i32| #[trigger] seq_sum(seq![x]) == x as int by {
        assert(seq![x].drop_last() =~= Seq::<i32>::empty());
        assert(seq_sum(seq![x].drop_last()) == 0);
        assert(seq![x].last() == x);
    }
    if b.len() == 0 {
        assert(a + b =~= a);
    } else {
        lemma_sum_concat(a, b.drop_last());
        assert((a + b).drop_last() =~= a + b.drop_last());
    }
}

/// The number of items a value holds: one for a scalar.
pub open spec fn datum_len(d: Datum) -> int {
    match d {
        Datum::CollectionOfInt(v) => int_items(v).len() as int,
        Datum::CollectionOfBool(v) => bool_items(v).len() as int,
        _ => 1,
    }
}

/// The bytes of a sequence of integers, each as the four little-endian
/// bytes of its two's complement.
pub open spec fn ints_stream(s: Seq<i32>) -> Seq<u8>
    decreases s.len(),
{
    if s.len() == 0 {
        Seq::empty()
    } else {
        ints_stream(s.drop_last()) + le_u32(s.last() as u32)
    }
}

/// The bytes of a sequence of booleans, one byte each.
pub open spec fn bools_stream(s: Seq<bool>) -> Seq<u8>
    decreases s.len(),
{
    if s.len() == 0 {
        Seq::empty()
    } else {
        bools_stream(s.drop_last()).push(if s.last() {
            1u8
        } else {
            0u8
        })
    }
}

/// The bytes a value feeds a hasher: a tag byte for its variant (1 for a
/// boolean, 2 for an integer, 3 and 4 for collections of integers and of
/// booleans), then its items, integers little-endian.
pub open spec fn datum_stream(d: Datum) -> Seq<u8> {
    match d {
        Datum::Bool(b) => seq![1u8, if b {
            1u8
        } else {
            0u8
        }],
        Datum::Int(i) => seq![2u8] + le_u32(i as u32),
        Datum::CollectionOfInt(v) => seq![3u8] + ints_stream(int_items(v)),
        Datum::CollectionOfBool(v) => seq![4u8] + bools_stream(bool_items(v)),
    }
}

impl From<i32> for Datum {
    fn from(x: i32) -> (r: Datum) {
        Datum::Int(x)
    }
}

impl vstd::std_specs::convert::FromSpecImpl<i32> for Datum {
    open spec fn obeys_from_spec() -> bool {
        true
    }

    open spec fn from_spec(v: i32) -> Datum {
        Datum::Int(v)
    }
}

impl From<bool> for Datum {
    fn from(x: bool) -> (r: Datum) {
        Datum::Bool(x)
    }
}

impl vstd::std_specs::convert::FromSpecImpl<bool> for Datum {
    open spec fn obeys_from_spec() -> bool {
        true
    }

    open spec fn from_spec(v: bool) -> Datum {
        Datum::Bool(v)
    }
}

impl From<IntVec> for Datum {
    fn from(x: IntVec) -> (r: Datum) {
        Datum::CollectionOfInt(x)
    }
}

impl vstd::std_specs::convert::FromSpecImpl<IntVec> for Datum {
    open spec fn obeys_from_spec() -> bool {
        true
    }

    open spec fn from_spec(v: IntVec) -> Datum {
        Datum::CollectionOfInt(v)
    }
}

impl From<BoolVec> for Datum {
    fn from(x: BoolVec) -> (r: Datum) {
        Datum::CollectionOfBool(x)
    }
}

impl vstd::std_specs::convert::FromSpecImpl<BoolVec> for Datum {
    open spec fn obeys_from_spec() -> bool {
        true
    }

    open spec fn from_spec(v: BoolVec) -> Datum {
        Datum::CollectionOfBool(v)
    }
}

impl From<[i32; 1]> for Datum {
    fn from(x: [i32; 1]) -> (r: Datum)
        ensures
            r matches Datum::CollectionOfInt(v) && int_items(v) == seq![x[0]],
    {
        let mut smol_vec = int_vec_new();
        int_vec_extend_from_slice(&mut smol_vec, x.as_slice());
        assert(int_items(smol_vec) =~= seq![x[0]]);
        Datum::CollectionOfInt(smol_vec)
    }
}

impl vstd::std_specs::convert::FromSpecImpl<[i32; 1]> for Datum {
    /// A collection is no spec value: what `from` returns is stated on it.
    open spec fn obeys_from_spec() -> bool {
        false
    }

    open spec fn from_spec(v: [i32; 1]) -> Datum {
        choose|d: Datum| d is CollectionOfInt && #[trigger] int_items(d->CollectionOfInt_0) == seq![v[0]]
    }
}

impl From<[bool; 1]> for Datum {
    fn from(x: [bool; 1]) -> (r: Datum)
        ensures
            r matches Datum::CollectionOfBool(v) && bool_items(v) == seq![x[0]],
    {
        let mut smol_vec = bool_vec_new();
        bool_vec_extend_from_slice(&mut smol_vec, x.as_slice());
        assert(bool_items(smol_vec) =~= seq![x[0]]);
        Datum::CollectionOfBool(smol_vec)
    }
}

impl vstd::std_specs::convert::FromSpecImpl<[bool; 1]> for Datum {
    /// A collection is no spec value: what `from` returns is stated on it.
    open spec fn obeys_from_spec() -> bool {
        false
    }

    open spec fn from_spec(v: [bool; 1]) -> Datum {
        choose|d: Datum| d is CollectionOfBool && #[trigger] bool_items(d->CollectionOfBool_0) == seq![v[0]]
    }
}

impl Datum {
    /// The type of the value.
    pub fn get_type(&self) -> (r: TypeData)
        ensures
            r == datum_type(*self),
    {
        match self {
            Datum::CollectionOfInt(_) => TypeData::CollectionOfInt,
            Datum::CollectionOfBool(_) => TypeData::CollectionOfBool,
            Datum::Bool(_) => TypeData::Bool,
            Datum::Int(_) => TypeData::Int,
        }
    }

    /// The integer held.
    pub fn get_int(&self) -> (r: i32)
        requires
            *self is Int,
        ensures
            r == self->Int_0,
    {
        match self {
            Datum::Int(i) => *i,
            _ => 0,
        }
    }

    /// The boolean held.
    pub fn get_bool(&self) -> (r: bool)
        requires
            *self is Bool,
        ensures
            r == self->Bool_0,
    {
        match self {
            Datum::Bool(b) => *b,
            _ => false,
        }
    }

    /// The collection of booleans held.
    pub fn get_bool_vec(self) -> (r: BoolVec)
        requires
            self is CollectionOfBool,
        ensures
            bool_items(r) == bool_items(self->CollectionOfBool_0),
    {
        match self {
            Datum::CollectionOfBool(vec) => vec,
            _ => bool_vec_new(),
        }
    }

    /// The collection of integers held.
    pub fn get_int_vec(self) -> (r: IntVec)
        requires
            self is CollectionOfInt,
        ensures
            int_items(r) == int_items(self->CollectionOfInt_0),
    {
        match self {
            Datum::CollectionOfInt(vec) => vec,
            _ => int_vec_new(),
        }
    }

    /// The sum of the integers held.
    pub fn sum(&self) -> (r: i32)
        requires
            *self is CollectionOfInt,
            forall|k: int|
                0 <= k <= int_items(self->CollectionOfInt_0).len() ==> i32::MIN <= #[trigger] seq_sum(
                    int_items(self->CollectionOfInt_0).take(k),
                ) <= i32::MAX,
        ensures
            r == seq_sum(int_items(self->CollectionOfInt_0)),
    {
        match self {
            Datum::CollectionOfInt(vec) => {
                let s = int_vec_as_slice(vec);
                let ghost items = s@;
                let mut total: i32 = 0;
                assert(items.take(0) =~= Seq::<i32>::empty());
                for i in 0..s.len()
                    invariant
                        items == s@,
                        items == int_items(self->CollectionOfInt_0),
                        total == seq_sum(items.take(i as int)),
                        forall|k: int| 0 <= k <= items.len() ==> i32::MIN <= #[trigger] seq_sum(items.take(k)) <= i32::MAX,
                {
                    assert(items.take(i + 1).drop_last() =~= items.take(i as int));
                    assert(seq_sum(items.take(i + 1)) == total + s[i as int]);
                    total = total + s[i];
                }
                assert(items.take(items.len() as int) =~= items);
                total
            },
            _ => 0,
        }
    }

    /// The number of items held, as an `i32` (its low 32 bits); a scalar
    /// holds one.
    pub fn len(&self) -> (r: i32)
        ensures
            r == datum_len(*self) as i32,
    {
        match self {
            Datum::CollectionOfInt(s) => int_vec_as_slice(s).len() as i32,
            Datum::CollectionOfBool(s) => bool_vec_as_slice(s).len() as i32,
            Datum::Bool(_) => 1,
            Datum::Int(_) => 1,
        }
    }

    /// Appends integers to the collection of integers held.
    pub fn extend_from(&mut self, arg: Vec<i32>)
        requires
            *old(self) is CollectionOfInt,
            int_items(old(self)->CollectionOfInt_0).len() + arg@.len() < small_limit(),
        ensures
            *final(self) matches Datum::CollectionOfInt(v) && int_items(v) == int_items(
                old(self)->CollectionOfInt_0,
            ) + arg@,
    {
        match self {
            Datum::CollectionOfInt(vec) => int_vec_extend_from_slice(vec, arg.as_slice()),
            _ => {},
        }
    }

    /// Sorts the collection held; nothing changes for a scalar.
    pub fn sort(&mut self)
        requires
            datum_len(*old(self)) < small_limit(),
        ensures
            match *old(self) {
                Datum::CollectionOfInt(v) => *final(self) matches Datum::CollectionOfInt(w) && sorted_ints(
                    int_items(w),
                ) && int_items(w).to_multiset() == int_items(v).to_multiset(),
                Datum::CollectionOfBool(v) => *final(self) matches Datum::CollectionOfBool(w) && sorted_bools(
                    bool_items(w),
                ) && bool_items(w).to_multiset() == bool_items(v).to_multiset(),
                _ => *final(self) == *old(self),
            },
    {
        match self {
            Datum::CollectionOfInt(vec) => {
                let mut items = ints_of(int_vec_as_slice(vec));
                sort_ints(&mut items);
                let mut sorted = int_vec_new();
                proof {
                    vstd::seq_lib::to_multiset_len(items@);
                    vstd::seq_lib::to_multiset_len(int_items(*vec));
                }
                int_vec_extend_from_slice(&mut sorted, items.as_slice());
                assert(int_items(sorted) =~= items@);
                *vec = sorted;
            },
            Datum::CollectionOfBool(vec) => {
                let mut items = bools_of(bool_vec_as_slice(vec));
                sort_bools(&mut items);
                let mut sorted = bool_vec_new();
                proof {
                    vstd::seq_lib::to_multiset_len(items@);
                    vstd::seq_lib::to_multiset_len(bool_items(*vec));
                }
                bool_vec_extend_from_slice(&mut sorted, items.as_slice());
                assert(bool_items(sorted) =~= items@);
                *vec = sorted;
            },
            _ => {},
        }
    }

    /// Feeds the value to a hasher: appends to `state` the bytes that
    /// identify it.
    pub fn hash(&self, state: &mut Vec<u8>)
        ensures
            final(state)@ == old(state)@ + datum_stream(*self),
    {
        match self {
            Datum::Bool(b) => {
                state.push(1u8);
                state.push(if *b {
                    1u8
                } else {
                    0u8
                });
            },
            Datum::Int(i) => {
                state.push(2u8);
                push_u32(state, *i as u32);
            },
            Datum::CollectionOfInt(vec) => {
                state.push(3u8);
                let s = int_vec_as_slice(vec);
                let ghost s0 = state@;
                let n = s.len();
                assert(s@.take(0) =~= Seq::<i32>::empty());
                for i in 0..n
                    invariant
                        n == s@.len(),
                        state@ == s0 + ints_stream(s@.take(i as int)),
                {
                    assert(s@.take(i + 1).drop_last() =~= s@.take(i as int));
                    push_u32(state, s[i] as u32);
                    assert(state@ =~= s0 + ints_stream(s@.take(i + 1)));
                }
                assert(s@.take(n as int) =~= s@);
            },
            Datum::CollectionOfBool(vec) => {
                state.push(4u8);
                let s = bool_vec_as_slice(vec);
                let ghost s0 = state@;
                let n = s.len();
                assert(s@.take(0) =~= Seq::<bool>::empty());
                for i in 0..n
                    invariant
                        n == s@.len(),
                        state@ == s0 + bools_stream(s@.take(i as int)),
                {
                    assert(s@.take(i + 1).drop_last() =~= s@.take(i as int));
                    state.push(if s[i] {
                        1u8
                    } else {
                        0u8
                    });
                    assert(state@ =~= s0 + bools_stream(s@.take(i + 1)));
                }
                assert(s@.take(n as int) =~= s@);
            },
        }
        assert(final(state)@ =~= old(state)@ + datum_stream(*self));
    }

    /// Appends an integer to the collection of integers held.
    pub fn append_int(&mut self, x: i32)
        requires
            *old(self) is CollectionOfInt,
            int_items(old(self)->CollectionOfInt_0).len() < small_limit(),
        ensures
            *final(self) matches Datum::CollectionOfInt(v) && int_items(v) == int_items(
                old(self)->CollectionOfInt_0,
            ).push(x),
    {
        match self {
            Datum::CollectionOfInt(vec) => int_vec_push(vec, x),
            _ => {},
        }
    }
}

} // verus!
