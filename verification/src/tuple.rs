//! Tuples: the wire forms of the members, the first one first.

use crate::deserializer::{Deserializer, Input};
use crate::error::{Failure, Result};
use crate::laws::{Owning, RoundTrip};
use crate::primitive::preceded;
use crate::serializer::Serializer;
use crate::{Deserialize, Parsed, Serialize};
use vstd::prelude::*;

verus! {

/// What reading 2 members, one after the other, comes to.
pub open spec fn tuple2_parse<
    'a,
    T0: Deserialize<'a>,
    T1: Deserialize<'a>,
>(input: Input) -> Parsed {
    match T0::parse(input) {
        Ok((wire, used)) => preceded(wire, used, T1::parse(input.skip(used))),
        Err(failure) => Err(failure),
    }
}

/// What reading 3 members, one after the other, comes to.
pub open spec fn tuple3_parse<
    'a,
    T0: Deserialize<'a>,
    T1: Deserialize<'a>,
    T2: Deserialize<'a>,
>(input: Input) -> Parsed {
    match T0::parse(input) {
        Ok((wire, used)) => preceded(wire, used, tuple2_parse::<T1, T2>(input.skip(used))),
        Err(failure) => Err(failure),
    }
}

/// What reading 4 members, one after the other, comes to.
pub open spec fn tuple4_parse<
    'a,
    T0: Deserialize<'a>,
    T1: Deserialize<'a>,
    T2: Deserialize<'a>,
    T3: Deserialize<'a>,
>(input: Input) -> Parsed {
    match T0::parse(input) {
        Ok((wire, used)) => preceded(wire, used, tuple3_parse::<T1, T2, T3>(input.skip(used))),
        Err(failure) => Err(failure),
    }
}

/// What reading 5 members, one after the other, comes to.
pub open spec fn tuple5_parse<
    'a,
    T0: Deserialize<'a>,
    T1: Deserialize<'a>,
    T2: Deserialize<'a>,
    T3: Deserialize<'a>,
    T4: Deserialize<'a>,
>(input: Input) -> Parsed {
    match T0::parse(input) {
        Ok((wire, used)) => preceded(wire, used, tuple4_parse::<T1, T2, T3, T4>(input.skip(used))),
        Err(failure) => Err(failure),
    }
}

/// What reading 6 members, one after the other, comes to.
pub open spec fn tuple6_parse<
    'a,
    T0: Deserialize<'a>,
    T1: Deserialize<'a>,
    T2: Deserialize<'a>,
    T3: Deserialize<'a>,
    T4: Deserialize<'a>,
    T5: Deserialize<'a>,
>(input: Input) -> Parsed {
    match T0::parse(input) {
        Ok((wire, used)) => preceded(
            wire,
            used,
            tuple5_parse::<T1, T2, T3, T4, T5>(input.skip(used)),
        ),
        Err(failure) => Err(failure),
    }
}

/// What reading 7 members, one after the other, comes to.
pub open spec fn tuple7_parse<
    'a,
    T0: Deserialize<'a>,
    T1: Deserialize<'a>,
    T2: Deserialize<'a>,
    T3: Deserialize<'a>,
    T4: Deserialize<'a>,
    T5: Deserialize<'a>,
    T6: Deserialize<'a>,
>(input: Input) -> Parsed {
    match T0::parse(input) {
        Ok((wire, used)) => preceded(
            wire,
            used,
            tuple6_parse::<T1, T2, T3, T4, T5, T6>(input.skip(used)),
        ),
        Err(failure) => Err(failure),
    }
}

/// What reading 8 members, one after the other, comes to.
pub open spec fn tuple8_parse<
    'a,
    T0: Deserialize<'a>,
    T1: Deserialize<'a>,
    T2: Deserialize<'a>,
    T3: Deserialize<'a>,
    T4: Deserialize<'a>,
    T5: Deserialize<'a>,
    T6: Deserialize<'a>,
    T7: Deserialize<'a>,
>(input: Input) -> Parsed {
    match T0::parse(input) {
        Ok((wire, used)) => preceded(
            wire,
            used,
            tuple7_parse::<T1, T2, T3, T4, T5, T6, T7>(input.skip(used)),
        ),
        Err(failure) => Err(failure),
    }
}

/// What reading 9 members, one after the other, comes to.
pub open spec fn tuple9_parse<
    'a,
    T0: Deserialize<'a>,
    T1: Deserialize<'a>,
    T2: Deserialize<'a>,
    T3: Deserialize<'a>,
    T4: Deserialize<'a>,
    T5: Deserialize<'a>,
    T6: Deserialize<'a>,
    T7: Deserialize<'a>,
    T8: Deserialize<'a>,
>(input: Input) -> Parsed {
    match T0::parse(input) {
        Ok((wire, used)) => preceded(
            wire,
            used,
            tuple8_parse::<T1, T2, T3, T4, T5, T6, T7, T8>(input.skip(used)),
        ),
        Err(failure) => Err(failure),
    }
}

/// What reading 10 members, one after the other, comes to.
pub open spec fn tuple10_parse<
    'a,
    T0: Deserialize<'a>,
    T1: Deserialize<'a>,
    T2: Deserialize<'a>,
    T3: Deserialize<'a>,
    T4: Deserialize<'a>,
    T5: Deserialize<'a>,
    T6: Deserialize<'a>,
    T7: Deserialize<'a>,
    T8: Deserialize<'a>,
    T9: Deserialize<'a>,
>(input: Input) -> Parsed {
    match T0::parse(input) {
        Ok((wire, used)) => preceded(
            wire,
            used,
            tuple9_parse::<T1, T2, T3, T4, T5, T6, T7, T8, T9>(input.skip(used)),
        ),
        Err(failure) => Err(failure),
    }
}

/// What reading 11 members, one after the other, comes to.
pub open spec fn tuple11_parse<
    'a,
    T0: Deserialize<'a>,
    T1: Deserialize<'a>,
    T2: Deserialize<'a>,
    T3: Deserialize<'a>,
    T4: Deserialize<'a>,
    T5: Deserialize<'a>,
    T6: Deserialize<'a>,
    T7: Deserialize<'a>,
    T8: Deserialize<'a>,
    T9: Deserialize<'a>,
    T10: Deserialize<'a>,
>(input: Input) -> Parsed {
    match T0::parse(input) {
        Ok((wire, used)) => preceded(
            wire,
            used,
            tuple10_parse::<T1, T2, T3, T4, T5, T6, T7, T8, T9, T10>(input.skip(used)),
        ),
        Err(failure) => Err(failure),
    }
}

/// What reading 12 members, one after the other, comes to.
pub open spec fn tuple12_parse<
    'a,
    T0: Deserialize<'a>,
    T1: Deserialize<'a>,
    T2: Deserialize<'a>,
    T3: Deserialize<'a>,
    T4: Deserialize<'a>,
    T5: Deserialize<'a>,
    T6: Deserialize<'a>,
    T7: Deserialize<'a>,
    T8: Deserialize<'a>,
    T9: Deserialize<'a>,
    T10: Deserialize<'a>,
    T11: Deserialize<'a>,
>(input: Input) -> Parsed {
    match T0::parse(input) {
        Ok((wire, used)) => preceded(
            wire,
            used,
            tuple11_parse::<T1, T2, T3, T4, T5, T6, T7, T8, T9, T10, T11>(input.skip(used)),
        ),
        Err(failure) => Err(failure),
    }
}

/// What reading 13 members, one after the other, comes to.
pub open spec fn tuple13_parse<
    'a,
    T0: Deserialize<'a>,
    T1: Deserialize<'a>,
    T2: Deserialize<'a>,
    T3: Deserialize<'a>,
    T4: Deserialize<'a>,
    T5: Deserialize<'a>,
    T6: Deserialize<'a>,
    T7: Deserialize<'a>,
    T8: Deserialize<'a>,
    T9: Deserialize<'a>,
    T10: Deserialize<'a>,
    T11: Deserialize<'a>,
    T12: Deserialize<'a>,
>(input: Input) -> Parsed {
    match T0::parse(input) {
        Ok((wire, used)) => preceded(
            wire,
            used,
            tuple12_parse::<T1, T2, T3, T4, T5, T6, T7, T8, T9, T10, T11, T12>(input.skip(used)),
        ),
        Err(failure) => Err(failure),
    }
}

/// What reading 14 members, one after the other, comes to.
pub open spec fn tuple14_parse<
    'a,
    T0: Deserialize<'a>,
    T1: Deserialize<'a>,
    T2: Deserialize<'a>,
    T3: Deserialize<'a>,
    T4: Deserialize<'a>,
    T5: Deserialize<'a>,
    T6: Deserialize<'a>,
    T7: Deserialize<'a>,
    T8: Deserialize<'a>,
    T9: Deserialize<'a>,
    T10: Deserialize<'a>,
    T11: Deserialize<'a>,
    T12: Deserialize<'a>,
    T13: Deserialize<'a>,
>(input: Input) -> Parsed {
    match T0::parse(input) {
        Ok((wire, used)) => preceded(
            wire,
            used,
            tuple13_parse::<
                T1, T2, T3, T4, T5, T6, T7, T8, T9, T10, T11, T12, T13,
            >(input.skip(used)),
        ),
        Err(failure) => Err(failure),
    }
}

/// What reading 15 members, one after the other, comes to.
pub open spec fn tuple15_parse<
    'a,
    T0: Deserialize<'a>,
    T1: Deserialize<'a>,
    T2: Deserialize<'a>,
    T3: Deserialize<'a>,
    T4: Deserialize<'a>,
    T5: Deserialize<'a>,
    T6: Deserialize<'a>,
    T7: Deserialize<'a>,
    T8: Deserialize<'a>,
    T9: Deserialize<'a>,
    T10: Deserialize<'a>,
    T11: Deserialize<'a>,
    T12: Deserialize<'a>,
    T13: Deserialize<'a>,
    T14: Deserialize<'a>,
>(input: Input) -> Parsed {
    match T0::parse(input) {
        Ok((wire, used)) => preceded(
            wire,
            used,
            tuple14_parse::<
                T1, T2, T3, T4, T5, T6, T7, T8, T9, T10, T11, T12, T13, T14,
            >(input.skip(used)),
        ),
        Err(failure) => Err(failure),
    }
}

/// What reading 16 members, one after the other, comes to.
pub open spec fn tuple16_parse<
    'a,
    T0: Deserialize<'a>,
    T1: Deserialize<'a>,
    T2: Deserialize<'a>,
    T3: Deserialize<'a>,
    T4: Deserialize<'a>,
    T5: Deserialize<'a>,
    T6: Deserialize<'a>,
    T7: Deserialize<'a>,
    T8: Deserialize<'a>,
    T9: Deserialize<'a>,
    T10: Deserialize<'a>,
    T11: Deserialize<'a>,
    T12: Deserialize<'a>,
    T13: Deserialize<'a>,
    T14: Deserialize<'a>,
    T15: Deserialize<'a>,
>(input: Input) -> Parsed {
    match T0::parse(input) {
        Ok((wire, used)) => preceded(
            wire,
            used,
            tuple15_parse::<
                T1, T2, T3, T4, T5, T6, T7, T8, T9, T10, T11, T12, T13, T14, T15,
            >(input.skip(used)),
        ),
        Err(failure) => Err(failure),
    }
}

/// 2 members are read back from their wire forms, whatever follows them.
pub proof fn lemma_tuple2_round_trip<'a, T0: RoundTrip<'a>, T1: RoundTrip<'a>>(
    t0: T0,
    t1: T1,
    rest: Seq<u8>,
)
    requires
        (t0, t1).encoding().len() + rest.len() <= usize::MAX,
    ensures
        ({
            let wire = (t0, t1).encoding();
            tuple2_parse::<T0, T1>(Input::whole(wire + rest)) == Ok::<
                (Seq<u8>, int),
                Failure,
            >((wire, wire.len() as int))
        }),
{
    let wire = (t0, t1).encoding();
    let first = t0.encoding();
    let others = t1.encoding();
    assert(wire == first + others);
    assert(wire + rest =~= first + (others + rest));
    t0.lemma_round_trip(others + rest);
    Input::lemma_whole_parts(first + (others + rest), first.len() as int);
    assert((first + (others + rest)).skip(first.len() as int) =~= others + rest);
    t1.lemma_round_trip(rest);
}

/// 3 members are read back from their wire forms, whatever follows them.
pub proof fn lemma_tuple3_round_trip<
    'a,
    T0: RoundTrip<'a>,
    T1: RoundTrip<'a>,
    T2: RoundTrip<'a>,
>(
    t0: T0,
    t1: T1,
    t2: T2,
    rest: Seq<u8>,
)
    requires
        (t0, t1, t2).encoding().len() + rest.len() <= usize::MAX,
    ensures
        ({
            let wire = (t0, t1, t2).encoding();
            tuple3_parse::<T0, T1, T2>(Input::whole(wire + rest)) == Ok::<
                (Seq<u8>, int),
                Failure,
            >((wire, wire.len() as int))
        }),
{
    let wire = (t0, t1, t2).encoding();
    let first = t0.encoding();
    let others = (t1, t2).encoding();
    assert(wire == first + others);
    assert(wire + rest =~= first + (others + rest));
    t0.lemma_round_trip(others + rest);
    Input::lemma_whole_parts(first + (others + rest), first.len() as int);
    assert((first + (others + rest)).skip(first.len() as int) =~= others + rest);
    lemma_tuple2_round_trip(t1, t2, rest);
}

/// 4 members are read back from their wire forms, whatever follows them.
pub proof fn lemma_tuple4_round_trip<
    'a,
    T0: RoundTrip<'a>,
    T1: RoundTrip<'a>,
    T2: RoundTrip<'a>,
    T3: RoundTrip<'a>,
>(
    t0: T0,
    t1: T1,
    t2: T2,
    t3: T3,
    rest: Seq<u8>,
)
    requires
        (t0, t1, t2, t3).encoding().len() + rest.len() <= usize::MAX,
    ensures
        ({
            let wire = (t0, t1, t2, t3).encoding();
            tuple4_parse::<T0, T1, T2, T3>(Input::whole(wire + rest)) == Ok::<
                (Seq<u8>, int),
                Failure,
            >((wire, wire.len() as int))
        }),
{
    let wire = (t0, t1, t2, t3).encoding();
    let first = t0.encoding();
    let others = (t1, t2, t3).encoding();
    assert(wire == first + others);
    assert(wire + rest =~= first + (others + rest));
    t0.lemma_round_trip(others + rest);
    Input::lemma_whole_parts(first + (others + rest), first.len() as int);
    assert((first + (others + rest)).skip(first.len() as int) =~= others + rest);
    lemma_tuple3_round_trip(t1, t2, t3, rest);
}

/// 5 members are read back from their wire forms, whatever follows them.
pub proof fn lemma_tuple5_round_trip<
    'a,
    T0: RoundTrip<'a>,
    T1: RoundTrip<'a>,
    T2: RoundTrip<'a>,
    T3: RoundTrip<'a>,
    T4: RoundTrip<'a>,
>(
    t0: T0,
    t1: T1,
    t2: T2,
    t3: T3,
    t4: T4,
    rest: Seq<u8>,
)
    requires
        (t0, t1, t2, t3, t4).encoding().len() + rest.len() <= usize::MAX,
    ensures
        ({
            let wire = (t0, t1, t2, t3, t4).encoding();
            tuple5_parse::<T0, T1, T2, T3, T4>(Input::whole(wire + rest)) == Ok::<
                (Seq<u8>, int),
                Failure,
            >((wire, wire.len() as int))
        }),
{
    let wire = (t0, t1, t2, t3, t4).encoding();
    let first = t0.encoding();
    let others = (t1, t2, t3, t4).encoding();
    assert(wire == first + others);
    assert(wire + rest =~= first + (others + rest));
    t0.lemma_round_trip(others + rest);
    Input::lemma_whole_parts(first + (others + rest), first.len() as int);
    assert((first + (others + rest)).skip(first.len() as int) =~= others + rest);
    lemma_tuple4_round_trip(t1, t2, t3, t4, rest);
}

/// 6 members are read back from their wire forms, whatever follows them.
pub proof fn lemma_tuple6_round_trip<
    'a,
    T0: RoundTrip<'a>,
    T1: RoundTrip<'a>,
    T2: RoundTrip<'a>,
    T3: RoundTrip<'a>,
    T4: RoundTrip<'a>,
    T5: RoundTrip<'a>,
>(
    t0: T0,
    t1: T1,
    t2: T2,
    t3: T3,
    t4: T4,
    t5: T5,
    rest: Seq<u8>,
)
    requires
        (t0, t1, t2, t3, t4, t5).encoding().len() + rest.len() <= usize::MAX,
    ensures
        ({
            let wire = (t0, t1, t2, t3, t4, t5).encoding();
            tuple6_parse::<T0, T1, T2, T3, T4, T5>(Input::whole(wire + rest)) == Ok::<
                (Seq<u8>, int),
                Failure,
            >((wire, wire.len() as int))
        }),
{
    let wire = (t0, t1, t2, t3, t4, t5).encoding();
    let first = t0.encoding();
    let others = (t1, t2, t3, t4, t5).encoding();
    assert(wire == first + others);
    assert(wire + rest =~= first + (others + rest));
    t0.lemma_round_trip(others + rest);
    Input::lemma_whole_parts(first + (others + rest), first.len() as int);
    assert((first + (others + rest)).skip(first.len() as int) =~= others + rest);
    lemma_tuple5_round_trip(t1, t2, t3, t4, t5, rest);
}

/// 7 members are read back from their wire forms, whatever follows them.
pub proof fn lemma_tuple7_round_trip<
    'a,
    T0: RoundTrip<'a>,
    T1: RoundTrip<'a>,
    T2: RoundTrip<'a>,
    T3: RoundTrip<'a>,
    T4: RoundTrip<'a>,
    T5: RoundTrip<'a>,
    T6: RoundTrip<'a>,
>(
    t0: T0,
    t1: T1,
    t2: T2,
    t3: T3,
    t4: T4,
    t5: T5,
    t6: T6,
    rest: Seq<u8>,
)
    requires
        (t0, t1, t2, t3, t4, t5, t6).encoding().len() + rest.len() <= usize::MAX,
    ensures
        ({
            let wire = (t0, t1, t2, t3, t4, t5, t6).encoding();
            tuple7_parse::<T0, T1, T2, T3, T4, T5, T6>(Input::whole(wire + rest)) == Ok::<
                (Seq<u8>, int),
                Failure,
            >((wire, wire.len() as int))
        }),
{
    let wire = (t0, t1, t2, t3, t4, t5, t6).encoding();
    let first = t0.encoding();
    let others = (t1, t2, t3, t4, t5, t6).encoding();
    assert(wire == first + others);
    assert(wire + rest =~= first + (others + rest));
    t0.lemma_round_trip(others + rest);
    Input::lemma_whole_parts(first + (others + rest), first.len() as int);
    assert((first + (others + rest)).skip(first.len() as int) =~= others + rest);
    lemma_tuple6_round_trip(t1, t2, t3, t4, t5, t6, rest);
}

/// 8 members are read back from their wire forms, whatever follows them.
pub proof fn lemma_tuple8_round_trip<
    'a,
    T0: RoundTrip<'a>,
    T1: RoundTrip<'a>,
    T2: RoundTrip<'a>,
    T3: RoundTrip<'a>,
    T4: RoundTrip<'a>,
    T5: RoundTrip<'a>,
    T6: RoundTrip<'a>,
    T7: RoundTrip<'a>,
>(
    t0: T0,
    t1: T1,
    t2: T2,
    t3: T3,
    t4: T4,
    t5: T5,
    t6: T6,
    t7: T7,
    rest: Seq<u8>,
)
    requires
        (t0, t1, t2, t3, t4, t5, t6, t7).encoding().len() + rest.len() <= usize::MAX,
    ensures
        ({
            let wire = (t0, t1, t2, t3, t4, t5, t6, t7).encoding();
            tuple8_parse::<T0, T1, T2, T3, T4, T5, T6, T7>(Input::whole(wire + rest)) == Ok::<
                (Seq<u8>, int),
                Failure,
            >((wire, wire.len() as int))
        }),
{
    let wire = (t0, t1, t2, t3, t4, t5, t6, t7).encoding();
    let first = t0.encoding();
    let others = (t1, t2, t3, t4, t5, t6, t7).encoding();
    assert(wire == first + others);
    assert(wire + rest =~= first + (others + rest));
    t0.lemma_round_trip(others + rest);
    Input::lemma_whole_parts(first + (others + rest), first.len() as int);
    assert((first + (others + rest)).skip(first.len() as int) =~= others + rest);
    lemma_tuple7_round_trip(t1, t2, t3, t4, t5, t6, t7, rest);
}

/// 9 members are read back from their wire forms, whatever follows them.
pub proof fn lemma_tuple9_round_trip<
    'a,
    T0: RoundTrip<'a>,
    T1: RoundTrip<'a>,
    T2: RoundTrip<'a>,
    T3: RoundTrip<'a>,
    T4: RoundTrip<'a>,
    T5: RoundTrip<'a>,
    T6: RoundTrip<'a>,
    T7: RoundTrip<'a>,
    T8: RoundTrip<'a>,
>(
    t0: T0,
    t1: T1,
    t2: T2,
    t3: T3,
    t4: T4,
    t5: T5,
    t6: T6,
    t7: T7,
    t8: T8,
    rest: Seq<u8>,
)
    requires
        (t0, t1, t2, t3, t4, t5, t6, t7, t8).encoding().len() + rest.len() <= usize::MAX,
    ensures
        ({
            let wire = (t0, t1, t2, t3, t4, t5, t6, t7, t8).encoding();
            tuple9_parse::<T0, T1, T2, T3, T4, T5, T6, T7, T8>(Input::whole(wire + rest)) == Ok::<
                (Seq<u8>, int),
                Failure,
            >((wire, wire.len() as int))
        }),
{
    let wire = (t0, t1, t2, t3, t4, t5, t6, t7, t8).encoding();
    let first = t0.encoding();
    let others = (t1, t2, t3, t4, t5, t6, t7, t8).encoding();
    assert(wire == first + others);
    assert(wire + rest =~= first + (others + rest));
    t0.lemma_round_trip(others + rest);
    Input::lemma_whole_parts(first + (others + rest), first.len() as int);
    assert((first + (others + rest)).skip(first.len() as int) =~= others + rest);
    lemma_tuple8_round_trip(t1, t2, t3, t4, t5, t6, t7, t8, rest);
}

/// 10 members are read back from their wire forms, whatever follows them.
pub proof fn lemma_tuple10_round_trip<
    'a,
    T0: RoundTrip<'a>,
    T1: RoundTrip<'a>,
    T2: RoundTrip<'a>,
    T3: RoundTrip<'a>,
    T4: RoundTrip<'a>,
    T5: RoundTrip<'a>,
    T6: RoundTrip<'a>,
    T7: RoundTrip<'a>,
    T8: RoundTrip<'a>,
    T9: RoundTrip<'a>,
>(
    t0: T0,
    t1: T1,
    t2: T2,
    t3: T3,
    t4: T4,
    t5: T5,
    t6: T6,
    t7: T7,
    t8: T8,
    t9: T9,
    rest: Seq<u8>,
)
    requires
        (t0, t1, t2, t3, t4, t5, t6, t7, t8, t9).encoding().len() + rest.len() <= usize::MAX,
    ensures
        ({
            let wire = (t0, t1, t2, t3, t4, t5, t6, t7, t8, t9).encoding();
            tuple10_parse::<
                T0, T1, T2, T3, T4, T5, T6, T7, T8, T9,
            >(Input::whole(wire + rest)) == Ok::<
                (Seq<u8>, int),
                Failure,
            >((wire, wire.len() as int))
        }),
{
    let wire = (t0, t1, t2, t3, t4, t5, t6, t7, t8, t9).encoding();
    let first = t0.encoding();
    let others = (t1, t2, t3, t4, t5, t6, t7, t8, t9).encoding();
    assert(wire == first + others);
    assert(wire + rest =~= first + (others + rest));
    t0.lemma_round_trip(others + rest);
    Input::lemma_whole_parts(first + (others + rest), first.len() as int);
    assert((first + (others + rest)).skip(first.len() as int) =~= others + rest);
    lemma_tuple9_round_trip(t1, t2, t3, t4, t5, t6, t7, t8, t9, rest);
}

/// 11 members are read back from their wire forms, whatever follows them.
pub proof fn lemma_tuple11_round_trip<
    'a,
    T0: RoundTrip<'a>,
    T1: RoundTrip<'a>,
    T2: RoundTrip<'a>,
    T3: RoundTrip<'a>,
    T4: RoundTrip<'a>,
    T5: RoundTrip<'a>,
    T6: RoundTrip<'a>,
    T7: RoundTrip<'a>,
    T8: RoundTrip<'a>,
    T9: RoundTrip<'a>,
    T10: RoundTrip<'a>,
>(
    t0: T0,
    t1: T1,
    t2: T2,
    t3: T3,
    t4: T4,
    t5: T5,
    t6: T6,
    t7: T7,
    t8: T8,
    t9: T9,
    t10: T10,
    rest: Seq<u8>,
)
    requires
        (t0, t1, t2, t3, t4, t5, t6, t7, t8, t9, t10).encoding().len() + rest.len() <= usize::MAX,
    ensures
        ({
            let wire = (
                t0,
                t1,
                t2,
                t3,
                t4,
                t5,
                t6,
                t7,
                t8,
                t9,
                t10,
            ).encoding();
            tuple11_parse::<
                T0, T1, T2, T3, T4, T5, T6, T7, T8, T9, T10,
            >(Input::whole(wire + rest)) == Ok::<
                (Seq<u8>, int),
                Failure,
            >((wire, wire.len() as int))
        }),
{
    let wire = (t0, t1, t2, t3, t4, t5, t6, t7, t8, t9, t10).encoding();
    let first = t0.encoding();
    let others = (t1, t2, t3, t4, t5, t6, t7, t8, t9, t10).encoding();
    assert(wire == first + others);
    assert(wire + rest =~= first + (others + rest));
    t0.lemma_round_trip(others + rest);
    Input::lemma_whole_parts(first + (others + rest), first.len() as int);
    assert((first + (others + rest)).skip(first.len() as int) =~= others + rest);
    lemma_tuple10_round_trip(t1, t2, t3, t4, t5, t6, t7, t8, t9, t10, rest);
}

/// 12 members are read back from their wire forms, whatever follows them.
pub proof fn lemma_tuple12_round_trip<
    'a,
    T0: RoundTrip<'a>,
    T1: RoundTrip<'a>,
    T2: RoundTrip<'a>,
    T3: RoundTrip<'a>,
    T4: RoundTrip<'a>,
    T5: RoundTrip<'a>,
    T6: RoundTrip<'a>,
    T7: RoundTrip<'a>,
    T8: RoundTrip<'a>,
    T9: RoundTrip<'a>,
    T10: RoundTrip<'a>,
    T11: RoundTrip<'a>,
>(
    t0: T0,
    t1: T1,
    t2: T2,
    t3: T3,
    t4: T4,
    t5: T5,
    t6: T6,
    t7: T7,
    t8: T8,
    t9: T9,
    t10: T10,
    t11: T11,
    rest: Seq<u8>,
)
    requires
        (
            t0,
            t1,
            t2,
            t3,
            t4,
            t5,
            t6,
            t7,
            t8,
            t9,
            t10,
            t11,
        ).encoding().len() + rest.len() <= usize::MAX,
    ensures
        ({
            let wire = (
                t0,
                t1,
                t2,
                t3,
                t4,
                t5,
                t6,
                t7,
                t8,
                t9,
                t10,
                t11,
            ).encoding();
            tuple12_parse::<
                T0, T1, T2, T3, T4, T5, T6, T7, T8, T9, T10, T11,
            >(Input::whole(wire + rest)) == Ok::<
                (Seq<u8>, int),
                Failure,
            >((wire, wire.len() as int))
        }),
{
    let wire = (t0, t1, t2, t3, t4, t5, t6, t7, t8, t9, t10, t11).encoding();
    let first = t0.encoding();
    let others = (t1, t2, t3, t4, t5, t6, t7, t8, t9, t10, t11).encoding();
    assert(wire == first + others);
    assert(wire + rest =~= first + (others + rest));
    t0.lemma_round_trip(others + rest);
    Input::lemma_whole_parts(first + (others + rest), first.len() as int);
    assert((first + (others + rest)).skip(first.len() as int) =~= others + rest);
    lemma_tuple11_round_trip(t1, t2, t3, t4, t5, t6, t7, t8, t9, t10, t11, rest);
}

/// 13 members are read back from their wire forms, whatever follows them.
pub proof fn lemma_tuple13_round_trip<
    'a,
    T0: RoundTrip<'a>,
    T1: RoundTrip<'a>,
    T2: RoundTrip<'a>,
    T3: RoundTrip<'a>,
    T4: RoundTrip<'a>,
    T5: RoundTrip<'a>,
    T6: RoundTrip<'a>,
    T7: RoundTrip<'a>,
    T8: RoundTrip<'a>,
    T9: RoundTrip<'a>,
    T10: RoundTrip<'a>,
    T11: RoundTrip<'a>,
    T12: RoundTrip<'a>,
>(
    t0: T0,
    t1: T1,
    t2: T2,
    t3: T3,
    t4: T4,
    t5: T5,
    t6: T6,
    t7: T7,
    t8: T8,
    t9: T9,
    t10: T10,
    t11: T11,
    t12: T12,
    rest: Seq<u8>,
)
    requires
        (
            t0,
            t1,
            t2,
            t3,
            t4,
            t5,
            t6,
            t7,
            t8,
            t9,
            t10,
            t11,
            t12,
        ).encoding().len() + rest.len() <= usize::MAX,
    ensures
        ({
            let wire = (
                t0,
                t1,
                t2,
                t3,
                t4,
                t5,
                t6,
                t7,
                t8,
                t9,
                t10,
                t11,
                t12,
            ).encoding();
            tuple13_parse::<
                T0, T1, T2, T3, T4, T5, T6, T7, T8, T9, T10, T11, T12,
            >(Input::whole(wire + rest)) == Ok::<
                (Seq<u8>, int),
                Failure,
            >((wire, wire.len() as int))
        }),
{
    let wire = (
        t0,
        t1,
        t2,
        t3,
        t4,
        t5,
        t6,
        t7,
        t8,
        t9,
        t10,
        t11,
        t12,
    ).encoding();
    let first = t0.encoding();
    let others = (t1, t2, t3, t4, t5, t6, t7, t8, t9, t10, t11, t12).encoding();
    assert(wire == first + others);
    assert(wire + rest =~= first + (others + rest));
    t0.lemma_round_trip(others + rest);
    Input::lemma_whole_parts(first + (others + rest), first.len() as int);
    assert((first + (others + rest)).skip(first.len() as int) =~= others + rest);
    lemma_tuple12_round_trip(t1, t2, t3, t4, t5, t6, t7, t8, t9, t10, t11, t12, rest);
}

/// 14 members are read back from their wire forms, whatever follows them.
pub proof fn lemma_tuple14_round_trip<
    'a,
    T0: RoundTrip<'a>,
    T1: RoundTrip<'a>,
    T2: RoundTrip<'a>,
    T3: RoundTrip<'a>,
    T4: RoundTrip<'a>,
    T5: RoundTrip<'a>,
    T6: RoundTrip<'a>,
    T7: RoundTrip<'a>,
    T8: RoundTrip<'a>,
    T9: RoundTrip<'a>,
    T10: RoundTrip<'a>,
    T11: RoundTrip<'a>,
    T12: RoundTrip<'a>,
    T13: RoundTrip<'a>,
>(
    t0: T0,
    t1: T1,
    t2: T2,
    t3: T3,
    t4: T4,
    t5: T5,
    t6: T6,
    t7: T7,
    t8: T8,
    t9: T9,
    t10: T10,
    t11: T11,
    t12: T12,
    t13: T13,
    rest: Seq<u8>,
)
    requires
        (
            t0,
            t1,
            t2,
            t3,
            t4,
            t5,
            t6,
            t7,
            t8,
            t9,
            t10,
            t11,
            t12,
            t13,
        ).encoding().len() + rest.len() <= usize::MAX,
    ensures
        ({
            let wire = (
                t0,
                t1,
                t2,
                t3,
                t4,
                t5,
                t6,
                t7,
                t8,
                t9,
                t10,
                t11,
                t12,
                t13,
            ).encoding();
            tuple14_parse::<
                T0, T1, T2, T3, T4, T5, T6, T7, T8, T9, T10, T11, T12, T13,
            >(Input::whole(wire + rest)) == Ok::<
                (Seq<u8>, int),
                Failure,
            >((wire, wire.len() as int))
        }),
{
    let wire = (
        t0,
        t1,
        t2,
        t3,
        t4,
        t5,
        t6,
        t7,
        t8,
        t9,
        t10,
        t11,
        t12,
        t13,
    ).encoding();
    let first = t0.encoding();
    let others = (t1, t2, t3, t4, t5, t6, t7, t8, t9, t10, t11, t12, t13).encoding();
    assert(wire == first + others);
    assert(wire + rest =~= first + (others + rest));
    t0.lemma_round_trip(others + rest);
    Input::lemma_whole_parts(first + (others + rest), first.len() as int);
    assert((first + (others + rest)).skip(first.len() as int) =~= others + rest);
    lemma_tuple13_round_trip(t1, t2, t3, t4, t5, t6, t7, t8, t9, t10, t11, t12, t13, rest);
}

/// 15 members are read back from their wire forms, whatever follows them.
pub proof fn lemma_tuple15_round_trip<
    'a,
    T0: RoundTrip<'a>,
    T1: RoundTrip<'a>,
    T2: RoundTrip<'a>,
    T3: RoundTrip<'a>,
    T4: RoundTrip<'a>,
    T5: RoundTrip<'a>,
    T6: RoundTrip<'a>,
    T7: RoundTrip<'a>,
    T8: RoundTrip<'a>,
    T9: RoundTrip<'a>,
    T10: RoundTrip<'a>,
    T11: RoundTrip<'a>,
    T12: RoundTrip<'a>,
    T13: RoundTrip<'a>,
    T14: RoundTrip<'a>,
>(
    t0: T0,
    t1: T1,
    t2: T2,
    t3: T3,
    t4: T4,
    t5: T5,
    t6: T6,
    t7: T7,
    t8: T8,
    t9: T9,
    t10: T10,
    t11: T11,
    t12: T12,
    t13: T13,
    t14: T14,
    rest: Seq<u8>,
)
    requires
        (
            t0,
            t1,
            t2,
            t3,
            t4,
            t5,
            t6,
            t7,
            t8,
            t9,
            t10,
            t11,
            t12,
            t13,
            t14,
        ).encoding().len() + rest.len() <= usize::MAX,
    ensures
        ({
            let wire = (
                t0,
                t1,
                t2,
                t3,
                t4,
                t5,
                t6,
                t7,
                t8,
                t9,
                t10,
                t11,
                t12,
                t13,
                t14,
            ).encoding();
            tuple15_parse::<
                T0, T1, T2, T3, T4, T5, T6, T7, T8, T9, T10, T11, T12, T13, T14,
            >(Input::whole(wire + rest)) == Ok::<
                (Seq<u8>, int),
                Failure,
            >((wire, wire.len() as int))
        }),
{
    let wire = (
        t0,
        t1,
        t2,
        t3,
        t4,
        t5,
        t6,
        t7,
        t8,
        t9,
        t10,
        t11,
        t12,
        t13,
        t14,
    ).encoding();
    let first = t0.encoding();
    let others = (t1, t2, t3, t4, t5, t6, t7, t8, t9, t10, t11, t12, t13, t14).encoding();
    assert(wire == first + others);
    assert(wire + rest =~= first + (others + rest));
    t0.lemma_round_trip(others + rest);
    Input::lemma_whole_parts(first + (others + rest), first.len() as int);
    assert((first + (others + rest)).skip(first.len() as int) =~= others + rest);
    lemma_tuple14_round_trip(t1, t2, t3, t4, t5, t6, t7, t8, t9, t10, t11, t12, t13, t14, rest);
}

/// 16 members are read back from their wire forms, whatever follows them.
pub proof fn lemma_tuple16_round_trip<
    'a,
    T0: RoundTrip<'a>,
    T1: RoundTrip<'a>,
    T2: RoundTrip<'a>,
    T3: RoundTrip<'a>,
    T4: RoundTrip<'a>,
    T5: RoundTrip<'a>,
    T6: RoundTrip<'a>,
    T7: RoundTrip<'a>,
    T8: RoundTrip<'a>,
    T9: RoundTrip<'a>,
    T10: RoundTrip<'a>,
    T11: RoundTrip<'a>,
    T12: RoundTrip<'a>,
    T13: RoundTrip<'a>,
    T14: RoundTrip<'a>,
    T15: RoundTrip<'a>,
>(
    t0: T0,
    t1: T1,
    t2: T2,
    t3: T3,
    t4: T4,
    t5: T5,
    t6: T6,
    t7: T7,
    t8: T8,
    t9: T9,
    t10: T10,
    t11: T11,
    t12: T12,
    t13: T13,
    t14: T14,
    t15: T15,
    rest: Seq<u8>,
)
    requires
        (
            t0,
            t1,
            t2,
            t3,
            t4,
            t5,
            t6,
            t7,
            t8,
            t9,
            t10,
            t11,
            t12,
            t13,
            t14,
            t15,
        ).encoding().len() + rest.len() <= usize::MAX,
    ensures
        ({
            let wire = (
                t0,
                t1,
                t2,
                t3,
                t4,
                t5,
                t6,
                t7,
                t8,
                t9,
                t10,
                t11,
                t12,
                t13,
                t14,
                t15,
            ).encoding();
            tuple16_parse::<
                T0, T1, T2, T3, T4, T5, T6, T7, T8, T9, T10, T11, T12, T13, T14, T15,
            >(Input::whole(wire + rest)) == Ok::<
                (Seq<u8>, int),
                Failure,
            >((wire, wire.len() as int))
        }),
{
    let wire = (
        t0,
        t1,
        t2,
        t3,
        t4,
        t5,
        t6,
        t7,
        t8,
        t9,
        t10,
        t11,
        t12,
        t13,
        t14,
        t15,
    ).encoding();
    let first = t0.encoding();
    let others = (t1, t2, t3, t4, t5, t6, t7, t8, t9, t10, t11, t12, t13, t14, t15).encoding();
    assert(wire == first + others);
    assert(wire + rest =~= first + (others + rest));
    t0.lemma_round_trip(others + rest);
    Input::lemma_whole_parts(first + (others + rest), first.len() as int);
    assert((first + (others + rest)).skip(first.len() as int) =~= others + rest);
    lemma_tuple15_round_trip(
        t1,
        t2,
        t3,
        t4,
        t5,
        t6,
        t7,
        t8,
        t9,
        t10,
        t11,
        t12,
        t13,
        t14,
        t15,
        rest,
    );
}

/// 2 members are read alike from inputs with the same bytes.
pub proof fn lemma_tuple2_pieces_ignored<'a, T0: Owning<'a>, T1: Owning<'a>>(a: Input, b: Input)
    requires
        a.bytes == b.bytes,
    ensures
        tuple2_parse::<T0, T1>(a) == tuple2_parse::<T0, T1>(b),
{
    T0::lemma_pieces_ignored(a, b);
    if let Ok((_, used)) = T0::parse(a) {
        T1::lemma_pieces_ignored(a.skip(used), b.skip(used));
    }
}

/// 3 members are read alike from inputs with the same bytes.
pub proof fn lemma_tuple3_pieces_ignored<
    'a,
    T0: Owning<'a>,
    T1: Owning<'a>,
    T2: Owning<'a>,
>(a: Input, b: Input)
    requires
        a.bytes == b.bytes,
    ensures
        tuple3_parse::<T0, T1, T2>(a) == tuple3_parse::<T0, T1, T2>(b),
{
    T0::lemma_pieces_ignored(a, b);
    if let Ok((_, used)) = T0::parse(a) {
        lemma_tuple2_pieces_ignored::<T1, T2>(a.skip(used), b.skip(used));
    }
}

/// 4 members are read alike from inputs with the same bytes.
pub proof fn lemma_tuple4_pieces_ignored<
    'a,
    T0: Owning<'a>,
    T1: Owning<'a>,
    T2: Owning<'a>,
    T3: Owning<'a>,
>(a: Input, b: Input)
    requires
        a.bytes == b.bytes,
    ensures
        tuple4_parse::<T0, T1, T2, T3>(a) == tuple4_parse::<T0, T1, T2, T3>(b),
{
    T0::lemma_pieces_ignored(a, b);
    if let Ok((_, used)) = T0::parse(a) {
        lemma_tuple3_pieces_ignored::<T1, T2, T3>(a.skip(used), b.skip(used));
    }
}

/// 5 members are read alike from inputs with the same bytes.
pub proof fn lemma_tuple5_pieces_ignored<
    'a,
    T0: Owning<'a>,
    T1: Owning<'a>,
    T2: Owning<'a>,
    T3: Owning<'a>,
    T4: Owning<'a>,
>(a: Input, b: Input)
    requires
        a.bytes == b.bytes,
    ensures
        tuple5_parse::<T0, T1, T2, T3, T4>(a) == tuple5_parse::<T0, T1, T2, T3, T4>(b),
{
    T0::lemma_pieces_ignored(a, b);
    if let Ok((_, used)) = T0::parse(a) {
        lemma_tuple4_pieces_ignored::<T1, T2, T3, T4>(a.skip(used), b.skip(used));
    }
}

/// 6 members are read alike from inputs with the same bytes.
pub proof fn lemma_tuple6_pieces_ignored<
    'a,
    T0: Owning<'a>,
    T1: Owning<'a>,
    T2: Owning<'a>,
    T3: Owning<'a>,
    T4: Owning<'a>,
    T5: Owning<'a>,
>(a: Input, b: Input)
    requires
        a.bytes == b.bytes,
    ensures
        tuple6_parse::<T0, T1, T2, T3, T4, T5>(a) == tuple6_parse::<T0, T1, T2, T3, T4, T5>(b),
{
    T0::lemma_pieces_ignored(a, b);
    if let Ok((_, used)) = T0::parse(a) {
        lemma_tuple5_pieces_ignored::<T1, T2, T3, T4, T5>(a.skip(used), b.skip(used));
    }
}

/// 7 members are read alike from inputs with the same bytes.
pub proof fn lemma_tuple7_pieces_ignored<
    'a,
    T0: Owning<'a>,
    T1: Owning<'a>,
    T2: Owning<'a>,
    T3: Owning<'a>,
    T4: Owning<'a>,
    T5: Owning<'a>,
    T6: Owning<'a>,
>(a: Input, b: Input)
    requires
        a.bytes == b.bytes,
    ensures
        tuple7_parse::<T0, T1, T2, T3, T4, T5, T6>(a)
            == tuple7_parse::<T0, T1, T2, T3, T4, T5, T6>(b),
{
    T0::lemma_pieces_ignored(a, b);
    if let Ok((_, used)) = T0::parse(a) {
        lemma_tuple6_pieces_ignored::<T1, T2, T3, T4, T5, T6>(a.skip(used), b.skip(used));
    }
}

/// 8 members are read alike from inputs with the same bytes.
pub proof fn lemma_tuple8_pieces_ignored<
    'a,
    T0: Owning<'a>,
    T1: Owning<'a>,
    T2: Owning<'a>,
    T3: Owning<'a>,
    T4: Owning<'a>,
    T5: Owning<'a>,
    T6: Owning<'a>,
    T7: Owning<'a>,
>(a: Input, b: Input)
    requires
        a.bytes == b.bytes,
    ensures
        tuple8_parse::<T0, T1, T2, T3, T4, T5, T6, T7>(a)
            == tuple8_parse::<T0, T1, T2, T3, T4, T5, T6, T7>(b),
{
    T0::lemma_pieces_ignored(a, b);
    if let Ok((_, used)) = T0::parse(a) {
        lemma_tuple7_pieces_ignored::<T1, T2, T3, T4, T5, T6, T7>(a.skip(used), b.skip(used));
    }
}

/// 9 members are read alike from inputs with the same bytes.
pub proof fn lemma_tuple9_pieces_ignored<
    'a,
    T0: Owning<'a>,
    T1: Owning<'a>,
    T2: Owning<'a>,
    T3: Owning<'a>,
    T4: Owning<'a>,
    T5: Owning<'a>,
    T6: Owning<'a>,
    T7: Owning<'a>,
    T8: Owning<'a>,
>(a: Input, b: Input)
    requires
        a.bytes == b.bytes,
    ensures
        tuple9_parse::<T0, T1, T2, T3, T4, T5, T6, T7, T8>(a)
            == tuple9_parse::<T0, T1, T2, T3, T4, T5, T6, T7, T8>(b),
{
    T0::lemma_pieces_ignored(a, b);
    if let Ok((_, used)) = T0::parse(a) {
        lemma_tuple8_pieces_ignored::<
            T1, T2, T3, T4, T5, T6, T7, T8,
        >(a.skip(used), b.skip(used));
    }
}

/// 10 members are read alike from inputs with the same bytes.
pub proof fn lemma_tuple10_pieces_ignored<
    'a,
    T0: Owning<'a>,
    T1: Owning<'a>,
    T2: Owning<'a>,
    T3: Owning<'a>,
    T4: Owning<'a>,
    T5: Owning<'a>,
    T6: Owning<'a>,
    T7: Owning<'a>,
    T8: Owning<'a>,
    T9: Owning<'a>,
>(a: Input, b: Input)
    requires
        a.bytes == b.bytes,
    ensures
        tuple10_parse::<T0, T1, T2, T3, T4, T5, T6, T7, T8, T9>(a)
            == tuple10_parse::<T0, T1, T2, T3, T4, T5, T6, T7, T8, T9>(b),
{
    T0::lemma_pieces_ignored(a, b);
    if let Ok((_, used)) = T0::parse(a) {
        lemma_tuple9_pieces_ignored::<
            T1, T2, T3, T4, T5, T6, T7, T8, T9,
        >(a.skip(used), b.skip(used));
    }
}

/// 11 members are read alike from inputs with the same bytes.
pub proof fn lemma_tuple11_pieces_ignored<
    'a,
    T0: Owning<'a>,
    T1: Owning<'a>,
    T2: Owning<'a>,
    T3: Owning<'a>,
    T4: Owning<'a>,
    T5: Owning<'a>,
    T6: Owning<'a>,
    T7: Owning<'a>,
    T8: Owning<'a>,
    T9: Owning<'a>,
    T10: Owning<'a>,
>(a: Input, b: Input)
    requires
        a.bytes == b.bytes,
    ensures
        tuple11_parse::<T0, T1, T2, T3, T4, T5, T6, T7, T8, T9, T10>(a)
            == tuple11_parse::<T0, T1, T2, T3, T4, T5, T6, T7, T8, T9, T10>(b),
{
    T0::lemma_pieces_ignored(a, b);
    if let Ok((_, used)) = T0::parse(a) {
        lemma_tuple10_pieces_ignored::<
            T1, T2, T3, T4, T5, T6, T7, T8, T9, T10,
        >(a.skip(used), b.skip(used));
    }
}

/// 12 members are read alike from inputs with the same bytes.
pub proof fn lemma_tuple12_pieces_ignored<
    'a,
    T0: Owning<'a>,
    T1: Owning<'a>,
    T2: Owning<'a>,
    T3: Owning<'a>,
    T4: Owning<'a>,
    T5: Owning<'a>,
    T6: Owning<'a>,
    T7: Owning<'a>,
    T8: Owning<'a>,
    T9: Owning<'a>,
    T10: Owning<'a>,
    T11: Owning<'a>,
>(a: Input, b: Input)
    requires
        a.bytes == b.bytes,
    ensures
        tuple12_parse::<T0, T1, T2, T3, T4, T5, T6, T7, T8, T9, T10, T11>(a)
            == tuple12_parse::<T0, T1, T2, T3, T4, T5, T6, T7, T8, T9, T10, T11>(b),
{
    T0::lemma_pieces_ignored(a, b);
    if let Ok((_, used)) = T0::parse(a) {
        lemma_tuple11_pieces_ignored::<
            T1, T2, T3, T4, T5, T6, T7, T8, T9, T10, T11,
        >(a.skip(used), b.skip(used));
    }
}

/// 13 members are read alike from inputs with the same bytes.
pub proof fn lemma_tuple13_pieces_ignored<
    'a,
    T0: Owning<'a>,
    T1: Owning<'a>,
    T2: Owning<'a>,
    T3: Owning<'a>,
    T4: Owning<'a>,
    T5: Owning<'a>,
    T6: Owning<'a>,
    T7: Owning<'a>,
    T8: Owning<'a>,
    T9: Owning<'a>,
    T10: Owning<'a>,
    T11: Owning<'a>,
    T12: Owning<'a>,
>(a: Input, b: Input)
    requires
        a.bytes == b.bytes,
    ensures
        tuple13_parse::<T0, T1, T2, T3, T4, T5, T6, T7, T8, T9, T10, T11, T12>(a)
            == tuple13_parse::<T0, T1, T2, T3, T4, T5, T6, T7, T8, T9, T10, T11, T12>(b),
{
    T0::lemma_pieces_ignored(a, b);
    if let Ok((_, used)) = T0::parse(a) {
        lemma_tuple12_pieces_ignored::<
            T1, T2, T3, T4, T5, T6, T7, T8, T9, T10, T11, T12,
        >(a.skip(used), b.skip(used));
    }
}

/// 14 members are read alike from inputs with the same bytes.
pub proof fn lemma_tuple14_pieces_ignored<
    'a,
    T0: Owning<'a>,
    T1: Owning<'a>,
    T2: Owning<'a>,
    T3: Owning<'a>,
    T4: Owning<'a>,
    T5: Owning<'a>,
    T6: Owning<'a>,
    T7: Owning<'a>,
    T8: Owning<'a>,
    T9: Owning<'a>,
    T10: Owning<'a>,
    T11: Owning<'a>,
    T12: Owning<'a>,
    T13: Owning<'a>,
>(a: Input, b: Input)
    requires
        a.bytes == b.bytes,
    ensures
        tuple14_parse::<T0, T1, T2, T3, T4, T5, T6, T7, T8, T9, T10, T11, T12, T13>(a)
            == tuple14_parse::<T0, T1, T2, T3, T4, T5, T6, T7, T8, T9, T10, T11, T12, T13>(b),
{
    T0::lemma_pieces_ignored(a, b);
    if let Ok((_, used)) = T0::parse(a) {
        lemma_tuple13_pieces_ignored::<
            T1, T2, T3, T4, T5, T6, T7, T8, T9, T10, T11, T12, T13,
        >(a.skip(used), b.skip(used));
    }
}

/// 15 members are read alike from inputs with the same bytes.
pub proof fn lemma_tuple15_pieces_ignored<
    'a,
    T0: Owning<'a>,
    T1: Owning<'a>,
    T2: Owning<'a>,
    T3: Owning<'a>,
    T4: Owning<'a>,
    T5: Owning<'a>,
    T6: Owning<'a>,
    T7: Owning<'a>,
    T8: Owning<'a>,
    T9: Owning<'a>,
    T10: Owning<'a>,
    T11: Owning<'a>,
    T12: Owning<'a>,
    T13: Owning<'a>,
    T14: Owning<'a>,
>(a: Input, b: Input)
    requires
        a.bytes == b.bytes,
    ensures
        tuple15_parse::<T0, T1, T2, T3, T4, T5, T6, T7, T8, T9, T10, T11, T12, T13, T14>(a)
            == tuple15_parse::<T0, T1, T2, T3, T4, T5, T6, T7, T8, T9, T10, T11, T12, T13, T14>(b),
{
    T0::lemma_pieces_ignored(a, b);
    if let Ok((_, used)) = T0::parse(a) {
        lemma_tuple14_pieces_ignored::<
            T1, T2, T3, T4, T5, T6, T7, T8, T9, T10, T11, T12, T13, T14,
        >(a.skip(used), b.skip(used));
    }
}

/// 16 members are read alike from inputs with the same bytes.
pub proof fn lemma_tuple16_pieces_ignored<
    'a,
    T0: Owning<'a>,
    T1: Owning<'a>,
    T2: Owning<'a>,
    T3: Owning<'a>,
    T4: Owning<'a>,
    T5: Owning<'a>,
    T6: Owning<'a>,
    T7: Owning<'a>,
    T8: Owning<'a>,
    T9: Owning<'a>,
    T10: Owning<'a>,
    T11: Owning<'a>,
    T12: Owning<'a>,
    T13: Owning<'a>,
    T14: Owning<'a>,
    T15: Owning<'a>,
>(a: Input, b: Input)
    requires
        a.bytes == b.bytes,
    ensures
        tuple16_parse::<T0, T1, T2, T3, T4, T5, T6, T7, T8, T9, T10, T11, T12, T13, T14, T15>(a)
            == tuple16_parse::<
                T0, T1, T2, T3, T4, T5, T6, T7, T8, T9, T10, T11, T12, T13, T14, T15,
            >(b),
{
    T0::lemma_pieces_ignored(a, b);
    if let Ok((_, used)) = T0::parse(a) {
        lemma_tuple15_pieces_ignored::<
            T1, T2, T3, T4, T5, T6, T7, T8, T9, T10, T11, T12, T13, T14, T15,
        >(a.skip(used), b.skip(used));
    }
}

impl<T0: Serialize> Serialize for (T0,) {
    /// The wire forms of the members, the first one first.
    open spec fn encoding(&self) -> Seq<u8> {
        self.0.encoding()
    }

    fn serialize_to<S: Serializer>(&self, serializer: &mut S) -> (r: Result<()>) {
        let ghost start = serializer.sink();
        let ghost s0 = self.0.encoding();
        assert(self.encoding() == s0);
        self.0.serialize_to(serializer)?;
        Ok(())
    }
}

impl<'a, T0: Deserialize<'a>> Deserialize<'a> for (T0,) {
    open spec fn parse(input: Input) -> Parsed {
        T0::parse(input)
    }

    fn deserialize_from<D: Deserializer<'a>>(buf: &mut D) -> (r: Result<Self>) {
        let ghost input = buf.input();
        assert(Self::parse(input) == T0::parse(input));
        proof {
            buf.lemma_input_wf();
            input.lemma_skip_skip(0, 0);
        }
        let t0 = T0::deserialize_from(buf)?;
        let ghost u0 = T0::parse(input)->Ok_0.1;
        let value = (t0,);
        let ghost s0 = t0.encoding();
        assert(value.encoding() == s0);
        Ok(value)
    }
}

impl<'a, T0: RoundTrip<'a>> RoundTrip<'a> for (T0,) {
    proof fn lemma_round_trip(&self, rest: Seq<u8>) {
        assert(self.encoding() == self.0.encoding());
        self.0.lemma_round_trip(rest);
    }
}

impl<'a, T0: Owning<'a>> Owning<'a> for (T0,) {
    proof fn lemma_pieces_ignored(a: Input, b: Input) {
        T0::lemma_pieces_ignored(a, b);
    }
}

impl<T0: Serialize, T1: Serialize> Serialize for (T0, T1) {
    /// The wire forms of the members, the first one first.
    open spec fn encoding(&self) -> Seq<u8> {
        self.0.encoding()
            + (self.1.encoding())
    }

    fn serialize_to<S: Serializer>(&self, serializer: &mut S) -> (r: Result<()>) {
        let ghost start = serializer.sink();
        let ghost s1 = self.1.encoding();
        let ghost s0 = self.0.encoding() + s1;
        assert(self.encoding() == s0);
        self.1.serialize_to(serializer)?;
        proof {
            start.lemma_prepend_twice(s1, self.0.encoding());
        }
        self.0.serialize_to(serializer)?;
        Ok(())
    }
}

impl<'a, T0: Deserialize<'a>, T1: Deserialize<'a>> Deserialize<'a> for (T0, T1) {
    open spec fn parse(input: Input) -> Parsed {
        tuple2_parse::<T0, T1>(input)
    }

    fn deserialize_from<D: Deserializer<'a>>(buf: &mut D) -> (r: Result<Self>) {
        let ghost input = buf.input();
        assert(Self::parse(input) == tuple2_parse::<T0, T1>(input));
        proof {
            buf.lemma_input_wf();
            input.lemma_skip_skip(0, 0);
        }
        let t0 = T0::deserialize_from(buf)?;
        let ghost u0 = T0::parse(input)->Ok_0.1;
        let ghost i1 = buf.input();
        let t1 = T1::deserialize_from(buf)?;
        let ghost u1 = T1::parse(i1)->Ok_0.1;
        proof {
            input.lemma_skip_skip(u0, u1);
        }
        let value = (t0, t1);
        let ghost s1 = t1.encoding();
        let ghost s0 = t0.encoding() + s1;
        assert(value.encoding() == s0);
        Ok(value)
    }
}

impl<'a, T0: RoundTrip<'a>, T1: RoundTrip<'a>> RoundTrip<'a> for (T0, T1) {
    proof fn lemma_round_trip(&self, rest: Seq<u8>) {
        assert(*self == (self.0, self.1));
        lemma_tuple2_round_trip(self.0, self.1, rest);
    }
}

impl<'a, T0: Owning<'a>, T1: Owning<'a>> Owning<'a> for (T0, T1) {
    proof fn lemma_pieces_ignored(a: Input, b: Input) {
        lemma_tuple2_pieces_ignored::<T0, T1>(a, b);
    }
}

impl<T0: Serialize, T1: Serialize, T2: Serialize> Serialize for (T0, T1, T2) {
    /// The wire forms of the members, the first one first.
    open spec fn encoding(&self) -> Seq<u8> {
        self.0.encoding()
            + (self.1.encoding()
            + (self.2.encoding()))
    }

    fn serialize_to<S: Serializer>(&self, serializer: &mut S) -> (r: Result<()>) {
        let ghost start = serializer.sink();
        let ghost s2 = self.2.encoding();
        let ghost s1 = self.1.encoding() + s2;
        let ghost s0 = self.0.encoding() + s1;
        assert(self.encoding() == s0);
        self.2.serialize_to(serializer)?;
        proof {
            start.lemma_prepend_twice(s2, self.1.encoding());
        }
        self.1.serialize_to(serializer)?;
        proof {
            start.lemma_prepend_twice(s1, self.0.encoding());
        }
        self.0.serialize_to(serializer)?;
        Ok(())
    }
}

impl<
    'a,
    T0: Deserialize<'a>,
    T1: Deserialize<'a>,
    T2: Deserialize<'a>,
> Deserialize<'a> for (T0, T1, T2) {
    open spec fn parse(input: Input) -> Parsed {
        tuple3_parse::<T0, T1, T2>(input)
    }

    fn deserialize_from<D: Deserializer<'a>>(buf: &mut D) -> (r: Result<Self>) {
        let ghost input = buf.input();
        assert(Self::parse(input) == tuple3_parse::<T0, T1, T2>(input));
        proof {
            buf.lemma_input_wf();
            input.lemma_skip_skip(0, 0);
        }
        let t0 = T0::deserialize_from(buf)?;
        let ghost u0 = T0::parse(input)->Ok_0.1;
        let ghost i1 = buf.input();
        let t1 = T1::deserialize_from(buf)?;
        let ghost u1 = T1::parse(i1)->Ok_0.1;
        let ghost i2 = buf.input();
        proof {
            input.lemma_skip_skip(u0, u1);
        }
        let ghost c1 = u0 + u1;
        let t2 = T2::deserialize_from(buf)?;
        let ghost u2 = T2::parse(i2)->Ok_0.1;
        proof {
            input.lemma_skip_skip(c1, u2);
        }
        let value = (t0, t1, t2);
        let ghost s2 = t2.encoding();
        let ghost s1 = t1.encoding() + s2;
        let ghost s0 = t0.encoding() + s1;
        assert(value.encoding() == s0);
        Ok(value)
    }
}

impl<
    'a,
    T0: RoundTrip<'a>,
    T1: RoundTrip<'a>,
    T2: RoundTrip<'a>,
> RoundTrip<'a> for (T0, T1, T2) {
    proof fn lemma_round_trip(&self, rest: Seq<u8>) {
        assert(*self == (self.0, self.1, self.2));
        lemma_tuple3_round_trip(self.0, self.1, self.2, rest);
    }
}

impl<
    'a,
    T0: Owning<'a>,
    T1: Owning<'a>,
    T2: Owning<'a>,
> Owning<'a> for (T0, T1, T2) {
    proof fn lemma_pieces_ignored(a: Input, b: Input) {
        lemma_tuple3_pieces_ignored::<T0, T1, T2>(a, b);
    }
}

impl<
    T0: Serialize,
    T1: Serialize,
    T2: Serialize,
    T3: Serialize,
> Serialize for (T0, T1, T2, T3) {
    /// The wire forms of the members, the first one first.
    open spec fn encoding(&self) -> Seq<u8> {
        self.0.encoding()
            + (self.1.encoding()
            + (self.2.encoding()
            + (self.3.encoding())))
    }

    fn serialize_to<S: Serializer>(&self, serializer: &mut S) -> (r: Result<()>) {
        let ghost start = serializer.sink();
        let ghost s3 = self.3.encoding();
        let ghost s2 = self.2.encoding() + s3;
        let ghost s1 = self.1.encoding() + s2;
        let ghost s0 = self.0.encoding() + s1;
        assert(self.encoding() == s0);
        self.3.serialize_to(serializer)?;
        proof {
            start.lemma_prepend_twice(s3, self.2.encoding());
        }
        self.2.serialize_to(serializer)?;
        proof {
            start.lemma_prepend_twice(s2, self.1.encoding());
        }
        self.1.serialize_to(serializer)?;
        proof {
            start.lemma_prepend_twice(s1, self.0.encoding());
        }
        self.0.serialize_to(serializer)?;
        Ok(())
    }
}

impl<
    'a,
    T0: Deserialize<'a>,
    T1: Deserialize<'a>,
    T2: Deserialize<'a>,
    T3: Deserialize<'a>,
> Deserialize<'a> for (T0, T1, T2, T3) {
    open spec fn parse(input: Input) -> Parsed {
        tuple4_parse::<T0, T1, T2, T3>(input)
    }

    fn deserialize_from<D: Deserializer<'a>>(buf: &mut D) -> (r: Result<Self>) {
        let ghost input = buf.input();
        assert(Self::parse(input) == tuple4_parse::<T0, T1, T2, T3>(input));
        proof {
            buf.lemma_input_wf();
            input.lemma_skip_skip(0, 0);
        }
        let t0 = T0::deserialize_from(buf)?;
        let ghost u0 = T0::parse(input)->Ok_0.1;
        let ghost i1 = buf.input();
        let t1 = T1::deserialize_from(buf)?;
        let ghost u1 = T1::parse(i1)->Ok_0.1;
        let ghost i2 = buf.input();
        proof {
            input.lemma_skip_skip(u0, u1);
        }
        let ghost c1 = u0 + u1;
        let t2 = T2::deserialize_from(buf)?;
        let ghost u2 = T2::parse(i2)->Ok_0.1;
        let ghost i3 = buf.input();
        proof {
            input.lemma_skip_skip(c1, u2);
        }
        let ghost c2 = c1 + u2;
        let t3 = T3::deserialize_from(buf)?;
        let ghost u3 = T3::parse(i3)->Ok_0.1;
        proof {
            input.lemma_skip_skip(c2, u3);
        }
        let value = (t0, t1, t2, t3);
        let ghost s3 = t3.encoding();
        let ghost s2 = t2.encoding() + s3;
        let ghost s1 = t1.encoding() + s2;
        let ghost s0 = t0.encoding() + s1;
        assert(value.encoding() == s0);
        Ok(value)
    }
}

impl<
    'a,
    T0: RoundTrip<'a>,
    T1: RoundTrip<'a>,
    T2: RoundTrip<'a>,
    T3: RoundTrip<'a>,
> RoundTrip<'a> for (T0, T1, T2, T3) {
    proof fn lemma_round_trip(&self, rest: Seq<u8>) {
        assert(*self == (self.0, self.1, self.2, self.3));
        lemma_tuple4_round_trip(self.0, self.1, self.2, self.3, rest);
    }
}

impl<
    'a,
    T0: Owning<'a>,
    T1: Owning<'a>,
    T2: Owning<'a>,
    T3: Owning<'a>,
> Owning<'a> for (T0, T1, T2, T3) {
    proof fn lemma_pieces_ignored(a: Input, b: Input) {
        lemma_tuple4_pieces_ignored::<T0, T1, T2, T3>(a, b);
    }
}

impl<
    T0: Serialize,
    T1: Serialize,
    T2: Serialize,
    T3: Serialize,
    T4: Serialize,
> Serialize for (T0, T1, T2, T3, T4) {
    /// The wire forms of the members, the first one first.
    open spec fn encoding(&self) -> Seq<u8> {
        self.0.encoding()
            + (self.1.encoding()
            + (self.2.encoding()
            + (self.3.encoding()
            + (self.4.encoding()))))
    }

    fn serialize_to<S: Serializer>(&self, serializer: &mut S) -> (r: Result<()>) {
        let ghost start = serializer.sink();
        let ghost s4 = self.4.encoding();
        let ghost s3 = self.3.encoding() + s4;
        let ghost s2 = self.2.encoding() + s3;
        let ghost s1 = self.1.encoding() + s2;
        let ghost s0 = self.0.encoding() + s1;
        assert(self.encoding() == s0);
        self.4.serialize_to(serializer)?;
        proof {
            start.lemma_prepend_twice(s4, self.3.encoding());
        }
        self.3.serialize_to(serializer)?;
        proof {
            start.lemma_prepend_twice(s3, self.2.encoding());
        }
        self.2.serialize_to(serializer)?;
        proof {
            start.lemma_prepend_twice(s2, self.1.encoding());
        }
        self.1.serialize_to(serializer)?;
        proof {
            start.lemma_prepend_twice(s1, self.0.encoding());
        }
        self.0.serialize_to(serializer)?;
        Ok(())
    }
}

impl<
    'a,
    T0: Deserialize<'a>,
    T1: Deserialize<'a>,
    T2: Deserialize<'a>,
    T3: Deserialize<'a>,
    T4: Deserialize<'a>,
> Deserialize<'a> for (T0, T1, T2, T3, T4) {
    open spec fn parse(input: Input) -> Parsed {
        tuple5_parse::<T0, T1, T2, T3, T4>(input)
    }

    fn deserialize_from<D: Deserializer<'a>>(buf: &mut D) -> (r: Result<Self>) {
        let ghost input = buf.input();
        assert(Self::parse(input) == tuple5_parse::<T0, T1, T2, T3, T4>(input));
        proof {
            buf.lemma_input_wf();
            input.lemma_skip_skip(0, 0);
        }
        let t0 = T0::deserialize_from(buf)?;
        let ghost u0 = T0::parse(input)->Ok_0.1;
        let ghost i1 = buf.input();
        let t1 = T1::deserialize_from(buf)?;
        let ghost u1 = T1::parse(i1)->Ok_0.1;
        let ghost i2 = buf.input();
        proof {
            input.lemma_skip_skip(u0, u1);
        }
        let ghost c1 = u0 + u1;
        let t2 = T2::deserialize_from(buf)?;
        let ghost u2 = T2::parse(i2)->Ok_0.1;
        let ghost i3 = buf.input();
        proof {
            input.lemma_skip_skip(c1, u2);
        }
        let ghost c2 = c1 + u2;
        let t3 = T3::deserialize_from(buf)?;
        let ghost u3 = T3::parse(i3)->Ok_0.1;
        let ghost i4 = buf.input();
        proof {
            input.lemma_skip_skip(c2, u3);
        }
        let ghost c3 = c2 + u3;
        let t4 = T4::deserialize_from(buf)?;
        let ghost u4 = T4::parse(i4)->Ok_0.1;
        proof {
            input.lemma_skip_skip(c3, u4);
        }
        let value = (t0, t1, t2, t3, t4);
        let ghost s4 = t4.encoding();
        let ghost s3 = t3.encoding() + s4;
        let ghost s2 = t2.encoding() + s3;
        let ghost s1 = t1.encoding() + s2;
        let ghost s0 = t0.encoding() + s1;
        assert(value.encoding() == s0);
        Ok(value)
    }
}

impl<
    'a,
    T0: RoundTrip<'a>,
    T1: RoundTrip<'a>,
    T2: RoundTrip<'a>,
    T3: RoundTrip<'a>,
    T4: RoundTrip<'a>,
> RoundTrip<'a> for (T0, T1, T2, T3, T4) {
    proof fn lemma_round_trip(&self, rest: Seq<u8>) {
        assert(*self == (self.0, self.1, self.2, self.3, self.4));
        lemma_tuple5_round_trip(self.0, self.1, self.2, self.3, self.4, rest);
    }
}

impl<
    'a,
    T0: Owning<'a>,
    T1: Owning<'a>,
    T2: Owning<'a>,
    T3: Owning<'a>,
    T4: Owning<'a>,
> Owning<'a> for (T0, T1, T2, T3, T4) {
    proof fn lemma_pieces_ignored(a: Input, b: Input) {
        lemma_tuple5_pieces_ignored::<T0, T1, T2, T3, T4>(a, b);
    }
}

impl<
    T0: Serialize,
    T1: Serialize,
    T2: Serialize,
    T3: Serialize,
    T4: Serialize,
    T5: Serialize,
> Serialize for (T0, T1, T2, T3, T4, T5) {
    /// The wire forms of the members, the first one first.
    open spec fn encoding(&self) -> Seq<u8> {
        self.0.encoding()
            + (self.1.encoding()
            + (self.2.encoding()
            + (self.3.encoding()
            + (self.4.encoding()
            + (self.5.encoding())))))
    }

    fn serialize_to<S: Serializer>(&self, serializer: &mut S) -> (r: Result<()>) {
        let ghost start = serializer.sink();
        let ghost s5 = self.5.encoding();
        let ghost s4 = self.4.encoding() + s5;
        let ghost s3 = self.3.encoding() + s4;
        let ghost s2 = self.2.encoding() + s3;
        let ghost s1 = self.1.encoding() + s2;
        let ghost s0 = self.0.encoding() + s1;
        assert(self.encoding() == s0);
        self.5.serialize_to(serializer)?;
        proof {
            start.lemma_prepend_twice(s5, self.4.encoding());
        }
        self.4.serialize_to(serializer)?;
        proof {
            start.lemma_prepend_twice(s4, self.3.encoding());
        }
        self.3.serialize_to(serializer)?;
        proof {
            start.lemma_prepend_twice(s3, self.2.encoding());
        }
        self.2.serialize_to(serializer)?;
        proof {
            start.lemma_prepend_twice(s2, self.1.encoding());
        }
        self.1.serialize_to(serializer)?;
        proof {
            start.lemma_prepend_twice(s1, self.0.encoding());
        }
        self.0.serialize_to(serializer)?;
        Ok(())
    }
}

impl<
    'a,
    T0: Deserialize<'a>,
    T1: Deserialize<'a>,
    T2: Deserialize<'a>,
    T3: Deserialize<'a>,
    T4: Deserialize<'a>,
    T5: Deserialize<'a>,
> Deserialize<'a> for (T0, T1, T2, T3, T4, T5) {
    open spec fn parse(input: Input) -> Parsed {
        tuple6_parse::<T0, T1, T2, T3, T4, T5>(input)
    }

    fn deserialize_from<D: Deserializer<'a>>(buf: &mut D) -> (r: Result<Self>) {
        let ghost input = buf.input();
        assert(Self::parse(input) == tuple6_parse::<T0, T1, T2, T3, T4, T5>(input));
        proof {
            buf.lemma_input_wf();
            input.lemma_skip_skip(0, 0);
        }
        let t0 = T0::deserialize_from(buf)?;
        let ghost u0 = T0::parse(input)->Ok_0.1;
        let ghost i1 = buf.input();
        let t1 = T1::deserialize_from(buf)?;
        let ghost u1 = T1::parse(i1)->Ok_0.1;
        let ghost i2 = buf.input();
        proof {
            input.lemma_skip_skip(u0, u1);
        }
        let ghost c1 = u0 + u1;
        let t2 = T2::deserialize_from(buf)?;
        let ghost u2 = T2::parse(i2)->Ok_0.1;
        let ghost i3 = buf.input();
        proof {
            input.lemma_skip_skip(c1, u2);
        }
        let ghost c2 = c1 + u2;
        let t3 = T3::deserialize_from(buf)?;
        let ghost u3 = T3::parse(i3)->Ok_0.1;
        let ghost i4 = buf.input();
        proof {
            input.lemma_skip_skip(c2, u3);
        }
        let ghost c3 = c2 + u3;
        let t4 = T4::deserialize_from(buf)?;
        let ghost u4 = T4::parse(i4)->Ok_0.1;
        let ghost i5 = buf.input();
        proof {
            input.lemma_skip_skip(c3, u4);
        }
        let ghost c4 = c3 + u4;
        let t5 = T5::deserialize_from(buf)?;
        let ghost u5 = T5::parse(i5)->Ok_0.1;
        proof {
            input.lemma_skip_skip(c4, u5);
        }
        let value = (t0, t1, t2, t3, t4, t5);
        let ghost s5 = t5.encoding();
        let ghost s4 = t4.encoding() + s5;
        let ghost s3 = t3.encoding() + s4;
        let ghost s2 = t2.encoding() + s3;
        let ghost s1 = t1.encoding() + s2;
        let ghost s0 = t0.encoding() + s1;
        assert(value.encoding() == s0);
        Ok(value)
    }
}

impl<
    'a,
    T0: RoundTrip<'a>,
    T1: RoundTrip<'a>,
    T2: RoundTrip<'a>,
    T3: RoundTrip<'a>,
    T4: RoundTrip<'a>,
    T5: RoundTrip<'a>,
> RoundTrip<'a> for (T0, T1, T2, T3, T4, T5) {
    proof fn lemma_round_trip(&self, rest: Seq<u8>) {
        assert(*self == (self.0, self.1, self.2, self.3, self.4, self.5));
        lemma_tuple6_round_trip(self.0, self.1, self.2, self.3, self.4, self.5, rest);
    }
}

impl<
    'a,
    T0: Owning<'a>,
    T1: Owning<'a>,
    T2: Owning<'a>,
    T3: Owning<'a>,
    T4: Owning<'a>,
    T5: Owning<'a>,
> Owning<'a> for (T0, T1, T2, T3, T4, T5) {
    proof fn lemma_pieces_ignored(a: Input, b: Input) {
        lemma_tuple6_pieces_ignored::<T0, T1, T2, T3, T4, T5>(a, b);
    }
}

impl<
    T0: Serialize,
    T1: Serialize,
    T2: Serialize,
    T3: Serialize,
    T4: Serialize,
    T5: Serialize,
    T6: Serialize,
> Serialize for (T0, T1, T2, T3, T4, T5, T6) {
    /// The wire forms of the members, the first one first.
    open spec fn encoding(&self) -> Seq<u8> {
        self.0.encoding()
            + (self.1.encoding()
            + (self.2.encoding()
            + (self.3.encoding()
            + (self.4.encoding()
            + (self.5.encoding()
            + (self.6.encoding()))))))
    }

    fn serialize_to<S: Serializer>(&self, serializer: &mut S) -> (r: Result<()>) {
        let ghost start = serializer.sink();
        let ghost s6 = self.6.encoding();
        let ghost s5 = self.5.encoding() + s6;
        let ghost s4 = self.4.encoding() + s5;
        let ghost s3 = self.3.encoding() + s4;
        let ghost s2 = self.2.encoding() + s3;
        let ghost s1 = self.1.encoding() + s2;
        let ghost s0 = self.0.encoding() + s1;
        assert(self.encoding() == s0);
        self.6.serialize_to(serializer)?;
        proof {
            start.lemma_prepend_twice(s6, self.5.encoding());
        }
        self.5.serialize_to(serializer)?;
        proof {
            start.lemma_prepend_twice(s5, self.4.encoding());
        }
        self.4.serialize_to(serializer)?;
        proof {
            start.lemma_prepend_twice(s4, self.3.encoding());
        }
        self.3.serialize_to(serializer)?;
        proof {
            start.lemma_prepend_twice(s3, self.2.encoding());
        }
        self.2.serialize_to(serializer)?;
        proof {
            start.lemma_prepend_twice(s2, self.1.encoding());
        }
        self.1.serialize_to(serializer)?;
        proof {
            start.lemma_prepend_twice(s1, self.0.encoding());
        }
        self.0.serialize_to(serializer)?;
        Ok(())
    }
}

impl<
    'a,
    T0: Deserialize<'a>,
    T1: Deserialize<'a>,
    T2: Deserialize<'a>,
    T3: Deserialize<'a>,
    T4: Deserialize<'a>,
    T5: Deserialize<'a>,
    T6: Deserialize<'a>,
> Deserialize<'a> for (T0, T1, T2, T3, T4, T5, T6) {
    open spec fn parse(input: Input) -> Parsed {
        tuple7_parse::<T0, T1, T2, T3, T4, T5, T6>(input)
    }

    fn deserialize_from<D: Deserializer<'a>>(buf: &mut D) -> (r: Result<Self>) {
        let ghost input = buf.input();
        assert(Self::parse(input) == tuple7_parse::<T0, T1, T2, T3, T4, T5, T6>(input));
        proof {
            buf.lemma_input_wf();
            input.lemma_skip_skip(0, 0);
        }
        let t0 = T0::deserialize_from(buf)?;
        let ghost u0 = T0::parse(input)->Ok_0.1;
        let ghost i1 = buf.input();
        let t1 = T1::deserialize_from(buf)?;
        let ghost u1 = T1::parse(i1)->Ok_0.1;
        let ghost i2 = buf.input();
        proof {
            input.lemma_skip_skip(u0, u1);
        }
        let ghost c1 = u0 + u1;
        let t2 = T2::deserialize_from(buf)?;
        let ghost u2 = T2::parse(i2)->Ok_0.1;
        let ghost i3 = buf.input();
        proof {
            input.lemma_skip_skip(c1, u2);
        }
        let ghost c2 = c1 + u2;
        let t3 = T3::deserialize_from(buf)?;
        let ghost u3 = T3::parse(i3)->Ok_0.1;
        let ghost i4 = buf.input();
        proof {
            input.lemma_skip_skip(c2, u3);
        }
        let ghost c3 = c2 + u3;
        let t4 = T4::deserialize_from(buf)?;
        let ghost u4 = T4::parse(i4)->Ok_0.1;
        let ghost i5 = buf.input();
        proof {
            input.lemma_skip_skip(c3, u4);
        }
        let ghost c4 = c3 + u4;
        let t5 = T5::deserialize_from(buf)?;
        let ghost u5 = T5::parse(i5)->Ok_0.1;
        let ghost i6 = buf.input();
        proof {
            input.lemma_skip_skip(c4, u5);
        }
        let ghost c5 = c4 + u5;
        let t6 = T6::deserialize_from(buf)?;
        let ghost u6 = T6::parse(i6)->Ok_0.1;
        proof {
            input.lemma_skip_skip(c5, u6);
        }
        let value = (t0, t1, t2, t3, t4, t5, t6);
        let ghost s6 = t6.encoding();
        let ghost s5 = t5.encoding() + s6;
        let ghost s4 = t4.encoding() + s5;
        let ghost s3 = t3.encoding() + s4;
        let ghost s2 = t2.encoding() + s3;
        let ghost s1 = t1.encoding() + s2;
        let ghost s0 = t0.encoding() + s1;
        assert(value.encoding() == s0);
        Ok(value)
    }
}

impl<
    'a,
    T0: RoundTrip<'a>,
    T1: RoundTrip<'a>,
    T2: RoundTrip<'a>,
    T3: RoundTrip<'a>,
    T4: RoundTrip<'a>,
    T5: RoundTrip<'a>,
    T6: RoundTrip<'a>,
> RoundTrip<'a> for (T0, T1, T2, T3, T4, T5, T6) {
    proof fn lemma_round_trip(&self, rest: Seq<u8>) {
        assert(*self == (self.0, self.1, self.2, self.3, self.4, self.5, self.6));
        lemma_tuple7_round_trip(self.0, self.1, self.2, self.3, self.4, self.5, self.6, rest);
    }
}

impl<
    'a,
    T0: Owning<'a>,
    T1: Owning<'a>,
    T2: Owning<'a>,
    T3: Owning<'a>,
    T4: Owning<'a>,
    T5: Owning<'a>,
    T6: Owning<'a>,
> Owning<'a> for (T0, T1, T2, T3, T4, T5, T6) {
    proof fn lemma_pieces_ignored(a: Input, b: Input) {
        lemma_tuple7_pieces_ignored::<T0, T1, T2, T3, T4, T5, T6>(a, b);
    }
}

impl<
    T0: Serialize,
    T1: Serialize,
    T2: Serialize,
    T3: Serialize,
    T4: Serialize,
    T5: Serialize,
    T6: Serialize,
    T7: Serialize,
> Serialize for (T0, T1, T2, T3, T4, T5, T6, T7) {
    /// The wire forms of the members, the first one first.
    open spec fn encoding(&self) -> Seq<u8> {
        self.0.encoding()
            + (self.1.encoding()
            + (self.2.encoding()
            + (self.3.encoding()
            + (self.4.encoding()
            + (self.5.encoding()
            + (self.6.encoding()
            + (self.7.encoding())))))))
    }

    fn serialize_to<S: Serializer>(&self, serializer: &mut S) -> (r: Result<()>) {
        let ghost start = serializer.sink();
        let ghost s7 = self.7.encoding();
        let ghost s6 = self.6.encoding() + s7;
        let ghost s5 = self.5.encoding() + s6;
        let ghost s4 = self.4.encoding() + s5;
        let ghost s3 = self.3.encoding() + s4;
        let ghost s2 = self.2.encoding() + s3;
        let ghost s1 = self.1.encoding() + s2;
        let ghost s0 = self.0.encoding() + s1;
        assert(self.encoding() == s0);
        self.7.serialize_to(serializer)?;
        proof {
            start.lemma_prepend_twice(s7, self.6.encoding());
        }
        self.6.serialize_to(serializer)?;
        proof {
            start.lemma_prepend_twice(s6, self.5.encoding());
        }
        self.5.serialize_to(serializer)?;
        proof {
            start.lemma_prepend_twice(s5, self.4.encoding());
        }
        self.4.serialize_to(serializer)?;
        proof {
            start.lemma_prepend_twice(s4, self.3.encoding());
        }
        self.3.serialize_to(serializer)?;
        proof {
            start.lemma_prepend_twice(s3, self.2.encoding());
        }
        self.2.serialize_to(serializer)?;
        proof {
            start.lemma_prepend_twice(s2, self.1.encoding());
        }
        self.1.serialize_to(serializer)?;
        proof {
            start.lemma_prepend_twice(s1, self.0.encoding());
        }
        self.0.serialize_to(serializer)?;
        Ok(())
    }
}

impl<
    'a,
    T0: Deserialize<'a>,
    T1: Deserialize<'a>,
    T2: Deserialize<'a>,
    T3: Deserialize<'a>,
    T4: Deserialize<'a>,
    T5: Deserialize<'a>,
    T6: Deserialize<'a>,
    T7: Deserialize<'a>,
> Deserialize<'a> for (T0, T1, T2, T3, T4, T5, T6, T7) {
    open spec fn parse(input: Input) -> Parsed {
        tuple8_parse::<T0, T1, T2, T3, T4, T5, T6, T7>(input)
    }

    #[verifier::rlimit(40)]
    fn deserialize_from<D: Deserializer<'a>>(buf: &mut D) -> (r: Result<Self>) {
        let ghost input = buf.input();
        assert(Self::parse(input) == tuple8_parse::<T0, T1, T2, T3, T4, T5, T6, T7>(input));
        proof {
            buf.lemma_input_wf();
            input.lemma_skip_skip(0, 0);
        }
        let t0 = T0::deserialize_from(buf)?;
        let ghost u0 = T0::parse(input)->Ok_0.1;
        let ghost i1 = buf.input();
        let t1 = T1::deserialize_from(buf)?;
        let ghost u1 = T1::parse(i1)->Ok_0.1;
        let ghost i2 = buf.input();
        proof {
            input.lemma_skip_skip(u0, u1);
        }
        let ghost c1 = u0 + u1;
        let t2 = T2::deserialize_from(buf)?;
        let ghost u2 = T2::parse(i2)->Ok_0.1;
        let ghost i3 = buf.input();
        proof {
            input.lemma_skip_skip(c1, u2);
        }
        let ghost c2 = c1 + u2;
        let t3 = T3::deserialize_from(buf)?;
        let ghost u3 = T3::parse(i3)->Ok_0.1;
        let ghost i4 = buf.input();
        proof {
            input.lemma_skip_skip(c2, u3);
        }
        let ghost c3 = c2 + u3;
        let t4 = T4::deserialize_from(buf)?;
        let ghost u4 = T4::parse(i4)->Ok_0.1;
        let ghost i5 = buf.input();
        proof {
            input.lemma_skip_skip(c3, u4);
        }
        let ghost c4 = c3 + u4;
        let t5 = T5::deserialize_from(buf)?;
        let ghost u5 = T5::parse(i5)->Ok_0.1;
        let ghost i6 = buf.input();
        proof {
            input.lemma_skip_skip(c4, u5);
        }
        let ghost c5 = c4 + u5;
        let t6 = T6::deserialize_from(buf)?;
        let ghost u6 = T6::parse(i6)->Ok_0.1;
        let ghost i7 = buf.input();
        proof {
            input.lemma_skip_skip(c5, u6);
        }
        let ghost c6 = c5 + u6;
        let t7 = T7::deserialize_from(buf)?;
        let ghost u7 = T7::parse(i7)->Ok_0.1;
        proof {
            input.lemma_skip_skip(c6, u7);
        }
        let value = (t0, t1, t2, t3, t4, t5, t6, t7);
        let ghost s7 = t7.encoding();
        let ghost s6 = t6.encoding() + s7;
        let ghost s5 = t5.encoding() + s6;
        let ghost s4 = t4.encoding() + s5;
        let ghost s3 = t3.encoding() + s4;
        let ghost s2 = t2.encoding() + s3;
        let ghost s1 = t1.encoding() + s2;
        let ghost s0 = t0.encoding() + s1;
        assert(value.encoding() == s0);
        Ok(value)
    }
}

impl<
    'a,
    T0: RoundTrip<'a>,
    T1: RoundTrip<'a>,
    T2: RoundTrip<'a>,
    T3: RoundTrip<'a>,
    T4: RoundTrip<'a>,
    T5: RoundTrip<'a>,
    T6: RoundTrip<'a>,
    T7: RoundTrip<'a>,
> RoundTrip<'a> for (T0, T1, T2, T3, T4, T5, T6, T7) {
    proof fn lemma_round_trip(&self, rest: Seq<u8>) {
        assert(*self == (self.0, self.1, self.2, self.3, self.4, self.5, self.6, self.7));
        lemma_tuple8_round_trip(
            self.0,
            self.1,
            self.2,
            self.3,
            self.4,
            self.5,
            self.6,
            self.7,
            rest,
        );
    }
}

impl<
    'a,
    T0: Owning<'a>,
    T1: Owning<'a>,
    T2: Owning<'a>,
    T3: Owning<'a>,
    T4: Owning<'a>,
    T5: Owning<'a>,
    T6: Owning<'a>,
    T7: Owning<'a>,
> Owning<'a> for (T0, T1, T2, T3, T4, T5, T6, T7) {
    proof fn lemma_pieces_ignored(a: Input, b: Input) {
        lemma_tuple8_pieces_ignored::<T0, T1, T2, T3, T4, T5, T6, T7>(a, b);
    }
}

impl<
    T0: Serialize,
    T1: Serialize,
    T2: Serialize,
    T3: Serialize,
    T4: Serialize,
    T5: Serialize,
    T6: Serialize,
    T7: Serialize,
    T8: Serialize,
> Serialize for (T0, T1, T2, T3, T4, T5, T6, T7, T8) {
    /// The wire forms of the members, the first one first.
    open spec fn encoding(&self) -> Seq<u8> {
        self.0.encoding()
            + (self.1.encoding()
            + (self.2.encoding()
            + (self.3.encoding()
            + (self.4.encoding()
            + (self.5.encoding()
            + (self.6.encoding()
            + (self.7.encoding()
            + (self.8.encoding()))))))))
    }

    fn serialize_to<S: Serializer>(&self, serializer: &mut S) -> (r: Result<()>) {
        let ghost start = serializer.sink();
        let ghost s8 = self.8.encoding();
        let ghost s7 = self.7.encoding() + s8;
        let ghost s6 = self.6.encoding() + s7;
        let ghost s5 = self.5.encoding() + s6;
        let ghost s4 = self.4.encoding() + s5;
        let ghost s3 = self.3.encoding() + s4;
        let ghost s2 = self.2.encoding() + s3;
        let ghost s1 = self.1.encoding() + s2;
        let ghost s0 = self.0.encoding() + s1;
        assert(self.encoding() == s0);
        self.8.serialize_to(serializer)?;
        proof {
            start.lemma_prepend_twice(s8, self.7.encoding());
        }
        self.7.serialize_to(serializer)?;
        proof {
            start.lemma_prepend_twice(s7, self.6.encoding());
        }
        self.6.serialize_to(serializer)?;
        proof {
            start.lemma_prepend_twice(s6, self.5.encoding());
        }
        self.5.serialize_to(serializer)?;
        proof {
            start.lemma_prepend_twice(s5, self.4.encoding());
        }
        self.4.serialize_to(serializer)?;
        proof {
            start.lemma_prepend_twice(s4, self.3.encoding());
        }
        self.3.serialize_to(serializer)?;
        proof {
            start.lemma_prepend_twice(s3, self.2.encoding());
        }
        self.2.serialize_to(serializer)?;
        proof {
            start.lemma_prepend_twice(s2, self.1.encoding());
        }
        self.1.serialize_to(serializer)?;
        proof {
            start.lemma_prepend_twice(s1, self.0.encoding());
        }
        self.0.serialize_to(serializer)?;
        Ok(())
    }
}

impl<
    'a,
    T0: Deserialize<'a>,
    T1: Deserialize<'a>,
    T2: Deserialize<'a>,
    T3: Deserialize<'a>,
    T4: Deserialize<'a>,
    T5: Deserialize<'a>,
    T6: Deserialize<'a>,
    T7: Deserialize<'a>,
    T8: Deserialize<'a>,
> Deserialize<'a> for (T0, T1, T2, T3, T4, T5, T6, T7, T8) {
    open spec fn parse(input: Input) -> Parsed {
        tuple9_parse::<T0, T1, T2, T3, T4, T5, T6, T7, T8>(input)
    }

    #[verifier::rlimit(40)]
    fn deserialize_from<D: Deserializer<'a>>(buf: &mut D) -> (r: Result<Self>) {
        let ghost input = buf.input();
        assert(Self::parse(input) == tuple9_parse::<T0, T1, T2, T3, T4, T5, T6, T7, T8>(input));
        proof {
            buf.lemma_input_wf();
            input.lemma_skip_skip(0, 0);
        }
        let t0 = T0::deserialize_from(buf)?;
        let ghost u0 = T0::parse(input)->Ok_0.1;
        let ghost i1 = buf.input();
        let t1 = T1::deserialize_from(buf)?;
        let ghost u1 = T1::parse(i1)->Ok_0.1;
        let ghost i2 = buf.input();
        proof {
            input.lemma_skip_skip(u0, u1);
        }
        let ghost c1 = u0 + u1;
        let t2 = T2::deserialize_from(buf)?;
        let ghost u2 = T2::parse(i2)->Ok_0.1;
        let ghost i3 = buf.input();
        proof {
            input.lemma_skip_skip(c1, u2);
        }
        let ghost c2 = c1 + u2;
        let t3 = T3::deserialize_from(buf)?;
        let ghost u3 = T3::parse(i3)->Ok_0.1;
        let ghost i4 = buf.input();
        proof {
            input.lemma_skip_skip(c2, u3);
        }
        let ghost c3 = c2 + u3;
        let t4 = T4::deserialize_from(buf)?;
        let ghost u4 = T4::parse(i4)->Ok_0.1;
        let ghost i5 = buf.input();
        proof {
            input.lemma_skip_skip(c3, u4);
        }
        let ghost c4 = c3 + u4;
        let t5 = T5::deserialize_from(buf)?;
        let ghost u5 = T5::parse(i5)->Ok_0.1;
        let ghost i6 = buf.input();
        proof {
            input.lemma_skip_skip(c4, u5);
        }
        let ghost c5 = c4 + u5;
        let t6 = T6::deserialize_from(buf)?;
        let ghost u6 = T6::parse(i6)->Ok_0.1;
        let ghost i7 = buf.input();
        proof {
            input.lemma_skip_skip(c5, u6);
        }
        let ghost c6 = c5 + u6;
        let t7 = T7::deserialize_from(buf)?;
        let ghost u7 = T7::parse(i7)->Ok_0.1;
        let ghost i8 = buf.input();
        proof {
            input.lemma_skip_skip(c6, u7);
        }
        let ghost c7 = c6 + u7;
        let t8 = T8::deserialize_from(buf)?;
        let ghost u8 = T8::parse(i8)->Ok_0.1;
        proof {
            input.lemma_skip_skip(c7, u8);
        }
        let value = (t0, t1, t2, t3, t4, t5, t6, t7, t8);
        let ghost s8 = t8.encoding();
        let ghost s7 = t7.encoding() + s8;
        let ghost s6 = t6.encoding() + s7;
        let ghost s5 = t5.encoding() + s6;
        let ghost s4 = t4.encoding() + s5;
        let ghost s3 = t3.encoding() + s4;
        let ghost s2 = t2.encoding() + s3;
        let ghost s1 = t1.encoding() + s2;
        let ghost s0 = t0.encoding() + s1;
        assert(value.encoding() == s0);
        Ok(value)
    }
}

impl<
    'a,
    T0: RoundTrip<'a>,
    T1: RoundTrip<'a>,
    T2: RoundTrip<'a>,
    T3: RoundTrip<'a>,
    T4: RoundTrip<'a>,
    T5: RoundTrip<'a>,
    T6: RoundTrip<'a>,
    T7: RoundTrip<'a>,
    T8: RoundTrip<'a>,
> RoundTrip<'a> for (T0, T1, T2, T3, T4, T5, T6, T7, T8) {
    proof fn lemma_round_trip(&self, rest: Seq<u8>) {
        assert(*self == (self.0, self.1, self.2, self.3, self.4, self.5, self.6, self.7, self.8));
        lemma_tuple9_round_trip(
            self.0,
            self.1,
            self.2,
            self.3,
            self.4,
            self.5,
            self.6,
            self.7,
            self.8,
            rest,
        );
    }
}

impl<
    'a,
    T0: Owning<'a>,
    T1: Owning<'a>,
    T2: Owning<'a>,
    T3: Owning<'a>,
    T4: Owning<'a>,
    T5: Owning<'a>,
    T6: Owning<'a>,
    T7: Owning<'a>,
    T8: Owning<'a>,
> Owning<'a> for (T0, T1, T2, T3, T4, T5, T6, T7, T8) {
    proof fn lemma_pieces_ignored(a: Input, b: Input) {
        lemma_tuple9_pieces_ignored::<T0, T1, T2, T3, T4, T5, T6, T7, T8>(a, b);
    }
}

impl<
    T0: Serialize,
    T1: Serialize,
    T2: Serialize,
    T3: Serialize,
    T4: Serialize,
    T5: Serialize,
    T6: Serialize,
    T7: Serialize,
    T8: Serialize,
    T9: Serialize,
> Serialize for (T0, T1, T2, T3, T4, T5, T6, T7, T8, T9) {
    /// The wire forms of the members, the first one first.
    open spec fn encoding(&self) -> Seq<u8> {
        self.0.encoding()
            + (self.1.encoding()
            + (self.2.encoding()
            + (self.3.encoding()
            + (self.4.encoding()
            + (self.5.encoding()
            + (self.6.encoding()
            + (self.7.encoding()
            + (self.8.encoding()
            + (self.9.encoding())))))))))
    }

    fn serialize_to<S: Serializer>(&self, serializer: &mut S) -> (r: Result<()>) {
        let ghost start = serializer.sink();
        let ghost s9 = self.9.encoding();
        let ghost s8 = self.8.encoding() + s9;
        let ghost s7 = self.7.encoding() + s8;
        let ghost s6 = self.6.encoding() + s7;
        let ghost s5 = self.5.encoding() + s6;
        let ghost s4 = self.4.encoding() + s5;
        let ghost s3 = self.3.encoding() + s4;
        let ghost s2 = self.2.encoding() + s3;
        let ghost s1 = self.1.encoding() + s2;
        let ghost s0 = self.0.encoding() + s1;
        assert(self.encoding() == s0);
        self.9.serialize_to(serializer)?;
        proof {
            start.lemma_prepend_twice(s9, self.8.encoding());
        }
        self.8.serialize_to(serializer)?;
        proof {
            start.lemma_prepend_twice(s8, self.7.encoding());
        }
        self.7.serialize_to(serializer)?;
        proof {
            start.lemma_prepend_twice(s7, self.6.encoding());
        }
        self.6.serialize_to(serializer)?;
        proof {
            start.lemma_prepend_twice(s6, self.5.encoding());
        }
        self.5.serialize_to(serializer)?;
        proof {
            start.lemma_prepend_twice(s5, self.4.encoding());
        }
        self.4.serialize_to(serializer)?;
        proof {
            start.lemma_prepend_twice(s4, self.3.encoding());
        }
        self.3.serialize_to(serializer)?;
        proof {
            start.lemma_prepend_twice(s3, self.2.encoding());
        }
        self.2.serialize_to(serializer)?;
        proof {
            start.lemma_prepend_twice(s2, self.1.encoding());
        }
        self.1.serialize_to(serializer)?;
        proof {
            start.lemma_prepend_twice(s1, self.0.encoding());
        }
        self.0.serialize_to(serializer)?;
        Ok(())
    }
}

impl<
    'a,
    T0: Deserialize<'a>,
    T1: Deserialize<'a>,
    T2: Deserialize<'a>,
    T3: Deserialize<'a>,
    T4: Deserialize<'a>,
    T5: Deserialize<'a>,
    T6: Deserialize<'a>,
    T7: Deserialize<'a>,
    T8: Deserialize<'a>,
    T9: Deserialize<'a>,
> Deserialize<'a> for (T0, T1, T2, T3, T4, T5, T6, T7, T8, T9) {
    open spec fn parse(input: Input) -> Parsed {
        tuple10_parse::<T0, T1, T2, T3, T4, T5, T6, T7, T8, T9>(input)
    }

    #[verifier::rlimit(40)]
    fn deserialize_from<D: Deserializer<'a>>(buf: &mut D) -> (r: Result<Self>) {
        let ghost input = buf.input();
        assert(Self::parse(input) == tuple10_parse::<
            T0, T1, T2, T3, T4, T5, T6, T7, T8, T9,
        >(input));
        proof {
            buf.lemma_input_wf();
            input.lemma_skip_skip(0, 0);
        }
        let t0 = T0::deserialize_from(buf)?;
        let ghost u0 = T0::parse(input)->Ok_0.1;
        let ghost i1 = buf.input();
        let t1 = T1::deserialize_from(buf)?;
        let ghost u1 = T1::parse(i1)->Ok_0.1;
        let ghost i2 = buf.input();
        proof {
            input.lemma_skip_skip(u0, u1);
        }
        let ghost c1 = u0 + u1;
        let t2 = T2::deserialize_from(buf)?;
        let ghost u2 = T2::parse(i2)->Ok_0.1;
        let ghost i3 = buf.input();
        proof {
            input.lemma_skip_skip(c1, u2);
        }
        let ghost c2 = c1 + u2;
        let t3 = T3::deserialize_from(buf)?;
        let ghost u3 = T3::parse(i3)->Ok_0.1;
        let ghost i4 = buf.input();
        proof {
            input.lemma_skip_skip(c2, u3);
        }
        let ghost c3 = c2 + u3;
        let t4 = T4::deserialize_from(buf)?;
        let ghost u4 = T4::parse(i4)->Ok_0.1;
        let ghost i5 = buf.input();
        proof {
            input.lemma_skip_skip(c3, u4);
        }
        let ghost c4 = c3 + u4;
        let t5 = T5::deserialize_from(buf)?;
        let ghost u5 = T5::parse(i5)->Ok_0.1;
        let ghost i6 = buf.input();
        proof {
            input.lemma_skip_skip(c4, u5);
        }
        let ghost c5 = c4 + u5;
        let t6 = T6::deserialize_from(buf)?;
        let ghost u6 = T6::parse(i6)->Ok_0.1;
        let ghost i7 = buf.input();
        proof {
            input.lemma_skip_skip(c5, u6);
        }
        let ghost c6 = c5 + u6;
        let t7 = T7::deserialize_from(buf)?;
        let ghost u7 = T7::parse(i7)->Ok_0.1;
        let ghost i8 = buf.input();
        proof {
            input.lemma_skip_skip(c6, u7);
        }
        let ghost c7 = c6 + u7;
        let t8 = T8::deserialize_from(buf)?;
        let ghost u8 = T8::parse(i8)->Ok_0.1;
        let ghost i9 = buf.input();
        proof {
            input.lemma_skip_skip(c7, u8);
        }
        let ghost c8 = c7 + u8;
        let t9 = T9::deserialize_from(buf)?;
        let ghost u9 = T9::parse(i9)->Ok_0.1;
        proof {
            input.lemma_skip_skip(c8, u9);
        }
        let value = (t0, t1, t2, t3, t4, t5, t6, t7, t8, t9);
        let ghost s9 = t9.encoding();
        let ghost s8 = t8.encoding() + s9;
        let ghost s7 = t7.encoding() + s8;
        let ghost s6 = t6.encoding() + s7;
        let ghost s5 = t5.encoding() + s6;
        let ghost s4 = t4.encoding() + s5;
        let ghost s3 = t3.encoding() + s4;
        let ghost s2 = t2.encoding() + s3;
        let ghost s1 = t1.encoding() + s2;
        let ghost s0 = t0.encoding() + s1;
        assert(value.encoding() == s0);
        Ok(value)
    }
}

impl<
    'a,
    T0: RoundTrip<'a>,
    T1: RoundTrip<'a>,
    T2: RoundTrip<'a>,
    T3: RoundTrip<'a>,
    T4: RoundTrip<'a>,
    T5: RoundTrip<'a>,
    T6: RoundTrip<'a>,
    T7: RoundTrip<'a>,
    T8: RoundTrip<'a>,
    T9: RoundTrip<'a>,
> RoundTrip<'a> for (T0, T1, T2, T3, T4, T5, T6, T7, T8, T9) {
    proof fn lemma_round_trip(&self, rest: Seq<u8>) {
        assert(*self == (
            self.0,
            self.1,
            self.2,
            self.3,
            self.4,
            self.5,
            self.6,
            self.7,
            self.8,
            self.9,
        ));
        lemma_tuple10_round_trip(
            self.0,
            self.1,
            self.2,
            self.3,
            self.4,
            self.5,
            self.6,
            self.7,
            self.8,
            self.9,
            rest,
        );
    }
}

impl<
    'a,
    T0: Owning<'a>,
    T1: Owning<'a>,
    T2: Owning<'a>,
    T3: Owning<'a>,
    T4: Owning<'a>,
    T5: Owning<'a>,
    T6: Owning<'a>,
    T7: Owning<'a>,
    T8: Owning<'a>,
    T9: Owning<'a>,
> Owning<'a> for (T0, T1, T2, T3, T4, T5, T6, T7, T8, T9) {
    proof fn lemma_pieces_ignored(a: Input, b: Input) {
        lemma_tuple10_pieces_ignored::<T0, T1, T2, T3, T4, T5, T6, T7, T8, T9>(a, b);
    }
}

impl<
    T0: Serialize,
    T1: Serialize,
    T2: Serialize,
    T3: Serialize,
    T4: Serialize,
    T5: Serialize,
    T6: Serialize,
    T7: Serialize,
    T8: Serialize,
    T9: Serialize,
    T10: Serialize,
> Serialize for (T0, T1, T2, T3, T4, T5, T6, T7, T8, T9, T10) {
    /// The wire forms of the members, the first one first.
    open spec fn encoding(&self) -> Seq<u8> {
        self.0.encoding()
            + (self.1.encoding()
            + (self.2.encoding()
            + (self.3.encoding()
            + (self.4.encoding()
            + (self.5.encoding()
            + (self.6.encoding()
            + (self.7.encoding()
            + (self.8.encoding()
            + (self.9.encoding()
            + (self.10.encoding()))))))))))
    }

    fn serialize_to<S: Serializer>(&self, serializer: &mut S) -> (r: Result<()>) {
        let ghost start = serializer.sink();
        let ghost s10 = self.10.encoding();
        let ghost s9 = self.9.encoding() + s10;
        let ghost s8 = self.8.encoding() + s9;
        let ghost s7 = self.7.encoding() + s8;
        let ghost s6 = self.6.encoding() + s7;
        let ghost s5 = self.5.encoding() + s6;
        let ghost s4 = self.4.encoding() + s5;
        let ghost s3 = self.3.encoding() + s4;
        let ghost s2 = self.2.encoding() + s3;
        let ghost s1 = self.1.encoding() + s2;
        let ghost s0 = self.0.encoding() + s1;
        assert(self.encoding() == s0);
        self.10.serialize_to(serializer)?;
        proof {
            start.lemma_prepend_twice(s10, self.9.encoding());
        }
        self.9.serialize_to(serializer)?;
        proof {
            start.lemma_prepend_twice(s9, self.8.encoding());
        }
        self.8.serialize_to(serializer)?;
        proof {
            start.lemma_prepend_twice(s8, self.7.encoding());
        }
        self.7.serialize_to(serializer)?;
        proof {
            start.lemma_prepend_twice(s7, self.6.encoding());
        }
        self.6.serialize_to(serializer)?;
        proof {
            start.lemma_prepend_twice(s6, self.5.encoding());
        }
        self.5.serialize_to(serializer)?;
        proof {
            start.lemma_prepend_twice(s5, self.4.encoding());
        }
        self.4.serialize_to(serializer)?;
        proof {
            start.lemma_prepend_twice(s4, self.3.encoding());
        }
        self.3.serialize_to(serializer)?;
        proof {
            start.lemma_prepend_twice(s3, self.2.encoding());
        }
        self.2.serialize_to(serializer)?;
        proof {
            start.lemma_prepend_twice(s2, self.1.encoding());
        }
        self.1.serialize_to(serializer)?;
        proof {
            start.lemma_prepend_twice(s1, self.0.encoding());
        }
        self.0.serialize_to(serializer)?;
        Ok(())
    }
}

impl<
    'a,
    T0: Deserialize<'a>,
    T1: Deserialize<'a>,
    T2: Deserialize<'a>,
    T3: Deserialize<'a>,
    T4: Deserialize<'a>,
    T5: Deserialize<'a>,
    T6: Deserialize<'a>,
    T7: Deserialize<'a>,
    T8: Deserialize<'a>,
    T9: Deserialize<'a>,
    T10: Deserialize<'a>,
> Deserialize<'a> for (T0, T1, T2, T3, T4, T5, T6, T7, T8, T9, T10) {
    open spec fn parse(input: Input) -> Parsed {
        tuple11_parse::<T0, T1, T2, T3, T4, T5, T6, T7, T8, T9, T10>(input)
    }

    #[verifier::rlimit(40)]
    fn deserialize_from<D: Deserializer<'a>>(buf: &mut D) -> (r: Result<Self>) {
        let ghost input = buf.input();
        assert(Self::parse(input) == tuple11_parse::<
            T0, T1, T2, T3, T4, T5, T6, T7, T8, T9, T10,
        >(input));
        proof {
            buf.lemma_input_wf();
            input.lemma_skip_skip(0, 0);
        }
        let t0 = T0::deserialize_from(buf)?;
        let ghost u0 = T0::parse(input)->Ok_0.1;
        let ghost i1 = buf.input();
        let t1 = T1::deserialize_from(buf)?;
        let ghost u1 = T1::parse(i1)->Ok_0.1;
        let ghost i2 = buf.input();
        proof {
            input.lemma_skip_skip(u0, u1);
        }
        let ghost c1 = u0 + u1;
        let t2 = T2::deserialize_from(buf)?;
        let ghost u2 = T2::parse(i2)->Ok_0.1;
        let ghost i3 = buf.input();
        proof {
            input.lemma_skip_skip(c1, u2);
        }
        let ghost c2 = c1 + u2;
        let t3 = T3::deserialize_from(buf)?;
        let ghost u3 = T3::parse(i3)->Ok_0.1;
        let ghost i4 = buf.input();
        proof {
            input.lemma_skip_skip(c2, u3);
        }
        let ghost c3 = c2 + u3;
        let t4 = T4::deserialize_from(buf)?;
        let ghost u4 = T4::parse(i4)->Ok_0.1;
        let ghost i5 = buf.input();
        proof {
            input.lemma_skip_skip(c3, u4);
        }
        let ghost c4 = c3 + u4;
        let t5 = T5::deserialize_from(buf)?;
        let ghost u5 = T5::parse(i5)->Ok_0.1;
        let ghost i6 = buf.input();
        proof {
            input.lemma_skip_skip(c4, u5);
        }
        let ghost c5 = c4 + u5;
        let t6 = T6::deserialize_from(buf)?;
        let ghost u6 = T6::parse(i6)->Ok_0.1;
        let ghost i7 = buf.input();
        proof {
            input.lemma_skip_skip(c5, u6);
        }
        let ghost c6 = c5 + u6;
        let t7 = T7::deserialize_from(buf)?;
        let ghost u7 = T7::parse(i7)->Ok_0.1;
        let ghost i8 = buf.input();
        proof {
            input.lemma_skip_skip(c6, u7);
        }
        let ghost c7 = c6 + u7;
        let t8 = T8::deserialize_from(buf)?;
        let ghost u8 = T8::parse(i8)->Ok_0.1;
        let ghost i9 = buf.input();
        proof {
            input.lemma_skip_skip(c7, u8);
        }
        let ghost c8 = c7 + u8;
        let t9 = T9::deserialize_from(buf)?;
        let ghost u9 = T9::parse(i9)->Ok_0.1;
        let ghost i10 = buf.input();
        proof {
            input.lemma_skip_skip(c8, u9);
        }
        let ghost c9 = c8 + u9;
        let t10 = T10::deserialize_from(buf)?;
        let ghost u10 = T10::parse(i10)->Ok_0.1;
        proof {
            input.lemma_skip_skip(c9, u10);
        }
        let value = (t0, t1, t2, t3, t4, t5, t6, t7, t8, t9, t10);
        let ghost s10 = t10.encoding();
        let ghost s9 = t9.encoding() + s10;
        let ghost s8 = t8.encoding() + s9;
        let ghost s7 = t7.encoding() + s8;
        let ghost s6 = t6.encoding() + s7;
        let ghost s5 = t5.encoding() + s6;
        let ghost s4 = t4.encoding() + s5;
        let ghost s3 = t3.encoding() + s4;
        let ghost s2 = t2.encoding() + s3;
        let ghost s1 = t1.encoding() + s2;
        let ghost s0 = t0.encoding() + s1;
        assert(value.encoding() == s0);
        Ok(value)
    }
}

impl<
    'a,
    T0: RoundTrip<'a>,
    T1: RoundTrip<'a>,
    T2: RoundTrip<'a>,
    T3: RoundTrip<'a>,
    T4: RoundTrip<'a>,
    T5: RoundTrip<'a>,
    T6: RoundTrip<'a>,
    T7: RoundTrip<'a>,
    T8: RoundTrip<'a>,
    T9: RoundTrip<'a>,
    T10: RoundTrip<'a>,
> RoundTrip<'a> for (T0, T1, T2, T3, T4, T5, T6, T7, T8, T9, T10) {
    proof fn lemma_round_trip(&self, rest: Seq<u8>) {
        assert(*self == (
            self.0,
            self.1,
            self.2,
            self.3,
            self.4,
            self.5,
            self.6,
            self.7,
            self.8,
            self.9,
            self.10,
        ));
        lemma_tuple11_round_trip(
            self.0,
            self.1,
            self.2,
            self.3,
            self.4,
            self.5,
            self.6,
            self.7,
            self.8,
            self.9,
            self.10,
            rest,
        );
    }
}

impl<
    'a,
    T0: Owning<'a>,
    T1: Owning<'a>,
    T2: Owning<'a>,
    T3: Owning<'a>,
    T4: Owning<'a>,
    T5: Owning<'a>,
    T6: Owning<'a>,
    T7: Owning<'a>,
    T8: Owning<'a>,
    T9: Owning<'a>,
    T10: Owning<'a>,
> Owning<'a> for (T0, T1, T2, T3, T4, T5, T6, T7, T8, T9, T10) {
    proof fn lemma_pieces_ignored(a: Input, b: Input) {
        lemma_tuple11_pieces_ignored::<T0, T1, T2, T3, T4, T5, T6, T7, T8, T9, T10>(a, b);
    }
}

impl<
    T0: Serialize,
    T1: Serialize,
    T2: Serialize,
    T3: Serialize,
    T4: Serialize,
    T5: Serialize,
    T6: Serialize,
    T7: Serialize,
    T8: Serialize,
    T9: Serialize,
    T10: Serialize,
    T11: Serialize,
> Serialize for (T0, T1, T2, T3, T4, T5, T6, T7, T8, T9, T10, T11) {
    /// The wire forms of the members, the first one first.
    open spec fn encoding(&self) -> Seq<u8> {
        self.0.encoding()
            + (self.1.encoding()
            + (self.2.encoding()
            + (self.3.encoding()
            + (self.4.encoding()
            + (self.5.encoding()
            + (self.6.encoding()
            + (self.7.encoding()
            + (self.8.encoding()
            + (self.9.encoding()
            + (self.10.encoding()
            + (self.11.encoding())))))))))))
    }

    fn serialize_to<S: Serializer>(&self, serializer: &mut S) -> (r: Result<()>) {
        let ghost start = serializer.sink();
        let ghost s11 = self.11.encoding();
        let ghost s10 = self.10.encoding() + s11;
        let ghost s9 = self.9.encoding() + s10;
        let ghost s8 = self.8.encoding() + s9;
        let ghost s7 = self.7.encoding() + s8;
        let ghost s6 = self.6.encoding() + s7;
        let ghost s5 = self.5.encoding() + s6;
        let ghost s4 = self.4.encoding() + s5;
        let ghost s3 = self.3.encoding() + s4;
        let ghost s2 = self.2.encoding() + s3;
        let ghost s1 = self.1.encoding() + s2;
        let ghost s0 = self.0.encoding() + s1;
        assert(self.encoding() == s0);
        self.11.serialize_to(serializer)?;
        proof {
            start.lemma_prepend_twice(s11, self.10.encoding());
        }
        self.10.serialize_to(serializer)?;
        proof {
            start.lemma_prepend_twice(s10, self.9.encoding());
        }
        self.9.serialize_to(serializer)?;
        proof {
            start.lemma_prepend_twice(s9, self.8.encoding());
        }
        self.8.serialize_to(serializer)?;
        proof {
            start.lemma_prepend_twice(s8, self.7.encoding());
        }
        self.7.serialize_to(serializer)?;
        proof {
            start.lemma_prepend_twice(s7, self.6.encoding());
        }
        self.6.serialize_to(serializer)?;
        proof {
            start.lemma_prepend_twice(s6, self.5.encoding());
        }
        self.5.serialize_to(serializer)?;
        proof {
            start.lemma_prepend_twice(s5, self.4.encoding());
        }
        self.4.serialize_to(serializer)?;
        proof {
            start.lemma_prepend_twice(s4, self.3.encoding());
        }
        self.3.serialize_to(serializer)?;
        proof {
            start.lemma_prepend_twice(s3, self.2.encoding());
        }
        self.2.serialize_to(serializer)?;
        proof {
            start.lemma_prepend_twice(s2, self.1.encoding());
        }
        self.1.serialize_to(serializer)?;
        proof {
            start.lemma_prepend_twice(s1, self.0.encoding());
        }
        self.0.serialize_to(serializer)?;
        Ok(())
    }
}

impl<
    'a,
    T0: Deserialize<'a>,
    T1: Deserialize<'a>,
    T2: Deserialize<'a>,
    T3: Deserialize<'a>,
    T4: Deserialize<'a>,
    T5: Deserialize<'a>,
    T6: Deserialize<'a>,
    T7: Deserialize<'a>,
    T8: Deserialize<'a>,
    T9: Deserialize<'a>,
    T10: Deserialize<'a>,
    T11: Deserialize<'a>,
> Deserialize<'a> for (T0, T1, T2, T3, T4, T5, T6, T7, T8, T9, T10, T11) {
    open spec fn parse(input: Input) -> Parsed {
        tuple12_parse::<T0, T1, T2, T3, T4, T5, T6, T7, T8, T9, T10, T11>(input)
    }

    #[verifier::rlimit(40)]
    fn deserialize_from<D: Deserializer<'a>>(buf: &mut D) -> (r: Result<Self>) {
        let ghost input = buf.input();
        assert(Self::parse(input) == tuple12_parse::<
            T0, T1, T2, T3, T4, T5, T6, T7, T8, T9, T10, T11,
        >(input));
        proof {
            buf.lemma_input_wf();
            input.lemma_skip_skip(0, 0);
        }
        let t0 = T0::deserialize_from(buf)?;
        let ghost u0 = T0::parse(input)->Ok_0.1;
        let ghost i1 = buf.input();
        let t1 = T1::deserialize_from(buf)?;
        let ghost u1 = T1::parse(i1)->Ok_0.1;
        let ghost i2 = buf.input();
        proof {
            input.lemma_skip_skip(u0, u1);
        }
        let ghost c1 = u0 + u1;
        let t2 = T2::deserialize_from(buf)?;
        let ghost u2 = T2::parse(i2)->Ok_0.1;
        let ghost i3 = buf.input();
        proof {
            input.lemma_skip_skip(c1, u2);
        }
        let ghost c2 = c1 + u2;
        let t3 = T3::deserialize_from(buf)?;
        let ghost u3 = T3::parse(i3)->Ok_0.1;
        let ghost i4 = buf.input();
        proof {
            input.lemma_skip_skip(c2, u3);
        }
        let ghost c3 = c2 + u3;
        let t4 = T4::deserialize_from(buf)?;
        let ghost u4 = T4::parse(i4)->Ok_0.1;
        let ghost i5 = buf.input();
        proof {
            input.lemma_skip_skip(c3, u4);
        }
        let ghost c4 = c3 + u4;
        let t5 = T5::deserialize_from(buf)?;
        let ghost u5 = T5::parse(i5)->Ok_0.1;
        let ghost i6 = buf.input();
        proof {
            input.lemma_skip_skip(c4, u5);
        }
        let ghost c5 = c4 + u5;
        let t6 = T6::deserialize_from(buf)?;
        let ghost u6 = T6::parse(i6)->Ok_0.1;
        let ghost i7 = buf.input();
        proof {
            input.lemma_skip_skip(c5, u6);
        }
        let ghost c6 = c5 + u6;
        let t7 = T7::deserialize_from(buf)?;
        let ghost u7 = T7::parse(i7)->Ok_0.1;
        let ghost i8 = buf.input();
        proof {
            input.lemma_skip_skip(c6, u7);
        }
        let ghost c7 = c6 + u7;
        let t8 = T8::deserialize_from(buf)?;
        let ghost u8 = T8::parse(i8)->Ok_0.1;
        let ghost i9 = buf.input();
        proof {
            input.lemma_skip_skip(c7, u8);
        }
        let ghost c8 = c7 + u8;
        let t9 = T9::deserialize_from(buf)?;
        let ghost u9 = T9::parse(i9)->Ok_0.1;
        let ghost i10 = buf.input();
        proof {
            input.lemma_skip_skip(c8, u9);
        }
        let ghost c9 = c8 + u9;
        let t10 = T10::deserialize_from(buf)?;
        let ghost u10 = T10::parse(i10)->Ok_0.1;
        let ghost i11 = buf.input();
        proof {
            input.lemma_skip_skip(c9, u10);
        }
        let ghost c10 = c9 + u10;
        let t11 = T11::deserialize_from(buf)?;
        let ghost u11 = T11::parse(i11)->Ok_0.1;
        proof {
            input.lemma_skip_skip(c10, u11);
        }
        let value = (t0, t1, t2, t3, t4, t5, t6, t7, t8, t9, t10, t11);
        let ghost s11 = t11.encoding();
        let ghost s10 = t10.encoding() + s11;
        let ghost s9 = t9.encoding() + s10;
        let ghost s8 = t8.encoding() + s9;
        let ghost s7 = t7.encoding() + s8;
        let ghost s6 = t6.encoding() + s7;
        let ghost s5 = t5.encoding() + s6;
        let ghost s4 = t4.encoding() + s5;
        let ghost s3 = t3.encoding() + s4;
        let ghost s2 = t2.encoding() + s3;
        let ghost s1 = t1.encoding() + s2;
        let ghost s0 = t0.encoding() + s1;
        assert(value.encoding() == s0);
        Ok(value)
    }
}

impl<
    'a,
    T0: RoundTrip<'a>,
    T1: RoundTrip<'a>,
    T2: RoundTrip<'a>,
    T3: RoundTrip<'a>,
    T4: RoundTrip<'a>,
    T5: RoundTrip<'a>,
    T6: RoundTrip<'a>,
    T7: RoundTrip<'a>,
    T8: RoundTrip<'a>,
    T9: RoundTrip<'a>,
    T10: RoundTrip<'a>,
    T11: RoundTrip<'a>,
> RoundTrip<'a> for (T0, T1, T2, T3, T4, T5, T6, T7, T8, T9, T10, T11) {
    proof fn lemma_round_trip(&self, rest: Seq<u8>) {
        assert(*self == (
            self.0,
            self.1,
            self.2,
            self.3,
            self.4,
            self.5,
            self.6,
            self.7,
            self.8,
            self.9,
            self.10,
            self.11,
        ));
        lemma_tuple12_round_trip(
            self.0,
            self.1,
            self.2,
            self.3,
            self.4,
            self.5,
            self.6,
            self.7,
            self.8,
            self.9,
            self.10,
            self.11,
            rest,
        );
    }
}

impl<
    'a,
    T0: Owning<'a>,
    T1: Owning<'a>,
    T2: Owning<'a>,
    T3: Owning<'a>,
    T4: Owning<'a>,
    T5: Owning<'a>,
    T6: Owning<'a>,
    T7: Owning<'a>,
    T8: Owning<'a>,
    T9: Owning<'a>,
    T10: Owning<'a>,
    T11: Owning<'a>,
> Owning<'a> for (T0, T1, T2, T3, T4, T5, T6, T7, T8, T9, T10, T11) {
    proof fn lemma_pieces_ignored(a: Input, b: Input) {
        lemma_tuple12_pieces_ignored::<T0, T1, T2, T3, T4, T5, T6, T7, T8, T9, T10, T11>(a, b);
    }
}

impl<
    T0: Serialize,
    T1: Serialize,
    T2: Serialize,
    T3: Serialize,
    T4: Serialize,
    T5: Serialize,
    T6: Serialize,
    T7: Serialize,
    T8: Serialize,
    T9: Serialize,
    T10: Serialize,
    T11: Serialize,
    T12: Serialize,
> Serialize for (T0, T1, T2, T3, T4, T5, T6, T7, T8, T9, T10, T11, T12) {
    /// The wire forms of the members, the first one first.
    open spec fn encoding(&self) -> Seq<u8> {
        self.0.encoding()
            + (self.1.encoding()
            + (self.2.encoding()
            + (self.3.encoding()
            + (self.4.encoding()
            + (self.5.encoding()
            + (self.6.encoding()
            + (self.7.encoding()
            + (self.8.encoding()
            + (self.9.encoding()
            + (self.10.encoding()
            + (self.11.encoding()
            + (self.12.encoding()))))))))))))
    }

    fn serialize_to<S: Serializer>(&self, serializer: &mut S) -> (r: Result<()>) {
        let ghost start = serializer.sink();
        let ghost s12 = self.12.encoding();
        let ghost s11 = self.11.encoding() + s12;
        let ghost s10 = self.10.encoding() + s11;
        let ghost s9 = self.9.encoding() + s10;
        let ghost s8 = self.8.encoding() + s9;
        let ghost s7 = self.7.encoding() + s8;
        let ghost s6 = self.6.encoding() + s7;
        let ghost s5 = self.5.encoding() + s6;
        let ghost s4 = self.4.encoding() + s5;
        let ghost s3 = self.3.encoding() + s4;
        let ghost s2 = self.2.encoding() + s3;
        let ghost s1 = self.1.encoding() + s2;
        let ghost s0 = self.0.encoding() + s1;
        assert(self.encoding() == s0);
        self.12.serialize_to(serializer)?;
        proof {
            start.lemma_prepend_twice(s12, self.11.encoding());
        }
        self.11.serialize_to(serializer)?;
        proof {
            start.lemma_prepend_twice(s11, self.10.encoding());
        }
        self.10.serialize_to(serializer)?;
        proof {
            start.lemma_prepend_twice(s10, self.9.encoding());
        }
        self.9.serialize_to(serializer)?;
        proof {
            start.lemma_prepend_twice(s9, self.8.encoding());
        }
        self.8.serialize_to(serializer)?;
        proof {
            start.lemma_prepend_twice(s8, self.7.encoding());
        }
        self.7.serialize_to(serializer)?;
        proof {
            start.lemma_prepend_twice(s7, self.6.encoding());
        }
        self.6.serialize_to(serializer)?;
        proof {
            start.lemma_prepend_twice(s6, self.5.encoding());
        }
        self.5.serialize_to(serializer)?;
        proof {
            start.lemma_prepend_twice(s5, self.4.encoding());
        }
        self.4.serialize_to(serializer)?;
        proof {
            start.lemma_prepend_twice(s4, self.3.encoding());
        }
        self.3.serialize_to(serializer)?;
        proof {
            start.lemma_prepend_twice(s3, self.2.encoding());
        }
        self.2.serialize_to(serializer)?;
        proof {
            start.lemma_prepend_twice(s2, self.1.encoding());
        }
        self.1.serialize_to(serializer)?;
        proof {
            start.lemma_prepend_twice(s1, self.0.encoding());
        }
        self.0.serialize_to(serializer)?;
        Ok(())
    }
}

impl<
    'a,
    T0: Deserialize<'a>,
    T1: Deserialize<'a>,
    T2: Deserialize<'a>,
    T3: Deserialize<'a>,
    T4: Deserialize<'a>,
    T5: Deserialize<'a>,
    T6: Deserialize<'a>,
    T7: Deserialize<'a>,
    T8: Deserialize<'a>,
    T9: Deserialize<'a>,
    T10: Deserialize<'a>,
    T11: Deserialize<'a>,
    T12: Deserialize<'a>,
> Deserialize<'a> for (T0, T1, T2, T3, T4, T5, T6, T7, T8, T9, T10, T11, T12) {
    open spec fn parse(input: Input) -> Parsed {
        tuple13_parse::<T0, T1, T2, T3, T4, T5, T6, T7, T8, T9, T10, T11, T12>(input)
    }

    #[verifier::rlimit(40)]
    fn deserialize_from<D: Deserializer<'a>>(buf: &mut D) -> (r: Result<Self>) {
        let ghost input = buf.input();
        assert(Self::parse(input) == tuple13_parse::<
            T0, T1, T2, T3, T4, T5, T6, T7, T8, T9, T10, T11, T12,
        >(input));
        proof {
            buf.lemma_input_wf();
            input.lemma_skip_skip(0, 0);
        }
        let t0 = T0::deserialize_from(buf)?;
        let ghost u0 = T0::parse(input)->Ok_0.1;
        let ghost i1 = buf.input();
        let t1 = T1::deserialize_from(buf)?;
        let ghost u1 = T1::parse(i1)->Ok_0.1;
        let ghost i2 = buf.input();
        proof {
            input.lemma_skip_skip(u0, u1);
        }
        let ghost c1 = u0 + u1;
        let t2 = T2::deserialize_from(buf)?;
        let ghost u2 = T2::parse(i2)->Ok_0.1;
        let ghost i3 = buf.input();
        proof {
            input.lemma_skip_skip(c1, u2);
        }
        let ghost c2 = c1 + u2;
        let t3 = T3::deserialize_from(buf)?;
        let ghost u3 = T3::parse(i3)->Ok_0.1;
        let ghost i4 = buf.input();
        proof {
            input.lemma_skip_skip(c2, u3);
        }
        let ghost c3 = c2 + u3;
        let t4 = T4::deserialize_from(buf)?;
        let ghost u4 = T4::parse(i4)->Ok_0.1;
        let ghost i5 = buf.input();
        proof {
            input.lemma_skip_skip(c3, u4);
        }
        let ghost c4 = c3 + u4;
        let t5 = T5::deserialize_from(buf)?;
        let ghost u5 = T5::parse(i5)->Ok_0.1;
        let ghost i6 = buf.input();
        proof {
            input.lemma_skip_skip(c4, u5);
        }
        let ghost c5 = c4 + u5;
        let t6 = T6::deserialize_from(buf)?;
        let ghost u6 = T6::parse(i6)->Ok_0.1;
        let ghost i7 = buf.input();
        proof {
            input.lemma_skip_skip(c5, u6);
        }
        let ghost c6 = c5 + u6;
        let t7 = T7::deserialize_from(buf)?;
        let ghost u7 = T7::parse(i7)->Ok_0.1;
        let ghost i8 = buf.input();
        proof {
            input.lemma_skip_skip(c6, u7);
        }
        let ghost c7 = c6 + u7;
        let t8 = T8::deserialize_from(buf)?;
        let ghost u8 = T8::parse(i8)->Ok_0.1;
        let ghost i9 = buf.input();
        proof {
            input.lemma_skip_skip(c7, u8);
        }
        let ghost c8 = c7 + u8;
        let t9 = T9::deserialize_from(buf)?;
        let ghost u9 = T9::parse(i9)->Ok_0.1;
        let ghost i10 = buf.input();
        proof {
            input.lemma_skip_skip(c8, u9);
        }
        let ghost c9 = c8 + u9;
        let t10 = T10::deserialize_from(buf)?;
        let ghost u10 = T10::parse(i10)->Ok_0.1;
        let ghost i11 = buf.input();
        proof {
            input.lemma_skip_skip(c9, u10);
        }
        let ghost c10 = c9 + u10;
        let t11 = T11::deserialize_from(buf)?;
        let ghost u11 = T11::parse(i11)->Ok_0.1;
        let ghost i12 = buf.input();
        proof {
            input.lemma_skip_skip(c10, u11);
        }
        let ghost c11 = c10 + u11;
        let t12 = T12::deserialize_from(buf)?;
        let ghost u12 = T12::parse(i12)->Ok_0.1;
        proof {
            input.lemma_skip_skip(c11, u12);
        }
        let value = (t0, t1, t2, t3, t4, t5, t6, t7, t8, t9, t10, t11, t12);
        let ghost s12 = t12.encoding();
        let ghost s11 = t11.encoding() + s12;
        let ghost s10 = t10.encoding() + s11;
        let ghost s9 = t9.encoding() + s10;
        let ghost s8 = t8.encoding() + s9;
        let ghost s7 = t7.encoding() + s8;
        let ghost s6 = t6.encoding() + s7;
        let ghost s5 = t5.encoding() + s6;
        let ghost s4 = t4.encoding() + s5;
        let ghost s3 = t3.encoding() + s4;
        let ghost s2 = t2.encoding() + s3;
        let ghost s1 = t1.encoding() + s2;
        let ghost s0 = t0.encoding() + s1;
        assert(value.encoding() == s0);
        Ok(value)
    }
}

impl<
    'a,
    T0: RoundTrip<'a>,
    T1: RoundTrip<'a>,
    T2: RoundTrip<'a>,
    T3: RoundTrip<'a>,
    T4: RoundTrip<'a>,
    T5: RoundTrip<'a>,
    T6: RoundTrip<'a>,
    T7: RoundTrip<'a>,
    T8: RoundTrip<'a>,
    T9: RoundTrip<'a>,
    T10: RoundTrip<'a>,
    T11: RoundTrip<'a>,
    T12: RoundTrip<'a>,
> RoundTrip<'a> for (T0, T1, T2, T3, T4, T5, T6, T7, T8, T9, T10, T11, T12) {
    proof fn lemma_round_trip(&self, rest: Seq<u8>) {
        assert(*self == (
            self.0,
            self.1,
            self.2,
            self.3,
            self.4,
            self.5,
            self.6,
            self.7,
            self.8,
            self.9,
            self.10,
            self.11,
            self.12,
        ));
        lemma_tuple13_round_trip(
            self.0,
            self.1,
            self.2,
            self.3,
            self.4,
            self.5,
            self.6,
            self.7,
            self.8,
            self.9,
            self.10,
            self.11,
            self.12,
            rest,
        );
    }
}

impl<
    'a,
    T0: Owning<'a>,
    T1: Owning<'a>,
    T2: Owning<'a>,
    T3: Owning<'a>,
    T4: Owning<'a>,
    T5: Owning<'a>,
    T6: Owning<'a>,
    T7: Owning<'a>,
    T8: Owning<'a>,
    T9: Owning<'a>,
    T10: Owning<'a>,
    T11: Owning<'a>,
    T12: Owning<'a>,
> Owning<'a> for (T0, T1, T2, T3, T4, T5, T6, T7, T8, T9, T10, T11, T12) {
    proof fn lemma_pieces_ignored(a: Input, b: Input) {
        lemma_tuple13_pieces_ignored::<
            T0, T1, T2, T3, T4, T5, T6, T7, T8, T9, T10, T11, T12,
        >(a, b);
    }
}

impl<
    T0: Serialize,
    T1: Serialize,
    T2: Serialize,
    T3: Serialize,
    T4: Serialize,
    T5: Serialize,
    T6: Serialize,
    T7: Serialize,
    T8: Serialize,
    T9: Serialize,
    T10: Serialize,
    T11: Serialize,
    T12: Serialize,
    T13: Serialize,
> Serialize for (T0, T1, T2, T3, T4, T5, T6, T7, T8, T9, T10, T11, T12, T13) {
    /// The wire forms of the members, the first one first.
    open spec fn encoding(&self) -> Seq<u8> {
        self.0.encoding()
            + (self.1.encoding()
            + (self.2.encoding()
            + (self.3.encoding()
            + (self.4.encoding()
            + (self.5.encoding()
            + (self.6.encoding()
            + (self.7.encoding()
            + (self.8.encoding()
            + (self.9.encoding()
            + (self.10.encoding()
            + (self.11.encoding()
            + (self.12.encoding()
            + (self.13.encoding())))))))))))))
    }

    fn serialize_to<S: Serializer>(&self, serializer: &mut S) -> (r: Result<()>) {
        let ghost start = serializer.sink();
        let ghost s13 = self.13.encoding();
        let ghost s12 = self.12.encoding() + s13;
        let ghost s11 = self.11.encoding() + s12;
        let ghost s10 = self.10.encoding() + s11;
        let ghost s9 = self.9.encoding() + s10;
        let ghost s8 = self.8.encoding() + s9;
        let ghost s7 = self.7.encoding() + s8;
        let ghost s6 = self.6.encoding() + s7;
        let ghost s5 = self.5.encoding() + s6;
        let ghost s4 = self.4.encoding() + s5;
        let ghost s3 = self.3.encoding() + s4;
        let ghost s2 = self.2.encoding() + s3;
        let ghost s1 = self.1.encoding() + s2;
        let ghost s0 = self.0.encoding() + s1;
        assert(self.encoding() == s0);
        self.13.serialize_to(serializer)?;
        proof {
            start.lemma_prepend_twice(s13, self.12.encoding());
        }
        self.12.serialize_to(serializer)?;
        proof {
            start.lemma_prepend_twice(s12, self.11.encoding());
        }
        self.11.serialize_to(serializer)?;
        proof {
            start.lemma_prepend_twice(s11, self.10.encoding());
        }
        self.10.serialize_to(serializer)?;
        proof {
            start.lemma_prepend_twice(s10, self.9.encoding());
        }
        self.9.serialize_to(serializer)?;
        proof {
            start.lemma_prepend_twice(s9, self.8.encoding());
        }
        self.8.serialize_to(serializer)?;
        proof {
            start.lemma_prepend_twice(s8, self.7.encoding());
        }
        self.7.serialize_to(serializer)?;
        proof {
            start.lemma_prepend_twice(s7, self.6.encoding());
        }
        self.6.serialize_to(serializer)?;
        proof {
            start.lemma_prepend_twice(s6, self.5.encoding());
        }
        self.5.serialize_to(serializer)?;
        proof {
            start.lemma_prepend_twice(s5, self.4.encoding());
        }
        self.4.serialize_to(serializer)?;
        proof {
            start.lemma_prepend_twice(s4, self.3.encoding());
        }
        self.3.serialize_to(serializer)?;
        proof {
            start.lemma_prepend_twice(s3, self.2.encoding());
        }
        self.2.serialize_to(serializer)?;
        proof {
            start.lemma_prepend_twice(s2, self.1.encoding());
        }
        self.1.serialize_to(serializer)?;
        proof {
            start.lemma_prepend_twice(s1, self.0.encoding());
        }
        self.0.serialize_to(serializer)?;
        Ok(())
    }
}

impl<
    'a,
    T0: Deserialize<'a>,
    T1: Deserialize<'a>,
    T2: Deserialize<'a>,
    T3: Deserialize<'a>,
    T4: Deserialize<'a>,
    T5: Deserialize<'a>,
    T6: Deserialize<'a>,
    T7: Deserialize<'a>,
    T8: Deserialize<'a>,
    T9: Deserialize<'a>,
    T10: Deserialize<'a>,
    T11: Deserialize<'a>,
    T12: Deserialize<'a>,
    T13: Deserialize<'a>,
> Deserialize<'a> for (T0, T1, T2, T3, T4, T5, T6, T7, T8, T9, T10, T11, T12, T13) {
    open spec fn parse(input: Input) -> Parsed {
        tuple14_parse::<T0, T1, T2, T3, T4, T5, T6, T7, T8, T9, T10, T11, T12, T13>(input)
    }

    #[verifier::rlimit(40)]
    fn deserialize_from<D: Deserializer<'a>>(buf: &mut D) -> (r: Result<Self>) {
        let ghost input = buf.input();
        assert(Self::parse(input) == tuple14_parse::<
            T0, T1, T2, T3, T4, T5, T6, T7, T8, T9, T10, T11, T12, T13,
        >(input));
        proof {
            buf.lemma_input_wf();
            input.lemma_skip_skip(0, 0);
        }
        let t0 = T0::deserialize_from(buf)?;
        let ghost u0 = T0::parse(input)->Ok_0.1;
        let ghost i1 = buf.input();
        let t1 = T1::deserialize_from(buf)?;
        let ghost u1 = T1::parse(i1)->Ok_0.1;
        let ghost i2 = buf.input();
        proof {
            input.lemma_skip_skip(u0, u1);
        }
        let ghost c1 = u0 + u1;
        let t2 = T2::deserialize_from(buf)?;
        let ghost u2 = T2::parse(i2)->Ok_0.1;
        let ghost i3 = buf.input();
        proof {
            input.lemma_skip_skip(c1, u2);
        }
        let ghost c2 = c1 + u2;
        let t3 = T3::deserialize_from(buf)?;
        let ghost u3 = T3::parse(i3)->Ok_0.1;
        let ghost i4 = buf.input();
        proof {
            input.lemma_skip_skip(c2, u3);
        }
        let ghost c3 = c2 + u3;
        let t4 = T4::deserialize_from(buf)?;
        let ghost u4 = T4::parse(i4)->Ok_0.1;
        let ghost i5 = buf.input();
        proof {
            input.lemma_skip_skip(c3, u4);
        }
        let ghost c4 = c3 + u4;
        let t5 = T5::deserialize_from(buf)?;
        let ghost u5 = T5::parse(i5)->Ok_0.1;
        let ghost i6 = buf.input();
        proof {
            input.lemma_skip_skip(c4, u5);
        }
        let ghost c5 = c4 + u5;
        let t6 = T6::deserialize_from(buf)?;
        let ghost u6 = T6::parse(i6)->Ok_0.1;
        let ghost i7 = buf.input();
        proof {
            input.lemma_skip_skip(c5, u6);
        }
        let ghost c6 = c5 + u6;
        let t7 = T7::deserialize_from(buf)?;
        let ghost u7 = T7::parse(i7)->Ok_0.1;
        let ghost i8 = buf.input();
        proof {
            input.lemma_skip_skip(c6, u7);
        }
        let ghost c7 = c6 + u7;
        let t8 = T8::deserialize_from(buf)?;
        let ghost u8 = T8::parse(i8)->Ok_0.1;
        let ghost i9 = buf.input();
        proof {
            input.lemma_skip_skip(c7, u8);
        }
        let ghost c8 = c7 + u8;
        let t9 = T9::deserialize_from(buf)?;
        let ghost u9 = T9::parse(i9)->Ok_0.1;
        let ghost i10 = buf.input();
        proof {
            input.lemma_skip_skip(c8, u9);
        }
        let ghost c9 = c8 + u9;
        let t10 = T10::deserialize_from(buf)?;
        let ghost u10 = T10::parse(i10)->Ok_0.1;
        let ghost i11 = buf.input();
        proof {
            input.lemma_skip_skip(c9, u10);
        }
        let ghost c10 = c9 + u10;
        let t11 = T11::deserialize_from(buf)?;
        let ghost u11 = T11::parse(i11)->Ok_0.1;
        let ghost i12 = buf.input();
        proof {
            input.lemma_skip_skip(c10, u11);
        }
        let ghost c11 = c10 + u11;
        let t12 = T12::deserialize_from(buf)?;
        let ghost u12 = T12::parse(i12)->Ok_0.1;
        let ghost i13 = buf.input();
        proof {
            input.lemma_skip_skip(c11, u12);
        }
        let ghost c12 = c11 + u12;
        let t13 = T13::deserialize_from(buf)?;
        let ghost u13 = T13::parse(i13)->Ok_0.1;
        proof {
            input.lemma_skip_skip(c12, u13);
        }
        let value = (t0, t1, t2, t3, t4, t5, t6, t7, t8, t9, t10, t11, t12, t13);
        let ghost s13 = t13.encoding();
        let ghost s12 = t12.encoding() + s13;
        let ghost s11 = t11.encoding() + s12;
        let ghost s10 = t10.encoding() + s11;
        let ghost s9 = t9.encoding() + s10;
        let ghost s8 = t8.encoding() + s9;
        let ghost s7 = t7.encoding() + s8;
        let ghost s6 = t6.encoding() + s7;
        let ghost s5 = t5.encoding() + s6;
        let ghost s4 = t4.encoding() + s5;
        let ghost s3 = t3.encoding() + s4;
        let ghost s2 = t2.encoding() + s3;
        let ghost s1 = t1.encoding() + s2;
        let ghost s0 = t0.encoding() + s1;
        assert(value.encoding() == s0);
        Ok(value)
    }
}

impl<
    'a,
    T0: RoundTrip<'a>,
    T1: RoundTrip<'a>,
    T2: RoundTrip<'a>,
    T3: RoundTrip<'a>,
    T4: RoundTrip<'a>,
    T5: RoundTrip<'a>,
    T6: RoundTrip<'a>,
    T7: RoundTrip<'a>,
    T8: RoundTrip<'a>,
    T9: RoundTrip<'a>,
    T10: RoundTrip<'a>,
    T11: RoundTrip<'a>,
    T12: RoundTrip<'a>,
    T13: RoundTrip<'a>,
> RoundTrip<'a> for (T0, T1, T2, T3, T4, T5, T6, T7, T8, T9, T10, T11, T12, T13) {
    proof fn lemma_round_trip(&self, rest: Seq<u8>) {
        assert(*self == (
            self.0,
            self.1,
            self.2,
            self.3,
            self.4,
            self.5,
            self.6,
            self.7,
            self.8,
            self.9,
            self.10,
            self.11,
            self.12,
            self.13,
        ));
        lemma_tuple14_round_trip(
            self.0,
            self.1,
            self.2,
            self.3,
            self.4,
            self.5,
            self.6,
            self.7,
            self.8,
            self.9,
            self.10,
            self.11,
            self.12,
            self.13,
            rest,
        );
    }
}

impl<
    'a,
    T0: Owning<'a>,
    T1: Owning<'a>,
    T2: Owning<'a>,
    T3: Owning<'a>,
    T4: Owning<'a>,
    T5: Owning<'a>,
    T6: Owning<'a>,
    T7: Owning<'a>,
    T8: Owning<'a>,
    T9: Owning<'a>,
    T10: Owning<'a>,
    T11: Owning<'a>,
    T12: Owning<'a>,
    T13: Owning<'a>,
> Owning<'a> for (T0, T1, T2, T3, T4, T5, T6, T7, T8, T9, T10, T11, T12, T13) {
    proof fn lemma_pieces_ignored(a: Input, b: Input) {
        lemma_tuple14_pieces_ignored::<
            T0, T1, T2, T3, T4, T5, T6, T7, T8, T9, T10, T11, T12, T13,
        >(a, b);
    }
}

impl<
    T0: Serialize,
    T1: Serialize,
    T2: Serialize,
    T3: Serialize,
    T4: Serialize,
    T5: Serialize,
    T6: Serialize,
    T7: Serialize,
    T8: Serialize,
    T9: Serialize,
    T10: Serialize,
    T11: Serialize,
    T12: Serialize,
    T13: Serialize,
    T14: Serialize,
> Serialize for (T0, T1, T2, T3, T4, T5, T6, T7, T8, T9, T10, T11, T12, T13, T14) {
    /// The wire forms of the members, the first one first.
    open spec fn encoding(&self) -> Seq<u8> {
        self.0.encoding()
            + (self.1.encoding()
            + (self.2.encoding()
            + (self.3.encoding()
            + (self.4.encoding()
            + (self.5.encoding()
            + (self.6.encoding()
            + (self.7.encoding()
            + (self.8.encoding()
            + (self.9.encoding()
            + (self.10.encoding()
            + (self.11.encoding()
            + (self.12.encoding()
            + (self.13.encoding()
            + (self.14.encoding()))))))))))))))
    }

    fn serialize_to<S: Serializer>(&self, serializer: &mut S) -> (r: Result<()>) {
        let ghost start = serializer.sink();
        let ghost s14 = self.14.encoding();
        let ghost s13 = self.13.encoding() + s14;
        let ghost s12 = self.12.encoding() + s13;
        let ghost s11 = self.11.encoding() + s12;
        let ghost s10 = self.10.encoding() + s11;
        let ghost s9 = self.9.encoding() + s10;
        let ghost s8 = self.8.encoding() + s9;
        let ghost s7 = self.7.encoding() + s8;
        let ghost s6 = self.6.encoding() + s7;
        let ghost s5 = self.5.encoding() + s6;
        let ghost s4 = self.4.encoding() + s5;
        let ghost s3 = self.3.encoding() + s4;
        let ghost s2 = self.2.encoding() + s3;
        let ghost s1 = self.1.encoding() + s2;
        let ghost s0 = self.0.encoding() + s1;
        assert(self.encoding() == s0);
        self.14.serialize_to(serializer)?;
        proof {
            start.lemma_prepend_twice(s14, self.13.encoding());
        }
        self.13.serialize_to(serializer)?;
        proof {
            start.lemma_prepend_twice(s13, self.12.encoding());
        }
        self.12.serialize_to(serializer)?;
        proof {
            start.lemma_prepend_twice(s12, self.11.encoding());
        }
        self.11.serialize_to(serializer)?;
        proof {
            start.lemma_prepend_twice(s11, self.10.encoding());
        }
        self.10.serialize_to(serializer)?;
        proof {
            start.lemma_prepend_twice(s10, self.9.encoding());
        }
        self.9.serialize_to(serializer)?;
        proof {
            start.lemma_prepend_twice(s9, self.8.encoding());
        }
        self.8.serialize_to(serializer)?;
        proof {
            start.lemma_prepend_twice(s8, self.7.encoding());
        }
        self.7.serialize_to(serializer)?;
        proof {
            start.lemma_prepend_twice(s7, self.6.encoding());
        }
        self.6.serialize_to(serializer)?;
        proof {
            start.lemma_prepend_twice(s6, self.5.encoding());
        }
        self.5.serialize_to(serializer)?;
        proof {
            start.lemma_prepend_twice(s5, self.4.encoding());
        }
        self.4.serialize_to(serializer)?;
        proof {
            start.lemma_prepend_twice(s4, self.3.encoding());
        }
        self.3.serialize_to(serializer)?;
        proof {
            start.lemma_prepend_twice(s3, self.2.encoding());
        }
        self.2.serialize_to(serializer)?;
        proof {
            start.lemma_prepend_twice(s2, self.1.encoding());
        }
        self.1.serialize_to(serializer)?;
        proof {
            start.lemma_prepend_twice(s1, self.0.encoding());
        }
        self.0.serialize_to(serializer)?;
        Ok(())
    }
}

impl<
    'a,
    T0: Deserialize<'a>,
    T1: Deserialize<'a>,
    T2: Deserialize<'a>,
    T3: Deserialize<'a>,
    T4: Deserialize<'a>,
    T5: Deserialize<'a>,
    T6: Deserialize<'a>,
    T7: Deserialize<'a>,
    T8: Deserialize<'a>,
    T9: Deserialize<'a>,
    T10: Deserialize<'a>,
    T11: Deserialize<'a>,
    T12: Deserialize<'a>,
    T13: Deserialize<'a>,
    T14: Deserialize<'a>,
> Deserialize<'a> for (T0, T1, T2, T3, T4, T5, T6, T7, T8, T9, T10, T11, T12, T13, T14) {
    open spec fn parse(input: Input) -> Parsed {
        tuple15_parse::<T0, T1, T2, T3, T4, T5, T6, T7, T8, T9, T10, T11, T12, T13, T14>(input)
    }

    #[verifier::rlimit(40)]
    fn deserialize_from<D: Deserializer<'a>>(buf: &mut D) -> (r: Result<Self>) {
        let ghost input = buf.input();
        assert(Self::parse(input) == tuple15_parse::<
            T0, T1, T2, T3, T4, T5, T6, T7, T8, T9, T10, T11, T12, T13, T14,
        >(input));
        proof {
            buf.lemma_input_wf();
            input.lemma_skip_skip(0, 0);
        }
        let t0 = T0::deserialize_from(buf)?;
        let ghost u0 = T0::parse(input)->Ok_0.1;
        let ghost i1 = buf.input();
        let t1 = T1::deserialize_from(buf)?;
        let ghost u1 = T1::parse(i1)->Ok_0.1;
        let ghost i2 = buf.input();
        proof {
            input.lemma_skip_skip(u0, u1);
        }
        let ghost c1 = u0 + u1;
        let t2 = T2::deserialize_from(buf)?;
        let ghost u2 = T2::parse(i2)->Ok_0.1;
        let ghost i3 = buf.input();
        proof {
            input.lemma_skip_skip(c1, u2);
        }
        let ghost c2 = c1 + u2;
        let t3 = T3::deserialize_from(buf)?;
        let ghost u3 = T3::parse(i3)->Ok_0.1;
        let ghost i4 = buf.input();
        proof {
            input.lemma_skip_skip(c2, u3);
        }
        let ghost c3 = c2 + u3;
        let t4 = T4::deserialize_from(buf)?;
        let ghost u4 = T4::parse(i4)->Ok_0.1;
        let ghost i5 = buf.input();
        proof {
            input.lemma_skip_skip(c3, u4);
        }
        let ghost c4 = c3 + u4;
        let t5 = T5::deserialize_from(buf)?;
        let ghost u5 = T5::parse(i5)->Ok_0.1;
        let ghost i6 = buf.input();
        proof {
            input.lemma_skip_skip(c4, u5);
        }
        let ghost c5 = c4 + u5;
        let t6 = T6::deserialize_from(buf)?;
        let ghost u6 = T6::parse(i6)->Ok_0.1;
        let ghost i7 = buf.input();
        proof {
            input.lemma_skip_skip(c5, u6);
        }
        let ghost c6 = c5 + u6;
        let t7 = T7::deserialize_from(buf)?;
        let ghost u7 = T7::parse(i7)->Ok_0.1;
        let ghost i8 = buf.input();
        proof {
            input.lemma_skip_skip(c6, u7);
        }
        let ghost c7 = c6 + u7;
        let t8 = T8::deserialize_from(buf)?;
        let ghost u8 = T8::parse(i8)->Ok_0.1;
        let ghost i9 = buf.input();
        proof {
            input.lemma_skip_skip(c7, u8);
        }
        let ghost c8 = c7 + u8;
        let t9 = T9::deserialize_from(buf)?;
        let ghost u9 = T9::parse(i9)->Ok_0.1;
        let ghost i10 = buf.input();
        proof {
            input.lemma_skip_skip(c8, u9);
        }
        let ghost c9 = c8 + u9;
        let t10 = T10::deserialize_from(buf)?;
        let ghost u10 = T10::parse(i10)->Ok_0.1;
        let ghost i11 = buf.input();
        proof {
            input.lemma_skip_skip(c9, u10);
        }
        let ghost c10 = c9 + u10;
        let t11 = T11::deserialize_from(buf)?;
        let ghost u11 = T11::parse(i11)->Ok_0.1;
        let ghost i12 = buf.input();
        proof {
            input.lemma_skip_skip(c10, u11);
        }
        let ghost c11 = c10 + u11;
        let t12 = T12::deserialize_from(buf)?;
        let ghost u12 = T12::parse(i12)->Ok_0.1;
        let ghost i13 = buf.input();
        proof {
            input.lemma_skip_skip(c11, u12);
        }
        let ghost c12 = c11 + u12;
        let t13 = T13::deserialize_from(buf)?;
        let ghost u13 = T13::parse(i13)->Ok_0.1;
        let ghost i14 = buf.input();
        proof {
            input.lemma_skip_skip(c12, u13);
        }
        let ghost c13 = c12 + u13;
        let t14 = T14::deserialize_from(buf)?;
        let ghost u14 = T14::parse(i14)->Ok_0.1;
        proof {
            input.lemma_skip_skip(c13, u14);
        }
        let value = (t0, t1, t2, t3, t4, t5, t6, t7, t8, t9, t10, t11, t12, t13, t14);
        let ghost s14 = t14.encoding();
        let ghost s13 = t13.encoding() + s14;
        let ghost s12 = t12.encoding() + s13;
        let ghost s11 = t11.encoding() + s12;
        let ghost s10 = t10.encoding() + s11;
        let ghost s9 = t9.encoding() + s10;
        let ghost s8 = t8.encoding() + s9;
        let ghost s7 = t7.encoding() + s8;
        let ghost s6 = t6.encoding() + s7;
        let ghost s5 = t5.encoding() + s6;
        let ghost s4 = t4.encoding() + s5;
        let ghost s3 = t3.encoding() + s4;
        let ghost s2 = t2.encoding() + s3;
        let ghost s1 = t1.encoding() + s2;
        let ghost s0 = t0.encoding() + s1;
        assert(value.encoding() == s0);
        Ok(value)
    }
}

impl<
    'a,
    T0: RoundTrip<'a>,
    T1: RoundTrip<'a>,
    T2: RoundTrip<'a>,
    T3: RoundTrip<'a>,
    T4: RoundTrip<'a>,
    T5: RoundTrip<'a>,
    T6: RoundTrip<'a>,
    T7: RoundTrip<'a>,
    T8: RoundTrip<'a>,
    T9: RoundTrip<'a>,
    T10: RoundTrip<'a>,
    T11: RoundTrip<'a>,
    T12: RoundTrip<'a>,
    T13: RoundTrip<'a>,
    T14: RoundTrip<'a>,
> RoundTrip<'a> for (T0, T1, T2, T3, T4, T5, T6, T7, T8, T9, T10, T11, T12, T13, T14) {
    proof fn lemma_round_trip(&self, rest: Seq<u8>) {
        assert(*self == (
            self.0,
            self.1,
            self.2,
            self.3,
            self.4,
            self.5,
            self.6,
            self.7,
            self.8,
            self.9,
            self.10,
            self.11,
            self.12,
            self.13,
            self.14,
        ));
        lemma_tuple15_round_trip(
            self.0,
            self.1,
            self.2,
            self.3,
            self.4,
            self.5,
            self.6,
            self.7,
            self.8,
            self.9,
            self.10,
            self.11,
            self.12,
            self.13,
            self.14,
            rest,
        );
    }
}

impl<
    'a,
    T0: Owning<'a>,
    T1: Owning<'a>,
    T2: Owning<'a>,
    T3: Owning<'a>,
    T4: Owning<'a>,
    T5: Owning<'a>,
    T6: Owning<'a>,
    T7: Owning<'a>,
    T8: Owning<'a>,
    T9: Owning<'a>,
    T10: Owning<'a>,
    T11: Owning<'a>,
    T12: Owning<'a>,
    T13: Owning<'a>,
    T14: Owning<'a>,
> Owning<'a> for (T0, T1, T2, T3, T4, T5, T6, T7, T8, T9, T10, T11, T12, T13, T14) {
    proof fn lemma_pieces_ignored(a: Input, b: Input) {
        lemma_tuple15_pieces_ignored::<
            T0, T1, T2, T3, T4, T5, T6, T7, T8, T9, T10, T11, T12, T13, T14,
        >(a, b);
    }
}

impl<
    T0: Serialize,
    T1: Serialize,
    T2: Serialize,
    T3: Serialize,
    T4: Serialize,
    T5: Serialize,
    T6: Serialize,
    T7: Serialize,
    T8: Serialize,
    T9: Serialize,
    T10: Serialize,
    T11: Serialize,
    T12: Serialize,
    T13: Serialize,
    T14: Serialize,
    T15: Serialize,
> Serialize for (T0, T1, T2, T3, T4, T5, T6, T7, T8, T9, T10, T11, T12, T13, T14, T15) {
    /// The wire forms of the members, the first one first.
    open spec fn encoding(&self) -> Seq<u8> {
        self.0.encoding()
            + (self.1.encoding()
            + (self.2.encoding()
            + (self.3.encoding()
            + (self.4.encoding()
            + (self.5.encoding()
            + (self.6.encoding()
            + (self.7.encoding()
            + (self.8.encoding()
            + (self.9.encoding()
            + (self.10.encoding()
            + (self.11.encoding()
            + (self.12.encoding()
            + (self.13.encoding()
            + (self.14.encoding()
            + (self.15.encoding())))))))))))))))
    }

    fn serialize_to<S: Serializer>(&self, serializer: &mut S) -> (r: Result<()>) {
        let ghost start = serializer.sink();
        let ghost s15 = self.15.encoding();
        let ghost s14 = self.14.encoding() + s15;
        let ghost s13 = self.13.encoding() + s14;
        let ghost s12 = self.12.encoding() + s13;
        let ghost s11 = self.11.encoding() + s12;
        let ghost s10 = self.10.encoding() + s11;
        let ghost s9 = self.9.encoding() + s10;
        let ghost s8 = self.8.encoding() + s9;
        let ghost s7 = self.7.encoding() + s8;
        let ghost s6 = self.6.encoding() + s7;
        let ghost s5 = self.5.encoding() + s6;
        let ghost s4 = self.4.encoding() + s5;
        let ghost s3 = self.3.encoding() + s4;
        let ghost s2 = self.2.encoding() + s3;
        let ghost s1 = self.1.encoding() + s2;
        let ghost s0 = self.0.encoding() + s1;
        assert(self.encoding() == s0);
        self.15.serialize_to(serializer)?;
        proof {
            start.lemma_prepend_twice(s15, self.14.encoding());
        }
        self.14.serialize_to(serializer)?;
        proof {
            start.lemma_prepend_twice(s14, self.13.encoding());
        }
        self.13.serialize_to(serializer)?;
        proof {
            start.lemma_prepend_twice(s13, self.12.encoding());
        }
        self.12.serialize_to(serializer)?;
        proof {
            start.lemma_prepend_twice(s12, self.11.encoding());
        }
        self.11.serialize_to(serializer)?;
        proof {
            start.lemma_prepend_twice(s11, self.10.encoding());
        }
        self.10.serialize_to(serializer)?;
        proof {
            start.lemma_prepend_twice(s10, self.9.encoding());
        }
        self.9.serialize_to(serializer)?;
        proof {
            start.lemma_prepend_twice(s9, self.8.encoding());
        }
        self.8.serialize_to(serializer)?;
        proof {
            start.lemma_prepend_twice(s8, self.7.encoding());
        }
        self.7.serialize_to(serializer)?;
        proof {
            start.lemma_prepend_twice(s7, self.6.encoding());
        }
        self.6.serialize_to(serializer)?;
        proof {
            start.lemma_prepend_twice(s6, self.5.encoding());
        }
        self.5.serialize_to(serializer)?;
        proof {
            start.lemma_prepend_twice(s5, self.4.encoding());
        }
        self.4.serialize_to(serializer)?;
        proof {
            start.lemma_prepend_twice(s4, self.3.encoding());
        }
        self.3.serialize_to(serializer)?;
        proof {
            start.lemma_prepend_twice(s3, self.2.encoding());
        }
        self.2.serialize_to(serializer)?;
        proof {
            start.lemma_prepend_twice(s2, self.1.encoding());
        }
        self.1.serialize_to(serializer)?;
        proof {
            start.lemma_prepend_twice(s1, self.0.encoding());
        }
        self.0.serialize_to(serializer)?;
        Ok(())
    }
}

impl<
    'a,
    T0: Deserialize<'a>,
    T1: Deserialize<'a>,
    T2: Deserialize<'a>,
    T3: Deserialize<'a>,
    T4: Deserialize<'a>,
    T5: Deserialize<'a>,
    T6: Deserialize<'a>,
    T7: Deserialize<'a>,
    T8: Deserialize<'a>,
    T9: Deserialize<'a>,
    T10: Deserialize<'a>,
    T11: Deserialize<'a>,
    T12: Deserialize<'a>,
    T13: Deserialize<'a>,
    T14: Deserialize<'a>,
    T15: Deserialize<'a>,
> Deserialize<'a> for (T0, T1, T2, T3, T4, T5, T6, T7, T8, T9, T10, T11, T12, T13, T14, T15) {
    open spec fn parse(input: Input) -> Parsed {
        tuple16_parse::<
            T0, T1, T2, T3, T4, T5, T6, T7, T8, T9, T10, T11, T12, T13, T14, T15,
        >(input)
    }

    #[verifier::rlimit(40)]
    fn deserialize_from<D: Deserializer<'a>>(buf: &mut D) -> (r: Result<Self>) {
        let ghost input = buf.input();
        assert(Self::parse(input) == tuple16_parse::<
            T0, T1, T2, T3, T4, T5, T6, T7, T8, T9, T10, T11, T12, T13, T14, T15,
        >(input));
        proof {
            buf.lemma_input_wf();
            input.lemma_skip_skip(0, 0);
        }
        let t0 = T0::deserialize_from(buf)?;
        let ghost u0 = T0::parse(input)->Ok_0.1;
        let ghost i1 = buf.input();
        let t1 = T1::deserialize_from(buf)?;
        let ghost u1 = T1::parse(i1)->Ok_0.1;
        let ghost i2 = buf.input();
        proof {
            input.lemma_skip_skip(u0, u1);
        }
        let ghost c1 = u0 + u1;
        let t2 = T2::deserialize_from(buf)?;
        let ghost u2 = T2::parse(i2)->Ok_0.1;
        let ghost i3 = buf.input();
        proof {
            input.lemma_skip_skip(c1, u2);
        }
        let ghost c2 = c1 + u2;
        let t3 = T3::deserialize_from(buf)?;
        let ghost u3 = T3::parse(i3)->Ok_0.1;
        let ghost i4 = buf.input();
        proof {
            input.lemma_skip_skip(c2, u3);
        }
        let ghost c3 = c2 + u3;
        let t4 = T4::deserialize_from(buf)?;
        let ghost u4 = T4::parse(i4)->Ok_0.1;
        let ghost i5 = buf.input();
        proof {
            input.lemma_skip_skip(c3, u4);
        }
        let ghost c4 = c3 + u4;
        let t5 = T5::deserialize_from(buf)?;
        let ghost u5 = T5::parse(i5)->Ok_0.1;
        let ghost i6 = buf.input();
        proof {
            input.lemma_skip_skip(c4, u5);
        }
        let ghost c5 = c4 + u5;
        let t6 = T6::deserialize_from(buf)?;
        let ghost u6 = T6::parse(i6)->Ok_0.1;
        let ghost i7 = buf.input();
        proof {
            input.lemma_skip_skip(c5, u6);
        }
        let ghost c6 = c5 + u6;
        let t7 = T7::deserialize_from(buf)?;
        let ghost u7 = T7::parse(i7)->Ok_0.1;
        let ghost i8 = buf.input();
        proof {
            input.lemma_skip_skip(c6, u7);
        }
        let ghost c7 = c6 + u7;
        let t8 = T8::deserialize_from(buf)?;
        let ghost u8 = T8::parse(i8)->Ok_0.1;
        let ghost i9 = buf.input();
        proof {
            input.lemma_skip_skip(c7, u8);
        }
        let ghost c8 = c7 + u8;
        let t9 = T9::deserialize_from(buf)?;
        let ghost u9 = T9::parse(i9)->Ok_0.1;
        let ghost i10 = buf.input();
        proof {
            input.lemma_skip_skip(c8, u9);
        }
        let ghost c9 = c8 + u9;
        let t10 = T10::deserialize_from(buf)?;
        let ghost u10 = T10::parse(i10)->Ok_0.1;
        let ghost i11 = buf.input();
        proof {
            input.lemma_skip_skip(c9, u10);
        }
        let ghost c10 = c9 + u10;
        let t11 = T11::deserialize_from(buf)?;
        let ghost u11 = T11::parse(i11)->Ok_0.1;
        let ghost i12 = buf.input();
        proof {
            input.lemma_skip_skip(c10, u11);
        }
        let ghost c11 = c10 + u11;
        let t12 = T12::deserialize_from(buf)?;
        let ghost u12 = T12::parse(i12)->Ok_0.1;
        let ghost i13 = buf.input();
        proof {
            input.lemma_skip_skip(c11, u12);
        }
        let ghost c12 = c11 + u12;
        let t13 = T13::deserialize_from(buf)?;
        let ghost u13 = T13::parse(i13)->Ok_0.1;
        let ghost i14 = buf.input();
        proof {
            input.lemma_skip_skip(c12, u13);
        }
        let ghost c13 = c12 + u13;
        let t14 = T14::deserialize_from(buf)?;
        let ghost u14 = T14::parse(i14)->Ok_0.1;
        let ghost i15 = buf.input();
        proof {
            input.lemma_skip_skip(c13, u14);
        }
        let ghost c14 = c13 + u14;
        let t15 = T15::deserialize_from(buf)?;
        let ghost u15 = T15::parse(i15)->Ok_0.1;
        proof {
            input.lemma_skip_skip(c14, u15);
        }
        let value = (t0, t1, t2, t3, t4, t5, t6, t7, t8, t9, t10, t11, t12, t13, t14, t15);
        let ghost s15 = t15.encoding();
        let ghost s14 = t14.encoding() + s15;
        let ghost s13 = t13.encoding() + s14;
        let ghost s12 = t12.encoding() + s13;
        let ghost s11 = t11.encoding() + s12;
        let ghost s10 = t10.encoding() + s11;
        let ghost s9 = t9.encoding() + s10;
        let ghost s8 = t8.encoding() + s9;
        let ghost s7 = t7.encoding() + s8;
        let ghost s6 = t6.encoding() + s7;
        let ghost s5 = t5.encoding() + s6;
        let ghost s4 = t4.encoding() + s5;
        let ghost s3 = t3.encoding() + s4;
        let ghost s2 = t2.encoding() + s3;
        let ghost s1 = t1.encoding() + s2;
        let ghost s0 = t0.encoding() + s1;
        assert(value.encoding() == s0);
        Ok(value)
    }
}

impl<
    'a,
    T0: RoundTrip<'a>,
    T1: RoundTrip<'a>,
    T2: RoundTrip<'a>,
    T3: RoundTrip<'a>,
    T4: RoundTrip<'a>,
    T5: RoundTrip<'a>,
    T6: RoundTrip<'a>,
    T7: RoundTrip<'a>,
    T8: RoundTrip<'a>,
    T9: RoundTrip<'a>,
    T10: RoundTrip<'a>,
    T11: RoundTrip<'a>,
    T12: RoundTrip<'a>,
    T13: RoundTrip<'a>,
    T14: RoundTrip<'a>,
    T15: RoundTrip<'a>,
> RoundTrip<'a> for (T0, T1, T2, T3, T4, T5, T6, T7, T8, T9, T10, T11, T12, T13, T14, T15) {
    proof fn lemma_round_trip(&self, rest: Seq<u8>) {
        assert(*self == (
            self.0,
            self.1,
            self.2,
            self.3,
            self.4,
            self.5,
            self.6,
            self.7,
            self.8,
            self.9,
            self.10,
            self.11,
            self.12,
            self.13,
            self.14,
            self.15,
        ));
        lemma_tuple16_round_trip(
            self.0,
            self.1,
            self.2,
            self.3,
            self.4,
            self.5,
            self.6,
            self.7,
            self.8,
            self.9,
            self.10,
            self.11,
            self.12,
            self.13,
            self.14,
            self.15,
            rest,
        );
    }
}

impl<
    'a,
    T0: Owning<'a>,
    T1: Owning<'a>,
    T2: Owning<'a>,
    T3: Owning<'a>,
    T4: Owning<'a>,
    T5: Owning<'a>,
    T6: Owning<'a>,
    T7: Owning<'a>,
    T8: Owning<'a>,
    T9: Owning<'a>,
    T10: Owning<'a>,
    T11: Owning<'a>,
    T12: Owning<'a>,
    T13: Owning<'a>,
    T14: Owning<'a>,
    T15: Owning<'a>,
> Owning<'a> for (T0, T1, T2, T3, T4, T5, T6, T7, T8, T9, T10, T11, T12, T13, T14, T15) {
    proof fn lemma_pieces_ignored(a: Input, b: Input) {
        lemma_tuple16_pieces_ignored::<
            T0, T1, T2, T3, T4, T5, T6, T7, T8, T9, T10, T11, T12, T13, T14, T15,
        >(a, b);
    }
}

} // verus!
