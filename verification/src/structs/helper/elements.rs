//! Fixed-width numeric elements: how a payload is cut into elements, and how
//! each element is laid out in big-endian bytes.

use crate::endian::{
    be_bytes, be_value, lemma_be_bytes_len, lemma_be_bytes_of_be_value, lemma_be_value_bound,
    lemma_be_value_of_be_bytes, lemma_radix_pow_values, pattern_of, radix_pow, signed_of,
    write_be,
};
use crate::enums::types::{is_signed, width_of, Type};
use vstd::prelude::*;

verus! {

/// The numbers that a run of `u8` values holds.
pub open spec fn u8s(values: Seq<u8>) -> Seq<int> {
    Seq::new(values.len(), |i: int| values[i] as int)
}

/// The numbers that a run of `u16` values holds.
pub open spec fn u16s(values: Seq<u16>) -> Seq<int> {
    Seq::new(values.len(), |i: int| values[i] as int)
}

/// The numbers that a run of `u32` values holds.
pub open spec fn u32s(values: Seq<u32>) -> Seq<int> {
    Seq::new(values.len(), |i: int| values[i] as int)
}

/// The numbers that a run of `u64` values holds.
pub open spec fn u64s(values: Seq<u64>) -> Seq<int> {
    Seq::new(values.len(), |i: int| values[i] as int)
}

/// The numbers that a run of `i8` values holds.
pub open spec fn i8s(values: Seq<i8>) -> Seq<int> {
    Seq::new(values.len(), |i: int| values[i] as int)
}

/// The numbers that a run of `i16` values holds.
pub open spec fn i16s(values: Seq<i16>) -> Seq<int> {
    Seq::new(values.len(), |i: int| values[i] as int)
}

/// The numbers that a run of `i32` values holds.
pub open spec fn i32s(values: Seq<i32>) -> Seq<int> {
    Seq::new(values.len(), |i: int| values[i] as int)
}

/// The numbers that a run of `i64` values holds.
pub open spec fn i64s(values: Seq<i64>) -> Seq<int> {
    Seq::new(values.len(), |i: int| values[i] as int)
}

/// Whether `number` is a value of the numeric type with nibble `nibble`.
pub open spec fn fits(nibble: u8, number: int) -> bool {
    let width = width_of(nibble);
    if is_signed(nibble) {
        -(radix_pow(width) as int) <= 2 * number < radix_pow(width)
    } else {
        0 <= number < radix_pow(width)
    }
}

/// The bytes of one element: `number` in big-endian two's complement, as wide
/// as the type with nibble `nibble`.
pub open spec fn element_bytes(nibble: u8, number: int) -> Seq<u8> {
    be_bytes(pattern_of(number, width_of(nibble)), width_of(nibble))
}

/// The number that the bytes of one element stand for under the type with
/// nibble `nibble`.
pub open spec fn element_number(nibble: u8, bytes: Seq<u8>) -> int {
    if is_signed(nibble) {
        signed_of(be_value(bytes), width_of(nibble))
    } else {
        be_value(bytes) as int
    }
}

/// The payload of a message that holds `numbers`: their elements one after
/// the other.
pub open spec fn encode_numbers(nibble: u8, numbers: Seq<int>) -> Seq<u8>
    decreases numbers.len(),
{
    if numbers.len() == 0 {
        Seq::empty()
    } else {
        encode_numbers(nibble, numbers.drop_last()) + element_bytes(nibble, numbers.last())
    }
}

/// The bytes of the element at `index` of a payload of `width`-byte elements.
pub open spec fn chunk(payload: Seq<u8>, width: nat, index: int) -> Seq<u8> {
    payload.subrange(index * width, (index + 1) * width)
}

/// The numbers that a payload holds under the numeric type with nibble
/// `nibble`: one for each whole element, in order.
pub open spec fn decode_numbers(nibble: u8, payload: Seq<u8>) -> Seq<int> {
    Seq::new(
        payload.len() / width_of(nibble),
        |index: int| element_number(nibble, chunk(payload, width_of(nibble), index)),
    )
}

/// An encoded payload is as long as its elements together.
pub proof fn lemma_encode_numbers_len(nibble: u8, numbers: Seq<int>)
    ensures
        encode_numbers(nibble, numbers).len() == numbers.len() * width_of(nibble),
    decreases numbers.len(),
{
    if numbers.len() > 0 {
        lemma_encode_numbers_len(nibble, numbers.drop_last());
        lemma_be_bytes_len(pattern_of(numbers.last(), width_of(nibble)), width_of(nibble));
        assert((numbers.len() - 1) * width_of(nibble) + width_of(nibble) == numbers.len()
            * width_of(nibble)) by (nonlinear_arith);
    } else {
        assert(0 * width_of(nibble) == 0) by (nonlinear_arith);
    }
}

/// One element comes back from its bytes, provided the number is a value of
/// the type.
pub proof fn lemma_element_round_trip(nibble: u8, number: int)
    requires
        width_of(nibble) > 0,
        fits(nibble, number),
    ensures
        element_bytes(nibble, number).len() == width_of(nibble),
        element_number(nibble, element_bytes(nibble, number)) == number,
{
    let width = width_of(nibble);
    lemma_be_bytes_len(pattern_of(number, width), width);
    lemma_be_value_of_be_bytes(pattern_of(number, width), width);
}

/// The element at `index` of an encoded payload is the bytes of the number at
/// `index`.
pub proof fn lemma_chunk_of_encoded(nibble: u8, numbers: Seq<int>, index: int)
    requires
        0 <= index < numbers.len(),
    ensures
        chunk(encode_numbers(nibble, numbers), width_of(nibble), index) == element_bytes(
            nibble,
            numbers[index],
        ),
    decreases numbers.len(),
{
    let width = width_of(nibble);
    let front = numbers.drop_last();
    let encoded = encode_numbers(nibble, numbers);
    lemma_encode_numbers_len(nibble, front);
    lemma_encode_numbers_len(nibble, numbers);
    lemma_be_bytes_len(pattern_of(numbers.last(), width), width);
    assert((index + 1) * width == index * width + width) by (nonlinear_arith);
    assert(0 <= index * width) by (nonlinear_arith)
        requires
            0 <= index,
    ;
    if index == numbers.len() - 1 {
        assert(chunk(encoded, width, index) =~= element_bytes(nibble, numbers.last()));
    } else {
        lemma_chunk_of_encoded(nibble, front, index);
        assert((index + 1) * width <= front.len() * width) by (nonlinear_arith)
            requires
                index + 1 <= front.len(),
        ;
        assert(chunk(encoded, width, index) =~= chunk(
            encode_numbers(nibble, front),
            width,
            index,
        ));
    }
}

/// Decoding an encoded payload gives the numbers back, provided each is a
/// value of the type.
pub proof fn lemma_decode_encoded_numbers(nibble: u8, numbers: Seq<int>)
    requires
        width_of(nibble) > 0,
        forall|i: int| 0 <= i < numbers.len() ==> fits(nibble, #[trigger] numbers[i]),
    ensures
        decode_numbers(nibble, encode_numbers(nibble, numbers)) == numbers,
{
    let width = width_of(nibble);
    let encoded = encode_numbers(nibble, numbers);
    lemma_encode_numbers_len(nibble, numbers);
    assert((numbers.len() * width) / width == numbers.len()) by (nonlinear_arith)
        requires
            width > 0,
    ;
    assert forall|i: int| 0 <= i < numbers.len() implies #[trigger] decode_numbers(
        nibble,
        encoded,
    )[i] == numbers[i] by {
        lemma_chunk_of_encoded(nibble, numbers, i);
        lemma_element_round_trip(nibble, numbers[i]);
    }
    assert(decode_numbers(nibble, encoded) =~= numbers);
}

/// Encoding what a payload of whole elements decodes to gives the payload
/// back.
pub proof fn lemma_encode_decoded_numbers(nibble: u8, payload: Seq<u8>)
    requires
        width_of(nibble) > 0,
        payload.len() % width_of(nibble) == 0,
    ensures
        encode_numbers(nibble, decode_numbers(nibble, payload)) == payload,
    decreases payload.len(),
{
    let width = width_of(nibble);
    let count = payload.len() / width;
    let numbers = decode_numbers(nibble, payload);
    assert(payload.len() == count * width) by (nonlinear_arith)
        requires
            width > 0,
            count == payload.len() / width,
            payload.len() % width == 0,
    ;
    if count == 0 {
        assert(payload.len() == 0) by (nonlinear_arith)
            requires
                payload.len() == count * width,
                count == 0,
        ;
        assert(payload =~= Seq::<u8>::empty());
    } else {
        let cut = (count - 1) * width;
        assert(cut + width == count * width) by (nonlinear_arith)
            requires
                cut == (count - 1) * width,
        ;
        assert(0 <= cut) by (nonlinear_arith)
            requires
                cut == (count - 1) * width,
                count >= 1,
        ;
        let front = payload.subrange(0, cut);
        assert(front.len() / width == count - 1 && front.len() % width == 0) by (nonlinear_arith)
            requires
                front.len() == (count - 1) * width,
                width > 0,
                count >= 1,
        ;
        lemma_encode_decoded_numbers(nibble, front);
        assert forall|i: int| 0 <= i < count - 1 implies chunk(front, width, i) == chunk(
            payload,
            width,
            i,
        ) by {
            assert(0 <= i * width && (i + 1) * width <= cut) by (nonlinear_arith)
                requires
                    0 <= i < count - 1,
                    cut == (count - 1) * width,
            ;
            assert(chunk(front, width, i) =~= chunk(payload, width, i));
        }
        assert(numbers.drop_last() =~= decode_numbers(nibble, front));
        let last = chunk(payload, width, count - 1);
        assert(last =~= payload.subrange(cut, payload.len() as int));
        lemma_be_value_bound(last);
        lemma_be_bytes_of_be_value(last);
        assert(element_bytes(nibble, numbers.last()) == last);
        assert(payload =~= front + last);
    }
}

/// Appends the bytes of one numeric element to `buf`. A string element has no
/// width and leaves `buf` as it is.
pub fn append_element(buf: &mut Vec<u8>, element: &Type)
    ensures
        final(buf)@ == old(buf)@ + element_bytes(element.nibble(), element.number()),
{
    proof {
        lemma_radix_pow_values();
    }
    match element {
        Type::U8(v) => write_be(buf, *v as u64, 1),
        Type::U16(v) => write_be(buf, *v as u64, 2),
        Type::U32(v) | Type::F32(v) => write_be(buf, *v as u64, 4),
        Type::U64(v) | Type::F64(v) => write_be(buf, *v, 8),
        Type::I8(v) => {
            let pattern: u64 = if *v < 0 {
                (*v as i64 + 0x100) as u64
            } else {
                *v as u64
            };
            write_be(buf, pattern, 1)
        },
        Type::I16(v) => {
            let pattern: u64 = if *v < 0 {
                (*v as i64 + 0x1_0000) as u64
            } else {
                *v as u64
            };
            write_be(buf, pattern, 2)
        },
        Type::I32(v) => {
            let pattern: u64 = if *v < 0 {
                (*v as i64 + 0x1_0000_0000) as u64
            } else {
                *v as u64
            };
            write_be(buf, pattern, 4)
        },
        Type::I64(v) => {
            let pattern: u64 = if *v < 0 {
                (*v as i128 + 0x1_0000_0000_0000_0000) as u64
            } else {
                *v as u64
            };
            write_be(buf, pattern, 8)
        },
        Type::Str(_) => {
            assert(old(buf)@ + be_bytes(0, 0) =~= old(buf)@);
        },
    }
}

/// The element of `ty`'s type whose big-endian bytes spell `pattern`, of
/// which only as many low bytes count as the type is wide. For the string
/// type, which has no width, that is the empty string.
pub fn element_from_pattern(ty: &Type, pattern: u64) -> (element: Type)
    ensures
        element.nibble() == ty.nibble(),
        element.number() == if is_signed(ty.nibble()) {
            signed_of((pattern as nat) % radix_pow(ty.width()), ty.width())
        } else {
            ((pattern as nat) % radix_pow(ty.width())) as int
        },
        element.text().len() == 0,
{
    proof {
        lemma_radix_pow_values();
        let low = (pattern as nat) % radix_pow(ty.width());
        if ty.width() == 0 {
            assert(low == (pattern as nat) % 1);
        } else if ty.width() == 1 {
            assert(low == (pattern as nat) % 0x100);
        } else if ty.width() == 2 {
            assert(low == (pattern as nat) % 0x1_0000);
        } else if ty.width() == 4 {
            assert(low == (pattern as nat) % 0x1_0000_0000);
        } else {
            assert(low == (pattern as nat) % 0x1_0000_0000_0000_0000);
        }
    }
    match ty {
        Type::U8(_) => Type::U8((pattern % 0x100) as u8),
        Type::U16(_) => Type::U16((pattern % 0x1_0000) as u16),
        Type::U32(_) => Type::U32((pattern % 0x1_0000_0000) as u32),
        Type::U64(_) => Type::U64(pattern),
        Type::F32(_) => Type::F32((pattern % 0x1_0000_0000) as u32),
        Type::F64(_) => Type::F64(pattern),
        Type::I8(_) => {
            let low = pattern % 0x100;
            Type::I8(
                if low >= 0x80 {
                    (low as i64 - 0x100) as i8
                } else {
                    low as i8
                },
            )
        },
        Type::I16(_) => {
            let low = pattern % 0x1_0000;
            Type::I16(
                if low >= 0x8000 {
                    (low as i64 - 0x1_0000) as i16
                } else {
                    low as i16
                },
            )
        },
        Type::I32(_) => {
            let low = pattern % 0x1_0000_0000;
            Type::I32(
                if low >= 0x8000_0000 {
                    (low as i64 - 0x1_0000_0000) as i32
                } else {
                    low as i32
                },
            )
        },
        Type::I64(_) => Type::I64(
            if pattern >= 0x8000_0000_0000_0000 {
                (pattern as i128 - 0x1_0000_0000_0000_0000) as i64
            } else {
                pattern as i64
            },
        ),
        Type::Str(_) => Type::Str(String::new()),
    }
}

} // verus!
