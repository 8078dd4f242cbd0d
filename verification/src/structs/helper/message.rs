//! The pieces of the codec: the two nibbles of the header byte, the checks
//! on header and body, and the parsers of the two kinds of payload.

use crate::endian::{lemma_be_value_bound, radix_pow, read_be};
use crate::enums::code::Code;
use crate::enums::errors::MessageError;
use crate::enums::types::{width_of, Type};
use crate::structs::helper::elements::{chunk, decode_numbers, element_from_pattern};
use crate::structs::helper::text::{
    lemma_first_nul_at, lemma_runs_of_nul_free, nul_free, reads_as, runs, string_from_utf8_lossy,
};
use vstd::prelude::*;
use vstd::slice::slice_subrange;

verus! {

/// Whether `byte` is a header byte of the format: its upper nibble is the
/// status SUCCESS (0000) or EMPTY_QUEUE (0010), its lower nibble one of the
/// eleven types.
pub open spec fn header_ok(byte: u8) -> bool {
    (byte / 16 == 0 || byte / 16 == 2) && byte % 16 <= 10
}

/// What the check of a body answers: a string payload must end in a NUL
/// byte, a payload of fixed-width elements must hold exactly `count` of them.
pub open spec fn body_check(nibble: u8, count: nat, body: Seq<u8>) -> Result<(), MessageError> {
    if width_of(nibble) == 0 {
        if body.len() > 0 && body.last() == 0 {
            Ok(())
        } else {
            Err(MessageError::InvalidData)
        }
    } else if body.len() == count * width_of(nibble) {
        Ok(())
    } else {
        Err(MessageError::InvalidDataLength)
    }
}

/// The type tag for a type nibble. Nibbles above the highest in use map to
/// the string type, as the highest does: callers hand in a checked nibble.
#[inline]
pub fn map_nibble_to_type(nibble: u8) -> (ty: Type)
    ensures
        ty.is_blank(),
        ty.nibble() == if nibble <= 9 {
            nibble
        } else {
            10
        },
{
    if nibble == 0b0000 {
        Type::U8(0)
    } else if nibble == 0b0001 {
        Type::U16(0)
    } else if nibble == 0b0010 {
        Type::U32(0)
    } else if nibble == 0b0011 {
        Type::U64(0)
    } else if nibble == 0b0100 {
        Type::I8(0)
    } else if nibble == 0b0101 {
        Type::I16(0)
    } else if nibble == 0b0110 {
        Type::I32(0)
    } else if nibble == 0b0111 {
        Type::I64(0)
    } else if nibble == 0b1000 {
        Type::F32(0)
    } else if nibble == 0b1001 {
        Type::F64(0)
    } else {
        Type::Str(String::new())
    }
}

/// The type nibble of a type: the lower half of the header byte.
#[inline]
pub fn map_type_to_nibble(ty: &Type) -> (nibble: u8)
    ensures
        nibble == ty.nibble(),
        nibble <= 10,
{
    match ty {
        Type::U8(_) => 0b0000,
        Type::U16(_) => 0b0001,
        Type::U32(_) => 0b0010,
        Type::U64(_) => 0b0011,
        Type::I8(_) => 0b0100,
        Type::I16(_) => 0b0101,
        Type::I32(_) => 0b0110,
        Type::I64(_) => 0b0111,
        Type::F32(_) => 0b1000,
        Type::F64(_) => 0b1001,
        Type::Str(_) => 0b1010,
    }
}

/// The status for the upper half of a header byte, given with the lower half
/// cleared. Zero is SUCCESS; every other value maps to EMPTY_QUEUE: callers
/// hand in a checked header.
#[inline]
pub fn map_nibble_to_code(nibble: u8) -> (code: Code)
    ensures
        code == if nibble == 0 {
            Code::SUCCESS
        } else {
            Code::EMPTY_QUEUE
        },
{
    if nibble == 0b0000 {
        Code::SUCCESS
    } else {
        Code::EMPTY_QUEUE
    }
}

/// The status as the upper half of a header byte, the lower half clear.
#[inline]
pub fn map_code_to_nibble(co: &Code) -> (nibble: u8)
    ensures
        nibble == co.number() * 16,
{
    match co {
        Code::SUCCESS => 0b0000_0000,
        Code::NULL_DATA => 0b0001_0000,
        Code::EMPTY_QUEUE => 0b0010_0000,
    }
}

/// Checks the first byte of `header`: the status nibble must be SUCCESS or
/// EMPTY_QUEUE and the type nibble at most ten. An empty header fails too.
pub fn validate_header(header: &[u8]) -> (checked: Result<(), MessageError>)
    ensures
        checked == if header@.len() > 0 && header_ok(header@[0]) {
            Ok::<(), MessageError>(())
        } else {
            Err::<(), MessageError>(MessageError::InvalidHeaderBits)
        },
{
    if header.len() == 0 {
        return Err(MessageError::InvalidHeaderBits);
    }
    let first_byte = header[0];

    let first_nibble = first_byte >> 4;
    assert(first_byte >> 4 == first_byte / 16) by (bit_vector);
    if first_nibble != 0b0000 && first_nibble != 0b0010 {
        return Err(MessageError::InvalidHeaderBits);
    }
    let second_nibble = first_byte & 0x0F;
    assert(first_byte & 0x0F == first_byte % 16) by (bit_vector);
    if second_nibble > 0b1010 {
        return Err(MessageError::InvalidHeaderBits);
    }
    Ok(())
}

/// Checks a payload against the element count `len` and the type `ty`.
pub fn validate_body(body: &[u8], len: usize, ty: &Type) -> (checked: Result<(), MessageError>)
    ensures
        checked == body_check(ty.nibble(), len as nat, body@),
{
    let size = ty.get_size();

    if size == 0 {
        return if body.len() > 0 && body[body.len() - 1] == 0 {
            Ok(())
        } else {
            Err(MessageError::InvalidData)
        };
    }
    assert(len * size <= usize::MAX * 8) by (nonlinear_arith)
        requires
            0 <= len <= usize::MAX,
            0 <= size <= 8,
    ;
    let expected_size: u128 = len as u128 * size as u128;
    if expected_size != body.len() as u128 {
        return Err(MessageError::InvalidDataLength);
    }
    Ok(())
}

/// Splits a string payload into its runs and turns each into a string
/// element, invalid UTF-8 replaced as `String::from_utf8_lossy` does.
pub fn parse_string(data: &[u8]) -> (elements: Vec<Type>)
    ensures
        elements@.len() == runs(data@).len(),
        forall|i: int|
            0 <= i < elements@.len() ==> (#[trigger] elements@[i]).nibble() == 10 && reads_as(
                runs(data@)[i],
                elements@[i].text(),
            ),
{
    let mut left_ptr: usize = 0;
    let mut ret_val: Vec<Type> = Vec::new();
    let ghost done: Seq<Seq<u8>> = Seq::empty();
    let mut i: usize = 0;

    proof {
        assert(data@.subrange(0, data@.len() as int) =~= data@);
        assert(done + runs(data@) =~= runs(data@));
    }
    while i < data.len()
        invariant
            left_ptr <= i <= data@.len(),
            nul_free(data@.subrange(left_ptr as int, i as int)),
            runs(data@) == done + runs(data@.subrange(left_ptr as int, data@.len() as int)),
            ret_val@.len() == done.len(),
            forall|j: int|
                0 <= j < ret_val@.len() ==> (#[trigger] ret_val@[j]).nibble() == 10 && reads_as(
                    done[j],
                    ret_val@[j].text(),
                ),
        decreases data@.len() - i,
    {
        let ghost rest = data@.subrange(left_ptr as int, data@.len() as int);
        if data[i] == 0 {
            let run = slice_subrange(data, left_ptr, i);
            let text = string_from_utf8_lossy(run);
            ret_val.push(Type::Str(text));
            proof {
                assert(rest.subrange(0, i - left_ptr) =~= run@);
                lemma_first_nul_at(rest, i - left_ptr);
                assert(rest.subrange(i - left_ptr + 1, rest.len() as int) =~= data@.subrange(
                    i + 1,
                    data@.len() as int,
                ));
                assert(runs(data@) =~= done.push(run@) + runs(
                    data@.subrange(i + 1, data@.len() as int),
                ));
                done = done.push(run@);
                assert(data@.subrange(i + 1, i + 1) =~= Seq::<u8>::empty());
            }
            left_ptr = i + 1;
        } else {
            proof {
                let scanned = data@.subrange(left_ptr as int, i + 1);
                assert forall|j: int| 0 <= j < scanned.len() implies #[trigger] scanned[j]
                    != 0 by {
                    if j < i - left_ptr {
                        assert(data@.subrange(left_ptr as int, i as int)[j] == scanned[j]);
                    }
                }
            }
        }
        i = i + 1;
    }
    proof {
        lemma_runs_of_nul_free(data@.subrange(left_ptr as int, data@.len() as int));
        assert(runs(data@) =~= done);
    }
    ret_val
}

/// Cuts a payload into elements as wide as `ty` and reads each as a
/// big-endian number of that type. Bytes behind the last whole element are
/// left out. Under the string type, which has no width, there are no
/// elements to read.
pub fn parse_num(data: &Vec<u8>, ty: Type) -> (elements: Vec<Type>)
    ensures
        ty.width() == 0 ==> elements@.len() == 0,
        ty.width() > 0 ==> elements@.len() == decode_numbers(ty.nibble(), data@).len(),
        ty.width() > 0 ==> forall|i: int|
            0 <= i < elements@.len() ==> (#[trigger] elements@[i]).nibble() == ty.nibble()
                && elements@[i].number() == decode_numbers(ty.nibble(), data@)[i],
{
    let size: usize = ty.get_size();
    let mut ret_val: Vec<Type> = Vec::new();
    if size == 0 {
        return ret_val;
    }

    let mut i: usize = 0;
    assert(0 * size == 0) by (nonlinear_arith);
    while data.len() - i >= size
        invariant
            0 < size <= 8,
            size == ty.width(),
            i <= data@.len(),
            i == ret_val@.len() * size,
            forall|j: int|
                0 <= j < ret_val@.len() ==> (#[trigger] ret_val@[j]).nibble() == ty.nibble()
                    && ret_val@[j].number() == decode_numbers(ty.nibble(), data@)[j],
        decreases data@.len() - i,
    {
        let ghost index = ret_val@.len() as int;
        let ghost bytes = data@.subrange(i as int, i + size);
        proof {
            assert((index + 1) * size == i + size) by (nonlinear_arith)
                requires
                    i == index * size,
            ;
            assert(index < data@.len() / (size as nat)) by (nonlinear_arith)
                requires
                    (index + 1) * size <= data@.len(),
                    size > 0,
            ;
            assert(chunk(data@, size as nat, index) == bytes);
            lemma_be_value_bound(bytes);
        }
        let pattern = read_be(data.as_slice(), i, size);
        assert((pattern as nat) % radix_pow(size as nat) == pattern) by (nonlinear_arith)
            requires
                pattern < radix_pow(size as nat),
        ;
        ret_val.push(element_from_pattern(&ty, pattern));
        i += size;
    }
    assert(ret_val@.len() == data@.len() / (size as nat)) by (nonlinear_arith)
        requires
            i == ret_val@.len() * size,
            i <= data@.len(),
            data@.len() - i < size,
            size > 0,
    ;
    ret_val
}

} // verus!
