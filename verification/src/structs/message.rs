//! The message: a typed run of elements with a status, and its wire form.

use crate::buffer::{append_bytes, bytes_as_slice, bytes_from_vec, bytes_of};
use crate::endian::{
    be_bytes, be_value, lemma_be_bytes_len, lemma_be_bytes_of_be_value, lemma_be_value_bound,
    lemma_be_value_of_be_bytes, lemma_radix_pow_values, read_be, write_be,
};
use crate::enums::code::Code;
use crate::enums::errors::MessageError;
use crate::enums::types::{width_of, Type};
use crate::structs::helper::elements::{
    append_element, decode_numbers, encode_numbers, fits, i16s, i32s, i64s, i8s,
    lemma_decode_encoded_numbers, lemma_encode_numbers_len, u16s, u32s, u64s, u8s,
};
use crate::structs::helper::text::{
    lemma_runs_of_terminated, lemma_utf8_nul_free, nul_free, reads_as, runs, terminated,
};
use crate::structs::helper::message::{
    body_check, header_ok, map_code_to_nibble, map_nibble_to_code, map_nibble_to_type,
    map_type_to_nibble, parse_num, parse_string, validate_body, validate_header,
};
use bytes::Bytes;
use std::sync::Arc;
use vstd::prelude::*;
use vstd::slice::{slice_subrange, slice_to_vec};
use vstd::utf8::{
    decode_utf8, encode_utf8, encode_utf8_decode_utf8, encode_utf8_valid_utf8, valid_utf8,
};

verus! {

/// What a message says besides its payload.
#[derive(Debug, PartialEq, Eq)]
struct Metadata {
    ty: Type,
    code: Code,
    size: usize,
}

/// A typed run of elements with a status.
///
/// A message does not change once it is made. Its payload sits behind a
/// shared pointer, so that handing the payload out copies no bytes.
#[derive(Debug, PartialEq, Eq)]
pub struct Message {
    metadata: Metadata,
    data: Arc<Vec<u8>>,
}

/// A message as the wire format sees it.
pub struct MessageView {
    /// The nibble of the element type.
    pub kind: u8,
    /// The status.
    pub code: Code,
    /// The number of elements.
    pub size: nat,
    /// The payload.
    pub data: Seq<u8>,
}

impl MessageView {
    /// The header byte: the status in the upper nibble, the type in the
    /// lower.
    pub open spec fn header_byte(self) -> u8 {
        (self.code.number() * 16 + self.kind) as u8
    }

    /// What validation answers for this message: the header check first,
    /// then the body check.
    pub open spec fn check(self) -> Result<(), MessageError> {
        if self.kind > 10 || !self.code.on_wire() {
            Err(MessageError::InvalidHeaderBits)
        } else {
            body_check(self.kind, self.size, self.data)
        }
    }

    /// Whether the message passes validation.
    pub open spec fn valid(self) -> bool {
        self.check() is Ok
    }

    /// The wire form: the header byte, the element count in four
    /// big-endian bytes (its lowest 32 bits), then the payload.
    pub open spec fn encoded(self) -> Seq<u8> {
        seq![self.header_byte()] + be_bytes(self.size, 4) + self.data
    }

    /// The message that is returned when a pull finds the queue empty: no
    /// elements, no payload, the status EMPTY_QUEUE.
    pub open spec fn sentinel() -> MessageView {
        MessageView { kind: 0, code: Code::EMPTY_QUEUE, size: 0, data: Seq::empty() }
    }
}

/// What decoding makes of `bytes`: the header is checked first (five bytes
/// are needed for it), then the body.
pub open spec fn decoded(bytes: Seq<u8>) -> Result<MessageView, MessageError> {
    if bytes.len() < 5 || !header_ok(bytes[0]) {
        Err(MessageError::InvalidHeaderBits)
    } else {
        let kind = bytes[0] % 16;
        let count = be_value(bytes.subrange(1, 5));
        let body = bytes.subrange(5, bytes.len() as int);
        match body_check(kind, count, body) {
            Err(e) => Err(e),
            Ok(_) => Ok(
                MessageView {
                    kind,
                    code: if bytes[0] / 16 == 0 {
                        Code::SUCCESS
                    } else {
                        Code::EMPTY_QUEUE
                    },
                    size: count,
                    data: body,
                },
            ),
        }
    }
}

impl View for Message {
    type V = MessageView;

    closed spec fn view(&self) -> MessageView {
        MessageView {
            kind: self.metadata.ty.nibble(),
            code: self.metadata.code,
            size: self.metadata.size as nat,
            data: self.data@,
        }
    }
}

/// Calls `Arc::clone`.
///
/// Trusted, not proved: the new pointer leads to the same vector.
#[verifier::external_body]
fn share(data: &Arc<Vec<u8>>) -> (shared: Arc<Vec<u8>>)
    ensures
        shared == *data,
{
    Arc::clone(data)
}

impl Message {
    #[verifier::type_invariant]
    spec fn tag_is_blank(self) -> bool {
        self.metadata.ty.is_blank()
    }

    /// The type of the elements, as the blank value of its variant.
    pub fn get_type(&self) -> (ty: &Type)
        ensures
            ty.nibble() == self@.kind,
            ty.is_blank(),
    {
        proof {
            use_type_invariant(self);
        }
        &self.metadata.ty
    }

    /// The status.
    pub fn get_code(&self) -> (code: Code)
        ensures
            code == self@.code,
    {
        self.metadata.code
    }

    /// The number of elements.
    pub fn get_size(&self) -> (size: usize)
        ensures
            size == self@.size,
    {
        self.metadata.size
    }

    /// The payload, shared with the message.
    pub fn get_data(&self) -> (data: Arc<Vec<u8>>)
        ensures
            data@ == self@.data,
    {
        share(&self.data)
    }

    /// The message that is returned when a pull finds the queue empty.
    pub fn empty_message() -> (message: Message)
        ensures
            message@ == MessageView::sentinel(),
    {
        Message {
            metadata: Metadata { ty: Type::U8(0), code: Code::EMPTY_QUEUE, size: 0 },
            data: Arc::new(Vec::new()),
        }
    }

    /// Runs the header check and the body check on the message.
    pub fn validate(&self) -> (checked: Result<(), MessageError>)
        ensures
            checked == self@.check(),
    {
        let mut header: Vec<u8> = Vec::new();
        header.push(map_code_to_nibble(&self.metadata.code) + map_type_to_nibble(&self.metadata.ty));
        match validate_header(header.as_slice()) {
            Err(e) => Err(e),
            Ok(_) => validate_body(self.data.as_slice(), self.metadata.size, &self.metadata.ty),
        }
    }

    /// The wire form of the message.
    pub fn serialize(&self) -> (buffer: Bytes)
        ensures
            bytes_of(buffer) == self@.encoded(),
    {
        let code = map_code_to_nibble(&self.metadata.code);
        let ty = map_type_to_nibble(&self.metadata.ty);
        let first_byte = code + ty;

        let size = self.metadata.size;
        let mut encoded: Vec<u8> = Vec::new();
        encoded.push(first_byte);
        write_be(&mut encoded, size as u64, 4);
        append_bytes(&mut encoded, self.data.as_slice());
        bytes_from_vec(encoded)
    }

    /// Decodes a message from its wire form.
    pub fn deserialize(message: &Bytes) -> (decoding: Result<Message, MessageError>)
        ensures
            match decoding {
                Ok(m) => decoded(bytes_of(*message)) == Ok::<MessageView, MessageError>(m@),
                Err(e) => decoded(bytes_of(*message)) == Err::<MessageView, MessageError>(e),
            },
    {
        let raw = bytes_as_slice(message);
        if raw.len() < 5 {
            return Err(MessageError::InvalidHeaderBits);
        }
        // header
        match validate_header(slice_subrange(raw, 0, 5)) {
            Err(e) => {
                return Err(e);
            },
            Ok(_) => {},
        }
        let first_byte = raw[0];
        assert(first_byte & 0xF0 == (first_byte / 16) * 16) by (bit_vector);
        assert(first_byte & 0x0F == first_byte % 16) by (bit_vector);
        let code = map_nibble_to_code(first_byte & 0xF0);
        let ty = map_nibble_to_type(first_byte & 0x0F);
        proof {
            lemma_be_value_bound(raw@.subrange(1, 5));
            lemma_radix_pow_values();
        }
        let size = read_be(raw, 1, 4) as usize;

        // body
        let body = slice_subrange(raw, 5, raw.len());
        match validate_body(body, size, &ty) {
            Err(e) => {
                return Err(e);
            },
            Ok(_) => {},
        }
        let data = Arc::new(slice_to_vec(body));

        Ok(Message { metadata: Metadata { ty, code, size }, data })
    }
}

/// The message that the constructors make of `numbers` under the numeric type
/// with nibble `kind`: one element each, the status SUCCESS.
pub open spec fn numeric_message(kind: u8, numbers: Seq<int>) -> MessageView {
    MessageView {
        kind,
        code: Code::SUCCESS,
        size: numbers.len(),
        data: encode_numbers(kind, numbers),
    }
}

/// The UTF-8 bytes of each of `texts`.
pub open spec fn utf8_of(texts: Seq<String>) -> Seq<Seq<u8>> {
    Seq::new(texts.len(), |i: int| encode_utf8(texts[i]@))
}

/// The message that the constructors make of `texts`: one NUL-terminated run
/// each, the status SUCCESS.
pub open spec fn text_message(texts: Seq<Seq<u8>>) -> MessageView {
    MessageView { kind: 10, code: Code::SUCCESS, size: texts.len(), data: terminated(texts) }
}

// constructors
impl Message {
    /// A message that holds the one string `s`.
    pub fn from_str(s: &str) -> (message: Result<Message, ()>)
        ensures
            message is Ok,
            message->Ok_0@ == text_message(seq![encode_utf8(s@)]),
    {
        let mut data: Vec<u8> = Vec::new();
        append_bytes(&mut data, s.as_bytes());
        data.push(0);
        proof {
            let texts = seq![encode_utf8(s@)];
            assert(terminated(texts.drop_last()) =~= Seq::<u8>::empty());
            assert(data@ =~= terminated(texts));
        }
        Ok(
            Message {
                metadata: Metadata { ty: Type::Str(String::new()), code: Code::SUCCESS, size: 1 },
                data: Arc::new(data),
            },
        )
    }

    /// A message that holds the strings of `data`, one element each.
    pub fn from_str_arr(data: &[String]) -> (message: Message)
        ensures
            message@ == text_message(utf8_of(data@)),
    {
        let mut msg_data: Vec<u8> = Vec::new();
        let mut i: usize = 0;
        while i < data.len()
            invariant
                i <= data@.len(),
                msg_data@ == terminated(utf8_of(data@.take(i as int))),
            decreases data@.len() - i,
        {
            append_bytes(&mut msg_data, data[i].as_str().as_bytes());
            msg_data.push(0);
            proof {
                let now = utf8_of(data@.take(i + 1));
                assert(now.drop_last() =~= utf8_of(data@.take(i as int)));
                assert(now.last() == encode_utf8(data@[i as int]@));
                assert(msg_data@ =~= terminated(now));
            }
            i = i + 1;
        }
        assert(data@.take(i as int) =~= data@);
        Message {
            metadata: Metadata {
                ty: Type::Str(String::new()),
                code: Code::SUCCESS,
                size: data.len(),
            },
            data: Arc::new(msg_data),
        }
    }

    /// A message that holds `data` as unsigned 8-bit integers.
    pub fn from_u8_arr(data: &[u8]) -> (message: Message)
        ensures
            message@ == numeric_message(0, u8s(data@)),
    {
        let mut msg_data: Vec<u8> = Vec::new();
        let mut i: usize = 0;
        while i < data.len()
            invariant
                i <= data@.len(),
                msg_data@ == encode_numbers(0, u8s(data@.take(i as int))),
            decreases data@.len() - i,
        {
            append_element(&mut msg_data, &Type::U8(data[i]));
            proof {
                let now = u8s(data@.take(i + 1));
                assert(now.drop_last() =~= u8s(data@.take(i as int)));
            }
            i = i + 1;
        }
        assert(data@.take(i as int) =~= data@);
        Message {
            metadata: Metadata { ty: Type::U8(0), code: Code::SUCCESS, size: data.len() },
            data: Arc::new(msg_data),
        }
    }

    /// A message that holds `data` as unsigned 16-bit integers.
    pub fn from_u16_arr(data: &[u16]) -> (message: Message)
        ensures
            message@ == numeric_message(1, u16s(data@)),
    {
        let mut msg_data: Vec<u8> = Vec::new();
        let mut i: usize = 0;
        while i < data.len()
            invariant
                i <= data@.len(),
                msg_data@ == encode_numbers(1, u16s(data@.take(i as int))),
            decreases data@.len() - i,
        {
            append_element(&mut msg_data, &Type::U16(data[i]));
            proof {
                let now = u16s(data@.take(i + 1));
                assert(now.drop_last() =~= u16s(data@.take(i as int)));
            }
            i = i + 1;
        }
        assert(data@.take(i as int) =~= data@);
        Message {
            metadata: Metadata { ty: Type::U16(0), code: Code::SUCCESS, size: data.len() },
            data: Arc::new(msg_data),
        }
    }

    /// A message that holds `data` as unsigned 32-bit integers.
    pub fn from_u32_arr(data: &[u32]) -> (message: Message)
        ensures
            message@ == numeric_message(2, u32s(data@)),
    {
        let mut msg_data: Vec<u8> = Vec::new();
        let mut i: usize = 0;
        while i < data.len()
            invariant
                i <= data@.len(),
                msg_data@ == encode_numbers(2, u32s(data@.take(i as int))),
            decreases data@.len() - i,
        {
            append_element(&mut msg_data, &Type::U32(data[i]));
            proof {
                let now = u32s(data@.take(i + 1));
                assert(now.drop_last() =~= u32s(data@.take(i as int)));
            }
            i = i + 1;
        }
        assert(data@.take(i as int) =~= data@);
        Message {
            metadata: Metadata { ty: Type::U32(0), code: Code::SUCCESS, size: data.len() },
            data: Arc::new(msg_data),
        }
    }

    /// A message that holds `data` as unsigned 64-bit integers.
    pub fn from_u64_arr(data: &[u64]) -> (message: Message)
        ensures
            message@ == numeric_message(3, u64s(data@)),
    {
        let mut msg_data: Vec<u8> = Vec::new();
        let mut i: usize = 0;
        while i < data.len()
            invariant
                i <= data@.len(),
                msg_data@ == encode_numbers(3, u64s(data@.take(i as int))),
            decreases data@.len() - i,
        {
            append_element(&mut msg_data, &Type::U64(data[i]));
            proof {
                let now = u64s(data@.take(i + 1));
                assert(now.drop_last() =~= u64s(data@.take(i as int)));
            }
            i = i + 1;
        }
        assert(data@.take(i as int) =~= data@);
        Message {
            metadata: Metadata { ty: Type::U64(0), code: Code::SUCCESS, size: data.len() },
            data: Arc::new(msg_data),
        }
    }

    /// A message that holds `data` as signed 8-bit integers.
    pub fn from_i8_arr(data: &[i8]) -> (message: Message)
        ensures
            message@ == numeric_message(4, i8s(data@)),
    {
        let mut msg_data: Vec<u8> = Vec::new();
        let mut i: usize = 0;
        while i < data.len()
            invariant
                i <= data@.len(),
                msg_data@ == encode_numbers(4, i8s(data@.take(i as int))),
            decreases data@.len() - i,
        {
            append_element(&mut msg_data, &Type::I8(data[i]));
            proof {
                let now = i8s(data@.take(i + 1));
                assert(now.drop_last() =~= i8s(data@.take(i as int)));
            }
            i = i + 1;
        }
        assert(data@.take(i as int) =~= data@);
        Message {
            metadata: Metadata { ty: Type::I8(0), code: Code::SUCCESS, size: data.len() },
            data: Arc::new(msg_data),
        }
    }

    /// A message that holds `data` as signed 16-bit integers.
    pub fn from_i16_arr(data: &[i16]) -> (message: Message)
        ensures
            message@ == numeric_message(5, i16s(data@)),
    {
        let mut msg_data: Vec<u8> = Vec::new();
        let mut i: usize = 0;
        while i < data.len()
            invariant
                i <= data@.len(),
                msg_data@ == encode_numbers(5, i16s(data@.take(i as int))),
            decreases data@.len() - i,
        {
            append_element(&mut msg_data, &Type::I16(data[i]));
            proof {
                let now = i16s(data@.take(i + 1));
                assert(now.drop_last() =~= i16s(data@.take(i as int)));
            }
            i = i + 1;
        }
        assert(data@.take(i as int) =~= data@);
        Message {
            metadata: Metadata { ty: Type::I16(0), code: Code::SUCCESS, size: data.len() },
            data: Arc::new(msg_data),
        }
    }

    /// A message that holds `data` as signed 32-bit integers.
    pub fn from_i32_arr(data: &[i32]) -> (message: Message)
        ensures
            message@ == numeric_message(6, i32s(data@)),
    {
        let mut msg_data: Vec<u8> = Vec::new();
        let mut i: usize = 0;
        while i < data.len()
            invariant
                i <= data@.len(),
                msg_data@ == encode_numbers(6, i32s(data@.take(i as int))),
            decreases data@.len() - i,
        {
            append_element(&mut msg_data, &Type::I32(data[i]));
            proof {
                let now = i32s(data@.take(i + 1));
                assert(now.drop_last() =~= i32s(data@.take(i as int)));
            }
            i = i + 1;
        }
        assert(data@.take(i as int) =~= data@);
        Message {
            metadata: Metadata { ty: Type::I32(0), code: Code::SUCCESS, size: data.len() },
            data: Arc::new(msg_data),
        }
    }

    /// A message that holds `data` as signed 64-bit integers.
    pub fn from_i64_arr(data: &[i64]) -> (message: Message)
        ensures
            message@ == numeric_message(7, i64s(data@)),
    {
        let mut msg_data: Vec<u8> = Vec::new();
        let mut i: usize = 0;
        while i < data.len()
            invariant
                i <= data@.len(),
                msg_data@ == encode_numbers(7, i64s(data@.take(i as int))),
            decreases data@.len() - i,
        {
            append_element(&mut msg_data, &Type::I64(data[i]));
            proof {
                let now = i64s(data@.take(i + 1));
                assert(now.drop_last() =~= i64s(data@.take(i as int)));
            }
            i = i + 1;
        }
        assert(data@.take(i as int) =~= data@);
        Message {
            metadata: Metadata { ty: Type::I64(0), code: Code::SUCCESS, size: data.len() },
            data: Arc::new(msg_data),
        }
    }

    /// A message that holds `data` as 32-bit floats. Each float is given as its IEEE 754 bit pattern.
    pub fn from_f32_arr(data: &[u32]) -> (message: Message)
        ensures
            message@ == numeric_message(8, u32s(data@)),
    {
        let mut msg_data: Vec<u8> = Vec::new();
        let mut i: usize = 0;
        while i < data.len()
            invariant
                i <= data@.len(),
                msg_data@ == encode_numbers(8, u32s(data@.take(i as int))),
            decreases data@.len() - i,
        {
            append_element(&mut msg_data, &Type::F32(data[i]));
            proof {
                let now = u32s(data@.take(i + 1));
                assert(now.drop_last() =~= u32s(data@.take(i as int)));
            }
            i = i + 1;
        }
        assert(data@.take(i as int) =~= data@);
        Message {
            metadata: Metadata { ty: Type::F32(0), code: Code::SUCCESS, size: data.len() },
            data: Arc::new(msg_data),
        }
    }

    /// A message that holds `data` as 64-bit floats. Each float is given as its IEEE 754 bit pattern.
    pub fn from_f64_arr(data: &[u64]) -> (message: Message)
        ensures
            message@ == numeric_message(9, u64s(data@)),
    {
        let mut msg_data: Vec<u8> = Vec::new();
        let mut i: usize = 0;
        while i < data.len()
            invariant
                i <= data@.len(),
                msg_data@ == encode_numbers(9, u64s(data@.take(i as int))),
            decreases data@.len() - i,
        {
            append_element(&mut msg_data, &Type::F64(data[i]));
            proof {
                let now = u64s(data@.take(i + 1));
                assert(now.drop_last() =~= u64s(data@.take(i as int)));
            }
            i = i + 1;
        }
        assert(data@.take(i as int) =~= data@);
        Message {
            metadata: Metadata { ty: Type::F64(0), code: Code::SUCCESS, size: data.len() },
            data: Arc::new(msg_data),
        }
    }
}

impl std::str::FromStr for Message {
    type Err = ();

    /// A message that holds the one string `s`.
    fn from_str(s: &str) -> (message: Result<Self, Self::Err>)
        ensures
            message is Ok,
            message->Ok_0@ == text_message(seq![encode_utf8(s@)]),
    {
        Message::from_str(s)
    }
}

// parsers
impl Message {
    /// The elements of a message of strings, one for each NUL-terminated
    /// run of the payload; `InvalidType` for a message of any other type.
    pub fn parse_data_to_str(&self) -> (parsed: Result<Vec<String>, MessageError>)
        ensures
            self@.kind != 10 ==> parsed == Err::<Vec<String>, MessageError>(
                MessageError::InvalidType,
            ),
            self@.kind == 10 ==> parsed is Ok && parsed->Ok_0@.len() == runs(self@.data).len()
                && forall|i: int|
                0 <= i < parsed->Ok_0@.len() ==> reads_as(
                    runs(self@.data)[i],
                    (#[trigger] parsed->Ok_0@[i])@,
                ),
    {
        if let Type::Str(_) = self.metadata.ty {
            let data = parse_string(self.data.as_slice());
            let mut values: Vec<String> = Vec::new();
            let mut i: usize = 0;
            while i < data.len()
                invariant
                    i <= data@.len(),
                    values@.len() == i,
                    forall|j: int| 0 <= j < data@.len() ==> (#[trigger] data@[j]).nibble() == 10,
                    forall|j: int| 0 <= j < i ==> (#[trigger] values@[j])@ == data@[j].text(),
                decreases data@.len() - i,
            {
                if let Type::Str(text) = &data[i] {
                    values.push(text.clone());
                }
                i = i + 1;
            }
            return Ok(values);
        }
        Err(MessageError::InvalidType)
    }

    /// The elements of a message of unsigned 8-bit integers; `InvalidType` for a message
    /// of any other type.
    pub fn parse_data_to_u8(&self) -> (parsed: Result<Vec<u8>, MessageError>)
        ensures
            self@.kind != 0 ==> parsed == Err::<Vec<u8>, MessageError>(
                MessageError::InvalidType,
            ),
            self@.kind == 0 ==> parsed is Ok && u8s(parsed->Ok_0@) == decode_numbers(
                0,
                self@.data,
            ),
    {
        if let Type::U8(_) = self.metadata.ty {
            let data = parse_num(&self.data, Type::U8(0));
            let mut values: Vec<u8> = Vec::new();
            let mut i: usize = 0;
            while i < data.len()
                invariant
                    i <= data@.len(),
                    values@.len() == i,
                    forall|j: int| 0 <= j < data@.len() ==> (#[trigger] data@[j]).nibble() == 0,
                    forall|j: int| 0 <= j < i ==> (#[trigger] values@[j]) as int == data@[j].number(),
                decreases data@.len() - i,
            {
                if let Type::U8(v) = &data[i] {
                    values.push(*v);
                }
                i = i + 1;
            }
            assert(u8s(values@) =~= decode_numbers(0, self@.data));
            return Ok(values);
        }
        Err(MessageError::InvalidType)
    }

    /// The elements of a message of unsigned 16-bit integers; `InvalidType` for a message
    /// of any other type.
    pub fn parse_data_to_u16(&self) -> (parsed: Result<Vec<u16>, MessageError>)
        ensures
            self@.kind != 1 ==> parsed == Err::<Vec<u16>, MessageError>(
                MessageError::InvalidType,
            ),
            self@.kind == 1 ==> parsed is Ok && u16s(parsed->Ok_0@) == decode_numbers(
                1,
                self@.data,
            ),
    {
        if let Type::U16(_) = self.metadata.ty {
            let data = parse_num(&self.data, Type::U16(0));
            let mut values: Vec<u16> = Vec::new();
            let mut i: usize = 0;
            while i < data.len()
                invariant
                    i <= data@.len(),
                    values@.len() == i,
                    forall|j: int| 0 <= j < data@.len() ==> (#[trigger] data@[j]).nibble() == 1,
                    forall|j: int| 0 <= j < i ==> (#[trigger] values@[j]) as int == data@[j].number(),
                decreases data@.len() - i,
            {
                if let Type::U16(v) = &data[i] {
                    values.push(*v);
                }
                i = i + 1;
            }
            assert(u16s(values@) =~= decode_numbers(1, self@.data));
            return Ok(values);
        }
        Err(MessageError::InvalidType)
    }

    /// The elements of a message of unsigned 32-bit integers; `InvalidType` for a message
    /// of any other type.
    pub fn parse_data_to_u32(&self) -> (parsed: Result<Vec<u32>, MessageError>)
        ensures
            self@.kind != 2 ==> parsed == Err::<Vec<u32>, MessageError>(
                MessageError::InvalidType,
            ),
            self@.kind == 2 ==> parsed is Ok && u32s(parsed->Ok_0@) == decode_numbers(
                2,
                self@.data,
            ),
    {
        if let Type::U32(_) = self.metadata.ty {
            let data = parse_num(&self.data, Type::U32(0));
            let mut values: Vec<u32> = Vec::new();
            let mut i: usize = 0;
            while i < data.len()
                invariant
                    i <= data@.len(),
                    values@.len() == i,
                    forall|j: int| 0 <= j < data@.len() ==> (#[trigger] data@[j]).nibble() == 2,
                    forall|j: int| 0 <= j < i ==> (#[trigger] values@[j]) as int == data@[j].number(),
                decreases data@.len() - i,
            {
                if let Type::U32(v) = &data[i] {
                    values.push(*v);
                }
                i = i + 1;
            }
            assert(u32s(values@) =~= decode_numbers(2, self@.data));
            return Ok(values);
        }
        Err(MessageError::InvalidType)
    }

    /// The elements of a message of unsigned 64-bit integers; `InvalidType` for a message
    /// of any other type.
    pub fn parse_data_to_u64(&self) -> (parsed: Result<Vec<u64>, MessageError>)
        ensures
            self@.kind != 3 ==> parsed == Err::<Vec<u64>, MessageError>(
                MessageError::InvalidType,
            ),
            self@.kind == 3 ==> parsed is Ok && u64s(parsed->Ok_0@) == decode_numbers(
                3,
                self@.data,
            ),
    {
        if let Type::U64(_) = self.metadata.ty {
            let data = parse_num(&self.data, Type::U64(0));
            let mut values: Vec<u64> = Vec::new();
            let mut i: usize = 0;
            while i < data.len()
                invariant
                    i <= data@.len(),
                    values@.len() == i,
                    forall|j: int| 0 <= j < data@.len() ==> (#[trigger] data@[j]).nibble() == 3,
                    forall|j: int| 0 <= j < i ==> (#[trigger] values@[j]) as int == data@[j].number(),
                decreases data@.len() - i,
            {
                if let Type::U64(v) = &data[i] {
                    values.push(*v);
                }
                i = i + 1;
            }
            assert(u64s(values@) =~= decode_numbers(3, self@.data));
            return Ok(values);
        }
        Err(MessageError::InvalidType)
    }

    /// The elements of a message of signed 8-bit integers; `InvalidType` for a message
    /// of any other type.
    pub fn parse_data_to_i8(&self) -> (parsed: Result<Vec<i8>, MessageError>)
        ensures
            self@.kind != 4 ==> parsed == Err::<Vec<i8>, MessageError>(
                MessageError::InvalidType,
            ),
            self@.kind == 4 ==> parsed is Ok && i8s(parsed->Ok_0@) == decode_numbers(
                4,
                self@.data,
            ),
    {
        if let Type::I8(_) = self.metadata.ty {
            let data = parse_num(&self.data, Type::I8(0));
            let mut values: Vec<i8> = Vec::new();
            let mut i: usize = 0;
            while i < data.len()
                invariant
                    i <= data@.len(),
                    values@.len() == i,
                    forall|j: int| 0 <= j < data@.len() ==> (#[trigger] data@[j]).nibble() == 4,
                    forall|j: int| 0 <= j < i ==> (#[trigger] values@[j]) as int == data@[j].number(),
                decreases data@.len() - i,
            {
                if let Type::I8(v) = &data[i] {
                    values.push(*v);
                }
                i = i + 1;
            }
            assert(i8s(values@) =~= decode_numbers(4, self@.data));
            return Ok(values);
        }
        Err(MessageError::InvalidType)
    }

    /// The elements of a message of signed 16-bit integers; `InvalidType` for a message
    /// of any other type.
    pub fn parse_data_to_i16(&self) -> (parsed: Result<Vec<i16>, MessageError>)
        ensures
            self@.kind != 5 ==> parsed == Err::<Vec<i16>, MessageError>(
                MessageError::InvalidType,
            ),
            self@.kind == 5 ==> parsed is Ok && i16s(parsed->Ok_0@) == decode_numbers(
                5,
                self@.data,
            ),
    {
        if let Type::I16(_) = self.metadata.ty {
            let data = parse_num(&self.data, Type::I16(0));
            let mut values: Vec<i16> = Vec::new();
            let mut i: usize = 0;
            while i < data.len()
                invariant
                    i <= data@.len(),
                    values@.len() == i,
                    forall|j: int| 0 <= j < data@.len() ==> (#[trigger] data@[j]).nibble() == 5,
                    forall|j: int| 0 <= j < i ==> (#[trigger] values@[j]) as int == data@[j].number(),
                decreases data@.len() - i,
            {
                if let Type::I16(v) = &data[i] {
                    values.push(*v);
                }
                i = i + 1;
            }
            assert(i16s(values@) =~= decode_numbers(5, self@.data));
            return Ok(values);
        }
        Err(MessageError::InvalidType)
    }

    /// The elements of a message of signed 32-bit integers; `InvalidType` for a message
    /// of any other type.
    pub fn parse_data_to_i32(&self) -> (parsed: Result<Vec<i32>, MessageError>)
        ensures
            self@.kind != 6 ==> parsed == Err::<Vec<i32>, MessageError>(
                MessageError::InvalidType,
            ),
            self@.kind == 6 ==> parsed is Ok && i32s(parsed->Ok_0@) == decode_numbers(
                6,
                self@.data,
            ),
    {
        if let Type::I32(_) = self.metadata.ty {
            let data = parse_num(&self.data, Type::I32(0));
            let mut values: Vec<i32> = Vec::new();
            let mut i: usize = 0;
            while i < data.len()
                invariant
                    i <= data@.len(),
                    values@.len() == i,
                    forall|j: int| 0 <= j < data@.len() ==> (#[trigger] data@[j]).nibble() == 6,
                    forall|j: int| 0 <= j < i ==> (#[trigger] values@[j]) as int == data@[j].number(),
                decreases data@.len() - i,
            {
                if let Type::I32(v) = &data[i] {
                    values.push(*v);
                }
                i = i + 1;
            }
            assert(i32s(values@) =~= decode_numbers(6, self@.data));
            return Ok(values);
        }
        Err(MessageError::InvalidType)
    }

    /// The elements of a message of signed 64-bit integers; `InvalidType` for a message
    /// of any other type.
    pub fn parse_data_to_i64(&self) -> (parsed: Result<Vec<i64>, MessageError>)
        ensures
            self@.kind != 7 ==> parsed == Err::<Vec<i64>, MessageError>(
                MessageError::InvalidType,
            ),
            self@.kind == 7 ==> parsed is Ok && i64s(parsed->Ok_0@) == decode_numbers(
                7,
                self@.data,
            ),
    {
        if let Type::I64(_) = self.metadata.ty {
            let data = parse_num(&self.data, Type::I64(0));
            let mut values: Vec<i64> = Vec::new();
            let mut i: usize = 0;
            while i < data.len()
                invariant
                    i <= data@.len(),
                    values@.len() == i,
                    forall|j: int| 0 <= j < data@.len() ==> (#[trigger] data@[j]).nibble() == 7,
                    forall|j: int| 0 <= j < i ==> (#[trigger] values@[j]) as int == data@[j].number(),
                decreases data@.len() - i,
            {
                if let Type::I64(v) = &data[i] {
                    values.push(*v);
                }
                i = i + 1;
            }
            assert(i64s(values@) =~= decode_numbers(7, self@.data));
            return Ok(values);
        }
        Err(MessageError::InvalidType)
    }

    /// The elements of a message of 32-bit floats; `InvalidType` for a message
    /// of any other type. Each float comes as its IEEE 754 bit pattern.
    pub fn parse_data_to_f32(&self) -> (parsed: Result<Vec<u32>, MessageError>)
        ensures
            self@.kind != 8 ==> parsed == Err::<Vec<u32>, MessageError>(
                MessageError::InvalidType,
            ),
            self@.kind == 8 ==> parsed is Ok && u32s(parsed->Ok_0@) == decode_numbers(
                8,
                self@.data,
            ),
    {
        if let Type::F32(_) = self.metadata.ty {
            let data = parse_num(&self.data, Type::F32(0));
            let mut values: Vec<u32> = Vec::new();
            let mut i: usize = 0;
            while i < data.len()
                invariant
                    i <= data@.len(),
                    values@.len() == i,
                    forall|j: int| 0 <= j < data@.len() ==> (#[trigger] data@[j]).nibble() == 8,
                    forall|j: int| 0 <= j < i ==> (#[trigger] values@[j]) as int == data@[j].number(),
                decreases data@.len() - i,
            {
                if let Type::F32(v) = &data[i] {
                    values.push(*v);
                }
                i = i + 1;
            }
            assert(u32s(values@) =~= decode_numbers(8, self@.data));
            return Ok(values);
        }
        Err(MessageError::InvalidType)
    }

    /// The elements of a message of 64-bit floats; `InvalidType` for a message
    /// of any other type. Each float comes as its IEEE 754 bit pattern.
    pub fn parse_data_to_f64(&self) -> (parsed: Result<Vec<u64>, MessageError>)
        ensures
            self@.kind != 9 ==> parsed == Err::<Vec<u64>, MessageError>(
                MessageError::InvalidType,
            ),
            self@.kind == 9 ==> parsed is Ok && u64s(parsed->Ok_0@) == decode_numbers(
                9,
                self@.data,
            ),
    {
        if let Type::F64(_) = self.metadata.ty {
            let data = parse_num(&self.data, Type::F64(0));
            let mut values: Vec<u64> = Vec::new();
            let mut i: usize = 0;
            while i < data.len()
                invariant
                    i <= data@.len(),
                    values@.len() == i,
                    forall|j: int| 0 <= j < data@.len() ==> (#[trigger] data@[j]).nibble() == 9,
                    forall|j: int| 0 <= j < i ==> (#[trigger] values@[j]) as int == data@[j].number(),
                decreases data@.len() - i,
            {
                if let Type::F64(v) = &data[i] {
                    values.push(*v);
                }
                i = i + 1;
            }
            assert(u64s(values@) =~= decode_numbers(9, self@.data));
            return Ok(values);
        }
        Err(MessageError::InvalidType)
    }
}

/// Decoding undoes encoding: a message that passes validation and has
/// fewer than 2^32 elements comes back from its wire form unchanged.
pub proof fn lemma_decode_encoded(message: MessageView)
    requires
        message.valid(),
        message.size <= u32::MAX,
    ensures
        decoded(message.encoded()) == Ok::<MessageView, MessageError>(message),
{
    let bytes = message.encoded();
    let head = message.header_byte();
    lemma_be_bytes_len(message.size, 4);
    lemma_radix_pow_values();
    lemma_be_value_of_be_bytes(message.size, 4);
    assert(bytes[0] == head);
    assert(head / 16 == message.code.number() && head % 16 == message.kind);
    assert(bytes.subrange(1, 5) =~= be_bytes(message.size, 4));
    assert(bytes.subrange(5, bytes.len() as int) =~= message.data);
}

/// Encoding undoes decoding: what decodes to a message is the wire form of
/// that message, and the message passes validation.
pub proof fn lemma_encode_decoded(bytes: Seq<u8>)
    requires
        decoded(bytes) is Ok,
    ensures
        decoded(bytes)->Ok_0.valid(),
        decoded(bytes)->Ok_0.size <= u32::MAX,
        decoded(bytes)->Ok_0.encoded() == bytes,
{
    let message = decoded(bytes)->Ok_0;
    let count = bytes.subrange(1, 5);
    lemma_radix_pow_values();
    lemma_be_value_bound(count);
    lemma_be_bytes_of_be_value(count);
    assert(message.header_byte() == bytes[0]);
    assert(message.encoded() =~= bytes);
}

/// A header byte whose status nibble is neither 0000 nor 0010, or whose type
/// nibble is above ten, makes decoding fail with `InvalidHeaderBits`.
pub proof fn lemma_bad_header_rejected(bytes: Seq<u8>)
    requires
        bytes.len() > 0,
        (bytes[0] / 16 != 0 && bytes[0] / 16 != 2) || bytes[0] % 16 > 10,
    ensures
        decoded(bytes) == Err::<MessageView, MessageError>(MessageError::InvalidHeaderBits),
{
}

/// Under a good header of a fixed-width type, a payload whose length is not
/// the element count times the element width makes decoding fail with
/// `InvalidDataLength`.
pub proof fn lemma_wrong_length_rejected(bytes: Seq<u8>)
    requires
        bytes.len() >= 5,
        header_ok(bytes[0]),
        bytes[0] % 16 < 10,
        bytes.len() - 5 != be_value(bytes.subrange(1, 5)) * width_of(bytes[0] % 16),
    ensures
        decoded(bytes) == Err::<MessageView, MessageError>(MessageError::InvalidDataLength),
{
}

/// Under a good header of the string type, a payload that does not end in a
/// NUL byte, the empty payload among them, makes decoding fail with
/// `InvalidData`.
pub proof fn lemma_unterminated_text_rejected(bytes: Seq<u8>)
    requires
        bytes.len() >= 5,
        header_ok(bytes[0]),
        bytes[0] % 16 == 10,
        bytes.len() == 5 || bytes.last() != 0,
    ensures
        decoded(bytes) == Err::<MessageView, MessageError>(MessageError::InvalidData),
{
}

/// A message made of numbers passes validation, and its numbers come back
/// from its payload, provided each is a value of the type.
pub proof fn lemma_numbers_come_back(kind: u8, numbers: Seq<int>)
    requires
        kind <= 9,
        forall|i: int| 0 <= i < numbers.len() ==> fits(kind, #[trigger] numbers[i]),
    ensures
        numeric_message(kind, numbers).valid(),
        decode_numbers(kind, numeric_message(kind, numbers).data) == numbers,
{
    lemma_encode_numbers_len(kind, numbers);
    lemma_decode_encoded_numbers(kind, numbers);
}

/// A message made of strings passes validation unless it holds no string
/// at all: the payload of none is empty and ends in no NUL byte.
pub proof fn lemma_text_message_valid(texts: Seq<Seq<u8>>)
    ensures
        text_message(texts).valid() <==> texts.len() > 0,
{
}

/// Strings come back from their message, provided none holds a NUL
/// character: the runs of the payload are the UTF-8 bytes of the strings,
/// each of them valid UTF-8 that decodes to its string.
pub proof fn lemma_texts_come_back(texts: Seq<String>)
    requires
        forall|i: int, j: int|
            0 <= i < texts.len() && 0 <= j < texts[i]@.len() ==> (#[trigger] texts[i]@[j]) != '\0',
    ensures
        runs(text_message(utf8_of(texts)).data) == utf8_of(texts),
        forall|i: int|
            0 <= i < texts.len() ==> valid_utf8(#[trigger] utf8_of(texts)[i]) && decode_utf8(
                utf8_of(texts)[i],
            ) == texts[i]@,
{
    let encoded = utf8_of(texts);
    assert forall|i: int| 0 <= i < encoded.len() implies nul_free(#[trigger] encoded[i]) by {
        lemma_utf8_nul_free(texts[i]@);
    }
    lemma_runs_of_terminated(encoded);
    assert forall|i: int| 0 <= i < texts.len() implies valid_utf8(#[trigger] encoded[i])
        && decode_utf8(encoded[i]) == texts[i]@ by {
        encode_utf8_valid_utf8(texts[i]@);
        encode_utf8_decode_utf8(texts[i]@);
    }
}

} // verus!
