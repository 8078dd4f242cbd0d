//! String payloads: runs of bytes, each closed by a NUL byte.

use vstd::prelude::*;
use vstd::utf8::{char_is_scalar, char_u32_cast, decode_utf8, encode_scalar, encode_utf8, valid_utf8};

verus! {

/// The characters that `String::from_utf8_lossy` makes of `bytes`: their
/// decoding where they are valid UTF-8, and otherwise the decoding with each
/// invalid sequence replaced by U+FFFD.
pub uninterp spec fn utf8_lossy(bytes: Seq<u8>) -> Seq<char>;

/// Calls `String::from_utf8_lossy` and takes the result as an owned string.
///
/// Trusted, not proved: the characters of the result are named
/// [`utf8_lossy`], and for valid UTF-8 they are the decoding of the bytes,
/// as the function's documentation says.
#[verifier::external_body]
pub(crate) fn string_from_utf8_lossy(bytes: &[u8]) -> (text: String)
    ensures
        text@ == utf8_lossy(bytes@),
        valid_utf8(bytes@) ==> text@ == decode_utf8(bytes@),
{
    String::from_utf8_lossy(bytes).into_owned()
}

/// Whether `text` is what the bytes of `run` read as: what
/// `String::from_utf8_lossy` makes of them, which for valid UTF-8 is their
/// decoding.
pub open spec fn reads_as(run: Seq<u8>, text: Seq<char>) -> bool {
    text == utf8_lossy(run) && (valid_utf8(run) ==> text == decode_utf8(run))
}

/// The index of the first NUL byte of `data`, or the length of `data` where
/// it holds none.
pub open spec fn first_nul(data: Seq<u8>) -> int
    decreases data.len(),
{
    if data.len() == 0 || data[0] == 0 {
        0
    } else {
        1 + first_nul(data.drop_first())
    }
}

/// The runs of `data`: the bytes before each NUL byte, from the end of the
/// run before it. Bytes after the last NUL belong to no run.
pub open spec fn runs(data: Seq<u8>) -> Seq<Seq<u8>>
    decreases data.len(),
{
    let end = first_nul(data);
    if 0 <= end < data.len() {
        seq![data.subrange(0, end)] + runs(data.subrange(end + 1, data.len() as int))
    } else {
        Seq::empty()
    }
}

/// The payload that holds `texts` as runs: each followed by one NUL byte.
pub open spec fn terminated(texts: Seq<Seq<u8>>) -> Seq<u8>
    decreases texts.len(),
{
    if texts.len() == 0 {
        Seq::empty()
    } else {
        terminated(texts.drop_last()) + texts.last() + seq![0u8]
    }
}

/// Whether `text` holds no NUL byte, so that it can be one run.
pub open spec fn nul_free(text: Seq<u8>) -> bool {
    forall|i: int| 0 <= i < text.len() ==> text[i] != 0
}

/// `first_nul` points at a NUL byte or at the end, and no NUL comes before it.
pub proof fn lemma_first_nul(data: Seq<u8>)
    ensures
        0 <= first_nul(data) <= data.len(),
        first_nul(data) < data.len() ==> data[first_nul(data)] == 0,
        nul_free(data.subrange(0, first_nul(data))),
    decreases data.len(),
{
    if data.len() == 0 || data[0] == 0 {
    } else {
        let tail = data.drop_first();
        lemma_first_nul(tail);
        let end = first_nul(data);
        let before = data.subrange(0, end);
        assert forall|i: int| 0 <= i < before.len() implies #[trigger] before[i] != 0 by {
            if i > 0 {
                assert(tail.subrange(0, end - 1)[i - 1] == data[i]);
            }
        }
    }
}

/// A place that no NUL byte comes before, and that holds one or is the end,
/// is where `first_nul` points.
pub proof fn lemma_first_nul_at(data: Seq<u8>, at: int)
    requires
        0 <= at <= data.len(),
        nul_free(data.subrange(0, at)),
        at < data.len() ==> data[at] == 0,
    ensures
        first_nul(data) == at,
    decreases data.len(),
{
    if data.len() == 0 {
    } else if data[0] == 0 {
        if at > 0 {
            assert(data.subrange(0, at)[0] == data[0]);
        }
    } else {
        let tail = data.drop_first();
        let before = tail.subrange(0, at - 1);
        assert forall|i: int| 0 <= i < before.len() implies #[trigger] before[i] != 0 by {
            assert(data.subrange(0, at)[i + 1] == tail[i]);
        }
        lemma_first_nul_at(tail, at - 1);
    }
}

/// Bytes without a NUL hold no run.
pub proof fn lemma_runs_of_nul_free(data: Seq<u8>)
    requires
        nul_free(data),
    ensures
        runs(data).len() == 0,
{
    assert(data.subrange(0, data.len() as int) =~= data);
    lemma_first_nul_at(data, data.len() as int);
}

/// Behind bytes that are empty or end in a NUL, the runs of what follows
/// come after the runs of what stands before.
pub proof fn lemma_runs_concat(head: Seq<u8>, tail: Seq<u8>)
    requires
        head.len() == 0 || head.last() == 0,
    ensures
        runs(head + tail) == runs(head) + runs(tail),
    decreases head.len(),
{
    if head.len() == 0 {
        assert(head + tail =~= tail);
        assert(runs(head) + runs(tail) =~= runs(tail));
    } else {
        let whole = head + tail;
        let end = first_nul(head);
        lemma_first_nul(head);
        if end == head.len() {
            assert(head.subrange(0, end)[end - 1] == head.last());
        }
        assert(whole.subrange(0, end) =~= head.subrange(0, end));
        lemma_first_nul_at(whole, end);
        let head_rest = head.subrange(end + 1, head.len() as int);
        assert(whole.subrange(end + 1, whole.len() as int) =~= head_rest + tail);
        if head_rest.len() > 0 {
            assert(head_rest.last() == head.last());
        }
        lemma_runs_concat(head_rest, tail);
        assert(runs(whole) =~= runs(head) + runs(tail));
    }
}

/// A payload of terminated runs is empty or ends in a NUL byte.
pub proof fn lemma_terminated_ends_in_nul(texts: Seq<Seq<u8>>)
    ensures
        texts.len() == 0 ==> terminated(texts).len() == 0,
        texts.len() > 0 ==> terminated(texts).len() > 0 && terminated(texts).last() == 0,
{
}

/// Texts without NUL bytes come back as the runs of their payload.
pub proof fn lemma_runs_of_terminated(texts: Seq<Seq<u8>>)
    requires
        forall|i: int| 0 <= i < texts.len() ==> nul_free(#[trigger] texts[i]),
    ensures
        runs(terminated(texts)) == texts,
    decreases texts.len(),
{
    if texts.len() == 0 {
        assert(runs(terminated(texts)) =~= texts);
    } else {
        let front = texts.drop_last();
        let last = texts.last();
        let closed = last + seq![0u8];
        lemma_runs_of_terminated(front);
        lemma_terminated_ends_in_nul(front);
        assert(terminated(texts) =~= terminated(front) + closed);
        lemma_runs_concat(terminated(front), closed);
        assert(closed.subrange(0, last.len() as int) =~= last);
        lemma_first_nul_at(closed, last.len() as int);
        let rest = closed.subrange(last.len() as int + 1, closed.len() as int);
        assert(rest =~= Seq::<u8>::empty());
        assert(runs(rest).len() == 0);
        assert(runs(closed) =~= seq![last]);
        assert(runs(terminated(texts)) =~= texts);
    }
}

/// No byte of the UTF-8 encoding of a scalar other than zero is zero.
proof fn lemma_scalar_bytes(scalar: u32)
    by (bit_vector)
    requires
        scalar != 0,
    ensures
        scalar <= 0x7F ==> (scalar & 0x7F) as u8 != 0,
        0xC0u8 | ((scalar >> 6) & 0x1F) as u8 != 0,
        0xE0u8 | ((scalar >> 12) & 0x0F) as u8 != 0,
        0xF0u8 | ((scalar >> 18) & 0x7) as u8 != 0,
        0x80u8 | (scalar & 0x3F) as u8 != 0,
        0x80u8 | ((scalar >> 6) & 0x3F) as u8 != 0,
        0x80u8 | ((scalar >> 12) & 0x3F) as u8 != 0,
{
}

/// The UTF-8 bytes of characters that are not NUL hold no NUL byte.
pub proof fn lemma_utf8_nul_free(text: Seq<char>)
    requires
        forall|i: int| 0 <= i < text.len() ==> text[i] != '\0',
    ensures
        nul_free(encode_utf8(text)),
    decreases text.len(),
{
    if text.len() > 0 {
        let scalar = text[0] as u32;
        let first = encode_scalar(scalar);
        let rest = encode_utf8(text.drop_first());
        char_is_scalar(text[0]);
        assert(scalar != 0) by {
            char_u32_cast(text[0], scalar);
            char_u32_cast('\0', 0u32);
        }
        lemma_scalar_bytes(scalar);
        lemma_utf8_nul_free(text.drop_first());
        assert(nul_free(first));
        let whole = encode_utf8(text);
        assert forall|i: int| 0 <= i < whole.len() implies #[trigger] whole[i] != 0 by {
            if i < first.len() {
                assert(whole[i] == first[i]);
            } else {
                assert(whole[i] == rest[i - first.len()]);
            }
        }
    }
}

} // verus!
