//! Texts in buffers of a fixed width, as C reads them: UTF-8, cut where they do
//! not fit, and closed by a zero.

use vstd::prelude::*;

verus! {

/// The greatest place up to `n` at which a text can be cut between characters.
pub open spec fn cut_at(bytes: Seq<u8>, n: int) -> int
    decreases n,
{
    if n <= 0 {
        0
    } else if vstd::utf8::is_char_boundary(bytes, n) {
        n
    } else {
        cut_at(bytes, n - 1)
    }
}

/// How many bytes of a text a buffer of `width` holds: as many whole characters
/// as leave room for the zero.
pub open spec fn held(text: Seq<char>, width: nat) -> int {
    let bytes = vstd::utf8::encode_utf8(text);
    cut_at(
        bytes,
        if bytes.len() <= width - 1 {
            bytes.len() as int
        } else {
            width - 1
        },
    )
}

/// A buffer of `width` with a text in it.
pub open spec fn closed_text(text: Seq<char>, width: nat) -> Seq<u8> {
    Seq::new(
        width,
        |i: int|
            if i < held(text, width) {
                vstd::utf8::encode_utf8(text)[i]
            } else {
                0
            },
    )
}

proof fn lemma_cut(bytes: Seq<u8>, n: int)
    requires
        vstd::utf8::valid_utf8(bytes),
        0 <= n <= bytes.len(),
    ensures
        0 <= cut_at(bytes, n) <= n,
        vstd::utf8::is_char_boundary(bytes, cut_at(bytes, n)),
        forall|k: int|
            cut_at(bytes, n) < k <= n ==> !#[trigger] vstd::utf8::is_char_boundary(bytes, k),
    decreases n,
{
    vstd::utf8::is_char_boundary_start_end_of_seq(bytes);
    if n > 0 && !vstd::utf8::is_char_boundary(bytes, n) {
        lemma_cut(bytes, n - 1);
    }
}

/// What a buffer holds is closed by a zero, is UTF-8, and is where the text
/// begins; a text that fits is held whole, and of one that does not, no further
/// character would have fitted.
pub proof fn law_a_buffer_holds_whole_characters(text: Seq<char>, width: nat)
    requires
        width > 0,
    ensures
        ({
            let bytes = vstd::utf8::encode_utf8(text);
            let n = held(text, width);
            let inside = closed_text(text, width).subrange(0, n);
            &&& 0 <= n < width
            &&& closed_text(text, width)[n] == 0
            &&& vstd::utf8::valid_utf8(inside)
            &&& vstd::utf8::decode_utf8(inside).is_prefix_of(text)
            &&& bytes.len() < width ==> vstd::utf8::decode_utf8(inside) == text
            &&& forall|k: int|
                n < k < width && k <= bytes.len() ==> !#[trigger] vstd::utf8::is_char_boundary(
                    bytes,
                    k,
                )
        }),
{
    let bytes = vstd::utf8::encode_utf8(text);
    let n = held(text, width);
    let inside = closed_text(text, width).subrange(0, n);
    vstd::utf8::encode_utf8_valid_utf8(text);
    vstd::utf8::encode_utf8_decode_utf8(text);
    vstd::utf8::is_char_boundary_start_end_of_seq(bytes);
    lemma_cut(
        bytes,
        if bytes.len() <= width - 1 {
            bytes.len() as int
        } else {
            width - 1
        },
    );
    assert(inside =~= bytes.subrange(0, n));
    vstd::utf8::valid_utf8_split(bytes, n);
    vstd::utf8::decode_utf8_split(bytes, n);
    let head = vstd::utf8::decode_utf8(bytes.subrange(0, n));
    assert(head =~= text.subrange(0, head.len() as int));
    if bytes.len() < width {
        assert(bytes.subrange(0, n) =~= bytes);
    }
}

/// Puts a text into a buffer.
pub fn to_buffer<const N: usize>(text: &str) -> (r: [u8; N])
    requires
        N > 0,
    ensures
        r@ == closed_text(text@, N as nat),
{
    let bytes = text.as_bytes();
    let mut n: usize = if bytes.len() <= N - 1 {
        bytes.len()
    } else {
        N - 1
    };
    proof {
        vstd::utf8::encode_utf8_valid_utf8(text@);
        lemma_cut(bytes@, n as int);
    }
    let ghost first = n as int;
    while n > 0 && !text.is_char_boundary(n)
        invariant
            n <= first,
            first <= bytes@.len(),
            bytes@ == vstd::utf8::encode_utf8(text@),
            cut_at(bytes@, first) == cut_at(bytes@, n as int),
        decreases n,
    {
        n = n - 1;
    }
    assert(n == held(text@, N as nat));
    let mut out: [u8; N] = vstd::array::array_fill_for_copy_types::<u8, N>(0);
    let mut i: usize = 0;
    while i < n
        invariant
            i <= n,
            n < N,
            n <= bytes@.len(),
            out@.len() == N,
            forall|k: int|
                0 <= k < N ==> #[trigger] out@[k] == (if k < i {
                    bytes@[k]
                } else {
                    0
                }),
        decreases n - i,
    {
        out[i] = bytes[i];
        i += 1;
    }
    assert(out@ =~= closed_text(text@, N as nat));
    out
}

/// A buffer of `width` with the bytes of a text in it, cut after as many as leave
/// room for the zero, wherever that falls.
pub open spec fn closed_bytes(text: Seq<char>, width: nat) -> Seq<u8> {
    let bytes = vstd::utf8::encode_utf8(text);
    Seq::new(
        width,
        |i: int|
            if i < bytes.len() && i < width - 1 {
                bytes[i]
            } else {
                0
            },
    )
}

/// Puts the bytes of a text into a buffer.
pub fn bytes_to_buffer<const N: usize>(text: &str) -> (r: [u8; N])
    requires
        N > 0,
    ensures
        r@ == closed_bytes(text@, N as nat),
{
    let bytes = text.as_bytes();
    let n: usize = if bytes.len() <= N - 1 {
        bytes.len()
    } else {
        N - 1
    };
    let mut out: [u8; N] = vstd::array::array_fill_for_copy_types::<u8, N>(0);
    let mut i: usize = 0;
    while i < n
        invariant
            i <= n,
            n < N,
            n <= bytes@.len(),
            out@.len() == N,
            forall|k: int|
                0 <= k < N ==> #[trigger] out@[k] == (if k < i {
                    bytes@[k]
                } else {
                    0
                }),
        decreases n - i,
    {
        out[i] = bytes[i];
        i += 1;
    }
    assert(out@ =~= closed_bytes(text@, N as nat));
    out
}

/// A buffer of bytes holds what a text begins with, as much as fits before the zero that
/// closes it, and nothing but zeros behind it.
pub proof fn law_a_buffer_of_bytes_is_closed(text: Seq<char>, width: nat, i: int)
    requires
        0 <= i < width,
    ensures
        ({
            let bytes = vstd::utf8::encode_utf8(text);
            let buf = closed_bytes(text, width);
            &&& buf.len() == width
            &&& buf[width - 1] == 0
            &&& i < bytes.len() && i + 1 < width ==> buf[i] == bytes[i]
            &&& i >= bytes.len() ==> buf[i] == 0
        }),
{
}

} // verus!
