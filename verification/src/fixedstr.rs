//! Fixed-capacity text field as it is embedded in the header of a track file.

use vstd::bytes::*;
use vstd::prelude::*;
use vstd::slice::*;
use vstd::string::*;
use vstd::utf8::*;

verus! {

/// A text field of capacity `N` bytes: a length and `N` bytes of storage.
///
/// Its view is the text it holds, as bytes. The storage behind the text is
/// always zero, so the view determines the whole value.
#[derive(Clone, Copy, Debug)]
pub struct FixedStr<const N: usize> {
    len: usize,
    data: [u8; N],
}

/// The bytes that a field of capacity `cap` keeps of `src`: its first `cap` bytes.
pub open spec fn kept(src: Seq<u8>, cap: nat) -> Seq<u8> {
    if src.len() <= cap {
        src
    } else {
        src.subrange(0, cap as int)
    }
}

/// The text that stored bytes stand for: their decoding as UTF-8, or the empty
/// text where they are not valid UTF-8.
pub open spec fn text_of(bytes: Seq<u8>) -> Seq<char> {
    if valid_utf8(bytes) {
        decode_utf8(bytes)
    } else {
        Seq::empty()
    }
}

/// `n` zero bytes.
pub open spec fn zeros(n: nat) -> Seq<u8> {
    Seq::new(n, |i: int| 0u8)
}

/// Stored form of a field of capacity `cap` holding `text`: the length as eight
/// little-endian bytes, the text, and zeros up to the capacity.
pub open spec fn encode_fixed(text: Seq<u8>, cap: nat) -> Seq<u8> {
    spec_u64_to_le_bytes(text.len() as u64) + text + zeros((cap - text.len()) as nat)
}

/// The text in the stored form `raw` of a field of capacity `cap`. A stored
/// length above the capacity counts as the capacity.
pub open spec fn decode_fixed(raw: Seq<u8>, cap: nat) -> Seq<u8> {
    let n = spec_u64_from_le_bytes(raw.subrange(0, 8)) as nat;
    raw.subrange(8, 8 + (if n <= cap { n as int } else { cap as int }))
}

/// Decoding the stored form of a text gives the text back.
pub proof fn lemma_fixed_roundtrip(text: Seq<u8>, cap: nat)
    requires
        text.len() <= cap <= u64::MAX,
    ensures
        encode_fixed(text, cap).len() == 8 + cap,
        decode_fixed(encode_fixed(text, cap), cap) == text,
{
    lemma_auto_spec_u64_to_from_le_bytes();
    let raw = encode_fixed(text, cap);
    let head = spec_u64_to_le_bytes(text.len() as u64);
    assert(raw.subrange(0, 8) =~= head);
    assert(raw.subrange(8, 8 + text.len() as int) =~= text);
}

/// A text of at most `cap` bytes is kept whole, and read back as it was written.
pub proof fn lemma_kept_text(s: Seq<char>, cap: nat)
    requires
        encode_utf8(s).len() <= cap,
    ensures
        kept(encode_utf8(s), cap) == encode_utf8(s),
        text_of(kept(encode_utf8(s), cap)) == s,
{
    encode_utf8_valid_utf8(s);
    encode_utf8_decode_utf8(s);
}

/// `String::from_utf8` of std: it succeeds exactly on valid UTF-8, and the
/// string it then returns is made of the bytes it was given.
#[verifier::external_body]
fn string_from_utf8(bytes: Vec<u8>) -> (r: Option<String>)
    ensures
        r is Some <==> valid_utf8(bytes@),
        r matches Some(s) ==> encode_utf8(s@) == bytes@,
{
    match String::from_utf8(bytes) {
        Ok(s) => Some(s),
        Err(_) => None,
    }
}

impl<const N: usize> View for FixedStr<N> {
    type V = Seq<u8>;

    closed spec fn view(&self) -> Seq<u8> {
        self.data@.subrange(0, self.len as int)
    }
}

impl<const N: usize> FixedStr<N> {
    /// The length is within the capacity and the storage behind the text is zero.
    #[verifier::type_invariant]
    pub closed spec fn inv(&self) -> bool {
        &&& self.len <= N
        &&& forall|i: int| self.len <= i < N ==> self.data@[i] == 0u8
    }

    /// The text held.
    pub open spec fn text(&self) -> Seq<char> {
        text_of(self@)
    }

    /// A field that satisfies its invariant holds at most `N` bytes.
    pub proof fn lemma_bounded(self)
        requires
            self.inv(),
        ensures
            self@.len() <= N,
    {
    }

    /// A field holding `src`, truncated to `N` bytes.
    pub fn new(src: &str) -> (r: Self)
        ensures
            r.inv(),
            r@ == kept(src.spec_bytes(), N as nat),
    {
        let mut fs = Self { len: 0, data: [0u8; N] };
        fs.set(src);
        fs
    }

    /// Replaces the text by `src`, truncated to `N` bytes.
    pub fn set(&mut self, src: &str)
        ensures
            final(self).inv(),
            final(self)@ == kept(src.spec_bytes(), N as nat),
    {
        let bytes = src.as_bytes();
        let max_len: usize = if bytes.len() < N { bytes.len() } else { N };
        let mut data: [u8; N] = [0u8; N];
        let mut i: usize = 0;
        while i < max_len
            invariant
                i <= max_len <= N,
                max_len <= bytes@.len(),
                forall|j: int| 0 <= j < i ==> data@[j] == bytes@[j],
                forall|j: int| i <= j < N ==> data@[j] == 0u8,
            decreases max_len - i,
        {
            data[i] = bytes[i];
            i += 1;
        }
        *self = Self { len: max_len, data };
        assert(self@ =~= kept(src.spec_bytes(), N as nat));
    }

    /// The text held, as a string. Bytes that are not valid UTF-8 read as the
    /// empty string.
    pub fn as_string(&self) -> (r: String)
        ensures
            r@ == self.text(),
    {
        proof {
            use_type_invariant(self);
        }
        let raw = slice_to_vec(slice_subrange(self.data.as_slice(), 0, self.len));
        match string_from_utf8(raw) {
            Some(s) => {
                proof {
                    encode_utf8_decode_utf8(s@);
                }
                s
            },
            None => String::new(),
        }
    }

    /// `true` when no text is held.
    pub fn is_empty(&self) -> (r: bool)
        ensures
            r == (self@.len() == 0),
    {
        proof {
            use_type_invariant(self);
        }
        self.len == 0
    }

    /// The stored form: `8 + N` bytes.
    pub fn to_bytes(&self) -> (r: Vec<u8>)
        ensures
            r@ == encode_fixed(self@, N as nat),
            r@.len() == 8 + N,
    {
        proof {
            use_type_invariant(self);
        }
        let mut out = u64_to_le_bytes(self.len as u64);
        let mut i: usize = 0;
        while i < N
            invariant
                i <= N,
                self.inv(),
                out@.len() == 8 + i,
                out@.subrange(0, 8) == spec_u64_to_le_bytes(self.len as u64),
                forall|j: int| 0 <= j < i ==> out@[8 + j] == self.data@[j],
            decreases N - i,
        {
            let ghost before = out@;
            out.push(self.data[i]);
            assert(out@.subrange(0, 8) =~= before.subrange(0, 8));
            i += 1;
        }
        proof {
            let head = spec_u64_to_le_bytes(self.len as u64);
            let want = encode_fixed(self@, N as nat);
            lemma_auto_spec_u64_to_from_le_bytes();
            assert forall|j: int| 0 <= j < 8 + N implies out@[j] == want[j] by {
                if j < 8 {
                    assert(out@[j] == out@.subrange(0, 8)[j]);
                } else {
                    assert(out@[8 + (j - 8)] == self.data@[j - 8]);
                }
            }
            assert(out@ =~= want);
        }
        out
    }

    /// Reads a field from its stored form.
    pub fn from_bytes(raw: &[u8]) -> (r: Self)
        requires
            raw@.len() == 8 + N,
        ensures
            r.inv(),
            r@ == decode_fixed(raw@, N as nat),
    {
        let total = raw.len();
        let stored = u64_from_le_bytes(slice_subrange(raw, 0, 8));
        let len: usize = if stored <= N as u64 { stored as usize } else { N };
        let mut data: [u8; N] = [0u8; N];
        let mut i: usize = 0;
        while i < len
            invariant
                i <= len <= N,
                raw@.len() == 8 + N,
                total == 8 + N,
                forall|j: int| 0 <= j < i ==> data@[j] == raw@[8 + j],
                forall|j: int| i <= j < N ==> data@[j] == 0u8,
            decreases len - i,
        {
            data[i] = raw[8 + i];
            i += 1;
        }
        let r = Self { len, data };
        assert(r@ =~= decode_fixed(raw@, N as nat));
        r
    }
}

impl<const N: usize> Default for FixedStr<N> {
    /// The empty field.
    fn default() -> (r: Self)
        ensures
            r.inv(),
            r@ == Seq::<u8>::empty(),
    {
        let r = Self { len: 0, data: [0u8; N] };
        assert(r@ =~= Seq::<u8>::empty());
        r
    }
}

} // verus!
