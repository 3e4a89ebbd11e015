//! Fixed-capacity text buffers.
use vstd::prelude::*;
use vstd::string::{StringExecFns, StringSliceAdditionalSpecFns};
use vstd::utf8::encode_utf8;

verus! {

/// Number of UTF-8 bytes that encode `s`.
pub open spec fn byte_len(s: Seq<char>) -> nat {
    encode_utf8(s).len()
}

/// The UTF-8 encoding of a concatenation is the concatenation of the encodings.
pub proof fn lemma_encode_concat(a: Seq<char>, b: Seq<char>)
    ensures
        encode_utf8(a + b) == encode_utf8(a) + encode_utf8(b),
    decreases a.len(),
{
    if a.len() == 0 {
        assert(a + b =~= b);
        assert(encode_utf8(a) =~= Seq::<u8>::empty());
        assert(encode_utf8(a) + encode_utf8(b) =~= encode_utf8(b));
    } else {
        assert((a + b).drop_first() =~= a.drop_first() + b);
        assert((a + b)[0] == a[0]);
        lemma_encode_concat(a.drop_first(), b);
        assert(encode_utf8(a + b) =~= encode_utf8(a) + encode_utf8(b));
    }
}

/// Error returned when a write does not fit in a buffer.
#[derive(Debug, Clone, Copy, PartialEq, Eq)]
pub struct CapacityError;

/// A text buffer holding at most `N` bytes of UTF-8.
///
/// Writes are all-or-nothing: a write that does not fit leaves the buffer as
/// it was.
#[derive(Debug)]
pub struct BoundedText<const N: usize> {
    text: String,
}

impl<const N: usize> View for BoundedText<N> {
    type V = Seq<char>;

    closed spec fn view(&self) -> Seq<char> {
        self.text@
    }
}

impl<const N: usize> BoundedText<N> {
    #[verifier::type_invariant]
    spec fn fits(&self) -> bool {
        byte_len(self.text@) <= N
    }

    /// An empty buffer.
    pub fn new() -> (r: Self)
        ensures
            r@ == Seq::<char>::empty(),
    {
        BoundedText { text: String::new() }
    }

    /// The capacity in bytes.
    pub fn capacity(&self) -> (r: usize)
        ensures
            r == N,
    {
        N
    }

    /// The content's length in bytes.
    pub fn len(&self) -> (r: usize)
        ensures
            r == byte_len(self@),
    {
        self.text.as_str().as_bytes().len()
    }

    /// Whether the buffer holds no bytes.
    pub fn is_empty(&self) -> (r: bool)
        ensures
            r == (byte_len(self@) == 0),
    {
        self.text.as_str().as_bytes().len() == 0
    }

    /// The content, in full.
    pub fn as_str(&self) -> (r: &str)
        ensures
            r@ == self@,
    {
        self.text.as_str()
    }

    /// Appends `s`. Fails, leaving the buffer unchanged, when the combined
    /// length would exceed the capacity.
    pub fn push_str(&mut self, s: &str) -> (r: Result<(), CapacityError>)
        ensures
            r.is_ok() <==> byte_len(old(self)@) + byte_len(s@) <= N,
            r.is_ok() ==> final(self)@ == old(self)@ + s@,
            r.is_err() ==> final(self)@ == old(self)@,
    {
        proof {
            use_type_invariant(&*self);
        }
        let cur = self.text.as_str().as_bytes().len();
        let add = s.as_bytes().len();
        if add > N - cur {
            return Err(CapacityError);
        }
        let mut t = self.text.as_str().to_owned();
        t.append(s);
        proof {
            lemma_encode_concat(old(self)@, s@);
            assert(t@ == old(self)@ + s@);
            assert(byte_len(t@) == cur + add);
        }
        *self = BoundedText { text: t };
        Ok(())
    }

    /// Empties the buffer.
    pub fn clear(&mut self)
        ensures
            final(self)@ == Seq::<char>::empty(),
    {
        *self = BoundedText { text: String::new() };
    }

    /// A buffer holding `s`, or an error when `s` is longer than `N` bytes.
    pub fn from_str(s: &str) -> (r: Result<Self, CapacityError>)
        ensures
            r.is_ok() <==> byte_len(s@) <= N,
            r matches Ok(t) ==> t@ == s@,
    {
        let mut t = Self::new();
        proof {
            assert(Seq::<char>::empty() + s@ =~= s@);
            assert(encode_utf8(Seq::<char>::empty()) =~= Seq::<u8>::empty());
        }
        match t.push_str(s) {
            Ok(()) => Ok(t),
            Err(e) => Err(e),
        }
    }

    /// An independent copy of this buffer.
    pub fn duplicate(&self) -> (r: Self)
        ensures
            r@ == self@,
    {
        proof {
            use_type_invariant(self);
        }
        BoundedText { text: self.text.as_str().to_owned() }
    }
}

} // verus!
