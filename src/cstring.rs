//! The owned null-terminated buffer, the scan for a terminator and the
//! check for interior zero bytes.
use vstd::prelude::*;
use vstd::slice::{slice_subrange, slice_to_vec};
use vstd::utf8::{encode_utf8, valid_utf8};

verus! {

/// True when no byte of `s` is zero.
pub open spec fn no_nul(s: Seq<u8>) -> bool {
    forall|i: int| 0 <= i < s.len() ==> s[i] != 0
}

/// Position of the first zero byte of `b` at or after `i`; `b.len()` when
/// there is none (and `i` itself when `i` lies outside `b`).
pub open spec fn nul_from(b: Seq<u8>, i: int) -> int
    decreases b.len() - i,
{
    if i < 0 || i >= b.len() {
        i
    } else if b[i] == 0 {
        i
    } else {
        nul_from(b, i + 1)
    }
}

/// The logical content of a buffer: its bytes before the first zero.
pub open spec fn c_content(b: Seq<u8>) -> Seq<u8> {
    b.subrange(0, nul_from(b, 0))
}

/// The first zero at or after `i` bounds a zero-free run that starts at `i`.
pub proof fn lemma_nul_from(b: Seq<u8>, i: int)
    requires
        0 <= i <= b.len(),
    ensures
        i <= nul_from(b, i) <= b.len(),
        nul_from(b, i) < b.len() ==> b[nul_from(b, i)] == 0,
        forall|k: int| i <= k < nul_from(b, i) ==> b[k] != 0,
    decreases b.len() - i,
{
    if i < b.len() && b[i] != 0 {
        lemma_nul_from(b, i + 1);
    }
}

/// A zero byte at `n` with none in `[i, n)` is the first one from `i`.
pub proof fn lemma_nul_from_at(b: Seq<u8>, i: int, n: int)
    requires
        0 <= i <= n < b.len(),
        b[n] == 0,
        forall|k: int| i <= k < n ==> b[k] != 0,
    ensures
        nul_from(b, i) == n,
    decreases n - i,
{
    if i < n {
        lemma_nul_from_at(b, i + 1, n);
    }
}

/// Terminating a zero-free sequence and reading it back gives the sequence.
pub proof fn lemma_content_of_terminated(s: Seq<u8>)
    requires
        no_nul(s),
    ensures
        nul_from(s.push(0), 0) == s.len(),
        c_content(s.push(0)) == s,
{
    let b = s.push(0);
    lemma_nul_from_at(b, 0, s.len() as int);
    assert(b.subrange(0, s.len() as int) =~= s);
}

/// Where a sequence holds a zero byte, the first one is found.
pub proof fn lemma_first_nul_of(s: Seq<u8>)
    requires
        !no_nul(s),
    ensures
        0 <= nul_from(s, 0) < s.len(),
        s[nul_from(s, 0)] == 0,
{
    lemma_nul_from(s, 0);
    let n = nul_from(s, 0);
    if n == s.len() {
        let k = choose|k: int| 0 <= k < s.len() && s[k] == 0;
        assert(false);
    }
}

/// The error of a checked conversion: the input holds a zero byte at
/// `position`, before its logical end.
#[derive(Debug, Clone, Copy, PartialEq, Eq, Structural)]
pub struct InteriorNull {
    pub position: usize,
}

/// Returns the position of the first zero byte of `buf` at or after `start`,
/// or `buf.len()` when there is none.
pub fn nul_position(buf: &[u8], start: usize) -> (r: usize)
    requires
        start <= buf@.len(),
    ensures
        r == nul_from(buf@, start as int),
{
    let mut i = start;
    while i < buf.len() && buf[i] != 0
        invariant
            start <= i <= buf@.len(),
            nul_from(buf@, start as int) == nul_from(buf@, i as int),
        decreases buf@.len() - i,
    {
        i = i + 1;
    }
    i
}

/// Checks that the first `v.len()` bytes of `buf`, a copy of `v`, hold no
/// zero; reports the first zero found otherwise.
pub fn check_for_null(v: &[u8], buf: &[u8]) -> (r: Result<(), InteriorNull>)
    requires
        v@.len() <= buf@.len(),
    ensures
        r is Ok <==> no_nul(buf@.take(v@.len() as int)),
        r matches Err(e) ==> e.position == nul_from(buf@.take(v@.len() as int), 0),
{
    let ghost s = buf@.take(v@.len() as int);
    let mut i: usize = 0;
    while i < v.len()
        invariant
            i <= v@.len() <= buf@.len(),
            s == buf@.take(v@.len() as int),
            forall|k: int| 0 <= k < i ==> s[k] != 0,
        decreases v@.len() - i,
    {
        if buf[i] == 0 {
            proof {
                assert(s[i as int] == 0);
                lemma_nul_from_at(s, 0, i as int);
            }
            return Err(InteriorNull { position: i });
        }
        i = i + 1;
    }
    Ok(())
}

/// Relies on `std::str::from_utf8`: it accepts exactly the valid UTF-8
/// sequences, and the string it returns is made of those bytes.
#[verifier::external_body]
pub(crate) fn utf8_to_string(bytes: &[u8]) -> (r: Option<String>)
    ensures
        r is Some <==> valid_utf8(bytes@),
        r matches Some(s) ==> encode_utf8(s@) == bytes@,
{
    match std::str::from_utf8(bytes) {
        Ok(s) => Some(s.to_owned()),
        Err(_) => None,
    }
}

/// An owned buffer that holds at least one zero byte. Its logical content
/// is what precedes the first zero.
#[derive(Debug)]
pub struct CString {
    buf: Vec<u8>,
}

impl View for CString {
    type V = Seq<u8>;

    /// The whole buffer, terminator included.
    closed spec fn view(&self) -> Seq<u8> {
        self.buf@
    }
}

impl CString {
    /// The buffer holds a terminator.
    #[verifier::type_invariant]
    closed spec fn inv(&self) -> bool {
        !no_nul(self.buf@)
    }

    /// The logical content: the bytes before the first zero.
    pub open spec fn content(&self) -> Seq<u8> {
        c_content(self@)
    }

    /// Takes ownership of `buf` as the buffer of a new value; `None` when it
    /// holds no zero byte.
    pub fn from_buffer(buf: Vec<u8>) -> (r: Option<CString>)
        ensures
            r is Some <==> !no_nul(buf@),
            r matches Some(c) ==> c@ == buf@,
    {
        let n = nul_position(buf.as_slice(), 0);
        if n < buf.len() {
            proof {
                lemma_nul_from(buf@, 0);
            }
            Some(CString { buf })
        } else {
            proof {
                lemma_nul_from(buf@, 0);
            }
            None
        }
    }

    /// Copies `bytes` and appends a terminator. Zero bytes inside `bytes`
    /// are kept as they are.
    pub fn from_bytes_unchecked(bytes: &[u8]) -> (r: CString)
        requires
            bytes@.len() < usize::MAX,
        ensures
            r@ == bytes@.push(0),
    {
        let mut buf = slice_to_vec(bytes);
        buf.push(0u8);
        proof {
            assert(buf@[buf@.len() - 1] == 0);
        }
        CString { buf }
    }

    /// Number of bytes before the terminator.
    pub fn len(&self) -> (r: usize)
        ensures
            r == self.content().len(),
    {
        proof {
            use_type_invariant(self);
            lemma_first_terminator(self@);
        }
        nul_position(self.buf.as_slice(), 0)
    }

    /// True when the content is empty.
    pub fn is_empty(&self) -> (r: bool)
        ensures
            r <==> self.content().len() == 0,
    {
        self.len() == 0
    }

    /// The content followed by its terminator.
    pub fn as_bytes(&self) -> (r: &[u8])
        ensures
            r@ == self.content().push(0),
    {
        proof {
            use_type_invariant(self);
            lemma_first_terminator(self@);
        }
        let n = nul_position(self.buf.as_slice(), 0);
        let len = self.buf.len();
        assert(n < len);
        let r = slice_subrange(self.buf.as_slice(), 0, n + 1);
        assert(r@ =~= self.content().push(0));
        r
    }

    /// The content, without its terminator.
    pub fn as_bytes_no_nul(&self) -> (r: &[u8])
        ensures
            r@ == self.content(),
    {
        proof {
            use_type_invariant(self);
            lemma_first_terminator(self@);
        }
        let n = nul_position(self.buf.as_slice(), 0);
        slice_subrange(self.buf.as_slice(), 0, n)
    }

    /// The whole buffer, including any bytes after the first terminator.
    pub fn as_bytes_with_tail(&self) -> (r: &[u8])
        ensures
            r@ == self@,
    {
        self.buf.as_slice()
    }

    /// The content as a string, when it is valid UTF-8.
    pub fn as_str(&self) -> (r: Option<String>)
        ensures
            r is Some <==> valid_utf8(self.content()),
            r matches Some(s) ==> encode_utf8(s@) == self.content(),
    {
        utf8_to_string(self.as_bytes_no_nul())
    }

    /// Gives up the buffer.
    pub fn into_inner(self) -> (r: Vec<u8>)
        ensures
            r@ == self@,
    {
        self.buf
    }
}

/// In a buffer that holds a zero, the content ends at a zero byte.
proof fn lemma_first_terminator(b: Seq<u8>)
    requires
        !no_nul(b),
    ensures
        0 <= nul_from(b, 0) < b.len(),
        b[nul_from(b, 0)] == 0,
        no_nul(c_content(b)),
        c_content(b).len() == nul_from(b, 0),
{
    lemma_first_nul_of(b);
    lemma_nul_from(b, 0);
}

impl Clone for CString {
    /// A fresh copy of the buffer.
    fn clone(&self) -> (r: CString)
        ensures
            r@ == self@,
    {
        proof {
            use_type_invariant(self);
        }
        CString { buf: slice_to_vec(self.buf.as_slice()) }
    }
}

impl PartialEq for CString {
    /// Equal when the logical contents are equal.
    fn eq(&self, other: &CString) -> (r: bool)
        ensures
            r <==> self.content() == other.content(),
    {
        let a = self.as_bytes_no_nul();
        let b = other.as_bytes_no_nul();
        if a.len() != b.len() {
            return false;
        }
        let mut i: usize = 0;
        while i < a.len()
            invariant
                a@ == self.content(),
                b@ == other.content(),
                a@.len() == b@.len(),
                i <= a@.len(),
                forall|k: int| 0 <= k < i ==> a@[k] == b@[k],
            decreases a@.len() - i,
        {
            if a[i] != b[i] {
                assert(a@[i as int] != b@[i as int]);
                return false;
            }
            i = i + 1;
        }
        assert(a@ =~= b@);
        true
    }
}

impl vstd::std_specs::cmp::PartialEqSpecImpl for CString {
    open spec fn obeys_eq_spec() -> bool {
        true
    }

    open spec fn eq_spec(&self, other: &CString) -> bool {
        self.content() == other.content()
    }
}

} // verus!
