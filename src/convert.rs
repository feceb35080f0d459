//! Conversions from Rust strings and byte sequences to owned or borrowed
//! null-terminated buffers, and back.
use vstd::prelude::*;
use vstd::slice::{slice_subrange, slice_to_vec};
use vstd::utf8::{encode_utf8, valid_utf8};
use crate::cstring::{
    check_for_null, c_content, lemma_content_of_terminated, lemma_nul_from, no_nul, nul_from,
    nul_position, utf8_to_string, CString, InteriorNull,
};

verus! {

/// Inputs shorter than this are copied to a stack buffer of this size by the
/// scoped conversions; longer ones go through a heap allocation.
pub const BUF_LEN: usize = 128;

/// What a checked conversion of `s` yields: the terminated copy when `s`
/// holds no zero byte, the position of its first zero otherwise.
pub open spec fn checked_result(s: Seq<u8>, r: Result<CString, InteriorNull>) -> bool {
    match r {
        Ok(c) => no_nul(s) && c@ == s.push(0),
        Err(e) => !no_nul(s) && e.position == nul_from(s, 0),
    }
}

/// What a scoped conversion of `s` yields: the callback's result on a
/// terminated copy of `s`, or, when `checked` and `s` holds a zero byte, the
/// position of its first zero (the callback is then not run).
pub open spec fn loaned_result<T, F: FnOnce(&[u8]) -> T>(
    s: Seq<u8>,
    checked: bool,
    f: F,
    r: Result<T, InteriorNull>,
) -> bool {
    match r {
        Ok(v) => (checked ==> no_nul(s)) && lent(s, f, v),
        Err(e) => checked && !no_nul(s) && e.position == nul_from(s, 0),
    }
}

/// `v` is a result of `f` on some buffer that holds `s` and a terminator.
pub open spec fn lent<T, F: FnOnce(&[u8]) -> T>(s: Seq<u8>, f: F, v: T) -> bool {
    exists|b: &[u8]| b@ == s.push(0) && #[trigger] f.ensures((b,), v)
}

/// The callback accepts every buffer that holds `s` and a terminator.
pub open spec fn accepts_loan<T, F: FnOnce(&[u8]) -> T>(s: Seq<u8>, f: F) -> bool {
    forall|b: &[u8]| b@ == s.push(0) ==> #[trigger] f.requires((b,))
}

/// Hands `f` a buffer that holds `v` and a terminator, for the length of the
/// call. Short inputs are copied to the stack, others to an owned buffer that
/// is released when `f` returns. With `checked`, an input that holds a zero
/// byte is refused before `f` runs.
pub fn with_c_str<T, F: FnOnce(&[u8]) -> T>(v: &[u8], checked: bool, f: F) -> (r: Result<
    T,
    InteriorNull,
>)
    requires
        v@.len() < usize::MAX,
        accepts_loan(v@, f),
    ensures
        loaned_result(v@, checked, f, r),
{
    if v.len() < BUF_LEN {
        loan_from_stack(v, checked, f)
    } else {
        loan_from_heap(v, checked, f)
    }
}

fn loan_from_stack<T, F: FnOnce(&[u8]) -> T>(v: &[u8], checked: bool, f: F) -> (r: Result<
    T,
    InteriorNull,
>)
    requires
        v@.len() < BUF_LEN,
        accepts_loan(v@, f),
    ensures
        loaned_result(v@, checked, f, r),
{
    let n = v.len();
    let mut buf = [0u8; BUF_LEN];
    let mut i: usize = 0;
    while i < n
        invariant
            n == v@.len() < BUF_LEN,
            i <= n,
            buf@.len() == BUF_LEN,
            forall|k: int| 0 <= k < i ==> buf@[k] == v@[k],
        decreases n - i,
    {
        buf[i] = v[i];
        i = i + 1;
    }
    buf[n] = 0u8;
    let loan = slice_subrange(buf.as_slice(), 0, n + 1);
    assert(loan@ =~= v@.push(0));
    assert(loan@.take(n as int) =~= v@);
    if checked {
        match check_for_null(v, loan) {
            Ok(()) => {},
            Err(e) => {
                return Err(e);
            },
        }
    }
    let x = f(loan);
    assert(lent(v@, f, x)) by {
        assert(loan@ == v@.push(0) && f.ensures((loan,), x));
    }
    Ok(x)
}

fn loan_from_heap<T, F: FnOnce(&[u8]) -> T>(v: &[u8], checked: bool, f: F) -> (r: Result<
    T,
    InteriorNull,
>)
    requires
        v@.len() < usize::MAX,
        accepts_loan(v@, f),
    ensures
        loaned_result(v@, checked, f, r),
{
    let c = if checked {
        match v.to_c_str() {
            Ok(c) => c,
            Err(e) => {
                return Err(e);
            },
        }
    } else {
        v.to_c_str_unchecked()
    };
    let loan = c.as_bytes_with_tail();
    let x = f(loan);
    assert(lent(v@, f, x)) by {
        assert(loan@ == v@.push(0) && f.ensures((loan,), x));
    }
    Ok(x)
}

/// Types whose bytes can be copied into a null-terminated buffer.
pub trait ToCStr {
    /// The bytes that a conversion copies.
    spec fn c_bytes(&self) -> Seq<u8>;

    /// Copies the bytes into a new terminated buffer; refuses bytes that hold
    /// a zero.
    fn to_c_str(&self) -> (r: Result<CString, InteriorNull>)
        requires
            self.c_bytes().len() < usize::MAX,
        ensures
            checked_result(self.c_bytes(), r),
    ;

    /// Copies the bytes into a new terminated buffer without looking for
    /// zero bytes among them; a reader of the result stops at the first one.
    fn to_c_str_unchecked(&self) -> (r: CString)
        requires
            self.c_bytes().len() < usize::MAX,
        ensures
            r@ == self.c_bytes().push(0),
    ;

    /// Runs `f` on a temporary terminated copy of the bytes, released when
    /// `f` returns; refuses bytes that hold a zero.
    fn with_c_str<T, F: FnOnce(&[u8]) -> T>(&self, f: F) -> (r: Result<T, InteriorNull>)
        requires
            self.c_bytes().len() < usize::MAX,
            accepts_loan(self.c_bytes(), f),
        ensures
            loaned_result(self.c_bytes(), true, f, r),
    ;

    /// Runs `f` on a temporary terminated copy of the bytes without looking
    /// for zero bytes among them.
    fn with_c_str_unchecked<T, F: FnOnce(&[u8]) -> T>(&self, f: F) -> (r: T)
        requires
            self.c_bytes().len() < usize::MAX,
            accepts_loan(self.c_bytes(), f),
        ensures
            lent(self.c_bytes(), f, r),
    ;
}

impl ToCStr for [u8] {
    open spec fn c_bytes(&self) -> Seq<u8> {
        self@
    }

    fn to_c_str(&self) -> (r: Result<CString, InteriorNull>) {
        let cs = self.to_c_str_unchecked();
        let buf = cs.as_bytes_with_tail();
        assert(buf@.take(self@.len() as int) =~= self@);
        match check_for_null(self, buf) {
            Ok(()) => Ok(cs),
            Err(e) => Err(e),
        }
    }

    fn to_c_str_unchecked(&self) -> (r: CString) {
        CString::from_bytes_unchecked(self)
    }

    fn with_c_str<T, F: FnOnce(&[u8]) -> T>(&self, f: F) -> (r: Result<T, InteriorNull>) {
        with_c_str(self, true, f)
    }

    fn with_c_str_unchecked<T, F: FnOnce(&[u8]) -> T>(&self, f: F) -> (r: T) {
        match with_c_str(self, false, f) {
            Ok(x) => x,
            Err(_) => {
                proof {
                    assert(false);
                }
                unreached()
            },
        }
    }
}

impl ToCStr for str {
    open spec fn c_bytes(&self) -> Seq<u8> {
        encode_utf8(self@)
    }

    fn to_c_str(&self) -> (r: Result<CString, InteriorNull>) {
        self.as_bytes().to_c_str()
    }

    fn to_c_str_unchecked(&self) -> (r: CString) {
        self.as_bytes().to_c_str_unchecked()
    }

    fn with_c_str<T, F: FnOnce(&[u8]) -> T>(&self, f: F) -> (r: Result<T, InteriorNull>) {
        self.as_bytes().with_c_str(f)
    }

    fn with_c_str_unchecked<T, F: FnOnce(&[u8]) -> T>(&self, f: F) -> (r: T) {
        self.as_bytes().with_c_str_unchecked(f)
    }
}

impl ToCStr for String {
    open spec fn c_bytes(&self) -> Seq<u8> {
        encode_utf8(self@)
    }

    fn to_c_str(&self) -> (r: Result<CString, InteriorNull>) {
        self.as_str().as_bytes().to_c_str()
    }

    fn to_c_str_unchecked(&self) -> (r: CString) {
        self.as_str().as_bytes().to_c_str_unchecked()
    }

    fn with_c_str<T, F: FnOnce(&[u8]) -> T>(&self, f: F) -> (r: Result<T, InteriorNull>) {
        self.as_str().as_bytes().with_c_str(f)
    }

    fn with_c_str_unchecked<T, F: FnOnce(&[u8]) -> T>(&self, f: F) -> (r: T) {
        self.as_str().as_bytes().with_c_str_unchecked(f)
    }
}

impl ToCStr for Vec<u8> {
    open spec fn c_bytes(&self) -> Seq<u8> {
        self@
    }

    fn to_c_str(&self) -> (r: Result<CString, InteriorNull>) {
        self.as_slice().to_c_str()
    }

    fn to_c_str_unchecked(&self) -> (r: CString) {
        self.as_slice().to_c_str_unchecked()
    }

    fn with_c_str<T, F: FnOnce(&[u8]) -> T>(&self, f: F) -> (r: Result<T, InteriorNull>) {
        self.as_slice().with_c_str(f)
    }

    fn with_c_str_unchecked<T, F: FnOnce(&[u8]) -> T>(&self, f: F) -> (r: T) {
        self.as_slice().with_c_str_unchecked(f)
    }
}

impl<'a, U: ToCStr + ?Sized> ToCStr for &'a U {
    open spec fn c_bytes(&self) -> Seq<u8> {
        (**self).c_bytes()
    }

    fn to_c_str(&self) -> (r: Result<CString, InteriorNull>) {
        (**self).to_c_str()
    }

    fn to_c_str_unchecked(&self) -> (r: CString) {
        (**self).to_c_str_unchecked()
    }

    fn with_c_str<T, F: FnOnce(&[u8]) -> T>(&self, f: F) -> (r: Result<T, InteriorNull>) {
        (**self).with_c_str(f)
    }

    fn with_c_str_unchecked<T, F: FnOnce(&[u8]) -> T>(&self, f: F) -> (r: T) {
        (**self).with_c_str_unchecked(f)
    }
}

/// Types that can be rebuilt from the content of a null-terminated buffer.
pub trait FromCStr: Sized {
    /// Contents from which a value can be rebuilt.
    spec fn admits(content: Seq<u8>) -> bool;

    /// `self` was rebuilt from `content`.
    spec fn rebuilt_from(self, content: Seq<u8>) -> bool;

    /// Rebuilds a value from the bytes of `buf` before its first zero (all of
    /// `buf` when it holds none).
    fn from_c_str(buf: &[u8]) -> (r: Self)
        requires
            Self::admits(c_content(buf@)),
        ensures
            r.rebuilt_from(c_content(buf@)),
    ;

    /// Same as `from_c_str`.
    fn from_raw_buf(buf: &[u8]) -> (r: Self)
        requires
            Self::admits(c_content(buf@)),
        ensures
            r.rebuilt_from(c_content(buf@)),
    ;
}

/// Copies the content of `buf`: the bytes before its first zero, or all of
/// them when it holds none.
pub fn content_of(buf: &[u8]) -> (r: &[u8])
    ensures
        r@ == c_content(buf@),
        no_nul(r@),
{
    let n = nul_position(buf, 0);
    proof {
        lemma_nul_from(buf@, 0);
    }
    slice_subrange(buf, 0, n)
}

impl FromCStr for Vec<u8> {
    open spec fn admits(content: Seq<u8>) -> bool {
        true
    }

    open spec fn rebuilt_from(self, content: Seq<u8>) -> bool {
        self@ == content
    }

    fn from_c_str(buf: &[u8]) -> (r: Vec<u8>) {
        slice_to_vec(content_of(buf))
    }

    fn from_raw_buf(buf: &[u8]) -> (r: Vec<u8>) {
        Self::from_c_str(buf)
    }
}

impl FromCStr for String {
    open spec fn admits(content: Seq<u8>) -> bool {
        valid_utf8(content)
    }

    open spec fn rebuilt_from(self, content: Seq<u8>) -> bool {
        encode_utf8(self@) == content
    }

    fn from_c_str(buf: &[u8]) -> (r: String) {
        match utf8_to_string(content_of(buf)) {
            Some(s) => s,
            None => {
                proof {
                    assert(false);
                }
                String::new()
            },
        }
    }

    fn from_raw_buf(buf: &[u8]) -> (r: String) {
        Self::from_c_str(buf)
    }
}

impl FromCStr for CString {
    open spec fn admits(content: Seq<u8>) -> bool {
        content.len() < usize::MAX
    }

    open spec fn rebuilt_from(self, content: Seq<u8>) -> bool {
        self@ == content.push(0)
    }

    fn from_c_str(buf: &[u8]) -> (r: CString) {
        let bytes = content_of(buf);
        bytes.to_c_str_unchecked()
    }

    fn from_raw_buf(buf: &[u8]) -> (r: CString) {
        Self::from_c_str(buf)
    }
}

/// A zero-free byte sequence comes back unchanged from a checked conversion
/// followed by a reverse conversion: the conversion succeeds, and the content
/// of its buffer, which is what `from_c_str` rebuilds from, is the sequence.
pub proof fn lemma_round_trip(s: Seq<u8>)
    requires
        no_nul(s),
    ensures
        forall|r: Result<CString, InteriorNull>| #[trigger]
            checked_result(s, r) ==> (r matches Ok(c) && c_content(c@) == s),
        c_content(s.push(0)) == s,
{
    lemma_content_of_terminated(s);
}

/// A scoped conversion lends its callback a buffer that holds the same bytes
/// as the buffer of the owned conversion, whichever storage it used.
pub proof fn lemma_loan_matches_conversion<T, F: FnOnce(&[u8]) -> T>(
    s: Seq<u8>,
    checked: bool,
    f: F,
    x: T,
    c: CString,
)
    requires
        loaned_result(s, checked, f, Ok(x)),
        checked ==> checked_result(s, Ok(c)),
        !checked ==> c@ == s.push(0),
    ensures
        exists|b: &[u8]| b@ == c@ && #[trigger] f.ensures((b,), x),
{
}

} // verus!
