//! Parsing of multistrings: consecutive null-terminated strings whose list
//! ends with an empty string, that is with a second zero byte.
use vstd::prelude::*;
use vstd::slice::slice_subrange;
use crate::convert::ToCStr;
use crate::cstring::{lemma_nul_from, nul_from, nul_position, CString};

verus! {

/// How many more strings a parse with `limit` may take after `taken`.
pub open spec fn left_after(limit: Option<usize>, taken: int) -> Option<int> {
    match limit {
        Some(k) => Some(k - taken),
        None => None,
    }
}

/// The strings of `b` from `start` on, at most `left` of them when it is
/// `Some`. The list ends at a zero byte where a string would begin, or at the
/// end of `b`; a string whose terminator is missing ends with `b`.
pub open spec fn strings_from(b: Seq<u8>, start: int, left: Option<int>) -> Seq<Seq<u8>>
    decreases b.len() + 1 - start,
{
    if start < 0 || start >= b.len() || b[start] == 0 || (left matches Some(k) && k <= 0) {
        seq![]
    } else {
        let next_left = match left {
            Some(k) => Some(k - 1),
            None => None,
        };
        proof {
            lemma_nul_from(b, start);
        }
        seq![b.subrange(start, nul_from(b, start))] + strings_from(
            b,
            nul_from(b, start) + 1,
            next_left,
        )
    }
}

/// The strings that a parse of `b` with `limit` yields, in order.
pub open spec fn multistring(b: Seq<u8>, limit: Option<usize>) -> Seq<Seq<u8>> {
    strings_from(b, 0, left_after(limit, 0))
}

/// Once the list has ended, nothing more is found.
proof fn lemma_strings_past_end(b: Seq<u8>, left: Option<int>)
    ensures
        strings_from(b, b.len() as int, left) == Seq::<Seq<u8>>::empty(),
{
}

/// Parses the multistring in `buf`, taking at most `count` strings when it is
/// `Some`. Each string comes back as an owned terminated buffer.
pub fn parse_multistring(buf: &[u8], count: Option<usize>) -> (r: Vec<CString>)
    requires
        buf@.len() < usize::MAX,
    ensures
        r@.len() == multistring(buf@, count).len(),
        forall|i: int| 0 <= i < r@.len() ==> #[trigger] r@[i]@ == multistring(buf@, count)[i].push(0),
{
    let ghost items = multistring(buf@, count);
    let mut out: Vec<CString> = Vec::new();
    let mut cur: usize = 0;
    let mut ctr: usize = 0;
    let (limited, limit) = match count {
        Some(k) => (true, k),
        None => (false, 0usize),
    };
    while (!limited || ctr < limit) && cur < buf.len() && buf[cur] != 0
        invariant
            limited == count is Some,
            count matches Some(k) ==> limit == k,
            buf@.len() < usize::MAX,
            items == multistring(buf@, count),
            cur <= buf@.len(),
            ctr == out@.len(),
            ctr <= cur,
            ctr <= items.len(),
            count matches Some(k) ==> ctr <= k,
            strings_from(buf@, cur as int, left_after(count, ctr as int)) == items.skip(ctr as int),
            forall|i: int| 0 <= i < ctr ==> #[trigger] out@[i]@ == items[i].push(0),
        decreases buf@.len() - cur,
    {
        let end = nul_position(buf, cur);
        proof {
            lemma_nul_from(buf@, cur as int);
        }
        let ghost rest = items.skip(ctr as int);
        let piece = slice_subrange(buf, cur, end);
        assert(rest.len() > 0 && rest[0] == piece@);
        let c = piece.to_c_str_unchecked();
        out.push(c);
        let next = if end < buf.len() {
            end + 1
        } else {
            end
        };
        proof {
            let tail = strings_from(buf@, end + 1, left_after(count, ctr + 1));
            assert(rest == seq![piece@] + tail);
            if end == buf.len() {
                lemma_strings_past_end(buf@, left_after(count, ctr + 1));
            }
            assert(tail == strings_from(buf@, next as int, left_after(count, ctr + 1)));
            assert(items.skip(ctr + 1) =~= rest.drop_first());
            assert(rest.drop_first() =~= tail);
        }
        cur = next;
        ctr = ctr + 1;
    }
    proof {
        let rest = items.skip(ctr as int);
        if ctr < items.len() {
            assert(rest.len() > 0);
            assert(false);
        }
    }
    out
}

/// `f` was run on a buffer that holds `item` and a terminator.
pub open spec fn handed<F: FnMut(&CString)>(f: F, item: Seq<u8>) -> bool {
    exists|c: &CString| c@ == item.push(0) && #[trigger] f.ensures((c,), ())
}

/// Parses the multistring in `buf`, taking at most `count` strings when it is
/// `Some`, hands each string to `f` in order, and returns how many it found.
pub fn from_c_multistring<F: FnMut(&CString)>(buf: &[u8], count: Option<usize>, f: F) -> (r:
    usize)
    requires
        buf@.len() < usize::MAX,
        forall|c: &CString| #[trigger] f.requires((c,)),
    ensures
        r == multistring(buf@, count).len(),
        forall|i: int| 0 <= i < r ==> #[trigger] handed(f, multistring(buf@, count)[i]),
{
    let ghost f0 = f;
    let mut f = f;
    let items = parse_multistring(buf, count);
    let mut i: usize = 0;
    while i < items.len()
        invariant
            i <= items@.len(),
            f == f0,
            items@.len() == multistring(buf@, count).len(),
            forall|k: int| 0 <= k < items@.len() ==> #[trigger] items@[k]@ == multistring(buf@, count)[k].push(0),
            forall|c: &CString| #[trigger] f.requires((c,)),
            forall|k: int| 0 <= k < i ==> #[trigger] handed(f, multistring(buf@, count)[k]),
        decreases items@.len() - i,
    {
        let item = &items[i];
        f(item);
        assert(handed(f, multistring(buf@, count)[i as int])) by {
            assert(item@ == multistring(buf@, count)[i as int].push(0) && f.ensures((item,), ()));
        }
        i = i + 1;
    }
    items.len()
}

} // verus!
