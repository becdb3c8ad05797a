//! Helpers of the debugging tool server: output capping and the directories
//! a code walk skips.

pub mod inputs;
pub mod report;
pub mod search;
pub mod listing;
pub mod logs;

use vstd::prelude::*;
use vstd::string::StringSliceAdditionalSpecFns;
use crate::text::{chars_of, eq_lit};

verus! {

/// The most bytes of output one tool response carries.
pub const MAX_CHARS: usize = 32768;

/// Directories never walked for code search (build and test artifacts).
pub open spec fn excluded_dir(name: Seq<char>) -> bool {
    ||| name == ".git"@
    ||| name == "target"@
    ||| name == "node_modules"@
    ||| name == "dist"@
    ||| name == "build"@
    ||| name == ".next"@
    ||| name == ".turbo"@
    ||| name == "coverage"@
    ||| name == "vendor"@
    ||| name == ".cache"@
}

/// Whether a directory is skipped by the code walk.
pub fn is_excluded_dir(name: &str) -> (b: bool)
    ensures
        b == excluded_dir(name@),
{
    let n = chars_of(name);
    let n = n.as_slice();
    eq_lit(n, ".git") || eq_lit(n, "target") || eq_lit(n, "node_modules") || eq_lit(n, "dist")
        || eq_lit(n, "build") || eq_lit(n, ".next") || eq_lit(n, ".turbo") || eq_lit(n, "coverage")
        || eq_lit(n, "vendor") || eq_lit(n, ".cache")
}

/// The largest character boundary of `b` at or below `k`.
pub open spec fn boundary_at_most(b: Seq<u8>, k: int) -> int
    decreases k,
{
    if k <= 0 {
        0
    } else if vstd::utf8::is_char_boundary(b, k) {
        k
    } else {
        boundary_at_most(b, k - 1)
    }
}

/// The truncation marker.
pub open spec fn cap_marker() -> Seq<char> {
    "\n… (output truncated)"@
}

/// The output, cut to the longest run of whole characters that fits in
/// `MAX_CHARS` bytes, with a truncation marker appended when it is longer.
pub open spec fn cap_spec(s: Seq<char>) -> Seq<char> {
    let b = vstd::utf8::encode_utf8(s);
    if b.len() > MAX_CHARS {
        vstd::utf8::decode_utf8(b.subrange(0, boundary_at_most(b, MAX_CHARS as int))) + cap_marker()
    } else {
        s
    }
}

proof fn lemma_boundary_at_most(b: Seq<u8>, k: int)
    requires
        vstd::utf8::valid_utf8(b),
        0 <= k <= b.len(),
    ensures
        0 <= boundary_at_most(b, k) <= k,
        vstd::utf8::is_char_boundary(b, boundary_at_most(b, k)),
    decreases k,
{
    if k > 0 && !vstd::utf8::is_char_boundary(b, k) {
        lemma_boundary_at_most(b, k - 1);
    }
}

/// UTF-8 encoding is additive: the bytes of two texts put together are the
/// bytes of the first followed by those of the second.
pub proof fn law_encode_concat(a: Seq<char>, b: Seq<char>)
    ensures
        vstd::utf8::encode_utf8(a + b) == vstd::utf8::encode_utf8(a) + vstd::utf8::encode_utf8(b),
    decreases a.len(),
{
    if a.len() == 0 {
        assert(a + b =~= b);
        assert(vstd::utf8::encode_utf8(a) =~= Seq::<u8>::empty());
        assert(vstd::utf8::encode_utf8(a + b) =~= vstd::utf8::encode_utf8(a) + vstd::utf8::encode_utf8(b));
    } else {
        law_encode_concat(a.drop_first(), b);
        assert((a + b).drop_first() =~= a.drop_first() + b);
        assert((a + b)[0] == a[0]);
        assert(vstd::utf8::encode_utf8(a + b) =~= vstd::utf8::encode_utf8(a) + vstd::utf8::encode_utf8(b));
    }
}

/// Apply the output cap (a character cap: the cut never splits a
/// character), appending a truncation marker when tripped.
pub fn cap(s: String) -> (r: String)
    ensures
        r@ == cap_spec(s@),
        vstd::utf8::encode_utf8(s@).len() <= MAX_CHARS ==> r@ == s@,
        vstd::utf8::encode_utf8(s@).len() > MAX_CHARS ==> exists|p: Seq<char>|
            #![trigger vstd::utf8::encode_utf8(p)]
            s@.take(p.len() as int) == p && vstd::utf8::encode_utf8(p).len() <= MAX_CHARS && r@ == p + cap_marker(),
        vstd::utf8::encode_utf8(s@).len() > MAX_CHARS ==> vstd::utf8::encode_utf8(r@).len() <= MAX_CHARS
            + vstd::utf8::encode_utf8(cap_marker()).len(),
{
    let st = s.as_str();
    assert(st.spec_bytes() == vstd::utf8::encode_utf8(s@));
    let bytes = st.as_bytes();
    if bytes.len() > MAX_CHARS {
        let ghost b = vstd::utf8::encode_utf8(s@);
        proof {
            vstd::utf8::encode_utf8_valid_utf8(s@);
            lemma_boundary_at_most(b, MAX_CHARS as int);
        }
        let mut k: usize = MAX_CHARS;
        while k > 0 && !st.is_char_boundary(k)
            invariant
                k <= MAX_CHARS,
                MAX_CHARS < b.len(),
                st.spec_bytes() == b,
                vstd::utf8::valid_utf8(b),
                boundary_at_most(b, MAX_CHARS as int) == boundary_at_most(b, k as int),
            decreases k,
        {
            k = k - 1;
        }
        assert(boundary_at_most(b, k as int) == k as int);
        proof {
            lemma_boundary_at_most(b, k as int);
        }
        let (head, _) = st.split_at(k);
        let ghost p = vstd::utf8::decode_utf8(b.subrange(0, k as int));
        proof {
            vstd::utf8::encode_utf8_decode_utf8(head@);
            vstd::utf8::encode_utf8_decode_utf8(s@);
            vstd::utf8::decode_utf8_split(b, k as int);
            vstd::utf8::valid_utf8_split(b, k as int);
            vstd::utf8::decode_utf8_encode_utf8(b.subrange(0, k as int));
            assert(s@ =~= p + vstd::utf8::decode_utf8(b.subrange(k as int, b.len() as int)));
            assert(s@.take(p.len() as int) =~= p);
            assert(vstd::utf8::encode_utf8(p) == b.subrange(0, k as int));
            assert(vstd::utf8::encode_utf8(p).len() <= MAX_CHARS);
        }
        let mut out = chars_of(head);
        let marker = chars_of("\n… (output truncated)");
        crate::text::push_all(&mut out, marker.as_slice());
        let r = crate::text::string_of(out.as_slice());
        assert(r@ == p + cap_marker());
        assert(boundary_at_most(b, MAX_CHARS as int) == k as int);
        assert(r@ == cap_spec(s@));
        proof {
            law_encode_concat(p, cap_marker());
        }
        r
    } else {
        assert(vstd::utf8::encode_utf8(s@).len() <= MAX_CHARS);
        s
    }
}

} // verus!
