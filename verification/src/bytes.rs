//! Byte-level lexical helpers: whitespace, trimming, splitting a line on
//! tabs, whitespace-separated tokens, and substring search. Lines are held
//! as byte vectors (the format is tab-delimited text).
use vstd::prelude::*;

verus! {

/// The tab byte, the field delimiter of the format.
pub const TAB: u8 = 9;

/// True of the bytes this library treats as whitespace (the ASCII
/// whitespace characters; the format itself is tab-delimited ASCII).
pub open spec fn is_ws(b: u8) -> bool {
    b == 0x20 || b == 0x09 || b == 0x0a || b == 0x0b || b == 0x0c || b == 0x0d
}

/// Executable mirror of `is_ws`.
pub fn byte_is_ws(b: u8) -> (r: bool)
    ensures
        r == is_ws(b),
{
    b == 0x20 || b == 0x09 || b == 0x0a || b == 0x0b || b == 0x0c || b == 0x0d
}

/// `s` with its leading whitespace removed.
pub open spec fn trim_start(s: Seq<u8>) -> Seq<u8>
    decreases s.len(),
{
    if s.len() > 0 && is_ws(s[0]) {
        trim_start(s.skip(1))
    } else {
        s
    }
}

/// `s` with its trailing whitespace removed.
pub open spec fn trim_end(s: Seq<u8>) -> Seq<u8>
    decreases s.len(),
{
    if s.len() > 0 && is_ws(s.last()) {
        trim_end(s.drop_last())
    } else {
        s
    }
}

/// `s` with leading and trailing whitespace removed.
pub open spec fn trim(s: Seq<u8>) -> Seq<u8> {
    trim_end(trim_start(s))
}

proof fn lemma_trim_start_prefix(s: Seq<u8>, a: int)
    requires
        0 <= a <= s.len(),
        forall|k: int| 0 <= k < a ==> is_ws(s[k]),
    ensures
        trim_start(s) == trim_start(s.skip(a)),
    decreases a,
{
    if a > 0 {
        assert(s.skip(1).skip(a - 1) =~= s.skip(a));
        lemma_trim_start_prefix(s.skip(1), a - 1);
    } else {
        assert(s.skip(0) =~= s);
    }
}

proof fn lemma_trim_end_suffix(s: Seq<u8>, b: int)
    requires
        0 <= b <= s.len(),
        forall|k: int| b <= k < s.len() ==> is_ws(s[k]),
    ensures
        trim_end(s) == trim_end(s.take(b)),
    decreases s.len() - b,
{
    if b < s.len() {
        assert(s.drop_last() =~= s.take(s.len() - 1));
        lemma_trim_end_suffix(s.take(s.len() - 1), b);
        assert(s.take(s.len() - 1).take(b) =~= s.take(b));
    } else {
        assert(s.take(s.len() as int) =~= s);
    }
}

/// Copies `s[a..b]` into a fresh vector.
pub fn copy_range(s: &Vec<u8>, a: usize, b: usize) -> (r: Vec<u8>)
    requires
        a <= b <= s.len(),
    ensures
        r@ == s@.subrange(a as int, b as int),
{
    let mut r: Vec<u8> = Vec::new();
    let mut i: usize = a;
    while i < b
        invariant
            a <= i <= b <= s.len(),
            r@ == s@.subrange(a as int, i as int),
        decreases b - i,
    {
        r.push(s[i]);
        proof {
            assert(s@.subrange(a as int, i as int).push(s@[i as int]) =~= s@.subrange(
                a as int,
                i + 1,
            ));
        }
        i = i + 1;
    }
    r
}

/// Removes leading and trailing whitespace, as `trim` describes.
pub fn trim_bytes(s: &Vec<u8>) -> (r: Vec<u8>)
    ensures
        r@ == trim(s@),
{
    let mut a: usize = 0;
    while a < s.len() && byte_is_ws(s[a])
        invariant
            0 <= a <= s.len(),
            forall|k: int| 0 <= k < a ==> is_ws(s@[k]),
        decreases s.len() - a,
    {
        a = a + 1;
    }
    proof {
        lemma_trim_start_prefix(s@, a as int);
    }
    let ghost t = s@.skip(a as int);
    let mut b: usize = s.len();
    while b > a && byte_is_ws(s[b - 1])
        invariant
            a <= b <= s.len(),
            forall|k: int| b <= k < s.len() ==> is_ws(s@[k]),
        decreases b,
    {
        b = b - 1;
    }
    proof {
        lemma_trim_end_suffix(t, b - a);
        assert(t.take(b - a) =~= s@.subrange(a as int, b as int));
        if a < s.len() {
            assert(!is_ws(t[0]));
        }
        assert(trim_start(t) == t);
        if b > a {
            assert(!is_ws(t.take(b - a).last()));
        }
        assert(trim_end(t.take(b - a)) == t.take(b - a));
    }
    copy_range(s, a, b)
}

/// The fields of `s` split on the tab byte; an empty input still holds one
/// (empty) field, as splitting a text line does.
pub open spec fn split_tab_spec(s: Seq<u8>) -> Seq<Seq<u8>>
    decreases s.len(),
{
    if s.len() == 0 {
        seq![Seq::<u8>::empty()]
    } else if s[0] == TAB {
        seq![Seq::<u8>::empty()] + split_tab_spec(s.skip(1))
    } else {
        let r = split_tab_spec(s.skip(1));
        seq![seq![s[0]] + r[0]] + r.skip(1)
    }
}

pub proof fn lemma_split_tab_len(s: Seq<u8>)
    ensures
        split_tab_spec(s).len() >= 1,
    decreases s.len(),
{
    if s.len() > 0 {
        lemma_split_tab_len(s.skip(1));
    }
}

/// Splits one line into its tab-separated fields.
pub fn split_tab(s: &Vec<u8>) -> (r: Vec<Vec<u8>>)
    ensures
        r.deep_view() == split_tab_spec(s@),
{
    let mut res: Vec<Vec<u8>> = Vec::new();
    let mut cur: Vec<u8> = Vec::new();
    let mut i: usize = 0;
    proof {
        assert(s@.skip(0) =~= s@);
    }
    while i < s.len()
        invariant
            0 <= i <= s.len(),
            split_tab_spec(s@) == res.deep_view() + seq![cur@ + split_tab_spec(
                s@.skip(i as int),
            )[0]] + split_tab_spec(s@.skip(i as int)).skip(1),
        decreases s.len() - i,
    {
        let ghost rest = split_tab_spec(s@.skip(i as int));
        proof {
            assert(s@.skip(i as int).skip(1) =~= s@.skip(i + 1));
            lemma_split_tab_len(s@.skip(i + 1));
        }
        let ghost rest1 = split_tab_spec(s@.skip(i + 1));
        if s[i] == TAB {
            proof {
                assert(rest == seq![Seq::<u8>::empty()] + rest1);
                assert(rest[0] =~= Seq::<u8>::empty());
            }
            let ghost old_res = res.deep_view();
            let ghost curv = cur@;
            res.push(cur);
            proof {
                assert(res.deep_view() =~~= old_res.push(curv));
                assert((res.deep_view() + seq![Seq::<u8>::empty() + rest1[0]]) + rest1.skip(1)
                    =~~= (old_res + seq![curv + rest[0]]) + rest.skip(1));
            }
            cur = Vec::new();
            proof {
                assert((res.deep_view() + seq![cur@ + rest1[0]]) + rest1.skip(1) =~~= (
                res.deep_view() + seq![Seq::<u8>::empty() + rest1[0]]) + rest1.skip(1));
            }
        } else {
            proof {
                assert(rest == seq![seq![s@[i as int]] + rest1[0]] + rest1.skip(1));
                assert(rest[0] == seq![s@[i as int]] + rest1[0]);
            }
            let ghost oldcur = cur@;
            cur.push(s[i]);
            proof {
                assert((res.deep_view() + seq![cur@ + rest1[0]]) + rest1.skip(1) =~~= (
                res.deep_view() + seq![oldcur + rest[0]]) + rest.skip(1));
            }
        }
        i = i + 1;
    }
    proof {
        assert(s@.skip(s@.len() as int) =~= Seq::<u8>::empty());
        let rest = split_tab_spec(s@.skip(s@.len() as int));
        assert(rest == seq![Seq::<u8>::empty()]);
        assert(cur@ + rest[0] =~= cur@);
        assert(rest.skip(1) =~= Seq::<Seq<u8>>::empty());
    }
    let ghost old_res = res.deep_view();
    let ghost curv = cur@;
    res.push(cur);
    proof {
        assert(res.deep_view() =~~= old_res.push(curv));
        assert(split_tab_spec(s@) =~= old_res.push(curv));
    }
    res
}

/// The whitespace-separated tokens of `s`: the maximal nonempty runs of
/// non-whitespace bytes, in order.
pub open spec fn ws_tokens(s: Seq<u8>) -> Seq<Seq<u8>>
    decreases s.len(),
{
    if s.len() == 0 {
        Seq::<Seq<u8>>::empty()
    } else if is_ws(s[0]) {
        ws_tokens(s.skip(1))
    } else if s.len() == 1 || is_ws(s[1]) {
        seq![seq![s[0]]] + ws_tokens(s.skip(1))
    } else {
        let r = ws_tokens(s.skip(1));
        seq![seq![s[0]] + r[0]] + r.skip(1)
    }
}

pub proof fn lemma_ws_tokens_run(s: Seq<u8>, k: int)
    requires
        1 <= k <= s.len(),
        forall|j: int| 0 <= j < k ==> !is_ws(s[j]),
        k == s.len() || is_ws(s[k]),
    ensures
        ws_tokens(s) == seq![s.take(k)] + ws_tokens(s.skip(k)),
    decreases k,
{
    if k == 1 {
        assert(s.take(1) =~= seq![s[0]]);
    } else {
        assert(!is_ws(s[1]));
        lemma_ws_tokens_run(s.skip(1), k - 1);
        assert(s.skip(1).skip(k - 1) =~= s.skip(k));
        let r = ws_tokens(s.skip(1));
        assert(r == seq![s.skip(1).take(k - 1)] + ws_tokens(s.skip(k)));
        assert(r[0] == s.skip(1).take(k - 1));
        assert(seq![s[0]] + r[0] =~= s.take(k));
        assert(r.skip(1) =~= ws_tokens(s.skip(k)));
    }
}

/// Splits `s` into its whitespace-separated tokens.
pub fn split_whitespace_tokens(s: &Vec<u8>) -> (r: Vec<Vec<u8>>)
    ensures
        r.deep_view() == ws_tokens(s@),
{
    let mut res: Vec<Vec<u8>> = Vec::new();
    let mut i: usize = 0;
    proof {
        assert(s@.skip(0) =~= s@);
    }
    while i < s.len()
        invariant
            0 <= i <= s.len(),
            ws_tokens(s@) == res.deep_view() + ws_tokens(s@.skip(i as int)),
        decreases s.len() - i,
    {
        if byte_is_ws(s[i]) {
            proof {
                assert(s@.skip(i as int).skip(1) =~= s@.skip(i + 1));
            }
            i = i + 1;
        } else {
            let mut j: usize = i + 1;
            while j < s.len() && !byte_is_ws(s[j])
                invariant
                    i < j <= s.len(),
                    forall|k: int| i <= k < j ==> !is_ws(s@[k]),
                decreases s.len() - j,
            {
                j = j + 1;
            }
            proof {
                let t = s@.skip(i as int);
                assert(forall|k: int| 0 <= k < j - i ==> !is_ws(t[k]));
                lemma_ws_tokens_run(t, j - i);
                assert(t.take(j - i) =~= s@.subrange(i as int, j as int));
                assert(t.skip(j - i) =~= s@.skip(j as int));
            }
            let tok = copy_range(s, i, j);
            let ghost old_res = res.deep_view();
            let ghost tokv = tok@;
            res.push(tok);
            proof {
                assert(res.deep_view() =~~= old_res.push(tokv));
                assert(old_res + (seq![tokv] + ws_tokens(s@.skip(j as int))) =~= old_res.push(
                    tokv,
                ) + ws_tokens(s@.skip(j as int)));
            }
            i = j;
        }
    }
    proof {
        assert(s@.skip(s@.len() as int) =~= Seq::<u8>::empty());
        assert(res.deep_view() + Seq::<Seq<u8>>::empty() =~= res.deep_view());
    }
    res
}

/// Index of the first occurrence of `b` in `s`, or `s.len()` when there
/// is none.
pub open spec fn find_byte(s: Seq<u8>, b: u8) -> int
    decreases s.len(),
{
    if s.len() == 0 {
        0
    } else if s[0] == b {
        0
    } else {
        1 + find_byte(s.skip(1), b)
    }
}

pub proof fn lemma_find_byte_char(s: Seq<u8>, b: u8, k: int)
    requires
        0 <= k <= s.len(),
        forall|j: int| 0 <= j < k ==> s[j] != b,
        k == s.len() || s[k] == b,
    ensures
        find_byte(s, b) == k,
    decreases k,
{
    if k > 0 {
        lemma_find_byte_char(s.skip(1), b, k - 1);
    }
}

/// Finds the first occurrence of `b` in `v` at or after `start`.
pub fn find_byte_at(v: &Vec<u8>, start: usize, b: u8) -> (r: usize)
    requires
        start <= v.len(),
    ensures
        start <= r <= v.len(),
        r - start == find_byte(v@.skip(start as int), b),
        r < v.len() ==> v@[r as int] == b,
        forall|j: int| start <= j < r ==> v@[j] != b,
{
    let mut i: usize = start;
    while i < v.len() && v[i] != b
        invariant
            start <= i <= v.len(),
            forall|j: int| start <= j < i ==> v@[j] != b,
        decreases v.len() - i,
    {
        i = i + 1;
    }
    proof {
        let t = v@.skip(start as int);
        assert(forall|j: int| 0 <= j < i - start ==> t[j] != b);
        lemma_find_byte_char(t, b, i - start);
    }
    i
}

/// True when `needle` occurs contiguously somewhere in `hay`.
pub open spec fn contains_seq(hay: Seq<u8>, needle: Seq<u8>) -> bool {
    exists|k: int|
        0 <= k && k + needle.len() <= hay.len() && #[trigger] hay.subrange(k, k + needle.len())
            == needle
}

/// True when the two vectors hold the same bytes.
pub fn bytes_eq(a: &Vec<u8>, b: &Vec<u8>) -> (r: bool)
    ensures
        r == (a@ == b@),
{
    if a.len() != b.len() {
        return false;
    }
    let mut i: usize = 0;
    while i < a.len()
        invariant
            0 <= i <= a.len(),
            a.len() == b.len(),
            forall|k: int| 0 <= k < i ==> a@[k] == b@[k],
        decreases a.len() - i,
    {
        if a[i] != b[i] {
            return false;
        }
        i = i + 1;
    }
    proof {
        assert(a@ =~= b@);
    }
    true
}

/// Searches `hay` for a contiguous occurrence of `needle`.
pub fn find_subseq(hay: &Vec<u8>, needle: &Vec<u8>) -> (r: bool)
    ensures
        r == contains_seq(hay@, needle@),
{
    if needle.len() > hay.len() {
        proof {
            assert(!contains_seq(hay@, needle@));
        }
        return false;
    }
    let mut k: usize = 0;
    while k <= hay.len() - needle.len()
        invariant
            needle.len() <= hay.len(),
            0 <= k <= hay.len() - needle.len() + 1,
            forall|p: int|
                0 <= p < k ==> #[trigger] hay@.subrange(p, p + needle@.len()) != needle@,
        decreases hay.len() + 1 - k,
    {
        let mut i: usize = 0;
        let mut all_eq = true;
        while i < needle.len()
            invariant
                k + needle.len() <= hay.len(),
                0 <= i <= needle.len(),
                all_eq == (forall|q: int| 0 <= q < i ==> hay@[k + q] == needle@[q]),
            decreases needle.len() - i,
        {
            if hay[k + i] != needle[i] {
                all_eq = false;
                proof {
                    assert(hay@[k + i] != needle@[i as int]);
                }
                i = needle.len();
            } else {
                i = i + 1;
            }
        }
        if all_eq {
            proof {
                assert(hay@.subrange(k as int, k + needle@.len()) =~= needle@);
            }
            return true;
        }
        proof {
            assert(hay@.subrange(k as int, k + needle@.len()) != needle@) by {
                let q = choose|q: int| 0 <= q < needle@.len() && hay@[k + q] != needle@[q];
                assert(hay@.subrange(k as int, k + needle@.len())[q] != needle@[q]);
            }
        }
        k = k + 1;
    }
    proof {
        assert(!contains_seq(hay@, needle@));
    }
    false
}

} // verus!
