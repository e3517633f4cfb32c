//! Small string helpers shared by the modules.

use vstd::prelude::*;
use vstd::utf8::decode_utf8;
use vstd::utf8::valid_utf8;

verus! {

/// Character-wise equality of two strings.
pub fn str_eq(a: &str, b: &str) -> (r: bool)
    ensures
        r == (a@ == b@),
{
    let n = a.unicode_len();
    if n != b.unicode_len() {
        return false;
    }
    let mut i: usize = 0;
    while i < n
        invariant
            n == a@.len(),
            n == b@.len(),
            i <= n,
            forall|j: int| 0 <= j < i ==> a@[j] == b@[j],
        decreases n - i,
    {
        if a.get_char(i) != b.get_char(i) {
            return false;
        }
        i += 1;
    }
    assert(a@ =~= b@);
    true
}


/// The character of a decimal digit.
pub open spec fn digit_char(d: nat) -> char {
    if d == 0 { '0' } else if d == 1 { '1' } else if d == 2 { '2' } else if d == 3 { '3' }
    else if d == 4 { '4' } else if d == 5 { '5' } else if d == 6 { '6' } else if d == 7 { '7' }
    else if d == 8 { '8' } else { '9' }
}

/// The decimal notation of `n`, without leading zeros.
pub open spec fn decimal(n: nat) -> Seq<char>
    decreases n,
{
    if n < 10 {
        seq![digit_char(n)]
    } else {
        decimal(n / 10).push(digit_char(n % 10))
    }
}

fn digit_str(d: u64) -> (r: &'static str)
    requires
        d < 10,
    ensures
        r@ == seq![digit_char(d as nat)],
{
    proof {
        reveal_strlit("0");
        reveal_strlit("1");
        reveal_strlit("2");
        reveal_strlit("3");
        reveal_strlit("4");
        reveal_strlit("5");
        reveal_strlit("6");
        reveal_strlit("7");
        reveal_strlit("8");
        reveal_strlit("9");
    }
    if d == 0 { "0" } else if d == 1 { "1" } else if d == 2 { "2" } else if d == 3 { "3" }
    else if d == 4 { "4" } else if d == 5 { "5" } else if d == 6 { "6" } else if d == 7 { "7" }
    else if d == 8 { "8" } else { "9" }
}

/// Appends the decimal notation of `n` to `s`.
pub fn push_decimal(s: &mut String, n: u64)
    ensures
        final(s)@ == old(s)@ + decimal(n as nat),
    decreases n,
{
    if n < 10 {
        s.append(digit_str(n));
    } else {
        push_decimal(s, n / 10);
        s.append(digit_str(n % 10));
        proof {
            assert(old(s)@ + decimal(n as nat) =~= old(s)@ + decimal((n / 10) as nat) + seq![digit_char((n % 10) as nat)]);
        }
    }
}

/// The words of `v` separated by single spaces.
pub open spec fn join_spaced(v: Seq<Seq<char>>) -> Seq<char>
    decreases v.len(),
{
    if v.len() == 0 {
        Seq::empty()
    } else if v.len() == 1 {
        v[0]
    } else {
        join_spaced(v.drop_last()) + " "@ + v.last()
    }
}

/// The views of a list of strings.
pub open spec fn words(v: Seq<String>) -> Seq<Seq<char>> {
    v.map_values(|s: String| s@)
}

/// Joins `v` with single spaces, as `[String]::join(" ")` does.
pub fn join_with_spaces(v: &Vec<String>) -> (r: String)
    ensures
        r@ == join_spaced(words(v@)),
{
    let mut out = String::new();
    let mut i: usize = 0;
    proof {
        reveal_strlit(" ");
    }
    while i < v.len()
        invariant
            i <= v@.len(),
            out@ == join_spaced(words(v@.subrange(0, i as int))),
        decreases v@.len() - i,
    {
        proof {
            assert(words(v@.subrange(0, i as int + 1)).drop_last() =~= words(v@.subrange(0, i as int)));
            assert(words(v@.subrange(0, i as int + 1)).last() == v@[i as int]@);
        }
        if i > 0 {
            out.append(" ");
        }
        out.append(v[i].as_str());
        proof {
            if i == 0 {
                assert(out@ =~= words(v@.subrange(0, 1))[0]);
            }
        }
        i += 1;
    }
    assert(v@.subrange(0, v@.len() as int) == v@);
    out
}


/// `v` joined with `sep` between consecutive items.
pub open spec fn join_sep(v: Seq<Seq<char>>, sep: Seq<char>) -> Seq<char>
    decreases v.len(),
{
    if v.len() == 0 {
        Seq::empty()
    } else if v.len() == 1 {
        v[0]
    } else {
        join_sep(v.drop_last(), sep) + sep + v.last()
    }
}

pub fn join_with(v: &Vec<String>, sep: &str) -> (r: String)
    ensures
        r@ == join_sep(words(v@), sep@),
{
    let mut out = String::new();
    let mut i: usize = 0;
    while i < v.len()
        invariant
            i <= v@.len(),
            out@ == join_sep(words(v@.subrange(0, i as int)), sep@),
        decreases v@.len() - i,
    {
        proof {
            assert(words(v@.subrange(0, i as int + 1)).drop_last() =~= words(v@.subrange(0, i as int)));
            assert(words(v@.subrange(0, i as int + 1)).last() == v@[i as int]@);
        }
        if i > 0 {
            out.append(sep);
        }
        out.append(v[i].as_str());
        proof {
            if i == 0 {
                assert(out@ =~= words(v@.subrange(0, 1))[0]);
            }
        }
        i += 1;
    }
    assert(v@.subrange(0, v@.len() as int) == v@);
    out
}

/// Whether `a` comes no later than `b` in lexicographic order of code points.
pub open spec fn lex_le(a: Seq<char>, b: Seq<char>) -> bool
    decreases a.len(),
{
    if a.len() == 0 {
        true
    } else if b.len() == 0 {
        false
    } else if (a[0] as u32) < (b[0] as u32) {
        true
    } else if (a[0] as u32) > (b[0] as u32) {
        false
    } else {
        lex_le(a.drop_first(), b.drop_first())
    }
}

pub proof fn lemma_lex_total(a: Seq<char>, b: Seq<char>)
    ensures
        lex_le(a, b) || lex_le(b, a),
    decreases a.len(),
{
    if a.len() > 0 && b.len() > 0 && a[0] as u32 == b[0] as u32 {
        lemma_lex_total(a.drop_first(), b.drop_first());
    }
}

pub proof fn lemma_lex_trans(a: Seq<char>, b: Seq<char>, c: Seq<char>)
    requires
        lex_le(a, b),
        lex_le(b, c),
    ensures
        lex_le(a, c),
    decreases a.len(),
{
    if a.len() > 0 && b.len() > 0 && c.len() > 0 && a[0] as u32 == b[0] as u32 && b[0] as u32 == c[0] as u32 {
        lemma_lex_trans(a.drop_first(), b.drop_first(), c.drop_first());
    }
}

pub fn lex_le_exec(a: &str, b: &str) -> (r: bool)
    ensures
        r == lex_le(a@, b@),
{
    let n = a.unicode_len();
    let m = b.unicode_len();
    let mut i: usize = 0;
    proof {
        assert(a@.subrange(0, n as int) == a@);
        assert(b@.subrange(0, m as int) == b@);
    }
    while i < n && i < m
        invariant
            n == a@.len(),
            m == b@.len(),
            i <= n,
            i <= m,
            lex_le(a@, b@) == lex_le(a@.subrange(i as int, n as int), b@.subrange(i as int, m as int)),
        decreases n - i,
    {
        let x = a.get_char(i);
        let y = b.get_char(i);
        proof {
            assert(a@.subrange(i as int, n as int).drop_first() == a@.subrange(i as int + 1, n as int));
            assert(b@.subrange(i as int, m as int).drop_first() == b@.subrange(i as int + 1, m as int));
        }
        if (x as u32) < (y as u32) {
            return true;
        }
        if (x as u32) > (y as u32) {
            return false;
        }
        i += 1;
    }
    i == n
}

/// Whether `s` begins with `p`.
pub open spec fn starts_with(s: Seq<char>, p: Seq<char>) -> bool {
    s.len() >= p.len() && s.subrange(0, p.len() as int) == p
}

pub fn starts_with_exec(s: &str, p: &str) -> (r: bool)
    ensures
        r == starts_with(s@, p@),
{
    let n = s.unicode_len();
    let m = p.unicode_len();
    if n < m {
        return false;
    }
    let mut i: usize = 0;
    while i < m
        invariant
            n == s@.len(),
            m == p@.len(),
            m <= n,
            i <= m,
            forall|j: int| 0 <= j < i ==> s@[j] == p@[j],
        decreases m - i,
    {
        if s.get_char(i) != p.get_char(i) {
            proof {
                assert(s@.subrange(0, m as int)[i as int] != p@[i as int]);
            }
            return false;
        }
        i += 1;
    }
    proof {
        assert(s@.subrange(0, m as int) =~= p@);
    }
    true
}

pub open spec fn sorted(v: Seq<Seq<char>>) -> bool {
    forall|i: int, j: int| 0 <= i < j < v.len() ==> lex_le(#[trigger] v[i], #[trigger] v[j])
}

/// `v` in lexicographic order.
#[verifier::spinoff_prover]
pub fn sort_strings(v: Vec<String>) -> (r: Vec<String>)
    ensures
        sorted(words(r@)),
        words(r@).to_multiset() == words(v@).to_multiset(),
{
    let mut out: Vec<String> = Vec::new();
    let mut i: usize = 0;
    proof {
        assert(words(out@) =~= words(v@.subrange(0, 0)));
    }
    while i < v.len()
        invariant
            i <= v@.len(),
            sorted(words(out@)),
            words(out@).to_multiset() == words(v@.subrange(0, i as int)).to_multiset(),
        decreases v@.len() - i,
    {
        let x = v[i].clone();
        let mut k: usize = 0;
        while k < out.len() && lex_le_exec(out[k].as_str(), x.as_str())
            invariant
                k <= out@.len(),
                forall|j: int| 0 <= j < k ==> lex_le(out@[j]@, x@),
            decreases out@.len() - k,
        {
            k += 1;
        }
        let ghost before = words(out@);
        out.insert(k, x);
        proof {
            let w = words(out@);
            assert(w =~= before.insert(k as int, x@));
            broadcast use vstd::seq_lib::to_multiset_insert, vstd::seq_lib::to_multiset_build;
            assert(words(v@.subrange(0, i as int + 1)) =~= words(v@.subrange(0, i as int)).push(v@[i as int]@));
            assert(x@ == v@[i as int]@);
            assert forall|a: int, b: int| 0 <= a < b < w.len() implies lex_le(#[trigger] w[a], #[trigger] w[b]) by {
                if a < k && b < k {
                    assert(w[a] == before[a] && w[b] == before[b]);
                } else if a < k && b == k {
                    assert(w[a] == before[a]);
                } else if a < k && b > k {
                    assert(w[a] == before[a] && w[b] == before[b - 1]);
                } else if a == k {
                    assert(w[b] == before[b - 1]);
                    assert(!lex_le(before[k as int], x@));
                    lemma_lex_total(before[k as int], x@);
                    if b - 1 > k {
                        lemma_lex_trans(x@, before[k as int], before[b - 1]);
                    }
                } else {
                    assert(w[a] == before[a - 1] && w[b] == before[b - 1]);
                }
            }
        }
        i += 1;
    }
    proof {
        assert(v@.subrange(0, v@.len() as int) == v@);
    }
    out
}


/// Relies on `std::str::from_utf8`: the bytes `b[lo..hi]`, decoded when
/// they are valid UTF-8.
#[verifier::external_body]
pub fn utf8_slice(b: &[u8], lo: usize, hi: usize) -> (r: Option<String>)
    requires
        lo <= hi <= b@.len(),
    ensures
        r is Some <==> valid_utf8(b@.subrange(lo as int, hi as int)),
        r is Some ==> r.unwrap()@ == decode_utf8(b@.subrange(lo as int, hi as int)),
{
    std::str::from_utf8(&b[lo..hi]).ok().map(String::from)
}

} // verus!
