//! Character-level string helpers shared by the query builder and the
//! query-string encoder: substring replacement, joining and decimal digits.
use vstd::prelude::*;

verus! {

/// `s` with every non-overlapping occurrence of `pat`, scanned from the left,
/// replaced by `rep`.
pub open spec fn replace_spec(s: Seq<char>, pat: Seq<char>, rep: Seq<char>) -> Seq<char>
    decreases s.len(),
{
    if pat.len() == 0 || s.len() < pat.len() {
        s
    } else if s.take(pat.len() as int) == pat {
        rep + replace_spec(s.skip(pat.len() as int), pat, rep)
    } else {
        seq![s[0]] + replace_spec(s.skip(1), pat, rep)
    }
}

/// The pieces of `segs` glued together with `sep` between neighbours.
pub open spec fn join_spec(segs: Seq<Seq<char>>, sep: Seq<char>) -> Seq<char>
    decreases segs.len(),
{
    if segs.len() == 0 {
        Seq::empty()
    } else if segs.len() == 1 {
        segs[0]
    } else {
        join_spec(segs.drop_last(), sep) + sep + segs.last()
    }
}

/// The ASCII digit for a number below ten.
pub open spec fn digit_char(d: nat) -> char {
    if d == 0 { '0' }
    else if d == 1 { '1' }
    else if d == 2 { '2' }
    else if d == 3 { '3' }
    else if d == 4 { '4' }
    else if d == 5 { '5' }
    else if d == 6 { '6' }
    else if d == 7 { '7' }
    else if d == 8 { '8' }
    else { '9' }
}

/// The decimal notation of `n`, without leading zeros.
pub open spec fn decimal(n: nat) -> Seq<char>
    decreases n,
{
    if n < 10 {
        seq![digit_char(n)]
    } else {
        decimal(n / 10).push(digit_char(n % 10))
    }
}

/// The number that a string of decimal digits denotes, the last digit
/// counting ones, the one before it tens, and so on.
pub open spec fn digits_value(s: Seq<char>) -> int
    decreases s.len(),
{
    if s.len() == 0 {
        0
    } else {
        digits_value(s.drop_last()) * 10 + ((s.last() as int) - ('0' as int))
    }
}

proof fn lemma_digit_char(d: nat)
    requires
        d < 10,
    ensures
        (digit_char(d) as int) == ('0' as int) + d,
        '0' <= digit_char(d) <= '9',
{
}

/// Decimal notation is the usual one: only the digits `0` to `9`, no
/// leading zero but in `0` itself, and the digits read back as the number.
pub proof fn law_decimal_reads_back(n: nat)
    ensures
        decimal(n).len() > 0,
        forall|i: int| 0 <= i < decimal(n).len() ==> '0' <= #[trigger] decimal(n)[i] <= '9',
        decimal(n).len() > 1 ==> decimal(n)[0] != '0',
        digits_value(decimal(n)) == n,
    decreases n,
{
    if n < 10 {
        lemma_digit_char(n);
        assert(decimal(n).drop_last() =~= Seq::<char>::empty());
        assert(digits_value(Seq::<char>::empty()) == 0);
        assert(digits_value(decimal(n)) == digits_value(decimal(n).drop_last()) * 10 + ((
        decimal(n).last() as int) - ('0' as int)));
    } else {
        law_decimal_reads_back(n / 10);
        lemma_digit_char(n % 10);
        let d = decimal(n / 10);
        assert(decimal(n) == d.push(digit_char(n % 10)));
        assert(decimal(n).drop_last() =~= d);
        assert(decimal(n)[0] == d[0]);
        if d.len() == 1 {
            assert(n / 10 < 10) by {
                if n / 10 >= 10 {
                    assert(decimal(n / 10) == decimal(n / 100).push(digit_char((n / 10) % 10)));
                }
            }
            lemma_digit_char(n / 10);
        }
        assert forall|i: int| 0 <= i < decimal(n).len() implies '0' <= #[trigger] decimal(n)[i]
            <= '9' by {
            if i < d.len() {
                assert(decimal(n)[i] == d[i]);
            }
        }
        assert(digits_value(decimal(n)) == digits_value(d) * 10 + ((n % 10) as int));
        assert((n / 10) * 10 + n % 10 == n);
    }
}

/// Appends one character to a string (`String::push`).
#[verifier::external_body]
pub(crate) fn push_char(s: &mut String, c: char)
    ensures
        final(s)@ == old(s)@.push(c),
{
    s.push(c);
}

/// The characters of `s`, in order.
pub fn chars_of(s: &str) -> (v: Vec<char>)
    ensures
        v@ == s@,
{
    let n = s.unicode_len();
    let mut v: Vec<char> = Vec::new();
    for i in 0..n
        invariant
            n == s@.len(),
            v@ == s@.take(i as int),
    {
        let c = s.get_char(i);
        v.push(c);
        assert(s@.take(i + 1) == s@.take(i as int).push(c));
    }
    assert(s@.take(n as int) == s@);
    v
}

/// A string made of the characters of `v`.
pub fn string_of(v: &Vec<char>) -> (s: String)
    ensures
        s@ == v@,
{
    let mut s = String::new();
    for i in 0..v.len()
        invariant
            s@ == v@.take(i as int),
    {
        push_char(&mut s, v[i]);
        assert(v@.take(i + 1) == v@.take(i as int).push(v@[i as int]));
    }
    assert(v@.take(v@.len() as int) == v@);
    s
}

/// Whether `pat` occurs in `s` at position `at`.
fn matches_at(s: &Vec<char>, pat: &Vec<char>, at: usize) -> (b: bool)
    requires
        at + pat@.len() <= s@.len(),
    ensures
        b == (s@.subrange(at as int, at + pat@.len()) == pat@),
{
    let mut k: usize = 0;
    let sl = s.len();
    while k < pat.len()
        invariant
            sl == s@.len(),
            at + pat@.len() <= s@.len(),
            k <= pat@.len(),
            forall|j: int| 0 <= j < k ==> s@[at + j] == pat@[j],
        decreases pat@.len() - k,
    {
        if s[at + k] != pat[k] {
            assert(s@.subrange(at as int, at + pat@.len())[k as int] != pat@[k as int]);
            return false;
        }
        k = k + 1;
    }
    assert(s@.subrange(at as int, at + pat@.len()) =~= pat@);
    true
}

proof fn lemma_replace_unfold(s: Seq<char>, pat: Seq<char>, rep: Seq<char>, i: int)
    requires
        pat.len() > 0,
        0 <= i <= s.len(),
    ensures
        s.len() - i < pat.len() ==> replace_spec(s.skip(i), pat, rep) == s.skip(i),
        s.len() - i >= pat.len() && s.subrange(i, i + pat.len()) == pat ==> replace_spec(
            s.skip(i),
            pat,
            rep,
        ) == rep + replace_spec(s.skip(i + pat.len()), pat, rep),
        s.len() - i >= pat.len() && s.subrange(i, i + pat.len()) != pat ==> replace_spec(
            s.skip(i),
            pat,
            rep,
        ) == seq![s[i]] + replace_spec(s.skip(i + 1), pat, rep),
{
    let t = s.skip(i);
    if t.len() >= pat.len() {
        assert(t.take(pat.len() as int) == s.subrange(i, i + pat.len()));
        assert(t.skip(pat.len() as int) == s.skip(i + pat.len()));
        assert(t.skip(1) == s.skip(i + 1));
        assert(t[0] == s[i]);
    }
}

/// `s` with every occurrence of the non-empty `pat` replaced by `rep`,
/// as `str::replace` does.
pub fn replace(s: &str, pat: &str, rep: &str) -> (r: String)
    requires
        pat@.len() > 0,
    ensures
        r@ == replace_spec(s@, pat@, rep@),
{
    let sv = chars_of(s);
    let pv = chars_of(pat);
    let rv = chars_of(rep);
    let n = sv.len();
    let m = pv.len();
    let mut out: Vec<char> = Vec::new();
    let mut i: usize = 0;
    proof {
        assert(s@.skip(0) == s@);
    }
    while i < n
        invariant
            sv@ == s@,
            pv@ == pat@,
            rv@ == rep@,
            n == s@.len(),
            m == pat@.len(),
            m > 0,
            i <= n,
            out@ + replace_spec(s@.skip(i as int), pat@, rep@) == replace_spec(s@, pat@, rep@),
        decreases n - i,
    {
        proof {
            lemma_replace_unfold(s@, pat@, rep@, i as int);
        }
        if n - i >= m && matches_at(&sv, &pv, i) {
            let ghost old_out = out@;
            let rl = rv.len();
            for k in 0..rl
                invariant
                    rv@ == rep@,
                    rl == rep@.len(),
                    out@ == old_out + rep@.take(k as int),
            {
                out.push(rv[k]);
                assert(rep@.take(k + 1) == rep@.take(k as int).push(rep@[k as int]));
            }
            proof {
                assert(rep@.take(rl as int) == rep@);
                assert(old_out + (rep@ + replace_spec(s@.skip(i + m), pat@, rep@)) == out@
                    + replace_spec(s@.skip(i + m), pat@, rep@));
            }
            i = i + m;
        } else {
            let ghost old_out = out@;
            out.push(sv[i]);
            proof {
                if n - i >= m {
                    assert(old_out + (seq![s@[i as int]] + replace_spec(s@.skip(i + 1), pat@, rep@))
                        == out@ + replace_spec(s@.skip(i + 1), pat@, rep@));
                } else {
                    lemma_replace_unfold(s@, pat@, rep@, i + 1);
                    assert(s@.skip(i as int) == seq![s@[i as int]] + s@.skip(i + 1));
                }
            }
            i = i + 1;
        }
    }
    proof {
        assert(s@.skip(n as int) == Seq::<char>::empty());
        assert(out@ + Seq::<char>::empty() == out@);
    }
    string_of(&out)
}

/// `segs` glued together with `sep`, as `[&str]::join` does.
pub fn join(segs: &Vec<String>, sep: &str) -> (r: String)
    ensures
        r@ == join_spec(segs@.map_values(|x: String| x@), sep@),
{
    let ghost views = segs@.map_values(|x: String| x@);
    let mut r = String::new();
    for i in 0..segs.len()
        invariant
            views == segs@.map_values(|x: String| x@),
            r@ == join_spec(views.take(i as int), sep@),
    {
        proof {
            assert(views.take(i + 1).drop_last() == views.take(i as int));
            assert(views.take(i + 1).last() == segs@[i as int]@);
        }
        if i > 0 {
            r.append(sep);
        }
        r.append(segs[i].as_str());
    }
    assert(views.take(segs@.len() as int) == views);
    r
}

/// The ASCII digit for `d`.
fn digit(d: u32) -> (c: char)
    requires
        d < 10,
    ensures
        c == digit_char(d as nat),
        (c as int) == ('0' as int) + d,
{
    proof {
        lemma_digit_char(d as nat);
    }
    if d == 0 { '0' }
    else if d == 1 { '1' }
    else if d == 2 { '2' }
    else if d == 3 { '3' }
    else if d == 4 { '4' }
    else if d == 5 { '5' }
    else if d == 6 { '6' }
    else if d == 7 { '7' }
    else if d == 8 { '8' }
    else { '9' }
}

/// The decimal notation of `n`, as `u32::to_string` gives it.
pub fn decimal_string(n: u32) -> (r: String)
    ensures
        r@ == decimal(n as nat),
    decreases n,
{
    if n < 10 {
        let mut r = String::new();
        push_char(&mut r, digit(n));
        assert(r@ == seq![digit_char(n as nat)]);
        r
    } else {
        let mut r = decimal_string(n / 10);
        push_char(&mut r, digit(n % 10));
        r
    }
}

/// Whether two strings hold the same characters.
pub fn eq_str(a: &str, b: &str) -> (r: bool)
    ensures
        r == (a@ == b@),
{
    let av = chars_of(a);
    let bv = chars_of(b);
    if av.len() != bv.len() {
        return false;
    }
    let n = av.len();
    for i in 0..n
        invariant
            av@ == a@,
            bv@ == b@,
            n == a@.len(),
            n == b@.len(),
            forall|j: int| 0 <= j < i ==> a@[j] == b@[j],
    {
        if av[i] != bv[i] {
            return false;
        }
    }
    assert(a@ =~= b@);
    true
}

} // verus!
