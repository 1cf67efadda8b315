//! The query string of a listing leaves out the parameters at their default
//! values.
use vstd::prelude::*;

use crate::db::models::{DbQueryField, DbQuerySortDirection};
use crate::text::{decimal, digit_char, join_spec, replace_spec};
use crate::web::queries::{
    clean_query, encodes_listing, form_char, form_encodes, form_encodes_pairs, form_word,
    joined_pairs, kept_pairs, number_pair, plain, plain_texts, query_pairs, text_pair, ListingView,
};

verus! {

/// Some position from `i` on in `t` differs from `p`, before `t` ends.
pub open spec fn clashes(t: Seq<char>, p: Seq<char>, i: int) -> bool {
    exists|k: int| #![trigger p[k]] 0 <= k < p.len() && i + k < t.len() && t[i + k] != p[k]
}

/// No occurrence of `p` starts inside `t`, whatever follows `t`.
pub open spec fn incompatible(t: Seq<char>, p: Seq<char>) -> bool {
    forall|i: int| 0 <= i < t.len() ==> #[trigger] clashes(t, p, i)
}

/// The strings glued together, first to last.
pub open spec fn concat(s: Seq<Seq<char>>) -> Seq<char>
    decreases s.len(),
{
    if s.len() == 0 {
        Seq::empty()
    } else {
        s[0] + concat(s.drop_first())
    }
}

/// The strings other than `p`, in order.
pub open spec fn remove_all(s: Seq<Seq<char>>, p: Seq<char>) -> Seq<Seq<char>>
    decreases s.len(),
{
    if s.len() == 0 {
        Seq::empty()
    } else {
        (if s[0] == p {
            Seq::empty()
        } else {
            seq![s[0]]
        }) + remove_all(s.drop_first(), p)
    }
}

/// A pair as it is written first in a query string.
pub open spec fn bare(x: (Seq<char>, Seq<char>)) -> Seq<char> {
    x.0 + "="@ + x.1
}

/// A pair as it is written after another in a query string.
pub open spec fn amp(x: (Seq<char>, Seq<char>)) -> Seq<char> {
    "&"@ + x.0 + "="@ + x.1
}

proof fn lemma_prefix_pass(x: Seq<char>, y: Seq<char>, p: Seq<char>, r: Seq<char>)
    requires
        p.len() > 0,
        incompatible(x, p),
    ensures
        replace_spec(x + y, p, r) == x + replace_spec(y, p, r),
    decreases x.len(),
{
    if x.len() == 0 {
        assert(x + y == y);
    } else {
        let s = x + y;
        assert(clashes(x, p, 0));
        let k = choose|k: int| #![trigger p[k]] 0 <= k < p.len() && 0 + k < x.len() && x[0 + k] != p[k];
        if s.len() < p.len() {
            assert(y.len() < p.len());
        } else {
            assert(s.take(p.len() as int)[k] != p[k]);
            assert(s.take(p.len() as int) != p);
            assert(incompatible(x.skip(1), p)) by {
                assert forall|i: int| 0 <= i < x.skip(1).len() implies #[trigger] clashes(
                    x.skip(1),
                    p,
                    i,
                ) by {
                    assert(clashes(x, p, i + 1));
                    let k2 = choose|k2: int|
                        #![trigger p[k2]]
                        0 <= k2 < p.len() && i + 1 + k2 < x.len() && x[i + 1 + k2] != p[k2];
                    assert(x.skip(1)[i + k2] == x[i + 1 + k2]);
                }
            }
            lemma_prefix_pass(x.skip(1), y, p, r);
            assert(s.skip(1) == x.skip(1) + y);
            assert(x == seq![x[0]] + x.skip(1));
            assert(s[0] == x[0]);
        }
    }
}

proof fn lemma_match_front(p: Seq<char>, y: Seq<char>, r: Seq<char>)
    requires
        p.len() > 0,
    ensures
        replace_spec(p + y, p, r) == r + replace_spec(y, p, r),
{
    assert((p + y).take(p.len() as int) == p);
    assert((p + y).skip(p.len() as int) == y);
}

proof fn lemma_replace_tokens(toks: Seq<Seq<char>>, p: Seq<char>)
    requires
        p.len() > 0,
        forall|j: int| 0 <= j < toks.len() ==> toks[j] == p || incompatible(#[trigger] toks[j], p),
    ensures
        replace_spec(concat(toks), p, Seq::empty()) == concat(remove_all(toks, p)),
    decreases toks.len(),
{
    if toks.len() > 0 {
        let rest = toks.drop_first();
        assert forall|j: int| 0 <= j < rest.len() implies rest[j] == p || incompatible(
            #[trigger] rest[j],
            p,
        ) by {
            assert(rest[j] == toks[j + 1]);
        }
        lemma_replace_tokens(rest, p);
        lemma_concat_front_all(remove_all(rest, p));
        if toks[0] == p {
            lemma_match_front(p, concat(rest), Seq::empty());
            assert(Seq::<Seq<char>>::empty() + remove_all(rest, p) == remove_all(rest, p));
            assert(Seq::<char>::empty() + replace_spec(concat(rest), p, Seq::empty())
                == replace_spec(concat(rest), p, Seq::empty()));
        } else {
            assert(incompatible(toks[0], p));
            lemma_prefix_pass(toks[0], concat(rest), p, Seq::empty());
            let kept = seq![toks[0]] + remove_all(rest, p);
            assert(kept[0] == toks[0]);
            assert(kept.drop_first() == remove_all(rest, p));
        }
    }
}

/// The front rule of `concat`, stated for use.
proof fn lemma_concat_front_all(s: Seq<Seq<char>>)
    ensures
        s.len() > 0 ==> concat(s) == s[0] + concat(s.drop_first()),
{
}

proof fn lemma_concat_push(s: Seq<Seq<char>>, t: Seq<char>)
    ensures
        concat(s.push(t)) == concat(s) + t,
    decreases s.len(),
{
    if s.len() == 0 {
        assert(s.push(t).drop_first() == Seq::<Seq<char>>::empty());
        assert(concat(Seq::<Seq<char>>::empty()) == Seq::<char>::empty());
        assert(s.push(t)[0] == t);
        assert(concat(s.push(t)) == t + Seq::<char>::empty());
        assert(t + Seq::<char>::empty() == t);
        assert(Seq::<char>::empty() + t == t);
    } else {
        assert(s.push(t).drop_first() == s.drop_first().push(t));
        lemma_concat_push(s.drop_first(), t);
        assert(s.push(t)[0] == s[0]);
    }
}

proof fn lemma_remove_all_none(s: Seq<Seq<char>>, p: Seq<char>)
    requires
        forall|j: int| 0 <= j < s.len() ==> #[trigger] s[j] != p,
    ensures
        remove_all(s, p) == s,
    decreases s.len(),
{
    if s.len() > 0 {
        lemma_remove_all_none(s.drop_first(), p);
        assert(s == seq![s[0]] + s.drop_first());
    }
}

proof fn lemma_joined_front(ps: Seq<(Seq<char>, Seq<char>)>)
    requires
        ps.len() > 0,
    ensures
        joined_pairs(ps) == bare(ps[0]) + concat(ps.drop_first().map_values(|x| amp(x))),
    decreases ps.len(),
{
    reveal_strlit("&");
    let segs = ps.map_values(|x: (Seq<char>, Seq<char>)| x.0 + "="@ + x.1);
    if ps.len() == 1 {
        assert(ps.drop_first().map_values(|x| amp(x)) == Seq::<Seq<char>>::empty());
        assert(bare(ps[0]) + Seq::<char>::empty() == bare(ps[0]));
    } else {
        let init = ps.drop_last();
        lemma_joined_front(init);
        assert(segs.drop_last() == init.map_values(|x: (Seq<char>, Seq<char>)| x.0 + "="@ + x.1));
        let tail = ps.drop_first().map_values(|x| amp(x));
        assert(init.drop_first().map_values(|x| amp(x)) == tail.drop_last());
        assert(tail == tail.drop_last().push(amp(ps.last())));
        lemma_concat_push(tail.drop_last(), amp(ps.last()));
        assert(amp(ps.last()) == "&"@ + segs.last());
    }
}

/// Characters that never open or continue a match of the patterns that
/// the query string drops: no `&`, and no `l` followed by `i`.
pub open spec fn word_ok(w: Seq<char>) -> bool {
    &&& forall|i: int| 0 <= i < w.len() ==> #[trigger] w[i] != '&'
    &&& forall|i: int|
        0 <= i < w.len() && #[trigger] w[i] == 'l' ==> i + 1 < w.len() && w[i + 1] != 'i'
}

proof fn lemma_decimal_digits(n: nat)
    ensures
        decimal(n).len() > 0,
        forall|i: int| 0 <= i < decimal(n).len() ==> '0' <= #[trigger] decimal(n)[i] <= '9',
        (decimal(n)[0] == '0') == (n == 0),
    decreases n,
{
    if n >= 10 {
        lemma_decimal_digits(n / 10);
        let d = decimal(n / 10);
        assert(decimal(n) == d.push(digit_char(n % 10)));
        assert forall|i: int| 0 <= i < decimal(n).len() implies '0' <= #[trigger] decimal(n)[i]
            <= '9' by {
            if i < d.len() {
                assert(decimal(n)[i] == d[i]);
            }
        }
    }
}

proof fn lemma_decimal_word(n: nat)
    ensures
        word_ok(decimal(n)),
{
    lemma_decimal_digits(n);
}

proof fn lemma_amp_token(n: Seq<char>, v: Seq<char>)
    requires
        word_ok(n),
        word_ok(v),
        n.len() > 0,
        v.len() > 0,
    ensures
        amp((n, v))[0] == '&',
        forall|i: int| 1 <= i < amp((n, v)).len() ==> #[trigger] amp((n, v))[i] != '&',
        forall|i: int|
            0 <= i < amp((n, v)).len() && #[trigger] amp((n, v))[i] == 'l' ==> i + 1 < amp(
                (n, v),
            ).len() && amp((n, v))[i + 1] != 'i',
        amp((n, v)).len() == n.len() + v.len() + 2,
        forall|i: int| 0 <= i < n.len() ==> amp((n, v))[1 + i] == #[trigger] n[i],
        amp((n, v))[n.len() + 1int] == '=',
        forall|i: int| 0 <= i < v.len() ==> amp((n, v))[n.len() + 2 + i] == #[trigger] v[i],
{
    reveal_strlit("&");
    reveal_strlit("=");
    let t = amp((n, v));
    assert(t == seq!['&'] + n + seq!['='] + v);
    assert forall|i: int| 0 <= i < t.len() && #[trigger] t[i] == 'l' implies i + 1 < t.len()
        && t[i + 1] != 'i' by {
        if 1 <= i < 1 + n.len() {
            assert(t[i] == n[i - 1]);
            if i - 1 + 1 < n.len() {
                assert(t[i + 1] == n[i]);
            }
        } else if i >= n.len() + 2 {
            assert(t[i] == v[i - n.len() - 2]);
            if i - n.len() - 2 + 1 < v.len() {
                assert(t[i + 1] == v[i - n.len() - 1]);
            }
        }
    }
    assert forall|i: int| 1 <= i < t.len() implies #[trigger] t[i] != '&' by {
        if 1 <= i < 1 + n.len() {
            assert(t[i] == n[i - 1]);
        } else if i >= n.len() + 2 {
            assert(t[i] == v[i - n.len() - 2]);
        }
    }
}

proof fn lemma_amp_incompatible(t: Seq<char>, p: Seq<char>, k0: int)
    requires
        t.len() > 0,
        t[0] == '&',
        p.len() > 0,
        p[0] == '&',
        forall|i: int| 1 <= i < t.len() ==> #[trigger] t[i] != '&',
        0 <= k0 < p.len(),
        k0 < t.len(),
        t[k0] != p[k0],
    ensures
        incompatible(t, p),
{
    assert forall|i: int| 0 <= i < t.len() implies #[trigger] clashes(t, p, i) by {
        if i == 0 {
            assert(0 + k0 < t.len() && t[0 + k0] != p[k0]);
        } else {
            assert(i + 0 < t.len() && t[i + 0] != p[0]);
        }
    }
}

proof fn lemma_limit_incompatible(t: Seq<char>, p: Seq<char>)
    requires
        t.len() > 0,
        p.len() > 1,
        p[0] == 'l',
        p[1] == 'i',
        t[0] != 'l',
        forall|i: int|
            0 <= i < t.len() && #[trigger] t[i] == 'l' ==> i + 1 < t.len() && t[i + 1] != 'i',
    ensures
        incompatible(t, p),
{
    assert forall|i: int| 0 <= i < t.len() implies #[trigger] clashes(t, p, i) by {
        if t[i] == 'l' {
            assert(i + 1 < t.len() && t[i + 1] != p[1]);
        } else {
            assert(i + 0 < t.len() && t[i + 0] != p[0]);
        }
    }
}

proof fn lemma_no_amp_incompatible(t: Seq<char>, p: Seq<char>)
    requires
        p.len() > 0,
        p[0] == '&',
        forall|i: int| 0 <= i < t.len() ==> #[trigger] t[i] != '&',
    ensures
        incompatible(t, p),
{
    assert forall|i: int| 0 <= i < t.len() implies #[trigger] clashes(t, p, i) by {
        assert(i + 0 < t.len() && t[i + 0] != p[0]);
    }
}

proof fn lemma_incompatible_differs(t: Seq<char>, p: Seq<char>)
    requires
        t.len() > 0,
        incompatible(t, p),
    ensures
        t != p,
{
    assert(clashes(t, p, 0));
}

/// A string that is either `p` itself or never holds a match of `p`.
pub open spec fn settled(t: Seq<char>, p: Seq<char>) -> bool {
    t == p || incompatible(t, p)
}

proof fn lemma_words()
    ensures
        word_ok("page"@),
        word_ok("sort_by"@),
        word_ok("sort_direction"@),
        word_ok("players"@),
        word_ok("min_playtime"@),
        word_ok("max_playtime"@),
        word_ok("title"@),
        word_ok("min_players"@),
        word_ok("max_players"@),
        word_ok("genre"@),
        word_ok("available"@),
        word_ok("asc"@),
        word_ok("desc"@),
{
    reveal_strlit("page");
    reveal_strlit("sort_by");
    reveal_strlit("sort_direction");
    reveal_strlit("players");
    reveal_strlit("min_playtime");
    reveal_strlit("max_playtime");
    reveal_strlit("title");
    reveal_strlit("min_players");
    reveal_strlit("max_players");
    reveal_strlit("genre");
    reveal_strlit("available");
    reveal_strlit("asc");
    reveal_strlit("desc");
}

proof fn lemma_name_words(f: DbQueryField, d: DbQuerySortDirection)
    ensures
        word_ok(f.name()),
        f.name().len() > 0,
        word_ok(d.name()),
        d.name().len() > 0,
{
    lemma_words();
    reveal_strlit("title");
    reveal_strlit("min_players");
    reveal_strlit("max_players");
    reveal_strlit("min_playtime");
    reveal_strlit("max_playtime");
    reveal_strlit("genre");
    reveal_strlit("available");
    reveal_strlit("asc");
    reveal_strlit("desc");
}

proof fn lemma_amp_vs(n: Seq<char>, v: Seq<char>, p: Seq<char>, k0: int)
    requires
        word_ok(n),
        word_ok(v),
        n.len() > 0,
        v.len() > 0,
        p.len() > k0 >= 0,
        p[0] == '&',
        k0 < amp((n, v)).len(),
        amp((n, v))[k0] != p[k0],
    ensures
        incompatible(amp((n, v)), p),
        amp((n, v)) != p,
{
    lemma_amp_token(n, v);
    lemma_amp_incompatible(amp((n, v)), p, k0);
    lemma_incompatible_differs(amp((n, v)), p);
}

proof fn lemma_amp_vs_limit(n: Seq<char>, v: Seq<char>)
    requires
        word_ok(n),
        word_ok(v),
        n.len() > 0,
        v.len() > 0,
    ensures
        incompatible(amp((n, v)), "limit=0"@),
        amp((n, v)) != "limit=0"@,
{
    reveal_strlit("limit=0");
    lemma_amp_token(n, v);
    lemma_limit_incompatible(amp((n, v)), "limit=0"@);
    lemma_incompatible_differs(amp((n, v)), "limit=0"@);
}

/// A number filter's pair: its name and a non-empty value of plain characters.
pub open spec fn number_pair_ok(x: (Seq<char>, Seq<char>)) -> bool {
    &&& (x.0 == "players"@ || x.0 == "min_playtime"@ || x.0 == "max_playtime"@)
    &&& word_ok(x.1)
    &&& x.1.len() > 0
}

proof fn lemma_number_token(x: (Seq<char>, Seq<char>))
    requires
        number_pair_ok(x),
    ensures
        incompatible(amp(x), "&sort_direction=asc"@),
        incompatible(amp(x), "&sort_by=title"@),
        incompatible(amp(x), "&page=0"@),
        incompatible(amp(x), "limit=0"@),
        amp(x) != "&sort_direction=asc"@,
        amp(x) != "&sort_by=title"@,
        amp(x) != "&page=0"@,
        amp(x) != "limit=0"@,
{
    reveal_strlit("&sort_direction=asc");
    reveal_strlit("&sort_by=title");
    reveal_strlit("&page=0");
    reveal_strlit("players");
    reveal_strlit("min_playtime");
    reveal_strlit("max_playtime");
    lemma_words();
    lemma_amp_token(x.0, x.1);
    if x.0 == "players"@ {
        lemma_amp_vs(x.0, x.1, "&sort_direction=asc"@, 1);
        lemma_amp_vs(x.0, x.1, "&sort_by=title"@, 1);
        lemma_amp_vs(x.0, x.1, "&page=0"@, 2);
    } else {
        lemma_amp_vs(x.0, x.1, "&sort_direction=asc"@, 1);
        lemma_amp_vs(x.0, x.1, "&sort_by=title"@, 1);
        lemma_amp_vs(x.0, x.1, "&page=0"@, 1);
    }
    lemma_amp_vs_limit(x.0, x.1);
}

proof fn lemma_number_pairs_ok(q: ListingView)
    ensures
        forall|j: int|
            0 <= j < (number_pair("players"@, q.players) + number_pair(
                "min_playtime"@,
                q.min_playtime,
            ) + number_pair("max_playtime"@, q.max_playtime)).len() ==> number_pair_ok(
                #[trigger] (number_pair("players"@, q.players) + number_pair(
                    "min_playtime"@,
                    q.min_playtime,
                ) + number_pair("max_playtime"@, q.max_playtime))[j],
            ),
{
    lemma_words();
    if let Some(n) = q.players {
        lemma_decimal_word(n as nat);
        lemma_decimal_digits(n as nat);
    }
    if let Some(n) = q.min_playtime {
        lemma_decimal_word(n as nat);
        lemma_decimal_digits(n as nat);
    }
    if let Some(n) = q.max_playtime {
        lemma_decimal_word(n as nat);
        lemma_decimal_digits(n as nat);
    }
}

/// `replace_spec` on a string that starts with a token settled for `p`.
proof fn lemma_replace_token(t: Seq<char>, rest: Seq<char>, p: Seq<char>)
    requires
        p.len() > 0,
        settled(t, p),
    ensures
        t == p ==> replace_spec(t + rest, p, Seq::empty()) == replace_spec(rest, p, Seq::empty()),
        t != p ==> replace_spec(t + rest, p, Seq::empty()) == t + replace_spec(
            rest,
            p,
            Seq::empty(),
        ),
{
    if t == p {
        lemma_match_front(p, rest, Seq::empty());
        assert(Seq::<char>::empty() + replace_spec(rest, p, Seq::empty()) == replace_spec(
            rest,
            p,
            Seq::empty(),
        ));
    } else {
        lemma_prefix_pass(t, rest, p, Seq::empty());
    }
}

proof fn lemma_limit_token(l: nat)
    ensures
        incompatible(bare(("limit"@, decimal(l))), "&sort_direction=asc"@),
        incompatible(bare(("limit"@, decimal(l))), "&sort_by=title"@),
        incompatible(bare(("limit"@, decimal(l))), "&page=0"@),
        bare(("limit"@, decimal(l))) != "&sort_direction=asc"@,
        bare(("limit"@, decimal(l))) != "&sort_by=title"@,
        bare(("limit"@, decimal(l))) != "&page=0"@,
        l == 0 ==> bare(("limit"@, decimal(l))) == "limit=0"@,
        l != 0 ==> incompatible(bare(("limit"@, decimal(l))), "limit=0"@),
        l != 0 ==> bare(("limit"@, decimal(l))) != "limit=0"@,
        bare(("limit"@, decimal(l)))[0] == 'l',
        forall|i: int| 0 <= i < bare(("limit"@, decimal(l))).len() ==> #[trigger] bare(
            ("limit"@, decimal(l)),
        )[i] != '&',
{
    reveal_strlit("&sort_direction=asc");
    reveal_strlit("&sort_by=title");
    reveal_strlit("&page=0");
    reveal_strlit("limit=0");
    reveal_strlit("limit");
    reveal_strlit("=");
    lemma_decimal_digits(l);
    let d = decimal(l);
    let t = bare(("limit"@, d));
    assert(t == seq!['l', 'i', 'm', 'i', 't', '='] + d);
    assert forall|i: int| 0 <= i < t.len() implies #[trigger] t[i] != '&' by {
        if i >= 6 {
            assert(t[i] == d[i - 6]);
        }
    }
    lemma_no_amp_incompatible(t, "&sort_direction=asc"@);
    lemma_no_amp_incompatible(t, "&sort_by=title"@);
    lemma_no_amp_incompatible(t, "&page=0"@);
    lemma_incompatible_differs(t, "&sort_direction=asc"@);
    lemma_incompatible_differs(t, "&sort_by=title"@);
    lemma_incompatible_differs(t, "&page=0"@);
    if l == 0 {
        assert(d == seq!['0']);
        assert(t =~= "limit=0"@);
    } else {
        let p = "limit=0"@;
        assert forall|i: int| 0 <= i < t.len() implies #[trigger] clashes(t, p, i) by {
            if i == 0 {
                assert(0int + 6 < t.len() && t[0int + 6] != p[6]);
            } else if i < 6 {
                assert(i + 0 < t.len() && t[i + 0] != p[0]);
            } else {
                assert(t[i] == d[i - 6]);
                assert(i + 0 < t.len() && t[i + 0] != p[0]);
            }
        }
        lemma_incompatible_differs(t, p);
    }
}

proof fn lemma_page_token(pg: nat)
    ensures
        incompatible(amp(("page"@, decimal(pg))), "&sort_direction=asc"@),
        incompatible(amp(("page"@, decimal(pg))), "&sort_by=title"@),
        incompatible(amp(("page"@, decimal(pg))), "limit=0"@),
        amp(("page"@, decimal(pg))) != "&sort_direction=asc"@,
        amp(("page"@, decimal(pg))) != "&sort_by=title"@,
        amp(("page"@, decimal(pg))) != "limit=0"@,
        pg == 0 ==> amp(("page"@, decimal(pg))) == "&page=0"@,
        pg != 0 ==> incompatible(amp(("page"@, decimal(pg))), "&page=0"@),
        pg != 0 ==> amp(("page"@, decimal(pg))) != "&page=0"@,
{
    reveal_strlit("&sort_direction=asc");
    reveal_strlit("&sort_by=title");
    reveal_strlit("&page=0");
    reveal_strlit("page");
    reveal_strlit("&");
    reveal_strlit("=");
    lemma_words();
    lemma_decimal_digits(pg);
    lemma_decimal_word(pg);
    let d = decimal(pg);
    lemma_amp_token("page"@, d);
    lemma_amp_vs("page"@, d, "&sort_direction=asc"@, 1);
    lemma_amp_vs("page"@, d, "&sort_by=title"@, 1);
    lemma_amp_vs_limit("page"@, d);
    if pg == 0 {
        assert(d == seq!['0']);
        assert(amp(("page"@, d)) =~= "&page=0"@);
    } else {
        lemma_amp_vs("page"@, d, "&page=0"@, 6);
    }
}

proof fn lemma_sort_token(f: DbQueryField)
    ensures
        incompatible(amp(("sort_by"@, f.name())), "&sort_direction=asc"@),
        incompatible(amp(("sort_by"@, f.name())), "&page=0"@),
        incompatible(amp(("sort_by"@, f.name())), "limit=0"@),
        amp(("sort_by"@, f.name())) != "&sort_direction=asc"@,
        amp(("sort_by"@, f.name())) != "&page=0"@,
        amp(("sort_by"@, f.name())) != "limit=0"@,
        f == DbQueryField::Title ==> amp(("sort_by"@, f.name())) == "&sort_by=title"@,
        f != DbQueryField::Title ==> incompatible(amp(("sort_by"@, f.name())), "&sort_by=title"@),
        f != DbQueryField::Title ==> amp(("sort_by"@, f.name())) != "&sort_by=title"@,
{
    reveal_strlit("&sort_direction=asc");
    reveal_strlit("&sort_by=title");
    reveal_strlit("&page=0");
    reveal_strlit("sort_by");
    reveal_strlit("&");
    reveal_strlit("=");
    reveal_strlit("title");
    reveal_strlit("min_players");
    reveal_strlit("max_players");
    reveal_strlit("min_playtime");
    reveal_strlit("max_playtime");
    reveal_strlit("genre");
    reveal_strlit("available");
    lemma_words();
    let v = f.name();
    lemma_amp_token("sort_by"@, v);
    lemma_amp_vs("sort_by"@, v, "&sort_direction=asc"@, 6);
    lemma_amp_vs("sort_by"@, v, "&page=0"@, 1);
    lemma_amp_vs_limit("sort_by"@, v);
    if f == DbQueryField::Title {
        assert(amp(("sort_by"@, v)) =~= "&sort_by=title"@);
    } else {
        lemma_amp_vs("sort_by"@, v, "&sort_by=title"@, 9);
    }
}

proof fn lemma_direction_token(d: DbQuerySortDirection)
    ensures
        incompatible(amp(("sort_direction"@, d.name())), "&sort_by=title"@),
        incompatible(amp(("sort_direction"@, d.name())), "&page=0"@),
        incompatible(amp(("sort_direction"@, d.name())), "limit=0"@),
        amp(("sort_direction"@, d.name())) != "&sort_by=title"@,
        amp(("sort_direction"@, d.name())) != "&page=0"@,
        amp(("sort_direction"@, d.name())) != "limit=0"@,
        d == DbQuerySortDirection::ASC ==> amp(("sort_direction"@, d.name()))
            == "&sort_direction=asc"@,
        d != DbQuerySortDirection::ASC ==> incompatible(
            amp(("sort_direction"@, d.name())),
            "&sort_direction=asc"@,
        ),
        d != DbQuerySortDirection::ASC ==> amp(("sort_direction"@, d.name()))
            != "&sort_direction=asc"@,
{
    reveal_strlit("&sort_direction=asc");
    reveal_strlit("&sort_by=title");
    reveal_strlit("&page=0");
    reveal_strlit("sort_direction");
    reveal_strlit("&");
    reveal_strlit("=");
    reveal_strlit("asc");
    reveal_strlit("desc");
    lemma_words();
    let v = d.name();
    lemma_amp_token("sort_direction"@, v);
    lemma_amp_vs("sort_direction"@, v, "&sort_by=title"@, 6);
    lemma_amp_vs("sort_direction"@, v, "&page=0"@, 1);
    lemma_amp_vs_limit("sort_direction"@, v);
    if d == DbQuerySortDirection::ASC {
        assert(amp(("sort_direction"@, v)) =~= "&sort_direction=asc"@);
    } else {
        lemma_amp_vs("sort_direction"@, v, "&sort_direction=asc"@, 16);
    }
}

/// `t` when `b` holds, else nothing.
pub open spec fn opt(b: bool, t: Seq<char>) -> Seq<char> {
    if b {
        t
    } else {
        Seq::empty()
    }
}

/// A pair when `b` holds, else none.
pub open spec fn opt_pair(b: bool, x: (Seq<char>, Seq<char>)) -> Seq<(Seq<char>, Seq<char>)> {
    if b {
        seq![x]
    } else {
        Seq::empty()
    }
}

proof fn lemma_keep_opt(b: bool, t: Seq<char>, rest: Seq<char>, p: Seq<char>)
    requires
        p.len() > 0,
        t.len() > 0,
        incompatible(t, p),
        replace_spec(rest, p, Seq::empty()) == rest,
    ensures
        replace_spec(opt(b, t) + rest, p, Seq::empty()) == opt(b, t) + rest,
{
    if b {
        lemma_incompatible_differs(t, p);
        lemma_replace_token(t, rest, p);
    } else {
        assert(opt(b, t) + rest == rest);
    }
}

proof fn lemma_drop_match(t: Seq<char>, rest: Seq<char>, p: Seq<char>)
    requires
        p.len() > 0,
        t.len() > 0,
        settled(t, p),
        replace_spec(rest, p, Seq::empty()) == rest,
    ensures
        replace_spec(t + rest, p, Seq::empty()) == opt(t != p, t) + rest,
{
    lemma_replace_token(t, rest, p);
    if t == p {
        assert(opt(t != p, t) + rest == rest);
    }
}

proof fn lemma_concat_opt_pairs(b: bool, x: (Seq<char>, Seq<char>), rest: Seq<(Seq<char>, Seq<char>)>)
    ensures
        concat((opt_pair(b, x) + rest).map_values(|y| amp(y))) == opt(b, amp(x)) + concat(
            rest.map_values(|y| amp(y)),
        ),
{
    let m = (opt_pair(b, x) + rest).map_values(|y| amp(y));
    if b {
        assert(m.len() > 0);
        assert(m[0] == amp(x));
        assert(m.drop_first() == rest.map_values(|y| amp(y)));
    } else {
        assert(m == rest.map_values(|y| amp(y)));
        assert(opt(b, amp(x)) + concat(rest.map_values(|y| amp(y))) == concat(
            rest.map_values(|y| amp(y)),
        ));
    }
}

/// The four replacements of `clean_query` on the tokens of a listing's
/// query string: each drops the token that holds its default, if present.
proof fn lemma_drop_defaults(
    bl: Seq<char>,
    tp: Seq<char>,
    ts: Seq<char>,
    td: Seq<char>,
    c: Seq<char>,
    a: bool,
    b: bool,
    g: bool,
    h: bool,
)
    requires
        bl.len() > 0,
        tp.len() > 0,
        ts.len() > 0,
        td.len() > 0,
        incompatible(bl, "&sort_direction=asc"@),
        incompatible(bl, "&sort_by=title"@),
        incompatible(bl, "&page=0"@),
        bl != "&sort_direction=asc"@,
        bl != "&sort_by=title"@,
        bl != "&page=0"@,
        settled(bl, "limit=0"@),
        h == (bl != "limit=0"@),
        incompatible(tp, "&sort_direction=asc"@),
        incompatible(tp, "&sort_by=title"@),
        incompatible(tp, "limit=0"@),
        settled(tp, "&page=0"@),
        g == (tp != "&page=0"@),
        incompatible(ts, "&sort_direction=asc"@),
        incompatible(ts, "&page=0"@),
        incompatible(ts, "limit=0"@),
        settled(ts, "&sort_by=title"@),
        b == (ts != "&sort_by=title"@),
        incompatible(td, "&sort_by=title"@),
        incompatible(td, "&page=0"@),
        incompatible(td, "limit=0"@),
        settled(td, "&sort_direction=asc"@),
        a == (td != "&sort_direction=asc"@),
        replace_spec(c, "&sort_direction=asc"@, Seq::empty()) == c,
        replace_spec(c, "&sort_by=title"@, Seq::empty()) == c,
        replace_spec(c, "&page=0"@, Seq::empty()) == c,
        replace_spec(c, "limit=0"@, Seq::empty()) == c,
    ensures
        replace_spec(
            replace_spec(
                replace_spec(
                    replace_spec(bl + (tp + (ts + (td + c))), "&sort_direction=asc"@, Seq::empty()),
                    "&sort_by=title"@,
                    Seq::empty(),
                ),
                "&page=0"@,
                Seq::empty(),
            ),
            "limit=0"@,
            Seq::empty(),
        ) == opt(h, bl) + (opt(g, tp) + (opt(b, ts) + (opt(a, td) + c))),
{
    reveal_strlit("&sort_direction=asc");
    reveal_strlit("&sort_by=title");
    reveal_strlit("&page=0");
    reveal_strlit("limit=0");
    let p1 = "&sort_direction=asc"@;
    let p2 = "&sort_by=title"@;
    let p3 = "&page=0"@;
    let p4 = "limit=0"@;
    let e = Seq::<char>::empty();
    let x0 = bl + (tp + (ts + (td + c)));
    lemma_incompatible_differs(tp, p1);
    lemma_incompatible_differs(ts, p1);
    lemma_incompatible_differs(tp, p2);
    // dropping `&sort_direction=asc`
    lemma_drop_match(td, c, p1);
    lemma_replace_token(ts, td + c, p1);
    lemma_replace_token(tp, ts + (td + c), p1);
    lemma_replace_token(bl, tp + (ts + (td + c)), p1);
    let x1 = bl + (tp + (ts + (opt(a, td) + c)));
    assert(replace_spec(x0, p1, e) == x1);

    // dropping `&sort_by=title`
    lemma_keep_opt(a, td, c, p2);
    lemma_drop_match(ts, opt(a, td) + c, p2);
    lemma_replace_token(tp, ts + (opt(a, td) + c), p2);
    lemma_replace_token(bl, tp + (ts + (opt(a, td) + c)), p2);
    let x2 = bl + (tp + (opt(b, ts) + (opt(a, td) + c)));
    assert(replace_spec(x1, p2, e) == x2);

    // dropping `&page=0`
    lemma_keep_opt(a, td, c, p3);
    lemma_keep_opt(b, ts, opt(a, td) + c, p3);
    lemma_drop_match(tp, opt(b, ts) + (opt(a, td) + c), p3);
    lemma_replace_token(bl, tp + (opt(b, ts) + (opt(a, td) + c)), p3);
    let x3 = bl + (opt(g, tp) + (opt(b, ts) + (opt(a, td) + c)));
    assert(replace_spec(x2, p3, e) == x3);

    // dropping `limit=0`
    lemma_keep_opt(a, td, c, p4);
    lemma_keep_opt(b, ts, opt(a, td) + c, p4);
    lemma_keep_opt(g, tp, opt(b, ts) + (opt(a, td) + c), p4);
    lemma_drop_match(bl, opt(g, tp) + (opt(b, ts) + (opt(a, td) + c)), p4);
    let x4 = opt(h, bl) + (opt(g, tp) + (opt(b, ts) + (opt(a, td) + c)));
    assert(replace_spec(x3, p4, e) == x4);

}

/// Some position from `i` on in `t` differs from `p`, or `p` goes on past
/// the end of `t` with a character other than `&`.
pub open spec fn clashes_ctx(t: Seq<char>, p: Seq<char>, i: int) -> bool {
    exists|k: int|
        #![trigger p[k]]
        0 <= k < p.len() && ((i + k < t.len() && t[i + k] != p[k]) || (i + k == t.len() && p[k]
            != '&'))
}

/// No occurrence of `p` starts inside `t` when `t` is followed by nothing
/// or by a `&`.
pub open spec fn incompatible_ctx(t: Seq<char>, p: Seq<char>) -> bool {
    forall|i: int| 0 <= i < t.len() ==> #[trigger] clashes_ctx(t, p, i)
}

proof fn lemma_incompatible_ctx(t: Seq<char>, p: Seq<char>)
    requires
        incompatible(t, p),
    ensures
        incompatible_ctx(t, p),
{
    assert forall|i: int| 0 <= i < t.len() implies #[trigger] clashes_ctx(t, p, i) by {
        assert(clashes(t, p, i));
        let k = choose|k: int| #![trigger p[k]] 0 <= k < p.len() && i + k < t.len() && t[i + k] != p[k];
    }
}

proof fn lemma_prefix_pass_ctx(x: Seq<char>, y: Seq<char>, p: Seq<char>, r: Seq<char>)
    requires
        p.len() > 0,
        incompatible_ctx(x, p),
        y.len() == 0 || y[0] == '&',
    ensures
        replace_spec(x + y, p, r) == x + replace_spec(y, p, r),
    decreases x.len(),
{
    if x.len() == 0 {
        assert(x + y == y);
    } else {
        let s = x + y;
        assert(clashes_ctx(x, p, 0));
        let k = choose|k: int|
            #![trigger p[k]]
            0 <= k < p.len() && ((0 + k < x.len() && x[0 + k] != p[k]) || (0 + k == x.len() && p[k]
                != '&'));
        if s.len() < p.len() {
            assert(y.len() < p.len());
        } else {
            if k < x.len() {
                assert(s.take(p.len() as int)[k] != p[k]);
            } else {
                assert(y.len() > 0);
                assert(s[k] == y[0]);
                assert(s.take(p.len() as int)[k] != p[k]);
            }
            assert(s.take(p.len() as int) != p);
            assert(incompatible_ctx(x.skip(1), p)) by {
                assert forall|i: int| 0 <= i < x.skip(1).len() implies #[trigger] clashes_ctx(
                    x.skip(1),
                    p,
                    i,
                ) by {
                    assert(clashes_ctx(x, p, i + 1));
                    let k2 = choose|k2: int|
                        #![trigger p[k2]]
                        0 <= k2 < p.len() && ((i + 1 + k2 < x.len() && x[i + 1 + k2] != p[k2]) || (
                        i + 1 + k2 == x.len() && p[k2] != '&'));
                    if i + 1 + k2 < x.len() {
                        assert(x.skip(1)[i + k2] == x[i + 1 + k2]);
                    }
                }
            }
            lemma_prefix_pass_ctx(x.skip(1), y, p, r);
            assert(s.skip(1) == x.skip(1) + y);
            assert(x == seq![x[0]] + x.skip(1));
            assert(s[0] == x[0]);
        }
    }
}

/// Tokens that each start with `&` and never hold a match of `p`, whatever
/// token follows, are left as they are.
proof fn lemma_keep_tokens_ctx(toks: Seq<Seq<char>>, p: Seq<char>)
    requires
        p.len() > 0,
        forall|j: int|
            0 <= j < toks.len() ==> (#[trigger] toks[j]).len() > 0 && toks[j][0] == '&'
                && incompatible_ctx(toks[j], p),
    ensures
        replace_spec(concat(toks), p, Seq::empty()) == concat(toks),
        toks.len() > 0 ==> concat(toks).len() > 0 && concat(toks)[0] == '&',
    decreases toks.len(),
{
    if toks.len() > 0 {
        let rest = toks.drop_first();
        assert forall|j: int| 0 <= j < rest.len() implies (#[trigger] rest[j]).len() > 0
            && rest[j][0] == '&' && incompatible_ctx(rest[j], p) by {
            assert(rest[j] == toks[j + 1]);
        }
        lemma_keep_tokens_ctx(rest, p);
        lemma_concat_front_all(toks);
        assert(toks[0].len() > 0);
        lemma_prefix_pass_ctx(toks[0], concat(rest), p, Seq::empty());
    }
}

/// A search or genre pair: its name and a value of characters that form
/// encoding writes.
pub open spec fn text_pair_ok(x: (Seq<char>, Seq<char>)) -> bool {
    &&& (x.0 == "search"@ || x.0 == "genre"@)
    &&& form_word(x.1)
}

proof fn lemma_text_token(x: (Seq<char>, Seq<char>))
    requires
        text_pair_ok(x),
    ensures
        amp(x).len() > 2,
        amp(x)[0] == '&',
        incompatible(amp(x), "&sort_direction=asc"@),
        incompatible(amp(x), "&sort_by=title"@),
        incompatible(amp(x), "&page=0"@),
        incompatible_ctx(amp(x), "limit=0"@),
        amp(x) != "&sort_direction=asc"@,
        amp(x) != "&sort_by=title"@,
        amp(x) != "&page=0"@,
        amp(x) != "limit=0"@,
        forall|i: int| 1 <= i < amp(x).len() ==> #[trigger] amp(x)[i] != '&',
        amp(x)[1] == x.0[0],
        x.0[0] == 's' || x.0[0] == 'g',
{
    reveal_strlit("&sort_direction=asc");
    reveal_strlit("&sort_by=title");
    reveal_strlit("&page=0");
    reveal_strlit("limit=0");
    reveal_strlit("search");
    reveal_strlit("genre");
    reveal_strlit("&");
    reveal_strlit("=");
    let n = x.0;
    let w = x.1;
    let t = amp(x);
    assert(t == seq!['&'] + n + seq!['='] + w);
    let nl = n.len() as int;
    assert forall|i: int| 1 <= i < t.len() implies #[trigger] t[i] != '&' && (i < nl + 2 ==> t[i]
        != 'l') && (i >= nl + 2 ==> t[i] != '=') by {
        if i < nl + 1 {
            assert(t[i] == n[i - 1]);
        } else if i >= nl + 2 {
            assert(t[i] == w[i - nl - 2]);
            assert(form_char(w[i - nl - 2]));
        }
    }
    if n == "search"@ {
        lemma_amp_incompatible(t, "&sort_direction=asc"@, 2);
        lemma_amp_incompatible(t, "&sort_by=title"@, 2);
        lemma_amp_incompatible(t, "&page=0"@, 1);
    } else {
        lemma_amp_incompatible(t, "&sort_direction=asc"@, 1);
        lemma_amp_incompatible(t, "&sort_by=title"@, 1);
        lemma_amp_incompatible(t, "&page=0"@, 1);
    }
    lemma_incompatible_differs(t, "&sort_direction=asc"@);
    lemma_incompatible_differs(t, "&sort_by=title"@);
    lemma_incompatible_differs(t, "&page=0"@);
    let p = "limit=0"@;
    assert forall|i: int| 0 <= i < t.len() implies #[trigger] clashes_ctx(t, p, i) by {
        if t[i] != 'l' {
            assert(i + 0 < t.len() && t[i + 0] != p[0]);
        } else {
            assert(i >= nl + 2);
            if t.len() - i < 7 {
                let k = t.len() - i;
                assert(i + k == t.len() && p[k] != '&');
            } else if t[i + 1] != 'i' {
                assert(i + 1 < t.len() && t[i + 1] != p[1]);
            } else if t[i + 2] != 'm' {
                assert(i + 2 < t.len() && t[i + 2] != p[2]);
            } else if t[i + 3] != 'i' {
                assert(i + 3 < t.len() && t[i + 3] != p[3]);
            } else if t[i + 4] != 't' {
                assert(i + 4 < t.len() && t[i + 4] != p[4]);
            } else {
                assert(i + 5 < t.len() && t[i + 5] != p[5]);
            }
        }
    }
    assert(t != p) by {
        assert(t[0] != p[0]);
    }
}

/// A pair of a filter: search words, genre or a number filter.
pub open spec fn filter_pair_ok(x: (Seq<char>, Seq<char>)) -> bool {
    text_pair_ok(x) || number_pair_ok(x)
}

proof fn lemma_filter_token(x: (Seq<char>, Seq<char>))
    requires
        filter_pair_ok(x),
    ensures
        amp(x).len() > 0,
        amp(x)[0] == '&',
        incompatible(amp(x), "&sort_direction=asc"@),
        incompatible(amp(x), "&sort_by=title"@),
        incompatible(amp(x), "&page=0"@),
        incompatible_ctx(amp(x), "limit=0"@),
        amp(x) != "&sort_direction=asc"@,
        amp(x) != "&sort_by=title"@,
        amp(x) != "&page=0"@,
        amp(x) != "limit=0"@,
{
    if text_pair_ok(x) {
        lemma_text_token(x);
    } else {
        reveal_strlit("&");
        lemma_number_token(x);
        lemma_incompatible_ctx(amp(x), "limit=0"@);
    }
}

proof fn lemma_replace_filter_tokens(nps: Seq<(Seq<char>, Seq<char>)>, p: Seq<char>)
    requires
        forall|j: int| 0 <= j < nps.len() ==> filter_pair_ok(#[trigger] nps[j]),
        p == "&sort_direction=asc"@ || p == "&sort_by=title"@ || p == "&page=0"@ || p
            == "limit=0"@,
    ensures
        replace_spec(concat(nps.map_values(|x| amp(x))), p, Seq::empty()) == concat(
            nps.map_values(|x| amp(x)),
        ),
{
    reveal_strlit("&sort_direction=asc");
    reveal_strlit("&sort_by=title");
    reveal_strlit("&page=0");
    reveal_strlit("limit=0");
    let nt = nps.map_values(|x| amp(x));
    if p == "limit=0"@ {
        assert forall|j: int| 0 <= j < nt.len() implies (#[trigger] nt[j]).len() > 0 && nt[j][0]
            == '&' && incompatible_ctx(nt[j], p) by {
            lemma_filter_token(nps[j]);
        }
        lemma_keep_tokens_ctx(nt, p);
    } else {
        assert forall|j: int| 0 <= j < nt.len() implies #[trigger] nt[j] != p && settled(nt[j], p)
            by {
            lemma_filter_token(nps[j]);
        }
        lemma_replace_tokens(nt, p);
        lemma_remove_all_none(nt, p);
    }
}

proof fn lemma_filter_pairs_ok(q: ListingView)
    requires
        q.search is Some ==> form_word(q.search->0),
        q.genre is Some ==> form_word(q.genre->0),
    ensures
        forall|j: int| 0 <= j < filter_pairs(q).len() ==> filter_pair_ok(#[trigger] filter_pairs(q)[j]),
{
    lemma_number_pairs_ok(q);
    let t = text_pair("search"@, q.search) + text_pair("genre"@, q.genre);
    let n = number_pair("players"@, q.players) + number_pair("min_playtime"@, q.min_playtime)
        + number_pair("max_playtime"@, q.max_playtime);
    assert forall|j: int| 0 <= j < filter_pairs(q).len() implies filter_pair_ok(
        #[trigger] filter_pairs(q)[j],
    ) by {
        if j >= t.len() {
            assert(filter_pairs(q)[j] == n[j - t.len()]);
        }
    }
}

/// The filters' pairs of a listing query: search words, genre, and the
/// number filters.
pub open spec fn filter_pairs(q: ListingView) -> Seq<(Seq<char>, Seq<char>)> {
    text_pair("search"@, q.search) + text_pair("genre"@, q.genre) + (number_pair(
        "players"@,
        q.players,
    ) + number_pair("min_playtime"@, q.min_playtime) + number_pair(
        "max_playtime"@,
        q.max_playtime,
    ))
}

/// The tokens of a listing's query string: the page size first, written
/// bare, then page, sort field and sort direction, each after a `&`.
pub open spec fn tok_limit(q: ListingView) -> Seq<char> {
    bare(("limit"@, decimal(q.limit as nat)))
}

pub open spec fn tok_page(q: ListingView) -> Seq<char> {
    amp(("page"@, decimal(q.page as nat)))
}

pub open spec fn tok_sort(q: ListingView) -> Seq<char> {
    amp(("sort_by"@, q.sort_by.name()))
}

pub open spec fn tok_dir(q: ListingView) -> Seq<char> {
    amp(("sort_direction"@, q.sort_direction.name()))
}

/// The filters' tokens, glued together.
pub open spec fn tok_filters(q: ListingView) -> Seq<char> {
    concat(filter_pairs(q).map_values(|y| amp(y)))
}

/// The tokens that the default-dropping keeps after the page size.
pub open spec fn kept_rest(q: ListingView) -> Seq<char> {
    opt(q.page != 0, tok_page(q)) + (opt(q.sort_by != DbQueryField::Title, tok_sort(q)) + (opt(
        q.sort_direction != DbQuerySortDirection::ASC,
        tok_dir(q),
    ) + tok_filters(q)))
}

proof fn lemma_encoded_tokens(q: ListingView)
    ensures
        joined_pairs(query_pairs(q)) == tok_limit(q) + (tok_page(q) + (tok_sort(q) + (tok_dir(q)
            + tok_filters(q)))),
{
    let pl = ("limit"@, decimal(q.limit as nat));
    let pp = ("page"@, decimal(q.page as nat));
    let ps = ("sort_by"@, q.sort_by.name());
    let pd = ("sort_direction"@, q.sort_direction.name());
    let nps = filter_pairs(q);
    let qp = query_pairs(q);
    assert(qp =~= seq![pl, pp, ps, pd] + nps);
    lemma_joined_front(qp);
    assert(qp.drop_first() =~= opt_pair(true, pp) + (opt_pair(true, ps) + (opt_pair(true, pd)
        + nps)));
    lemma_concat_opt_pairs(true, pp, opt_pair(true, ps) + (opt_pair(true, pd) + nps));
    lemma_concat_opt_pairs(true, ps, opt_pair(true, pd) + nps);
    lemma_concat_opt_pairs(true, pd, nps);
}

proof fn lemma_dropped_tokens(q: ListingView)
    requires
        q.search is Some ==> form_word(q.search->0),
        q.genre is Some ==> form_word(q.genre->0),
    ensures
        replace_spec(
            replace_spec(
                replace_spec(
                    replace_spec(
                        tok_limit(q) + (tok_page(q) + (tok_sort(q) + (tok_dir(q) + tok_filters(q)))),
                        "&sort_direction=asc"@,
                        Seq::empty(),
                    ),
                    "&sort_by=title"@,
                    Seq::empty(),
                ),
                "&page=0"@,
                Seq::empty(),
            ),
            "limit=0"@,
            Seq::empty(),
        ) == opt(q.limit != 0, tok_limit(q)) + kept_rest(q),
{
    reveal_strlit("&");
    let nps = filter_pairs(q);
    lemma_filter_pairs_ok(q);
    lemma_limit_token(q.limit as nat);
    lemma_page_token(q.page as nat);
    lemma_sort_token(q.sort_by);
    lemma_direction_token(q.sort_direction);
    lemma_replace_filter_tokens(nps, "&sort_direction=asc"@);
    lemma_replace_filter_tokens(nps, "&sort_by=title"@);
    lemma_replace_filter_tokens(nps, "&page=0"@);
    lemma_replace_filter_tokens(nps, "limit=0"@);
    reveal_strlit("limit");
    reveal_strlit("=");
    lemma_decimal_digits(q.limit as nat);
    lemma_drop_defaults(
        tok_limit(q),
        tok_page(q),
        tok_sort(q),
        tok_dir(q),
        tok_filters(q),
        q.sort_direction != DbQuerySortDirection::ASC,
        q.sort_by != DbQueryField::Title,
        q.page != 0,
        q.limit != 0,
    );
}

proof fn lemma_joined_amp(kr: Seq<(Seq<char>, Seq<char>)>)
    ensures
        kr.len() == 0 ==> joined_pairs(kr) == Seq::<char>::empty() && concat(
            kr.map_values(|y| amp(y)),
        ) == Seq::<char>::empty(),
        kr.len() > 0 ==> concat(kr.map_values(|y| amp(y))).len() > 0,
        kr.len() > 0 ==> concat(kr.map_values(|y| amp(y)))[0] == '&' && joined_pairs(kr) == concat(
            kr.map_values(|y| amp(y)),
        ).skip(1),
{
    reveal_strlit("&");
    let m = kr.map_values(|y| amp(y));
    if kr.len() == 0 {
        assert(m =~= Seq::<Seq<char>>::empty());
    } else {
        lemma_joined_front(kr);
        assert(m[0] == amp(kr[0]));
        assert(m.drop_first() =~= kr.drop_first().map_values(|y| amp(y)));
        let rest = concat(m);
        assert(rest == amp(kr[0]) + concat(kr.drop_first().map_values(|y| amp(y))));
        assert(amp(kr[0]) =~= seq!['&'] + bare(kr[0]));
        assert(rest =~= seq!['&'] + joined_pairs(kr));
        assert(rest.skip(1) =~= joined_pairs(kr));
    }
}

proof fn lemma_assoc4<A>(a: Seq<A>, b: Seq<A>, c: Seq<A>, d: Seq<A>, e: Seq<A>)
    ensures
        a + b + c + d + e == a + (b + (c + (d + e))),
{
    vstd::seq_lib::lemma_concat_associative(c, d, e);
    vstd::seq_lib::lemma_concat_associative(b, c, d + e);
    vstd::seq_lib::lemma_concat_associative(b, c, d);
    vstd::seq_lib::lemma_concat_associative(b + c, d, e);
    vstd::seq_lib::lemma_concat_associative(a, b, c);
    vstd::seq_lib::lemma_concat_associative(a, b + c, d);
    vstd::seq_lib::lemma_concat_associative(a + b + c, d, e);
    vstd::seq_lib::lemma_concat_associative(a, b + c + d, e);
    vstd::seq_lib::lemma_concat_associative(a, b, c + (d + e));
    assert(a + b + c + d + e =~= a + (b + (c + (d + e))));
}

proof fn lemma_kept_pairs_shape(q: ListingView)
    ensures
        kept_pairs(q) == opt_pair(q.limit != 0, ("limit"@, decimal(q.limit as nat))) + (opt_pair(
            q.page != 0,
            ("page"@, decimal(q.page as nat)),
        ) + (opt_pair(q.sort_by != DbQueryField::Title, ("sort_by"@, q.sort_by.name())) + (
        opt_pair(
            q.sort_direction != DbQuerySortDirection::ASC,
            ("sort_direction"@, q.sort_direction.name()),
        ) + filter_pairs(q)))),
{
    let a = opt_pair(q.limit != 0, ("limit"@, decimal(q.limit as nat)));
    let b = opt_pair(q.page != 0, ("page"@, decimal(q.page as nat)));
    let c = opt_pair(q.sort_by != DbQueryField::Title, ("sort_by"@, q.sort_by.name()));
    let d = opt_pair(
        q.sort_direction != DbQuerySortDirection::ASC,
        ("sort_direction"@, q.sort_direction.name()),
    );
    let t1 = text_pair("search"@, q.search);
    let t2 = text_pair("genre"@, q.genre);
    let n1 = number_pair("players"@, q.players);
    let n2 = number_pair("min_playtime"@, q.min_playtime);
    let n3 = number_pair("max_playtime"@, q.max_playtime);
    let abcd = a + b + c + d;
    let n = n1 + n2 + n3;
    assert(kept_pairs(q) == abcd + t1 + t2 + n1 + n2 + n3);
    vstd::seq_lib::lemma_concat_associative(abcd + t1 + t2 + n1, n2, n3);
    vstd::seq_lib::lemma_concat_associative(abcd + t1 + t2, n1, n2 + n3);
    vstd::seq_lib::lemma_concat_associative(n1, n2, n3);
    assert(kept_pairs(q) == abcd + t1 + t2 + n);
    vstd::seq_lib::lemma_concat_associative(abcd + t1, t2, n);
    vstd::seq_lib::lemma_concat_associative(abcd, t1, t2 + n);
    vstd::seq_lib::lemma_concat_associative(t1, t2, n);
    assert(kept_pairs(q) == abcd + filter_pairs(q));
    lemma_assoc4(a, b, c, d, filter_pairs(q));
}

proof fn lemma_kept_concat(q: ListingView)
    ensures
        concat(
            (opt_pair(q.page != 0, ("page"@, decimal(q.page as nat))) + (opt_pair(
                q.sort_by != DbQueryField::Title,
                ("sort_by"@, q.sort_by.name()),
            ) + (opt_pair(
                q.sort_direction != DbQuerySortDirection::ASC,
                ("sort_direction"@, q.sort_direction.name()),
            ) + filter_pairs(q)))).map_values(|y| amp(y)),
        ) == kept_rest(q),
{
    let pp = ("page"@, decimal(q.page as nat));
    let ps = ("sort_by"@, q.sort_by.name());
    let pd = ("sort_direction"@, q.sort_direction.name());
    let nps = filter_pairs(q);
    let a = q.sort_direction != DbQuerySortDirection::ASC;
    let b = q.sort_by != DbQueryField::Title;
    let g = q.page != 0;
    lemma_concat_opt_pairs(g, pp, opt_pair(b, ps) + (opt_pair(a, pd) + nps));
    lemma_concat_opt_pairs(b, ps, opt_pair(a, pd) + nps);
    lemma_concat_opt_pairs(a, pd, nps);
}

proof fn lemma_kept_tokens(q: ListingView)
    ensures
        joined_pairs(kept_pairs(q)) == (if q.limit != 0 {
            tok_limit(q) + kept_rest(q)
        } else if kept_rest(q).len() == 0 {
            kept_rest(q)
        } else {
            kept_rest(q).skip(1)
        }),
        q.limit != 0 ==> tok_limit(q)[0] == 'l',
        q.limit == 0 && kept_rest(q).len() > 0 ==> kept_rest(q)[0] == '&',
{
    reveal_strlit("limit");
    let pl = ("limit"@, decimal(q.limit as nat));
    let kr = opt_pair(q.page != 0, ("page"@, decimal(q.page as nat))) + (opt_pair(
        q.sort_by != DbQueryField::Title,
        ("sort_by"@, q.sort_by.name()),
    ) + (opt_pair(
        q.sort_direction != DbQuerySortDirection::ASC,
        ("sort_direction"@, q.sort_direction.name()),
    ) + filter_pairs(q)));
    lemma_kept_pairs_shape(q);
    lemma_kept_concat(q);
    lemma_joined_amp(kr);
    if q.limit != 0 {
        let kp = kept_pairs(q);
        assert(kp == seq![pl] + kr);
        lemma_joined_front(kp);
        assert(kp[0] == pl);
        assert(kp.drop_first() =~= kr);
        assert(concat(kr.map_values(|y| amp(y))) == kept_rest(q));
        assert(joined_pairs(kp) == bare(pl) + kept_rest(q));
    } else {
        assert(kept_pairs(q) =~= kr);
        assert(concat(kr.map_values(|y| amp(y))) == kept_rest(q));
        if kr.len() == 0 {
            assert(joined_pairs(kr) == kept_rest(q));
        } else {
            assert(kept_rest(q)[0] == '&');
            assert(joined_pairs(kr) == kept_rest(q).skip(1));
        }
    }
}

proof fn lemma_plain_words()
    ensures
        plain("search"@),
        plain("limit"@),
        plain("page"@),
        plain("sort_by"@),
        plain("sort_direction"@),
        plain("players"@),
        plain("min_playtime"@),
        plain("max_playtime"@),
        plain("title"@),
        plain("min_players"@),
        plain("max_players"@),
        plain("genre"@),
        plain("available"@),
        plain("asc"@),
        plain("desc"@),
{
    reveal_strlit("limit");
    reveal_strlit("page");
    reveal_strlit("sort_by");
    reveal_strlit("sort_direction");
    reveal_strlit("players");
    reveal_strlit("min_playtime");
    reveal_strlit("max_playtime");
    reveal_strlit("title");
    reveal_strlit("min_players");
    reveal_strlit("max_players");
    reveal_strlit("genre");
    reveal_strlit("available");
    reveal_strlit("asc");
    reveal_strlit("desc");
    reveal_strlit("search");
}

/// Tokens that never hold a match of `p` are left as they are.
proof fn lemma_keep_tokens(toks: Seq<Seq<char>>, p: Seq<char>)
    requires
        p.len() > 0,
        forall|j: int| 0 <= j < toks.len() ==> #[trigger] toks[j] != p && incompatible(toks[j], p),
    ensures
        replace_spec(concat(toks), p, Seq::empty()) == concat(toks),
{
    lemma_replace_tokens(toks, p);
    lemma_remove_all_none(toks, p);
}

/// The pattern that drops a page from a query string.
pub open spec fn page_pattern(pg: nat) -> Seq<char> {
    "&page="@ + decimal(pg)
}

proof fn lemma_page_pattern(pg: nat)
    ensures
        page_pattern(pg).len() > 6,
        page_pattern(pg)[0] == '&',
        page_pattern(pg)[1] == 'p',
        page_pattern(pg)[2] == 'a',
        amp(("page"@, decimal(pg))) == page_pattern(pg),
{
    reveal_strlit("&page=");
    reveal_strlit("&");
    reveal_strlit("=");
    reveal_strlit("page");
    lemma_decimal_digits(pg);
    assert(amp(("page"@, decimal(pg))) =~= page_pattern(pg));
}

proof fn lemma_filter_token_vs_page(x: (Seq<char>, Seq<char>), pg: nat)
    requires
        filter_pair_ok(x),
    ensures
        incompatible(amp(x), page_pattern(pg)),
        amp(x) != page_pattern(pg),
{
    lemma_page_pattern(pg);
    let p = page_pattern(pg);
    if text_pair_ok(x) {
        lemma_text_token(x);
        lemma_amp_incompatible(amp(x), p, 1);
    } else {
        reveal_strlit("players");
        reveal_strlit("min_playtime");
        reveal_strlit("max_playtime");
        lemma_words();
        lemma_amp_token(x.0, x.1);
        if x.0 == "players"@ {
            lemma_amp_incompatible(amp(x), p, 2);
        } else {
            lemma_amp_incompatible(amp(x), p, 1);
        }
    }
    lemma_incompatible_differs(amp(x), p);
}

proof fn lemma_keep_filters_vs_page(q: ListingView)
    requires
        q.search is Some ==> form_word(q.search->0),
        q.genre is Some ==> form_word(q.genre->0),
    ensures
        replace_spec(tok_filters(q), page_pattern(q.page as nat), Seq::empty()) == tok_filters(q),
{
    lemma_filter_pairs_ok(q);
    lemma_page_pattern(q.page as nat);
    let nps = filter_pairs(q);
    let nt = nps.map_values(|x| amp(x));
    let p = page_pattern(q.page as nat);
    assert forall|j: int| 0 <= j < nt.len() implies #[trigger] nt[j] != p && incompatible(nt[j], p)
        by {
        lemma_filter_token_vs_page(nps[j], q.page as nat);
    }
    lemma_keep_tokens(nt, p);
}

/// The same listing on its first page.
pub open spec fn first_page(q: ListingView) -> ListingView {
    ListingView { page: 0, ..q }
}

/// Dropping the defaults from a listing's written pairs, when its search
/// words and genre, if any, are made of the characters that form encoding
/// writes (so hold no `&` and no `=`), leaves exactly the pairs that differ
/// from their defaults: no page size of zero, first page, sorting by title
/// or ascending order, the others in order, and no `&` in front.
/// `BoardGameQuery::to_string` states the same of every listing through
/// its encoding.
pub proof fn law_query_string_omits_defaults(q: ListingView)
    requires
        q.search is Some ==> form_word(q.search->0),
        q.genre is Some ==> form_word(q.genre->0),
    ensures
        clean_query(joined_pairs(query_pairs(q))) == joined_pairs(kept_pairs(q)),
{
    reveal_strlit("");
    assert(""@ == Seq::<char>::empty());
    lemma_encoded_tokens(q);
    lemma_dropped_tokens(q);
    lemma_kept_tokens(q);
    if q.limit != 0 {
        assert(opt(q.limit != 0, tok_limit(q)) + kept_rest(q) == tok_limit(q) + kept_rest(q));
    } else {
        assert(opt(q.limit != 0, tok_limit(q)) + kept_rest(q) == kept_rest(q));
    }
}

/// The pagination links of a listing with a page size, whose search words
/// and genre, if any, are made of the characters that form encoding writes:
/// dropping `&page=` and the page from its query string gives the query
/// string of the same listing on its first page.
pub proof fn law_pagination_links(q: ListingView)
    requires
        q.limit != 0,
        q.search is Some ==> form_word(q.search->0),
        q.genre is Some ==> form_word(q.genre->0),
    ensures
        replace_spec(
            clean_query(joined_pairs(query_pairs(q))),
            "&page="@ + decimal(q.page as nat),
            ""@,
        ) == clean_query(joined_pairs(query_pairs(first_page(q)))),
{
    reveal_strlit("");
    assert(""@ == Seq::<char>::empty());
    let q2 = first_page(q);
    law_query_string_omits_defaults(q);
    law_query_string_omits_defaults(q2);
    lemma_kept_tokens(q);
    lemma_kept_tokens(q2);
    let p = page_pattern(q.page as nat);
    lemma_page_pattern(q.page as nat);
    lemma_limit_token(q.limit as nat);
    lemma_no_amp_incompatible(tok_limit(q), p);
    lemma_incompatible_differs(tok_limit(q), p);
    lemma_keep_filters_vs_page(q);
    lemma_words();
    lemma_name_words(q.sort_by, q.sort_direction);
    reveal_strlit("sort_by");
    reveal_strlit("sort_direction");
    lemma_amp_token("sort_by"@, q.sort_by.name());
    lemma_amp_token("sort_direction"@, q.sort_direction.name());
    lemma_amp_incompatible(tok_sort(q), p, 1);
    lemma_amp_incompatible(tok_dir(q), p, 1);
    let a = q.sort_direction != DbQuerySortDirection::ASC;
    let b = q.sort_by != DbQueryField::Title;
    let g = q.page != 0;
    let r = opt(b, tok_sort(q)) + (opt(a, tok_dir(q)) + tok_filters(q));
    assert(tok_filters(q2) == tok_filters(q));
    assert(kept_rest(q2) == Seq::<char>::empty() + r);
    assert(Seq::<char>::empty() + r == r);
    lemma_keep_opt(a, tok_dir(q), tok_filters(q), p);
    lemma_keep_opt(b, tok_sort(q), opt(a, tok_dir(q)) + tok_filters(q), p);
    lemma_drop_match(tok_page(q), r, p);
    if g {
        lemma_replace_token(tok_limit(q), tok_page(q) + r, p);
    } else {
        lemma_replace_token(tok_limit(q), r, p);
        assert(kept_rest(q) == r);
    }
}

/// A number is written with digits alone.
proof fn lemma_plain_decimal(n: nat)
    ensures
        plain(decimal(n)),
{
    lemma_decimal_digits(n);
}

/// The values of a listing's number filters are written with digits alone.
proof fn lemma_plain_numbers(v: ListingView)
    ensures
        v.players is Some ==> plain(decimal(v.players->0 as nat)),
        v.min_playtime is Some ==> plain(decimal(v.min_playtime->0 as nat)),
        v.max_playtime is Some ==> plain(decimal(v.max_playtime->0 as nat)),
        plain(decimal(v.limit as nat)),
        plain(decimal(v.page as nat)),
        plain(v.sort_by.name()),
        plain(v.sort_direction.name()),
{
    lemma_plain_words();
    lemma_plain_decimal(v.limit as nat);
    lemma_plain_decimal(v.page as nat);
    if let Some(n) = v.players {
        lemma_plain_decimal(n as nat);
    }
    if let Some(n) = v.min_playtime {
        lemma_plain_decimal(n as nat);
    }
    if let Some(n) = v.max_playtime {
        lemma_plain_decimal(n as nat);
    }
}

/// A form encoding of a listing's pairs is the pair list of the listing
/// whose search words and genre are their encodings: names, numbers and
/// sort names are plain, so they are written as they are.
pub(crate) proof fn lemma_encoded_listing(v: ListingView, e: Seq<(Seq<char>, Seq<char>)>) -> (w:
    ListingView)
    requires
        form_encodes_pairs(query_pairs(v), e),
    ensures
        e == query_pairs(w),
        encodes_listing(v, w),
{
    lemma_plain_numbers(v);
    lemma_plain_words();
    reveal_strlit("players");
    reveal_strlit("min_playtime");
    reveal_strlit("max_playtime");
    let qp = query_pairs(v);
    let ns: int = if v.search is Some {
        1
    } else {
        0
    };
    let ng: int = if v.genre is Some {
        1
    } else {
        0
    };
    let w = ListingView {
        search: if v.search is Some {
            Some(e[4].1)
        } else {
            None
        },
        genre: if v.genre is Some {
            Some(e[4 + ns].1)
        } else {
            None
        },
        ..v
    };
    let pw = query_pairs(w);
    let n1 = number_pair("players"@, v.players);
    let n2 = number_pair("min_playtime"@, v.min_playtime);
    let n3 = number_pair("max_playtime"@, v.max_playtime);
    let k = 4 + ns + ng;
    assert forall|i: int| 0 <= i < qp.len() implies #[trigger] e[i] == pw[i] by {
        assert(form_encodes(qp[i].0, e[i].0) && form_encodes(qp[i].1, e[i].1));
        if i < 4 {
            assert(pw[i] == qp[i]);
        } else if i < 4 + ns {
            assert(qp[i] == ("search"@, v.search->0));
            assert(pw[i] == ("search"@, e[4].1));
        } else if i < k {
            assert(qp[i] == ("genre"@, v.genre->0));
            assert(pw[i] == ("genre"@, e[4 + ns].1));
        } else {
            assert(pw[i] == qp[i]);
            let j = i - k;
            if j < n1.len() {
                assert(qp[i] == n1[j]);
            } else if j < n1.len() + n2.len() {
                assert(qp[i] == n2[j - n1.len()]);
            } else {
                assert(qp[i] == n3[j - n1.len() - n2.len()]);
            }
        }
    }
    assert(e =~= pw);
    if v.search is Some {
        assert(qp[4] == ("search"@, v.search->0));
        assert(form_encodes(qp[4].1, e[4].1));
    }
    if v.genre is Some {
        assert(qp[4 + ns] == ("genre"@, v.genre->0));
        assert(form_encodes(qp[4 + ns].1, e[4 + ns].1));
    }
    w
}

/// Encodings of two lists of pairs, one after the other, encode the two
/// lists one after the other.
proof fn lemma_encodes_concat(
    a1: Seq<(Seq<char>, Seq<char>)>,
    b1: Seq<(Seq<char>, Seq<char>)>,
    a2: Seq<(Seq<char>, Seq<char>)>,
    b2: Seq<(Seq<char>, Seq<char>)>,
)
    requires
        form_encodes_pairs(a1, b1),
        form_encodes_pairs(a2, b2),
    ensures
        form_encodes_pairs(a1 + a2, b1 + b2),
{
    let a = a1 + a2;
    let b = b1 + b2;
    assert forall|i: int| #![trigger b[i]] 0 <= i < a.len() implies form_encodes(a[i].0, b[i].0)
        && form_encodes(a[i].1, b[i].1) by {
        if i < a1.len() {
            assert(a[i] == a1[i] && b[i] == b1[i]);
            assert(form_encodes(a1[i].0, b1[i].0));
        } else {
            assert(a[i] == a2[i - a1.len()] && b[i] == b2[i - a1.len()]);
            assert(form_encodes(a2[i - a1.len()].0, b2[i - a1.len()].0));
        }
    }
}

/// Pairs of plain names and values are their own encoding.
proof fn lemma_encodes_plain(a: Seq<(Seq<char>, Seq<char>)>)
    requires
        forall|i: int| #![trigger a[i]] 0 <= i < a.len() ==> plain(a[i].0) && plain(a[i].1),
    ensures
        form_encodes_pairs(a, a),
{
    assert forall|i: int| #![trigger a[i]] 0 <= i < a.len() implies form_encodes(a[i].0, a[i].0)
        && form_encodes(a[i].1, a[i].1) by {
        assert(plain(a[i].0) && plain(a[i].1));
    }
}

proof fn lemma_encodes_opt_pair(b: bool, x: (Seq<char>, Seq<char>))
    requires
        plain(x.0),
        plain(x.1),
    ensures
        form_encodes_pairs(opt_pair(b, x), opt_pair(b, x)),
{
    lemma_encodes_plain(opt_pair(b, x));
}

proof fn lemma_encodes_number_pair(name: Seq<char>, v: Option<u32>)
    requires
        plain(name),
    ensures
        form_encodes_pairs(number_pair(name, v), number_pair(name, v)),
{
    if let Some(n) = v {
        lemma_plain_decimal(n as nat);
    }
    lemma_encodes_plain(number_pair(name, v));
}

proof fn lemma_encodes_text_pair(name: Seq<char>, v: Option<Seq<char>>, w: Option<Seq<char>>)
    requires
        plain(name),
        v is Some <==> w is Some,
        v is Some ==> form_encodes(v->0, w->0),
    ensures
        form_encodes_pairs(text_pair(name, v), text_pair(name, w)),
{
    if v is Some {
        let p = text_pair(name, v);
        let e = text_pair(name, w);
        assert(p[0] == (name, v->0) && e[0] == (name, w->0));
        assert(form_encodes(p[0].0, e[0].0) && form_encodes(p[0].1, e[0].1));
    }
}

/// The pairs of a listing that differ from their defaults are encoded by
/// those of the listing whose texts are their encodings.
pub(crate) proof fn lemma_kept_encoded(v: ListingView, w: ListingView)
    requires
        encodes_listing(v, w),
    ensures
        form_encodes_pairs(kept_pairs(v), kept_pairs(w)),
{
    lemma_plain_numbers(v);
    lemma_plain_words();
    let o1 = opt_pair(v.limit != 0, ("limit"@, decimal(v.limit as nat)));
    let o2 = opt_pair(v.page != 0, ("page"@, decimal(v.page as nat)));
    let o3 = opt_pair(v.sort_by != DbQueryField::Title, ("sort_by"@, v.sort_by.name()));
    let o4 = opt_pair(
        v.sort_direction != DbQuerySortDirection::ASC,
        ("sort_direction"@, v.sort_direction.name()),
    );
    let t1 = text_pair("search"@, v.search);
    let t2 = text_pair("genre"@, v.genre);
    let u1 = text_pair("search"@, w.search);
    let u2 = text_pair("genre"@, w.genre);
    let n1 = number_pair("players"@, v.players);
    let n2 = number_pair("min_playtime"@, v.min_playtime);
    let n3 = number_pair("max_playtime"@, v.max_playtime);
    lemma_encodes_opt_pair(v.limit != 0, ("limit"@, decimal(v.limit as nat)));
    lemma_encodes_opt_pair(v.page != 0, ("page"@, decimal(v.page as nat)));
    lemma_encodes_opt_pair(v.sort_by != DbQueryField::Title, ("sort_by"@, v.sort_by.name()));
    lemma_encodes_opt_pair(
        v.sort_direction != DbQuerySortDirection::ASC,
        ("sort_direction"@, v.sort_direction.name()),
    );
    lemma_encodes_text_pair("search"@, v.search, w.search);
    lemma_encodes_text_pair("genre"@, v.genre, w.genre);
    lemma_encodes_number_pair("players"@, v.players);
    lemma_encodes_number_pair("min_playtime"@, v.min_playtime);
    lemma_encodes_number_pair("max_playtime"@, v.max_playtime);
    lemma_encodes_concat(o1, o1, o2, o2);
    lemma_encodes_concat(o1 + o2, o1 + o2, o3, o3);
    lemma_encodes_concat(o1 + o2 + o3, o1 + o2 + o3, o4, o4);
    let a = o1 + o2 + o3 + o4;
    lemma_encodes_concat(a, a, t1, u1);
    lemma_encodes_concat(a + t1, a + u1, t2, u2);
    lemma_encodes_concat(a + t1 + t2, a + u1 + u2, n1, n1);
    lemma_encodes_concat(a + t1 + t2 + n1, a + u1 + u2 + n1, n2, n2);
    lemma_encodes_concat(a + t1 + t2 + n1 + n2, a + u1 + u2 + n1 + n2, n3, n3);
    assert(kept_pairs(v) =~= a + t1 + t2 + n1 + n2 + n3);
    assert(kept_pairs(w) =~= a + u1 + u2 + n1 + n2 + n3);
}

/// A listing whose texts are plain is its own encoding.
pub(crate) proof fn lemma_plain_listing(v: ListingView, w: ListingView)
    requires
        encodes_listing(v, w),
        plain_texts(v),
    ensures
        w == v,
{
}

} // verus!
