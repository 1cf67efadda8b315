//! Building the SurrealQL statements that list and count board games.
//!
//! Values given by visitors never enter the statement text: they are bound
//! under parameter names and handed to the database beside the statement.
use vstd::prelude::*;

use crate::db::models::{DbQueryField, DbQuerySortDirection};
use crate::text::{join, join_spec, replace, replace_spec};
use crate::web::queries::BoardGameQuery;

verus! {

/// A value bound to a statement parameter.
#[derive(Debug, PartialEq, Eq)]
pub enum BindValue {
    Text(String),
    Number(u32),
}

impl Clone for BindValue {
    fn clone(&self) -> (r: Self)
        ensures
            r == *self,
    {
        match self {
            BindValue::Text(s) => BindValue::Text(s.clone()),
            BindValue::Number(n) => BindValue::Number(*n),
        }
    }
}

/// The parameter map of a list of bindings: a later binding of a name
/// replaces an earlier one.
pub open spec fn bindings_map(b: Seq<(String, BindValue)>) -> Map<Seq<char>, BindValue>
    decreases b.len(),
{
    if b.len() == 0 {
        Map::empty()
    } else {
        bindings_map(b.drop_last()).insert(b.last().0@, b.last().1)
    }
}

/// The text of a list of statement segments.
pub open spec fn seg_views(s: Seq<String>) -> Seq<Seq<char>> {
    s.map_values(|x: String| x@)
}

/// A statement under construction: its segments and its parameters.
pub struct DbQueryBuilder {
    pub segments: Vec<String>,
    pub bindings: Vec<(String, BindValue)>,
}

impl DbQueryBuilder {
    /// The segments of the statement so far.
    pub open spec fn segs(&self) -> Seq<Seq<char>> {
        seg_views(self.segments@)
    }

    /// The parameters bound so far.
    pub open spec fn binds(&self) -> Map<Seq<char>, BindValue> {
        bindings_map(self.bindings@)
    }

    /// An empty statement.
    pub fn new() -> (b: Self)
        ensures
            b.segs() == Seq::<Seq<char>>::empty(),
            b.binds() == Map::<Seq<char>, BindValue>::empty(),
    {
        let b = DbQueryBuilder { segments: Vec::new(), bindings: Vec::new() };
        assert(b.segs() =~= Seq::<Seq<char>>::empty());
        b
    }

    /// Appends `SELECT what FROM from`.
    pub fn select(&mut self, what: &str, from: &str) -> (r: &mut Self)
        ensures
            r.segs() == old(self).segs() + seq!["SELECT"@, what@, "FROM"@, from@],
            r.binds() == old(self).binds(),
            *final(self) == *final(r),
    {
        self.segments.push(String::from_str("SELECT"));
        self.segments.push(what.to_string());
        self.segments.push(String::from_str("FROM"));
        self.segments.push(from.to_string());
        assert(self.segs() =~= old(self).segs() + seq!["SELECT"@, what@, "FROM"@, from@]);
        self
    }

    /// Appends `WHERE`.
    pub fn where_(&mut self) -> (r: &mut Self)
        ensures
            r.segs() == old(self).segs().push("WHERE"@),
            r.binds() == old(self).binds(),
            *final(self) == *final(r),
    {
        self.segments.push(String::from_str("WHERE"));
        assert(self.segs() =~= old(self).segs().push("WHERE"@));
        self
    }

    /// Appends a condition and binds its parameter, named without the `$`.
    pub fn condition(&mut self, condition: &str, bind: (&str, BindValue)) -> (r: &mut Self)
        ensures
            r.segs() == old(self).segs().push(condition@),
            r.binds() == old(self).binds().insert(replace_spec(bind.0@, "$"@, ""@), bind.1),
            *final(self) == *final(r),
    {
        self.segments.push(condition.to_string());
        proof {
            reveal_strlit("$");
        }
        let key = replace(bind.0, "$", "");
        let ghost old_b = self.bindings@;
        self.bindings.push((key, bind.1));
        assert(self.segs() =~= old(self).segs().push(condition@));
        assert(self.bindings@.drop_last() == old_b);
        self
    }

    /// Appends `AND`.
    pub fn and(&mut self) -> (r: &mut Self)
        ensures
            r.segs() == old(self).segs().push("AND"@),
            r.binds() == old(self).binds(),
            *final(self) == *final(r),
    {
        self.segments.push(String::from_str("AND"));
        assert(self.segs() =~= old(self).segs().push("AND"@));
        self
    }

    /// Appends `ORDER field NUMERIC direction`.
    pub fn order_by(&mut self, field: &str, direction: &str) -> (r: &mut Self)
        ensures
            r.segs() == old(self).segs() + seq!["ORDER"@, field@, "NUMERIC"@, direction@],
            r.binds() == old(self).binds(),
            *final(self) == *final(r),
    {
        self.segments.push(String::from_str("ORDER"));
        self.segments.push(field.to_string());
        self.segments.push(String::from_str("NUMERIC"));
        self.segments.push(direction.to_string());
        assert(self.segs() =~= old(self).segs() + seq!["ORDER"@, field@, "NUMERIC"@, direction@]);
        self
    }

    /// Appends `GROUP field`.
    pub fn group_by(&mut self, field: &str) -> (r: &mut Self)
        ensures
            r.segs() == old(self).segs() + seq!["GROUP"@, field@],
            r.binds() == old(self).binds(),
            *final(self) == *final(r),
    {
        self.segments.push(String::from_str("GROUP"));
        self.segments.push(field.to_string());
        assert(self.segs() =~= old(self).segs() + seq!["GROUP"@, field@]);
        self
    }

    /// Appends `LIMIT $limit START $start` and binds both parameters.
    pub fn paginate(&mut self, limit: u32, start: u32) -> (r: &mut Self)
        ensures
            r.segs() == old(self).segs().push("LIMIT $limit START $start"@),
            r.binds() == old(self).binds().insert("limit"@, BindValue::Number(limit)).insert(
                "start"@,
                BindValue::Number(start),
            ),
            *final(self) == *final(r),
    {
        self.segments.push(String::from_str("LIMIT $limit START $start"));
        let ghost b0 = self.bindings@;
        self.bindings.push((String::from_str("limit"), BindValue::Number(limit)));
        let ghost b1 = self.bindings@;
        self.bindings.push((String::from_str("start"), BindValue::Number(start)));
        assert(self.segs() =~= old(self).segs().push("LIMIT $limit START $start"@));
        assert(self.bindings@.drop_last() == b1);
        assert(b1.drop_last() == b0);
        assert(bindings_map(b1) == bindings_map(b0).insert("limit"@, BindValue::Number(limit)));
        assert(bindings_map(self.bindings@) == bindings_map(b1).insert(
            "start"@,
            BindValue::Number(start),
        ));
        self
    }

    /// The finished statement: the segments separated by spaces, then `;`.
    pub fn build(&self) -> (q: DbQuery)
        ensures
            q.text() == join_spec(self.segs(), " "@) + ";"@,
            q.binds() == self.binds(),
    {
        let mut query = join(&self.segments, " ");
        query.append(";");
        let mut bindings: Vec<(String, BindValue)> = Vec::new();
        for i in 0..self.bindings.len()
            invariant
                bindings@ == self.bindings@.take(i as int),
        {
            let pair = (self.bindings[i].0.clone(), self.bindings[i].1.clone());
            bindings.push(pair);
            assert(self.bindings@.take(i + 1) == self.bindings@.take(i as int).push(
                self.bindings@[i as int],
            ));
        }
        assert(self.bindings@.take(self.bindings@.len() as int) == self.bindings@);
        DbQuery { query, bindings }
    }
}

/// A finished statement with its parameters.
#[derive(Debug)]
pub struct DbQuery {
    query: String,
    bindings: Vec<(String, BindValue)>,
}

/// One filter of a listing: its condition, the parameter it names and the
/// value bound to that parameter.
pub open spec fn cond(c: &str, p: &str, v: BindValue) -> (Seq<char>, Seq<char>, BindValue) {
    (c@, p@, v)
}

/// The filters that a listing query asks for, in the order they are applied.
pub open spec fn conditions_spec(q: BoardGameQuery) -> Seq<(Seq<char>, Seq<char>, BindValue)> {
    (match q.search {
        Some(s) => seq![cond("title ~ $title", "$title", BindValue::Text(s))],
        None => Seq::empty(),
    }) + (match q.players {
        Some(p) => seq![
            cond("min_players <= $min_players", "$min_players", BindValue::Number(p)),
            cond(
                "(players_no_limit OR max_players >= $max_players)",
                "$max_players",
                BindValue::Number(p),
            ),
        ],
        None => Seq::empty(),
    }) + (match q.min_playtime {
        Some(p) => seq![cond("min_playtime >= $min_playtime", "$min_playtime", BindValue::Number(p))],
        None => Seq::empty(),
    }) + (match q.max_playtime {
        Some(p) => seq![cond("max_playtime <= $max_playtime", "$max_playtime", BindValue::Number(p))],
        None => Seq::empty(),
    })
}

/// The statement segments of a list of filters: `WHERE` before the first,
/// `AND` before each other.
pub open spec fn where_segments(c: Seq<(Seq<char>, Seq<char>, BindValue)>) -> Seq<Seq<char>>
    decreases c.len(),
{
    if c.len() == 0 {
        Seq::empty()
    } else {
        where_segments(c.drop_last()) + seq![
            if c.len() == 1 { "WHERE"@ } else { "AND"@ },
            c.last().0,
        ]
    }
}

/// The parameters bound by a list of filters.
pub open spec fn condition_bindings(c: Seq<(Seq<char>, Seq<char>, BindValue)>) -> Map<
    Seq<char>,
    BindValue,
>
    decreases c.len(),
{
    if c.len() == 0 {
        Map::empty()
    } else {
        condition_bindings(c.drop_last()).insert(
            replace_spec(c.last().1, "$"@, ""@),
            c.last().2,
        )
    }
}

/// The parameters of the filters of `q`, named as the database sees them.
pub open spec fn filter_bindings(q: BoardGameQuery) -> Map<Seq<char>, BindValue> {
    let m1 = match q.search {
        Some(s) => Map::empty().insert("title"@, BindValue::Text(s)),
        None => Map::empty(),
    };
    let m2 = match q.players {
        Some(p) => m1.insert("min_players"@, BindValue::Number(p)).insert(
            "max_players"@,
            BindValue::Number(p),
        ),
        None => m1,
    };
    let m3 = match q.min_playtime {
        Some(p) => m2.insert("min_playtime"@, BindValue::Number(p)),
        None => m2,
    };
    match q.max_playtime {
        Some(p) => m3.insert("max_playtime"@, BindValue::Number(p)),
        None => m3,
    }
}

/// The segments of the listing statement of `q`.
pub open spec fn select_segments(q: BoardGameQuery) -> Seq<Seq<char>> {
    seq!["SELECT"@, "*"@, "FROM"@, "boardgame"@] + where_segments(conditions_spec(q)) + seq![
        "ORDER"@,
        q.sort_by.name(),
        "NUMERIC"@,
        q.sort_direction.name(),
    ] + if q.limit > 0 {
        seq!["LIMIT $limit START $start"@]
    } else {
        Seq::empty()
    }
}

/// The text of the listing statement of `q`.
pub open spec fn select_text(q: BoardGameQuery) -> Seq<char> {
    join_spec(select_segments(q), " "@) + ";"@
}

/// The parameters of the listing statement of `q`: its filters and, when it
/// pages, the page size and the index of the first record of the page.
pub open spec fn select_bindings(q: BoardGameQuery) -> Map<Seq<char>, BindValue> {
    if q.limit > 0 {
        filter_bindings(q).insert("limit"@, BindValue::Number(q.limit)).insert(
            "start"@,
            BindValue::Number((q.page * q.limit) as u32),
        )
    } else {
        filter_bindings(q)
    }
}

/// The segments of the counting statement of `q`.
pub open spec fn count_segments(q: BoardGameQuery) -> Seq<Seq<char>> {
    seq!["SELECT"@, "count()"@, "FROM"@, "boardgame"@] + where_segments(conditions_spec(q))
        + seq!["GROUP"@, "count"@]
}

/// The text of the counting statement of `q`.
pub open spec fn count_text(q: BoardGameQuery) -> Seq<char> {
    join_spec(count_segments(q), " "@) + ";"@
}

/// The view of a produced filter list.
pub open spec fn conditions_view(c: Seq<(&str, (&str, BindValue))>) -> Seq<
    (Seq<char>, Seq<char>, BindValue),
> {
    c.map_values(|x: (&str, (&str, BindValue))| (x.0@, x.1.0@, x.1.1))
}

/// Parameter names of the filters, without the `$`, are the plain names.
proof fn lemma_parameter_names()
    ensures
        replace_spec("$title"@, "$"@, ""@) == "title"@,
        replace_spec("$min_players"@, "$"@, ""@) == "min_players"@,
        replace_spec("$max_players"@, "$"@, ""@) == "max_players"@,
        replace_spec("$min_playtime"@, "$"@, ""@) == "min_playtime"@,
        replace_spec("$max_playtime"@, "$"@, ""@) == "max_playtime"@,
{
    reveal_strlit("$title");
    reveal_strlit("title");
    reveal_strlit("$min_players");
    reveal_strlit("min_players");
    reveal_strlit("$max_players");
    reveal_strlit("max_players");
    reveal_strlit("$min_playtime");
    reveal_strlit("min_playtime");
    reveal_strlit("$max_playtime");
    reveal_strlit("max_playtime");
    reveal_strlit("$");
    reveal_strlit("");
    assert("$"@ =~= seq!['$']);
    assert(""@ =~= Seq::<char>::empty());
    assert("$title"@ =~= seq!['$'] + "title"@);
    lemma_drop_dollar("$title"@, "title"@);
    assert("$min_players"@ =~= seq!['$'] + "min_players"@);
    lemma_drop_dollar("$min_players"@, "min_players"@);
    assert("$max_players"@ =~= seq!['$'] + "max_players"@);
    lemma_drop_dollar("$max_players"@, "max_players"@);
    assert("$min_playtime"@ =~= seq!['$'] + "min_playtime"@);
    lemma_drop_dollar("$min_playtime"@, "min_playtime"@);
    assert("$max_playtime"@ =~= seq!['$'] + "max_playtime"@);
    lemma_drop_dollar("$max_playtime"@, "max_playtime"@);
}

/// Removing `$` from a string with no `$` leaves it unchanged.
proof fn lemma_no_dollar(s: Seq<char>)
    requires
        forall|i: int| 0 <= i < s.len() ==> s[i] != '$',
    ensures
        replace_spec(s, seq!['$'], Seq::empty()) == s,
    decreases s.len(),
{
    if s.len() > 0 {
        assert(s.take(1) != seq!['$']) by {
            assert(s.take(1)[0] == s[0]);
        }
        lemma_no_dollar(s.skip(1));
        assert(s == seq![s[0]] + s.skip(1));
    }
}

proof fn lemma_drop_dollar(d: Seq<char>, s: Seq<char>)
    requires
        d == seq!['$'] + s,
        forall|i: int| 0 <= i < s.len() ==> s[i] != '$',
        "$"@ == seq!['$'],
        ""@ == Seq::<char>::empty(),
    ensures
        replace_spec(d, "$"@, ""@) == s,
{
    assert(d.take(1) == seq!['$']);
    assert(d.skip(1) == s);
    lemma_no_dollar(s);
}

/// The parameters bound by the filters of `q` are its filter values.
proof fn lemma_condition_bindings(q: BoardGameQuery)
    ensures
        condition_bindings(conditions_spec(q)) == filter_bindings(q),
{
    lemma_parameter_names();
    let c = conditions_spec(q);
    let s_part: Seq<(Seq<char>, Seq<char>, BindValue)> = match q.search {
        Some(s) => seq![cond("title ~ $title", "$title", BindValue::Text(s))],
        None => Seq::empty(),
    };
    let p_part: Seq<(Seq<char>, Seq<char>, BindValue)> = match q.players {
        Some(p) => seq![
            cond("min_players <= $min_players", "$min_players", BindValue::Number(p)),
            cond(
                "(players_no_limit OR max_players >= $max_players)",
                "$max_players",
                BindValue::Number(p),
            ),
        ],
        None => Seq::empty(),
    };
    let a_part: Seq<(Seq<char>, Seq<char>, BindValue)> = match q.min_playtime {
        Some(p) => seq![cond("min_playtime >= $min_playtime", "$min_playtime", BindValue::Number(p))],
        None => Seq::empty(),
    };
    let b_part: Seq<(Seq<char>, Seq<char>, BindValue)> = match q.max_playtime {
        Some(p) => seq![cond("max_playtime <= $max_playtime", "$max_playtime", BindValue::Number(p))],
        None => Seq::empty(),
    };
    let c1 = s_part;
    let c2 = c1 + p_part;
    let c3 = c2 + a_part;
    assert(c == c3 + b_part);
    let m1 = match q.search {
        Some(s) => Map::empty().insert("title"@, BindValue::Text(s)),
        None => Map::empty(),
    };
    let m2 = match q.players {
        Some(p) => m1.insert("min_players"@, BindValue::Number(p)).insert(
            "max_players"@,
            BindValue::Number(p),
        ),
        None => m1,
    };
    let m3 = match q.min_playtime {
        Some(p) => m2.insert("min_playtime"@, BindValue::Number(p)),
        None => m2,
    };
    match q.search {
        Some(t) => {
            assert(c1.drop_last() =~= Seq::<(Seq<char>, Seq<char>, BindValue)>::empty());
            assert(c1.last() == cond("title ~ $title", "$title", BindValue::Text(t)));
            assert(condition_bindings(c1.drop_last()) =~= Map::empty());
            assert(condition_bindings(c1) =~= m1);
        },
        None => {
            assert(condition_bindings(c1) =~= m1);
        },
    }
    match q.players {
        Some(p) => {
            assert(c2.drop_last().drop_last() =~= c1);
            assert(c2.drop_last().last() == cond(
                "min_players <= $min_players",
                "$min_players",
                BindValue::Number(p),
            ));
            assert(c2.last() == cond(
                "(players_no_limit OR max_players >= $max_players)",
                "$max_players",
                BindValue::Number(p),
            ));
            assert(condition_bindings(c2.drop_last()) =~= m1.insert(
                "min_players"@,
                BindValue::Number(p),
            ));
            assert(condition_bindings(c2) =~= m2);
        },
        None => {
            assert(c2 =~= c1);
        },
    }
    assert(condition_bindings(c3) =~= m3) by {
        if a_part.len() == 1 {
            assert(c3.drop_last() == c2);
        } else {
            assert(c3 == c2);
        }
    }
    if b_part.len() == 1 {
        assert(c.drop_last() == c3);
    } else {
        assert(c == c3);
    }
}

/// The filters of a listing, as the statement builders apply them.
pub fn generate_conditions(query: &BoardGameQuery) -> (conds: Vec<(&'static str, (&'static str, BindValue))>)
    ensures
        conditions_view(conds@) == conditions_spec(*query),
{
    let mut conds: Vec<(&'static str, (&'static str, BindValue))> = Vec::new();
    match &query.search {
        None => {},
        Some(val) => conds.push(("title ~ $title", ("$title", BindValue::Text(val.clone())))),
    }
    match &query.players {
        None => {},
        Some(val) => {
            conds.push(("min_players <= $min_players", ("$min_players", BindValue::Number(*val))));
            conds.push(
                (
                    "(players_no_limit OR max_players >= $max_players)",
                    ("$max_players", BindValue::Number(*val)),
                ),
            );
        },
    }
    match &query.min_playtime {
        None => {},
        Some(val) => conds.push(
            ("min_playtime >= $min_playtime", ("$min_playtime", BindValue::Number(*val))),
        ),
    }
    match &query.max_playtime {
        None => {},
        Some(val) => conds.push(
            ("max_playtime <= $max_playtime", ("$max_playtime", BindValue::Number(*val))),
        ),
    }
    assert(conditions_view(conds@) =~= conditions_spec(*query));
    conds
}

/// Appends the filters of `conds` to `builder`: `WHERE` before the first,
/// `AND` before each other.
fn apply_conditions(builder: &mut DbQueryBuilder, conds: Vec<(&'static str, (&'static str, BindValue))>)
    ensures
        final(builder).segs() == old(builder).segs() + where_segments(conditions_view(conds@)),
        final(builder).binds() == old(builder).binds().union_prefer_right(
            condition_bindings(conditions_view(conds@)),
        ),
{
    let ghost cv = conditions_view(conds@);
    let ghost segs0 = builder.segs();
    let ghost binds0 = builder.binds();
    let n = conds.len();
    let mut i: usize = 0;
    proof {
        assert(cv.take(0) == Seq::<(Seq<char>, Seq<char>, BindValue)>::empty());
        assert(binds0.union_prefer_right(Map::empty()) == binds0);
    }
    while i < n
        invariant
            n == conds@.len(),
            cv == conditions_view(conds@),
            i <= n,
            builder.segs() == segs0 + where_segments(cv.take(i as int)),
            builder.binds() == binds0.union_prefer_right(condition_bindings(cv.take(i as int))),
        decreases n - i,
    {
        let c: &str = conds[i].0;
        let k: &str = conds[i].1.0;
        let v = conds[i].1.1.clone();
        proof {
            assert(cv.take(i + 1).drop_last() == cv.take(i as int));
            assert(cv.take(i + 1).last() == cv[i as int]);
        }
        if i == 0 {
            builder.where_();
        } else {
            builder.and();
        }
        builder.condition(c, (k, v));
        proof {
            assert(builder.segs() =~= segs0 + where_segments(cv.take(i + 1)));
            assert(builder.binds() =~= binds0.union_prefer_right(
                condition_bindings(cv.take(i + 1)),
            ));
        }
        i = i + 1;
    }
    assert(cv.take(n as int) == cv);
}

impl DbQuery {
    /// The statement text.
    pub closed spec fn text(&self) -> Seq<char> {
        self.query@
    }

    /// The statement parameters.
    pub closed spec fn binds(&self) -> Map<Seq<char>, BindValue> {
        bindings_map(self.bindings@)
    }

    /// The statement text.
    pub fn query(&self) -> (q: &String)
        ensures
            q@ == self.text(),
    {
        &self.query
    }

    /// The statement parameters, in the order they were bound; a later
    /// binding of a name replaces an earlier one.
    pub fn bindings(&self) -> (b: &Vec<(String, BindValue)>)
        ensures
            bindings_map(b@) == self.binds(),
    {
        &self.bindings
    }

    /// The statement that lists the board games that `query` asks for,
    /// sorted, and paged when `query.limit` is not zero.
    pub fn select(query: &BoardGameQuery) -> (q: Self)
        requires
            query.limit > 0 ==> query.page * query.limit <= u32::MAX,
        ensures
            q.text() == select_text(*query),
            q.binds() == select_bindings(*query),
    {
        let mut builder = DbQueryBuilder::new();
        builder.select("*", "boardgame");
        apply_conditions(&mut builder, generate_conditions(query));
        let binding1 = query.sort_by.to_string();
        let binding2 = query.sort_direction.to_string();
        builder.order_by(binding1.as_str(), binding2.as_str());
        if query.limit > 0 {
            builder.paginate(query.limit, query.page * query.limit);
        }
        proof {
            lemma_condition_bindings(*query);
            assert(Map::<Seq<char>, BindValue>::empty().union_prefer_right(filter_bindings(*query))
                =~= filter_bindings(*query));
            assert(builder.segs() =~= select_segments(*query));
        }
        builder.build()
    }

    /// The statement that counts the board games that `query` asks for.
    pub fn count(query: &BoardGameQuery) -> (q: Self)
        ensures
            q.text() == count_text(*query),
            q.binds() == filter_bindings(*query),
    {
        let mut builder = DbQueryBuilder::new();
        builder.select("count()", "boardgame");
        apply_conditions(&mut builder, generate_conditions(query));
        builder.group_by("count");
        proof {
            lemma_condition_bindings(*query);
            assert(Map::<Seq<char>, BindValue>::empty().union_prefer_right(filter_bindings(*query))
                =~= filter_bindings(*query));
            assert(builder.segs() =~= count_segments(*query));
        }
        builder.build()
    }
}

/// Two listing queries with the same shape: the same filters present, the
/// same sorting and the same choice of paging.
pub open spec fn same_shape(a: BoardGameQuery, b: BoardGameQuery) -> bool {
    &&& a.search is Some == b.search is Some
    &&& a.players is Some == b.players is Some
    &&& a.min_playtime is Some == b.min_playtime is Some
    &&& a.max_playtime is Some == b.max_playtime is Some
    &&& a.sort_by == b.sort_by
    &&& a.sort_direction == b.sort_direction
    &&& (a.limit > 0) == (b.limit > 0)
}

proof fn lemma_where_segments_by_conditions(
    a: Seq<(Seq<char>, Seq<char>, BindValue)>,
    b: Seq<(Seq<char>, Seq<char>, BindValue)>,
)
    requires
        a.len() == b.len(),
        forall|i: int| 0 <= i < a.len() ==> #[trigger] a[i].0 == b[i].0,
    ensures
        where_segments(a) == where_segments(b),
    decreases a.len(),
{
    if a.len() > 0 {
        lemma_where_segments_by_conditions(a.drop_last(), b.drop_last());
        assert(a.last().0 == b[b.len() - 1].0);
    }
}

/// The statements never hold a value given by a visitor: two listing queries
/// of the same shape give the same listing statement text and the same
/// counting statement text, whatever their search words and numbers.
pub proof fn law_statement_text_is_value_free(a: BoardGameQuery, b: BoardGameQuery)
    requires
        same_shape(a, b),
    ensures
        select_text(a) == select_text(b),
        count_text(a) == count_text(b),
{
    let ca = conditions_spec(a);
    let cb = conditions_spec(b);
    assert(ca.len() == cb.len());
    assert forall|i: int| 0 <= i < ca.len() implies #[trigger] ca[i].0 == cb[i].0 by {}
    lemma_where_segments_by_conditions(ca, cb);
    assert(select_segments(a) == select_segments(b));
    assert(count_segments(a) == count_segments(b));
}

/// Counting and listing filter alike: the parameters of the counting
/// statement are those of the listing statement without its paging.
pub proof fn law_count_and_select_share_filters(q: BoardGameQuery)
    ensures
        select_bindings(q).remove("limit"@).remove("start"@) == filter_bindings(q),
        q.limit == 0 ==> select_bindings(q) == filter_bindings(q),
{
    reveal_strlit("limit");
    reveal_strlit("start");
    reveal_strlit("title");
    reveal_strlit("min_players");
    reveal_strlit("max_players");
    reveal_strlit("min_playtime");
    reveal_strlit("max_playtime");
    let f = filter_bindings(q);
    assert(!f.dom().contains("limit"@)) by {
        assert("limit"@[0] != "title"@[0]);
        assert("limit"@[0] != "min_players"@[0]);
        assert("limit"@[0] != "max_players"@[0]);
        assert("limit"@[0] != "min_playtime"@[0]);
        assert("limit"@[0] != "max_playtime"@[0]);
    }
    assert(!f.dom().contains("start"@)) by {
        assert("start"@[0] != "title"@[0]);
        assert("start"@[0] != "min_players"@[0]);
        assert("start"@[0] != "max_players"@[0]);
        assert("start"@[0] != "min_playtime"@[0]);
        assert("start"@[0] != "max_playtime"@[0]);
    }
    assert("limit"@ != "start"@) by {
        assert("limit"@[0] != "start"@[0]);
    }
    assert(select_bindings(q).remove("limit"@).remove("start"@) =~= f);
}

/// A paged listing starts at the first record of its page.
pub proof fn law_page_start(q: BoardGameQuery)
    requires
        q.limit > 0,
        q.page * q.limit <= u32::MAX,
    ensures
        select_bindings(q)["start"@] == BindValue::Number((q.page * q.limit) as u32),
        select_bindings(q)["limit"@] == BindValue::Number(q.limit),
{
    reveal_strlit("limit");
    reveal_strlit("start");
    assert("limit"@ != "start"@) by {
        assert("limit"@[0] != "start"@[0]);
    }
}

/// The filter segments of the listing statement: those between
/// `FROM boardgame` and `ORDER`.
pub open spec fn listing_filters(q: BoardGameQuery) -> Seq<Seq<char>> {
    let s = select_segments(q);
    s.subrange(4, s.len() - 4 - (if q.limit > 0 {
        1int
    } else {
        0int
    }))
}

/// The statements of a listing: the listing reads every board game that
/// passes its filters, ordered by the sort field in the direction asked
/// for (`desc` for descending, `asc` for ascending), paged when a page size
/// is set; the count reads the same board games, through the very same
/// filters, so that the number of pages fits the listing.
pub proof fn law_listing_and_count_statements(q: BoardGameQuery)
    ensures
        select_segments(q) == seq!["SELECT"@, "*"@, "FROM"@, "boardgame"@] + listing_filters(q)
            + seq![
            "ORDER"@,
            q.sort_by.name(),
            "NUMERIC"@,
            if q.sort_direction == DbQuerySortDirection::DESC {
                "desc"@
            } else {
                "asc"@
            },
        ] + if q.limit > 0 {
            seq!["LIMIT $limit START $start"@]
        } else {
            Seq::<Seq<char>>::empty()
        },
        count_segments(q) == seq!["SELECT"@, "count()"@, "FROM"@, "boardgame"@] + listing_filters(
            q,
        ) + seq!["GROUP"@, "count"@],
{
    lemma_listing_filters(q);
    let w = where_segments(conditions_spec(q));
    let s = select_segments(q);
    assert(s =~= seq!["SELECT"@, "*"@, "FROM"@, "boardgame"@] + w + seq![
        "ORDER"@,
        q.sort_by.name(),
        "NUMERIC"@,
        q.sort_direction.name(),
    ] + if q.limit > 0 {
        seq!["LIMIT $limit START $start"@]
    } else {
        Seq::<Seq<char>>::empty()
    });
}

proof fn lemma_listing_filters(q: BoardGameQuery)
    ensures
        listing_filters(q) == where_segments(conditions_spec(q)),
{
    let w = where_segments(conditions_spec(q));
    let s = select_segments(q);
    let p: int = if q.limit > 0 {
        1
    } else {
        0
    };
    assert(s.len() == 8 + w.len() + p);
    assert(s.subrange(4, s.len() - 4 - p) =~= w);
}

/// What the segments of a list of filters hold: `WHERE` when there is a
/// filter, `AND` when there are two or more, and the filters' conditions.
proof fn lemma_where_contains(c: Seq<(Seq<char>, Seq<char>, BindValue)>, x: Seq<char>)
    ensures
        where_segments(c).contains(x) <==> (c.len() > 0 && x == "WHERE"@) || (c.len() > 1 && x
            == "AND"@) || (exists|j: int| 0 <= j < c.len() && #[trigger] c[j].0 == x),
        where_segments(c).len() == 2 * c.len(),
        c.len() > 0 ==> where_segments(c)[0] == "WHERE"@,
    decreases c.len(),
{
    if c.len() > 0 {
        let d = c.drop_last();
        lemma_where_contains(d, x);
        let w = where_segments(c);
        let wd = where_segments(d);
        let tail = seq![if c.len() == 1 { "WHERE"@ } else { "AND"@ }, c.last().0];
        assert(w == wd + tail);
        if w.contains(x) {
            let i = choose|i: int| 0 <= i < w.len() && w[i] == x;
            if i < wd.len() {
                assert(wd[i] == x);
                assert(wd.contains(x));
                if exists|j: int| 0 <= j < d.len() && #[trigger] d[j].0 == x {
                    let j = choose|j: int| 0 <= j < d.len() && #[trigger] d[j].0 == x;
                    assert(c[j].0 == x);
                }
            } else if i == wd.len() {
            } else {
                assert(c[c.len() - 1].0 == x);
            }
        }
        if (c.len() > 0 && x == "WHERE"@) || (c.len() > 1 && x == "AND"@) || (exists|j: int|
            0 <= j < c.len() && #[trigger] c[j].0 == x) {
            if c.len() == 1 && x == "WHERE"@ {
                assert(w[0] == x);
            } else if c.len() > 1 && x == "WHERE"@ {
                assert(wd.contains(x));
                let i = choose|i: int| 0 <= i < wd.len() && wd[i] == x;
                assert(w[i] == x);
            } else if c.len() > 1 && x == "AND"@ {
                assert(w[wd.len() as int] == x);
            } else {
                let j = choose|j: int| 0 <= j < c.len() && #[trigger] c[j].0 == x;
                if j == c.len() - 1 {
                    assert(w[wd.len() + 1int] == x);
                } else {
                    assert(d[j].0 == x);
                    assert(wd.contains(x));
                    let i = choose|i: int| 0 <= i < wd.len() && wd[i] == x;
                    assert(w[i] == x);
                }
            }
        }
        if c.len() > 1 {
            assert(w[0] == wd[0]);
        }
    }
}

/// The texts of the statement's segments of filters are told apart.
proof fn lemma_filter_texts_differ()
    ensures
        "title ~ $title"@ != "WHERE"@,
        "title ~ $title"@ != "AND"@,
        "title ~ $title"@ != "min_players <= $min_players"@,
        "title ~ $title"@ != "(players_no_limit OR max_players >= $max_players)"@,
        "title ~ $title"@ != "min_playtime >= $min_playtime"@,
        "title ~ $title"@ != "max_playtime <= $max_playtime"@,
        "min_players <= $min_players"@ != "WHERE"@,
        "min_players <= $min_players"@ != "AND"@,
        "min_players <= $min_players"@ != "(players_no_limit OR max_players >= $max_players)"@,
        "min_players <= $min_players"@ != "min_playtime >= $min_playtime"@,
        "min_players <= $min_players"@ != "max_playtime <= $max_playtime"@,
        "(players_no_limit OR max_players >= $max_players)"@ != "WHERE"@,
        "(players_no_limit OR max_players >= $max_players)"@ != "AND"@,
        "(players_no_limit OR max_players >= $max_players)"@ != "min_playtime >= $min_playtime"@,
        "(players_no_limit OR max_players >= $max_players)"@ != "max_playtime <= $max_playtime"@,
        "min_playtime >= $min_playtime"@ != "WHERE"@,
        "min_playtime >= $min_playtime"@ != "AND"@,
        "min_playtime >= $min_playtime"@ != "max_playtime <= $max_playtime"@,
        "max_playtime <= $max_playtime"@ != "WHERE"@,
        "max_playtime <= $max_playtime"@ != "AND"@,
{
    reveal_strlit("title ~ $title");
    reveal_strlit("WHERE");
    reveal_strlit("AND");
    reveal_strlit("min_players <= $min_players");
    reveal_strlit("(players_no_limit OR max_players >= $max_players)");
    reveal_strlit("min_playtime >= $min_playtime");
    reveal_strlit("max_playtime <= $max_playtime");
    let t = "title ~ $title"@;
    let wh = "WHERE"@;
    let an = "AND"@;
    let a = "min_players <= $min_players"@;
    let b = "(players_no_limit OR max_players >= $max_players)"@;
    let m = "min_playtime >= $min_playtime"@;
    let x = "max_playtime <= $max_playtime"@;
    assert(t[0] != wh[0] && t[0] != an[0] && t[0] != a[0] && t[0] != b[0] && t[0] != m[0] && t[0]
        != x[0]);
    assert(a[0] != wh[0] && a[0] != an[0] && a[0] != b[0] && a[8] != m[8] && a[1] != x[1]);
    assert(b[0] != wh[0] && b[0] != an[0] && b[0] != m[0] && b[0] != x[0]);
    assert(m[0] != wh[0] && m[0] != an[0] && m[1] != x[1]);
    assert(x[0] != wh[0] && x[0] != an[0]);
}

/// The statements filter by what the listing asks for and by nothing else:
/// the search words' condition is there exactly when a search is set, the
/// two player conditions exactly when a number of players is set, and each
/// playtime condition exactly when its bound is set; the filters start with
/// `WHERE`, and there are none when nothing is filtered.
pub proof fn law_filters_follow_the_listing(q: BoardGameQuery)
    ensures
        listing_filters(q).contains("title ~ $title"@) <==> q.search is Some,
        listing_filters(q).contains("min_players <= $min_players"@) <==> q.players is Some,
        listing_filters(q).contains("(players_no_limit OR max_players >= $max_players)"@)
            <==> q.players is Some,
        listing_filters(q).contains("min_playtime >= $min_playtime"@) <==> q.min_playtime is Some,
        listing_filters(q).contains("max_playtime <= $max_playtime"@) <==> q.max_playtime is Some,
        listing_filters(q).len() == 0 <==> (q.search is None && q.players is None
            && q.min_playtime is None && q.max_playtime is None),
        listing_filters(q).len() > 0 ==> listing_filters(q)[0] == "WHERE"@,
{
    lemma_listing_filters(q);
    lemma_filter_texts_differ();
    let c = conditions_spec(q);
    let t = "title ~ $title"@;
    let a = "min_players <= $min_players"@;
    let b = "(players_no_limit OR max_players >= $max_players)"@;
    let m = "min_playtime >= $min_playtime"@;
    let x = "max_playtime <= $max_playtime"@;
    lemma_where_contains(c, t);
    lemma_where_contains(c, a);
    lemma_where_contains(c, b);
    lemma_where_contains(c, m);
    lemma_where_contains(c, x);
    let ns: int = if q.search is Some {
        1
    } else {
        0
    };
    let np: int = if q.players is Some {
        2
    } else {
        0
    };
    let nm: int = if q.min_playtime is Some {
        1
    } else {
        0
    };
    let nx: int = if q.max_playtime is Some {
        1
    } else {
        0
    };
    assert(c.len() == ns + np + nm + nx);
    assert forall|j: int| 0 <= j < c.len() implies {
        let y = #[trigger] c[j].0;
        &&& (j < ns ==> y == t)
        &&& (ns <= j < ns + 1 && np > 0 ==> y == a)
        &&& (ns + 1 <= j < ns + np ==> y == b)
        &&& (ns + np <= j < ns + np + nm ==> y == m)
        &&& (ns + np + nm <= j ==> y == x)
    } by {}
    if q.search is Some {
        assert(c[0].0 == t);
    }
    if q.players is Some {
        assert(c[ns].0 == a);
        assert(c[ns + 1].0 == b);
    }
    if q.min_playtime is Some {
        assert(c[ns + np].0 == m);
    }
    if q.max_playtime is Some {
        assert(c[ns + np + nm].0 == x);
    }
}

/// The filters bind the listing's own values: the search words under
/// `title`, the number of players under both `min_players` and
/// `max_players`, and each playtime bound under its name; a filter that is
/// not set binds nothing.
pub proof fn law_filters_bind_the_listing_values(q: BoardGameQuery)
    ensures
        q.search is Some ==> filter_bindings(q).dom().contains("title"@) && filter_bindings(
            q,
        )["title"@] == BindValue::Text(q.search->0),
        q.search is None ==> !filter_bindings(q).dom().contains("title"@),
        q.players is Some ==> filter_bindings(q).dom().contains("min_players"@) && filter_bindings(
            q,
        )["min_players"@] == BindValue::Number(q.players->0) && filter_bindings(q).dom().contains(
            "max_players"@,
        ) && filter_bindings(q)["max_players"@] == BindValue::Number(q.players->0),
        q.players is None ==> !filter_bindings(q).dom().contains("min_players"@)
            && !filter_bindings(q).dom().contains("max_players"@),
        q.min_playtime is Some ==> filter_bindings(q).dom().contains("min_playtime"@)
            && filter_bindings(q)["min_playtime"@] == BindValue::Number(q.min_playtime->0),
        q.min_playtime is None ==> !filter_bindings(q).dom().contains("min_playtime"@),
        q.max_playtime is Some ==> filter_bindings(q).dom().contains("max_playtime"@)
            && filter_bindings(q)["max_playtime"@] == BindValue::Number(q.max_playtime->0),
        q.max_playtime is None ==> !filter_bindings(q).dom().contains("max_playtime"@),
{
    reveal_strlit("title");
    reveal_strlit("min_players");
    reveal_strlit("max_players");
    reveal_strlit("min_playtime");
    reveal_strlit("max_playtime");
    let t = "title"@;
    let a = "min_players"@;
    let b = "max_players"@;
    let m = "min_playtime"@;
    let x = "max_playtime"@;
    assert(t[0] != a[0] && t[0] != b[0] && t[0] != m[0] && t[0] != x[0]);
    assert(a[1] != b[1] && a[8] != m[8] && a[1] != x[1]);
    assert(b[1] != m[1] && b[8] != x[8]);
    assert(m[1] != x[1]);
}

} // verus!
