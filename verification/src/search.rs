//! The image search: turning a list of filter conditions into one SQL query
//! over the index with positional parameters.
use vstd::prelude::*;
use crate::text::{
    append_decimal, count_char, decimal, lemma_count_absent, lemma_count_concat,
    lemma_decimal_lacks, push_char, str_equal,
};

verus! {

/// What `str::to_uppercase` gives back for a text (Unicode upper-casing).
pub uninterp spec fn unicode_uppercase(s: Seq<char>) -> Seq<char>;

/// `str::to_uppercase`: the Unicode upper-case form of `s`, named
/// `unicode_uppercase`; nothing else is claimed of it.
#[verifier::external_body]
fn to_uppercase(s: &str) -> (r: String)
    ensures
        r@ == unicode_uppercase(s@),
{
    s.to_uppercase()
}

/// One search filter as the front end sends it: every key is optional.
pub struct SearchCondition {
    /// `OR` joins this filter to the previous ones; anything else means `AND`.
    pub logic: Option<String>,
    /// `NE`, `GT`, `GE`, `LT`, `LE`, `LIKE`; anything else means `=`.
    pub operator: Option<String>,
    /// Which metadata the filter looks at.
    pub field: Option<String>,
    /// The value compared against; a filter without one is skipped.
    pub value: Option<String>,
}

/// The query text and the values bound to its `?` placeholders, in order.
pub struct SearchQuery {
    pub sql: String,
    pub params: Vec<String>,
}

/// The text of an optional string, or the empty text.
pub open spec fn text_or_empty(o: Option<String>) -> Seq<char> {
    match o {
        Some(s) => s@,
        None => Seq::empty(),
    }
}

/// The connective for a filter: `OR` when its logic upper-cases to `OR`.
pub open spec fn logic_word(logic: Option<String>) -> Seq<char> {
    match logic {
        Some(l) => if unicode_uppercase(l@) == "OR"@ {
            "OR"@
        } else {
            "AND"@
        },
        None => "AND"@,
    }
}

/// The SQL comparison for an (upper-cased) operator name.
pub open spec fn operator_for(u: Seq<char>) -> Seq<char> {
    if u == "NE"@ {
        "!="@
    } else if u == "GT"@ {
        ">"@
    } else if u == "GE"@ {
        ">="@
    } else if u == "LT"@ {
        "<"@
    } else if u == "LE"@ {
        "<="@
    } else if u == "LIKE"@ {
        "LIKE"@
    } else {
        "="@
    }
}

/// The SQL comparison a filter uses.
pub open spec fn operator_symbol(op: Option<String>) -> Seq<char> {
    match op {
        Some(o) => operator_for(unicode_uppercase(o@)),
        None => "="@,
    }
}

/// Fields that look into the players listed in the metadata; each such
/// filter gets an alias of its own.
pub open spec fn is_player_field(field: Seq<char>) -> bool {
    field == "player"@ || field == "player_name"@ || field == "player_id"@
}

/// The alias `p<n>` of the `n`-th player filter.
pub open spec fn player_alias(n: nat) -> Seq<char> {
    "p"@ + decimal(n)
}

/// A filter on a key of the players array: true when some player matches.
pub open spec fn player_segment(key: Seq<char>, n: nat, op: Seq<char>) -> Seq<char> {
    "EXISTS (\n                        SELECT 1 FROM json_each(metadata_json, '$.players') AS "@
        + player_alias(n) + "\n                        WHERE json_extract("@ + player_alias(n)
        + ".value, '"@ + key + "') "@ + op + " "@ + seq!['?'] + "\n                    )"@
}

/// A filter on one JSON path of the metadata.
pub open spec fn json_segment(path: Seq<char>, op: Seq<char>) -> Seq<char> {
    "json_extract(metadata_json, '"@ + path + "') "@ + op + " "@ + seq!['?']
}

/// The JSON path a plain metadata field reads, if it is one.
pub open spec fn json_path_of(field: Seq<char>) -> Option<Seq<char>> {
    if field == "world"@ || field == "world_name"@ {
        Some("$.world.name"@)
    } else if field == "world_id"@ {
        Some("$.world.id"@)
    } else if field == "instance_id"@ {
        Some("$.world.instanceId"@)
    } else if field == "author_id"@ {
        Some("$.author.id"@)
    } else if field == "author_name"@ {
        Some("$.author.displayName"@)
    } else if field == "application"@ {
        Some("$.application"@)
    } else if field == "version"@ {
        Some("$.version"@)
    } else if field == "timestamp"@ {
        Some("$.timestamp"@)
    } else {
        None
    }
}

/// The SQL condition for one filter; `n` is the alias number a player
/// filter gets. Unknown fields fall back to a match on the file path.
pub open spec fn segment_text(field: Seq<char>, op: Seq<char>, n: nat) -> Seq<char> {
    if field == "player"@ || field == "player_name"@ {
        player_segment("$.displayName"@, n, op)
    } else if field == "player_id"@ {
        player_segment("$.id"@, n, op)
    } else if json_path_of(field) is Some {
        json_segment(json_path_of(field)->0, op)
    } else if field == "created_at"@ {
        "file_created_at "@ + op + " "@ + seq!['?']
    } else {
        "file_path LIKE "@ + seq!['?']
    }
}

/// The value bound for a filter: wrapped in `%` for `LIKE`.
pub open spec fn bind_value(op: Seq<char>, value: Seq<char>) -> Seq<char> {
    if op == "LIKE"@ {
        "%"@ + value + "%"@
    } else {
        value
    }
}

/// The effect of one filter on (segments, bound values, player filters so far).
pub open spec fn plan_step(
    plan: (Seq<Seq<char>>, Seq<Seq<char>>, nat),
    c: SearchCondition,
) -> (Seq<Seq<char>>, Seq<Seq<char>>, nat) {
    let value = text_or_empty(c.value);
    if value.len() == 0 {
        plan
    } else {
        let field = text_or_empty(c.field);
        let op = operator_symbol(c.operator);
        let players = if is_player_field(field) {
            plan.2 + 1
        } else {
            plan.2
        };
        let seg = segment_text(field, op, players);
        let joined = if plan.0.len() > 0 {
            logic_word(c.logic) + " "@ + seg
        } else {
            seg
        };
        (plan.0.push(joined), plan.1.push(bind_value(op, value)), players)
    }
}

/// The segments, bound values and player-filter count for a list of filters,
/// taken in order.
pub open spec fn search_plan(conds: Seq<SearchCondition>) -> (
    Seq<Seq<char>>,
    Seq<Seq<char>>,
    nat,
)
    decreases conds.len(),
{
    if conds.len() == 0 {
        (Seq::empty(), Seq::empty(), 0)
    } else {
        plan_step(search_plan(conds.drop_last()), conds.last())
    }
}

/// Texts joined by single spaces.
pub open spec fn join_spaced(segs: Seq<Seq<char>>) -> Seq<char>
    decreases segs.len(),
{
    if segs.len() == 0 {
        Seq::empty()
    } else if segs.len() == 1 {
        segs[0]
    } else {
        join_spaced(segs.drop_last()) + " "@ + segs.last()
    }
}

/// The fixed start of every search query.
pub open spec fn search_base() -> Seq<char> {
    "SELECT DISTINCT file_path, thumbnail\n         FROM images\n         WHERE json_valid(metadata_json) = 1"@
}

/// The full query text for a list of filters.
pub open spec fn search_sql(conds: Seq<SearchCondition>) -> Seq<char> {
    let segs = search_plan(conds).0;
    if segs.len() == 0 {
        search_base()
    } else {
        search_base() + " AND ("@ + join_spaced(segs) + ")"@
    }
}

fn logic_keyword(logic: &Option<String>) -> (r: &'static str)
    ensures
        r@ == logic_word(*logic),
{
    match logic {
        Some(l) => {
            let u = to_uppercase(l.as_str());
            if str_equal(u.as_str(), "OR") {
                "OR"
            } else {
                "AND"
            }
        },
        None => "AND",
    }
}

fn operator_keyword(op: &Option<String>) -> (r: &'static str)
    ensures
        r@ == operator_symbol(*op),
{
    match op {
        Some(o) => {
            let u = to_uppercase(o.as_str());
            let u = u.as_str();
            if str_equal(u, "NE") {
                "!="
            } else if str_equal(u, "GT") {
                ">"
            } else if str_equal(u, "GE") {
                ">="
            } else if str_equal(u, "LT") {
                "<"
            } else if str_equal(u, "LE") {
                "<="
            } else if str_equal(u, "LIKE") {
                "LIKE"
            } else {
                "="
            }
        },
        None => "=",
    }
}

fn append_player_segment(out: &mut String, key: &str, n: usize, op: &str)
    ensures
        final(out)@ == old(out)@ + player_segment(key@, n as nat, op@),
{
    out.append(
        "EXISTS (\n                        SELECT 1 FROM json_each(metadata_json, '$.players') AS ",
    );
    out.append("p");
    append_decimal(out, n);
    out.append("\n                        WHERE json_extract(");
    out.append("p");
    append_decimal(out, n);
    out.append(".value, '");
    out.append(key);
    out.append("') ");
    out.append(op);
    out.append(" ");
    push_char(out, '?');
    out.append("\n                    )");
    assert(out@ =~= old(out)@ + player_segment(key@, n as nat, op@));
}

fn append_json_segment(out: &mut String, path: &str, op: &str)
    ensures
        final(out)@ == old(out)@ + json_segment(path@, op@),
{
    out.append("json_extract(metadata_json, '");
    out.append(path);
    out.append("') ");
    out.append(op);
    out.append(" ");
    push_char(out, '?');
    assert(out@ =~= old(out)@ + json_segment(path@, op@));
}

fn json_path(field: &str) -> (r: Option<&'static str>)
    ensures
        match json_path_of(field@) {
            Some(p) => r matches Some(q) && q@ == p,
            None => r is None,
        },
{
    if str_equal(field, "world") || str_equal(field, "world_name") {
        Some("$.world.name")
    } else if str_equal(field, "world_id") {
        Some("$.world.id")
    } else if str_equal(field, "instance_id") {
        Some("$.world.instanceId")
    } else if str_equal(field, "author_id") {
        Some("$.author.id")
    } else if str_equal(field, "author_name") {
        Some("$.author.displayName")
    } else if str_equal(field, "application") {
        Some("$.application")
    } else if str_equal(field, "version") {
        Some("$.version")
    } else if str_equal(field, "timestamp") {
        Some("$.timestamp")
    } else {
        None
    }
}

fn append_segment(out: &mut String, field: &str, op: &str, n: usize)
    ensures
        final(out)@ == old(out)@ + segment_text(field@, op@, n as nat),
{
    if str_equal(field, "player") || str_equal(field, "player_name") {
        append_player_segment(out, "$.displayName", n, op);
    } else if str_equal(field, "player_id") {
        append_player_segment(out, "$.id", n, op);
    } else {
        match json_path(field) {
            Some(path) => {
                append_json_segment(out, path, op);
            },
            None => {
                if str_equal(field, "created_at") {
                    out.append("file_created_at ");
                    out.append(op);
                    out.append(" ");
                    push_char(out, '?');
                    assert(out@ =~= old(out)@ + segment_text(field@, op@, n as nat));
                } else {
                    out.append("file_path LIKE ");
                    push_char(out, '?');
                    assert(out@ =~= old(out)@ + segment_text(field@, op@, n as nat));
                }
            },
        }
    }
}

proof fn lemma_plan_shape(conds: Seq<SearchCondition>)
    ensures
        search_plan(conds).0.len() == search_plan(conds).1.len(),
        search_plan(conds).0.len() <= conds.len(),
        search_plan(conds).2 <= conds.len(),
    decreases conds.len(),
{
    if conds.len() > 0 {
        lemma_plan_shape(conds.drop_last());
    }
}

/// Builds the search query for a list of filters.
///
/// Filters without a value are skipped. Each remaining filter adds one
/// condition; from the second one on it is joined by its own `AND`/`OR`.
/// Every condition carries exactly one `?`, bound to the filter's value.
pub fn build_search_query(conditions: &Vec<SearchCondition>) -> (r: SearchQuery)
    ensures
        r.sql@ == search_sql(conditions@),
        r.params@.len() == search_plan(conditions@).1.len(),
        forall|k: int|
            0 <= k < r.params@.len() ==> #[trigger] r.params@[k]@ == search_plan(conditions@).1[k],
{
    let n = conditions.len();
    let mut joined = String::new();
    let mut params: Vec<String> = Vec::new();
    let mut players: usize = 0;
    let mut i: usize = 0;
    while i < n
        invariant
            n == conditions@.len(),
            i <= n,
            ({
                let plan = search_plan(conditions@.take(i as int));
                &&& joined@ == join_spaced(plan.0)
                &&& params@.len() == plan.1.len()
                &&& plan.0.len() == plan.1.len()
                &&& forall|k: int| 0 <= k < params@.len() ==> #[trigger] params@[k]@ == plan.1[k]
                &&& players as nat == plan.2
                &&& plan.2 <= i
            }),
        decreases n - i,
    {
        let ghost prev = search_plan(conditions@.take(i as int));
        assert(conditions@.take(i + 1).drop_last() =~= conditions@.take(i as int));
        assert(conditions@.take(i + 1).last() == conditions@[i as int]);
        let c = &conditions[i];
        let logic = logic_keyword(&c.logic);
        let op = operator_keyword(&c.operator);
        let field: &str = match &c.field {
            Some(f) => f.as_str(),
            None => "",
        };
        let value: &str = match &c.value {
            Some(v) => v.as_str(),
            None => "",
        };
        proof {
            reveal_strlit("");
        }
        if !value.is_empty() {
            if str_equal(field, "player") || str_equal(field, "player_name") || str_equal(
                field,
                "player_id",
            ) {
                players = players + 1;
            }
            let first = params.len() == 0;
            let mut seg = String::new();
            if !first {
                seg.append(logic);
                seg.append(" ");
            }
            append_segment(&mut seg, field, op, players);
            if !first {
                joined.append(" ");
            }
            joined.append(seg.as_str());
            let bound = if str_equal(op, "LIKE") {
                let mut b = String::from_str("%");
                b.append(value);
                b.append("%");
                b
            } else {
                String::from_str(value)
            };
            params.push(bound);
            proof {
                let cur = search_plan(conditions@.take(i + 1));
                assert(cur == plan_step(prev, conditions@[i as int]));
                assert(field@ == text_or_empty(c.field));
                assert(value@ == text_or_empty(c.value));
                let segv = if prev.0.len() > 0 {
                    logic_word(c.logic) + " "@ + segment_text(field@, op@, players as nat)
                } else {
                    segment_text(field@, op@, players as nat)
                };
                assert(seg@ =~= segv);
                assert(cur.0 == prev.0.push(segv));
                assert(cur.0.len() == prev.0.len() + 1);
                assert(cur.0.drop_last() =~= prev.0);
                assert(joined@ =~= join_spaced(cur.0));
                assert(forall|k: int|
                    0 <= k < params@.len() ==> #[trigger] params@[k]@ == cur.1[k]);
            }
        } else {
            proof {
                let cur = search_plan(conditions@.take(i + 1));
                assert(value@ == text_or_empty(c.value));
                assert(cur == plan_step(prev, conditions@[i as int]));
                assert(cur == prev);
            }
        }
        i = i + 1;
    }
    assert(conditions@.take(n as int) =~= conditions@);
    let mut sql = String::from_str(
        "SELECT DISTINCT file_path, thumbnail\n         FROM images\n         WHERE json_valid(metadata_json) = 1",
    );
    if params.len() > 0 {
        sql.append(" AND (");
        sql.append(joined.as_str());
        sql.append(")");
    }
    SearchQuery { sql, params }
}

proof fn lemma_clean_concat(a: Seq<char>, b: Seq<char>, c: char)
    requires
        !a.contains(c),
        !b.contains(c),
    ensures
        !(a + b).contains(c),
{
    if (a + b).contains(c) {
        let k = choose|k: int| 0 <= k < (a + b).len() && (a + b)[k] == c;
        if k < a.len() {
            assert(a[k] == c);
        } else {
            assert(b[k - a.len()] == c);
        }
    }
}

proof fn lemma_single_mark(x: Seq<char>, y: Seq<char>)
    requires
        !x.contains('?'),
        !y.contains('?'),
    ensures
        count_char(x + seq!['?'] + y, '?') == 1,
{
    lemma_count_absent(x, '?');
    lemma_count_absent(y, '?');
    assert(count_char(seq!['?'], '?') == 1) by {
        assert(seq!['?'].drop_last() =~= Seq::<char>::empty());
        reveal_with_fuel(count_char, 2);
    }
    lemma_count_concat(x, seq!['?'], '?');
    lemma_count_concat(x + seq!['?'], y, '?');
}

proof fn lemma_operator_clean(op: Option<String>)
    ensures
        !operator_symbol(op).contains('?'),
{
    reveal_strlit("!=");
    reveal_strlit(">");
    reveal_strlit(">=");
    reveal_strlit("<");
    reveal_strlit("<=");
    reveal_strlit("LIKE");
    reveal_strlit("=");
    let o = operator_symbol(op);
    assert(o == "!="@ || o == ">"@ || o == ">="@ || o == "<"@ || o == "<="@ || o == "LIKE"@
        || o == "="@);
}

proof fn lemma_logic_clean(logic: Option<String>)
    ensures
        !logic_word(logic).contains('?'),
{
    reveal_strlit("OR");
    reveal_strlit("AND");
}

proof fn lemma_alias_clean(n: nat)
    ensures
        !player_alias(n).contains('?'),
{
    reveal_strlit("p");
    lemma_decimal_lacks(n, '?');
    lemma_clean_concat("p"@, decimal(n), '?');
}

proof fn lemma_player_mark(key: Seq<char>, n: nat, op: Seq<char>)
    requires
        !op.contains('?'),
        !key.contains('?'),
    ensures
        count_char(player_segment(key, n, op), '?') == 1,
{
    let l1 = "EXISTS (\n                        SELECT 1 FROM json_each(metadata_json, '$.players') AS "@;
    let l2 = "\n                        WHERE json_extract("@;
    let l3 = ".value, '"@;
    let l4 = "') "@;
    let l5 = " "@;
    let l6 = "\n                    )"@;
    reveal_strlit("EXISTS (\n                        SELECT 1 FROM json_each(metadata_json, '$.players') AS ");
    reveal_strlit("\n                        WHERE json_extract(");
    reveal_strlit(".value, '");
    reveal_strlit("') ");
    reveal_strlit(" ");
    reveal_strlit("\n                    )");
    let a = player_alias(n);
    lemma_alias_clean(n);
    lemma_clean_concat(l1, a, '?');
    lemma_clean_concat(l1 + a, l2, '?');
    lemma_clean_concat(l1 + a + l2, a, '?');
    lemma_clean_concat(l1 + a + l2 + a, l3, '?');
    lemma_clean_concat(l1 + a + l2 + a + l3, key, '?');
    lemma_clean_concat(l1 + a + l2 + a + l3 + key, l4, '?');
    lemma_clean_concat(l1 + a + l2 + a + l3 + key + l4, op, '?');
    lemma_clean_concat(l1 + a + l2 + a + l3 + key + l4 + op, l5, '?');
    lemma_single_mark(l1 + a + l2 + a + l3 + key + l4 + op + l5, l6);
}

proof fn lemma_segment_single_mark(field: Seq<char>, op: Seq<char>, n: nat)
    requires
        !op.contains('?'),
    ensures
        count_char(segment_text(field, op, n), '?') == 1,
{
    let l4 = "') "@;
    let l5 = " "@;
    reveal_strlit("') ");
    reveal_strlit(" ");
    reveal_strlit("$.displayName");
    reveal_strlit("$.id");
    reveal_strlit("json_extract(metadata_json, '");
    reveal_strlit("file_created_at ");
    reveal_strlit("file_path LIKE ");
    reveal_strlit("$.world.name");
    reveal_strlit("$.world.id");
    reveal_strlit("$.world.instanceId");
    reveal_strlit("$.author.id");
    reveal_strlit("$.author.displayName");
    reveal_strlit("$.application");
    reveal_strlit("$.version");
    reveal_strlit("$.timestamp");
    assert(!Seq::<char>::empty().contains('?'));
    reveal_strlit("player");
    reveal_strlit("player_name");
    reveal_strlit("player_id");
    if field == "player"@ || field == "player_name"@ {
        lemma_player_mark("$.displayName"@, n, op);
    } else if field == "player_id"@ {
        lemma_player_mark("$.id"@, n, op);
    } else if json_path_of(field) is Some {
        let path = json_path_of(field)->0;
        let j = "json_extract(metadata_json, '"@;
        lemma_clean_concat(j, path, '?');
        lemma_clean_concat(j + path, l4, '?');
        lemma_clean_concat(j + path + l4, op, '?');
        lemma_clean_concat(j + path + l4 + op, l5, '?');
        lemma_single_mark(j + path + l4 + op + l5, Seq::empty());
        assert(j + path + l4 + op + l5 + seq!['?'] + Seq::<char>::empty() =~= j + path + l4 + op
            + l5 + seq!['?']);
    } else if field == "created_at"@ {
        let f = "file_created_at "@;
        lemma_clean_concat(f, op, '?');
        lemma_clean_concat(f + op, l5, '?');
        lemma_single_mark(f + op + l5, Seq::empty());
        assert(f + op + l5 + seq!['?'] + Seq::<char>::empty() =~= f + op + l5 + seq!['?']);
    } else {
        let f = "file_path LIKE "@;
        lemma_single_mark(f, Seq::empty());
        assert(f + seq!['?'] + Seq::<char>::empty() =~= f + seq!['?']);
    }
}

proof fn lemma_plan_marks(conds: Seq<SearchCondition>)
    ensures
        forall|k: int|
            0 <= k < search_plan(conds).0.len() ==> count_char(
                #[trigger] search_plan(conds).0[k],
                '?',
            ) == 1,
    decreases conds.len(),
{
    if conds.len() > 0 {
        let prev = search_plan(conds.drop_last());
        lemma_plan_marks(conds.drop_last());
        let c = conds.last();
        let value = text_or_empty(c.value);
        if value.len() > 0 {
            let field = text_or_empty(c.field);
            let op = operator_symbol(c.operator);
            let players = if is_player_field(field) {
                prev.2 + 1
            } else {
                prev.2
            };
            lemma_operator_clean(c.operator);
            lemma_segment_single_mark(field, op, players);
            if prev.0.len() > 0 {
                lemma_logic_clean(c.logic);
                reveal_strlit(" ");
                lemma_clean_concat(logic_word(c.logic), " "@, '?');
                lemma_count_absent(logic_word(c.logic) + " "@, '?');
                lemma_count_concat(
                    logic_word(c.logic) + " "@,
                    segment_text(field, op, players),
                    '?',
                );
            }
        }
    }
}

proof fn lemma_join_marks(segs: Seq<Seq<char>>)
    requires
        forall|k: int| 0 <= k < segs.len() ==> count_char(#[trigger] segs[k], '?') == 1,
    ensures
        count_char(join_spaced(segs), '?') == segs.len(),
    decreases segs.len(),
{
    if segs.len() == 0 {
        assert(count_char(Seq::<char>::empty(), '?') == 0);
    } else if segs.len() == 1 {
        assert(count_char(segs[0], '?') == 1);
    } else {
        let front = segs.drop_last();
        assert forall|k: int| 0 <= k < front.len() implies count_char(#[trigger] front[k], '?')
            == 1 by {
            assert(front[k] == segs[k]);
        }
        lemma_join_marks(front);
        reveal_strlit(" ");
        lemma_count_absent(" "@, '?');
        lemma_count_concat(join_spaced(front), " "@, '?');
        assert(count_char(segs.last(), '?') == 1);
        lemma_count_concat(join_spaced(front) + " "@, segs.last(), '?');
    }
}

/// Every value bound to a search query has exactly one `?` in its text: the
/// number of placeholders equals the number of bound values.
pub proof fn search_sql_placeholders_match(conds: Seq<SearchCondition>)
    ensures
        count_char(search_sql(conds), '?') == search_plan(conds).1.len(),
{
    let segs = search_plan(conds).0;
    lemma_plan_shape(conds);
    lemma_plan_marks(conds);
    reveal_strlit(
        "SELECT DISTINCT file_path, thumbnail\n         FROM images\n         WHERE json_valid(metadata_json) = 1",
    );
    lemma_count_absent(search_base(), '?');
    if segs.len() > 0 {
        reveal_strlit(" AND (");
        reveal_strlit(")");
        lemma_clean_concat(search_base(), " AND ("@, '?');
        lemma_count_absent(search_base() + " AND ("@, '?');
        lemma_count_absent(")"@, '?');
        lemma_join_marks(segs);
        lemma_count_concat(search_base() + " AND ("@, join_spaced(segs), '?');
        lemma_count_concat(search_base() + " AND ("@ + join_spaced(segs), ")"@, '?');
    }
}

/// A filter without a value leaves the query and its bound values as they
/// were.
pub proof fn filters_without_value_change_nothing(conds: Seq<SearchCondition>, c: SearchCondition)
    requires
        text_or_empty(c.value).len() == 0,
    ensures
        search_plan(conds.push(c)) == search_plan(conds),
        search_sql(conds.push(c)) == search_sql(conds),
{
    assert(conds.push(c).drop_last() =~= conds);
}

/// What a filter contributes to the query text apart from its value: its
/// field, its comparison and its connective.
pub open spec fn same_shape(a: SearchCondition, b: SearchCondition) -> bool {
    &&& text_or_empty(a.field) == text_or_empty(b.field)
    &&& operator_symbol(a.operator) == operator_symbol(b.operator)
    &&& logic_word(a.logic) == logic_word(b.logic)
    &&& (text_or_empty(a.value).len() == 0) == (text_or_empty(b.value).len() == 0)
}

proof fn lemma_plan_ignores_values(a: Seq<SearchCondition>, b: Seq<SearchCondition>)
    requires
        a.len() == b.len(),
        forall|i: int| 0 <= i < a.len() ==> same_shape(#[trigger] a[i], b[i]),
    ensures
        search_plan(a).0 == search_plan(b).0,
        search_plan(a).2 == search_plan(b).2,
    decreases a.len(),
{
    if a.len() > 0 {
        let (a0, b0) = (a.drop_last(), b.drop_last());
        assert forall|i: int| 0 <= i < a0.len() implies same_shape(#[trigger] a0[i], b0[i]) by {
            assert(a0[i] == a[i] && b0[i] == b[i]);
        }
        lemma_plan_ignores_values(a0, b0);
        assert(same_shape(a[a.len() - 1], b[b.len() - 1]));
    }
}

/// The query text depends on the filters' values only through whether each
/// is empty: filters that agree in field, comparison and connective and
/// differ only in their (non-empty, or both empty) values give the same
/// text. Every value reaches the database only as a bound parameter.
pub proof fn search_sql_ignores_values(a: Seq<SearchCondition>, b: Seq<SearchCondition>)
    requires
        a.len() == b.len(),
        forall|i: int| 0 <= i < a.len() ==> same_shape(#[trigger] a[i], b[i]),
    ensures
        search_sql(a) == search_sql(b),
{
    lemma_plan_ignores_values(a, b);
}

/// The player-filter number a filter on `field` gets after `before` such
/// filters.
pub open spec fn player_number(field: Seq<char>, before: nat) -> nat {
    if is_player_field(field) {
        before + 1
    } else {
        before
    }
}

/// Two filters with values make one bracketed condition: the first one's
/// condition, then the second one's `AND`/`OR`, then its condition. The
/// first filter's own connective plays no part.
#[verifier::rlimit(80)]
pub proof fn two_filters_join_by_the_second_connective(c1: SearchCondition, c2: SearchCondition)
    requires
        text_or_empty(c1.value).len() > 0,
        text_or_empty(c2.value).len() > 0,
    ensures
        ({
            let f1 = text_or_empty(c1.field);
            let f2 = text_or_empty(c2.field);
            let n1 = player_number(f1, 0);
            let n2 = player_number(f2, n1);
            search_sql(seq![c1, c2]) == search_base() + " AND ("@ + segment_text(
                f1,
                operator_symbol(c1.operator),
                n1,
            ) + " "@ + logic_word(c2.logic) + " "@ + segment_text(
                f2,
                operator_symbol(c2.operator),
                n2,
            ) + ")"@
        }),
{
    let both = seq![c1, c2];
    assert(both.drop_last() =~= seq![c1]);
    assert(seq![c1].drop_last() =~= Seq::<SearchCondition>::empty());
    let p0 = search_plan(Seq::<SearchCondition>::empty());
    let p1 = search_plan(seq![c1]);
    assert(p1 == plan_step(p0, c1));
    assert(search_plan(both) == plan_step(p1, c2));
    assert(p1.0.len() == 1);
    let segs = search_plan(both).0;
    assert(segs.len() == 2);
    assert(segs.drop_last() =~= seq![segs[0]]);
    assert(join_spaced(segs.drop_last()) == segs[0]);
    assert(join_spaced(segs) == segs[0] + " "@ + segs[1]);
    let f1 = text_or_empty(c1.field);
    let f2 = text_or_empty(c2.field);
    let seg1 = segment_text(f1, operator_symbol(c1.operator), player_number(f1, 0));
    let seg2 = logic_word(c2.logic) + " "@ + segment_text(
        f2,
        operator_symbol(c2.operator),
        player_number(f2, player_number(f1, 0)),
    );
    assert(segs[0] == seg1);
    assert(segs[1] == seg2);
    assert(search_sql(both) == search_base() + " AND ("@ + (seg1 + " "@ + seg2) + ")"@);
    assert(seg1 + " "@ + seg2 =~= seg1 + " "@ + logic_word(c2.logic) + " "@ + segment_text(
        f2,
        operator_symbol(c2.operator),
        player_number(f2, player_number(f1, 0)),
    ));
}

/// The condition a player filter adds, written out: an `EXISTS` over the
/// players of the metadata under the filter's alias, comparing the
/// player's value at `key` with the bound value.
pub open spec fn player_condition_text(key: Seq<char>, n: nat, op: Seq<char>) -> Seq<char> {
    "EXISTS (\n                        SELECT 1 FROM json_each(metadata_json, '$.players') AS p"@
        + decimal(n) + "\n                        WHERE json_extract(p"@ + decimal(n)
        + ".value, '"@ + key + "') "@ + op + " ?\n                    )"@
}

/// `player` and `player_name` filters compare the players' display names,
/// and give the same condition; `player_id` filters compare their ids.
pub proof fn player_filters_compare_the_right_key(op: Seq<char>, n: nat)
    ensures
        segment_text("player_name"@, op, n) == segment_text("player"@, op, n),
        segment_text("player"@, op, n) == player_condition_text("$.displayName"@, n, op),
        segment_text("player_id"@, op, n) == player_condition_text("$.id"@, n, op),
{
    reveal_strlit("player");
    reveal_strlit("player_name");
    reveal_strlit("player_id");
    reveal_strlit("p");
    reveal_strlit(" ?\n                    )");
    reveal_strlit(" ");
    reveal_strlit("\n                    )");
    reveal_strlit(
        "EXISTS (\n                        SELECT 1 FROM json_each(metadata_json, '$.players') AS p",
    );
    reveal_strlit("EXISTS (\n                        SELECT 1 FROM json_each(metadata_json, '$.players') AS ");
    reveal_strlit("\n                        WHERE json_extract(p");
    reveal_strlit("\n                        WHERE json_extract(");
    assert("player_id"@ != "player"@ && "player_id"@ != "player_name"@) by {
        assert("player_id"@.len() != "player"@.len());
        assert("player_id"@.len() != "player_name"@.len());
    }
    let key1 = "$.displayName"@;
    let key2 = "$.id"@;
    assert(player_segment(key1, n, op) =~= player_condition_text(key1, n, op));
    assert(player_segment(key2, n, op) =~= player_condition_text(key2, n, op));
}

} // verus!
