//! SQL text with positional parameters: placeholder lists and the statement
//! that prunes index entries lying outside every registered folder.
use vstd::prelude::*;
use crate::paths::{normalize_path, normalized_path};
use crate::text::{
    append_decimal, count_char, decimal, lemma_count_absent, lemma_count_concat,
    lemma_decimal_lacks, push_char,
};

verus! {

/// `?` placeholders separated by `, `, one per bound value: `?, ?, ?`.
pub open spec fn placeholder_list(n: nat) -> Seq<char>
    decreases n,
{
    if n == 0 {
        Seq::empty()
    } else if n == 1 {
        seq!['?']
    } else {
        placeholder_list((n - 1) as nat) + seq![',', ' ', '?']
    }
}

/// The placeholder list for an `IN (...)` clause over `n` values.
pub fn placeholders(n: usize) -> (r: String)
    ensures
        r@ == placeholder_list(n as nat),
{
    let mut out = String::new();
    let mut i: usize = 0;
    while i < n
        invariant
            i <= n,
            out@ == placeholder_list(i as nat),
        decreases n - i,
    {
        if i > 0 {
            push_char(&mut out, ',');
            push_char(&mut out, ' ');
        }
        push_char(&mut out, '?');
        i = i + 1;
        assert(out@ =~= placeholder_list(i as nat));
    }
    out
}

/// A placeholder list for `n` values holds exactly `n` placeholders.
pub proof fn placeholder_list_counts(n: nat)
    ensures
        count_char(placeholder_list(n), '?') == n,
    decreases n,
{
    if n == 1 {
        assert(seq!['?'].drop_last() =~= Seq::<char>::empty());
        reveal_with_fuel(count_char, 2);
    } else if n > 1 {
        placeholder_list_counts((n - 1) as nat);
        lemma_count_concat(placeholder_list((n - 1) as nat), seq![',', ' ', '?'], '?');
        assert(seq![',', ' ', '?'].drop_last() =~= seq![',', ' ']);
        assert(seq![',', ' '].drop_last() =~= seq![',']);
        assert(seq![','].drop_last() =~= Seq::<char>::empty());
        reveal_with_fuel(count_char, 4);
    }
}

/// The statement text and its bound values, in order.
pub struct PruneStatement {
    pub sql: String,
    pub params: Vec<String>,
}

/// `file_path LIKE ?k` for the parameter numbered `k` (counted from one).
pub open spec fn like_clause(k: nat) -> Seq<char> {
    "file_path LIKE "@ + seq!['?'] + decimal(k)
}

/// The first `n` LIKE clauses joined by ` OR `.
pub open spec fn like_clauses(n: nat) -> Seq<char>
    decreases n,
{
    if n == 0 {
        Seq::empty()
    } else if n == 1 {
        like_clause(1)
    } else {
        like_clauses((n - 1) as nat) + " OR "@ + like_clause(n)
    }
}

/// The statement that deletes every image row whose path starts with none of
/// `n` folder prefixes.
pub open spec fn prune_sql(n: nat) -> Seq<char> {
    "DELETE FROM images WHERE NOT ("@ + like_clauses(n) + ")"@
}

/// The LIKE pattern for one folder: its prefix form followed by `%`.
pub open spec fn prefix_pattern(folder: Seq<char>) -> Seq<char> {
    normalized_path(folder) + "%"@
}

/// Builds the prune statement for the registered folders (each already
/// canonicalized by the caller). With no folder there is nothing to prune
/// against, and the result is `None`.
pub fn prune_statement(folders: &Vec<String>) -> (r: Option<PruneStatement>)
    ensures
        folders@.len() == 0 <==> r is None,
        r matches Some(st) ==> {
            &&& st.sql@ == prune_sql(folders@.len())
            &&& st.params@.len() == folders@.len()
            &&& forall|i: int|
                0 <= i < folders@.len() ==> #[trigger] st.params@[i]@ == prefix_pattern(
                    folders@[i]@,
                )
        },
{
    let n = folders.len();
    if n == 0 {
        return None;
    }
    let mut sql = String::from_str("DELETE FROM images WHERE NOT (");
    let mut params: Vec<String> = Vec::new();
    let mut i: usize = 0;
    while i < n
        invariant
            n == folders@.len(),
            n > 0,
            i <= n,
            sql@ == "DELETE FROM images WHERE NOT ("@ + like_clauses(i as nat),
            params@.len() == i,
            forall|k: int| 0 <= k < i ==> #[trigger] params@[k]@ == prefix_pattern(folders@[k]@),
        decreases n - i,
    {
        if i > 0 {
            sql.append(" OR ");
        }
        sql.append("file_path LIKE ");
        push_char(&mut sql, '?');
        append_decimal(&mut sql, i + 1);
        let mut pattern = normalize_path(folders[i].as_str());
        pattern.append("%");
        params.push(pattern);
        i = i + 1;
        assert(sql@ =~= "DELETE FROM images WHERE NOT ("@ + like_clauses(i as nat));
    }
    sql.append(")");
    Some(PruneStatement { sql, params })
}

/// The prune statement has exactly one placeholder per folder pattern.
pub proof fn prune_sql_counts(n: nat)
    ensures
        count_char(prune_sql(n), '?') == n,
{
    reveal_strlit("DELETE FROM images WHERE NOT (");
    reveal_strlit(")");
    lemma_count_absent("DELETE FROM images WHERE NOT ("@, '?');
    lemma_count_absent(")"@, '?');
    like_clauses_count(n);
    lemma_count_concat("DELETE FROM images WHERE NOT ("@, like_clauses(n), '?');
    lemma_count_concat("DELETE FROM images WHERE NOT ("@ + like_clauses(n), ")"@, '?');
}

proof fn like_clause_count(k: nat)
    ensures
        count_char(like_clause(k), '?') == 1,
{
    reveal_strlit("file_path LIKE ");
    lemma_count_absent("file_path LIKE "@, '?');
    lemma_decimal_lacks(k, '?');
    lemma_count_absent(decimal(k), '?');
    assert(seq!['?'].drop_last() =~= Seq::<char>::empty());
    assert(count_char(seq!['?'], '?') == 1) by {
        reveal_with_fuel(count_char, 2);
    }
    lemma_count_concat("file_path LIKE "@, seq!['?'], '?');
    lemma_count_concat("file_path LIKE "@ + seq!['?'], decimal(k), '?');
}

proof fn like_clauses_count(n: nat)
    ensures
        count_char(like_clauses(n), '?') == n,
    decreases n,
{
    if n == 1 {
        like_clause_count(1);
    } else if n > 1 {
        like_clauses_count((n - 1) as nat);
        like_clause_count(n);
        reveal_strlit(" OR ");
        lemma_count_absent(" OR "@, '?');
        lemma_count_concat(like_clauses((n - 1) as nat), " OR "@, '?');
        lemma_count_concat(like_clauses((n - 1) as nat) + " OR "@, like_clause(n), '?');
    }
}

} // verus!
