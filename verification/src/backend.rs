//! The SQL dialects the generator can target: each one fixes the
//! identifier-quoting character, the reserved-word set, and the shape of
//! placeholder tokens. One dialect is active per build; nothing switches
//! dialects at run time.

use vstd::prelude::*;
use crate::strutil::{
    count_char, lemma_count_char_append, lemma_count_char_singleton, spec_dec, spec_digit,
    str_eq_ci, u64_dec, eq_ignore_ascii_case,
};

verus! {

#[derive(Clone, Copy, PartialEq, Eq, Structural, Debug)]
pub enum Backend {
    MySql,
    Postgres,
    Sqlite,
}

/// Reserved words every supported dialect shares: a conservative core of
/// the keywords the three dialects reserve in common. The dialects' full
/// lists are larger; a column name this set misses is emitted unquoted, so
/// extend the set here when a deployment needs more.
pub open spec fn spec_is_common_reserved(name: Seq<char>) -> bool {
    ||| str_eq_ci(name, "SELECT"@)
    ||| str_eq_ci(name, "FROM"@)
    ||| str_eq_ci(name, "WHERE"@)
    ||| str_eq_ci(name, "ORDER"@)
    ||| str_eq_ci(name, "GROUP"@)
    ||| str_eq_ci(name, "BY"@)
    ||| str_eq_ci(name, "AND"@)
    ||| str_eq_ci(name, "OR"@)
    ||| str_eq_ci(name, "NOT"@)
    ||| str_eq_ci(name, "NULL"@)
    ||| str_eq_ci(name, "IN"@)
    ||| str_eq_ci(name, "IS"@)
    ||| str_eq_ci(name, "LIKE"@)
    ||| str_eq_ci(name, "BETWEEN"@)
    ||| str_eq_ci(name, "EXISTS"@)
    ||| str_eq_ci(name, "JOIN"@)
    ||| str_eq_ci(name, "INNER"@)
    ||| str_eq_ci(name, "CROSS"@)
    ||| str_eq_ci(name, "ON"@)
    ||| str_eq_ci(name, "USING"@)
    ||| str_eq_ci(name, "UNION"@)
    ||| str_eq_ci(name, "ALL"@)
    ||| str_eq_ci(name, "DISTINCT"@)
    ||| str_eq_ci(name, "HAVING"@)
    ||| str_eq_ci(name, "AS"@)
    ||| str_eq_ci(name, "CASE"@)
    ||| str_eq_ci(name, "WHEN"@)
    ||| str_eq_ci(name, "ELSE"@)
    ||| str_eq_ci(name, "INSERT"@)
    ||| str_eq_ci(name, "INTO"@)
    ||| str_eq_ci(name, "VALUES"@)
    ||| str_eq_ci(name, "UPDATE"@)
    ||| str_eq_ci(name, "SET"@)
    ||| str_eq_ci(name, "DELETE"@)
    ||| str_eq_ci(name, "CREATE"@)
    ||| str_eq_ci(name, "TABLE"@)
    ||| str_eq_ci(name, "DROP"@)
    ||| str_eq_ci(name, "ALTER"@)
    ||| str_eq_ci(name, "INDEX"@)
    ||| str_eq_ci(name, "PRIMARY"@)
    ||| str_eq_ci(name, "FOREIGN"@)
    ||| str_eq_ci(name, "REFERENCES"@)
    ||| str_eq_ci(name, "DEFAULT"@)
    ||| str_eq_ci(name, "UNIQUE"@)
    ||| str_eq_ci(name, "CHECK"@)
    ||| str_eq_ci(name, "CONSTRAINT"@)
    ||| str_eq_ci(name, "TO"@)
    ||| str_eq_ci(name, "LIMIT"@)
    ||| str_eq_ci(name, "DESC"@)
    ||| str_eq_ci(name, "ASC"@)
}

impl Backend {
    /// The identifier-quoting character of the dialect.
    pub open spec fn spec_quote(self) -> char {
        match self {
            Backend::MySql => '`',
            Backend::Postgres => '"',
            Backend::Sqlite => '"',
        }
    }

    pub fn quote_str(&self) -> (r: &'static str)
        ensures
            r@ =~= seq![self.spec_quote()],
    {
        proof {
            reveal_strlit("`");
            reveal_strlit("\"");
        }
        match self {
            Backend::MySql => "`",
            Backend::Postgres => "\"",
            Backend::Sqlite => "\"",
        }
    }

    /// The `n`-th placeholder token of the dialect, counting from 1:
    /// positional `?` for MySQL and SQLite, numbered `$n` for Postgres.
    pub open spec fn spec_placeholder(self, n: nat) -> Seq<char> {
        match self {
            Backend::Postgres => seq!['$'] + spec_dec(n),
            _ => seq!['?'],
        }
    }

    pub fn placeholder(&self, n: u64) -> (r: String)
        ensures
            r@ == self.spec_placeholder(n as nat),
    {
        match self {
            Backend::Postgres => {
                proof {
                    reveal_strlit("$");
                }
                let r = String::from_str("$");
                assert(r@ =~= seq!['$']);
                r.concat(u64_dec(n).as_str())
            },
            _ => {
                proof {
                    reveal_strlit("?");
                }
                let r = String::from_str("?");
                assert(r@ =~= seq!['?']);
                r
            },
        }
    }

    /// The character that opens every placeholder token of the dialect:
    /// counting its occurrences in generated SQL counts the placeholders,
    /// provided no other text contains it.
    pub open spec fn spec_marker(self) -> char {
        match self {
            Backend::Postgres => '$',
            _ => '?',
        }
    }

    /// Whether `name` collides, case-insensitively, with a reserved word of
    /// the dialect.
    pub open spec fn spec_is_reserved(self, name: Seq<char>) -> bool {
        ||| spec_is_common_reserved(name)
        ||| (self == Backend::MySql && (str_eq_ci(name, "KEY"@) || str_eq_ci(name, "IGNORE"@) || str_eq_ci(name, "LOCK"@) || str_eq_ci(name, "SHOW"@)))
        ||| (self == Backend::Postgres && (str_eq_ci(name, "USER"@) || str_eq_ci(name, "OFFSET"@)))
    }

    pub fn is_reserved(&self, name: &str) -> (r: bool)
        ensures
            r == self.spec_is_reserved(name@),
    {
        let common = eq_ignore_ascii_case(name, "SELECT")
            || eq_ignore_ascii_case(name, "FROM")
            || eq_ignore_ascii_case(name, "WHERE")
            || eq_ignore_ascii_case(name, "ORDER")
            || eq_ignore_ascii_case(name, "GROUP")
            || eq_ignore_ascii_case(name, "BY")
            || eq_ignore_ascii_case(name, "AND")
            || eq_ignore_ascii_case(name, "OR")
            || eq_ignore_ascii_case(name, "NOT")
            || eq_ignore_ascii_case(name, "NULL")
            || eq_ignore_ascii_case(name, "IN")
            || eq_ignore_ascii_case(name, "IS")
            || eq_ignore_ascii_case(name, "LIKE")
            || eq_ignore_ascii_case(name, "BETWEEN")
            || eq_ignore_ascii_case(name, "EXISTS")
            || eq_ignore_ascii_case(name, "JOIN")
            || eq_ignore_ascii_case(name, "INNER")
            || eq_ignore_ascii_case(name, "CROSS")
            || eq_ignore_ascii_case(name, "ON")
            || eq_ignore_ascii_case(name, "USING")
            || eq_ignore_ascii_case(name, "UNION")
            || eq_ignore_ascii_case(name, "ALL")
            || eq_ignore_ascii_case(name, "DISTINCT")
            || eq_ignore_ascii_case(name, "HAVING")
            || eq_ignore_ascii_case(name, "AS")
            || eq_ignore_ascii_case(name, "CASE")
            || eq_ignore_ascii_case(name, "WHEN")
            || eq_ignore_ascii_case(name, "ELSE")
            || eq_ignore_ascii_case(name, "INSERT")
            || eq_ignore_ascii_case(name, "INTO")
            || eq_ignore_ascii_case(name, "VALUES")
            || eq_ignore_ascii_case(name, "UPDATE")
            || eq_ignore_ascii_case(name, "SET")
            || eq_ignore_ascii_case(name, "DELETE")
            || eq_ignore_ascii_case(name, "CREATE")
            || eq_ignore_ascii_case(name, "TABLE")
            || eq_ignore_ascii_case(name, "DROP")
            || eq_ignore_ascii_case(name, "ALTER")
            || eq_ignore_ascii_case(name, "INDEX")
            || eq_ignore_ascii_case(name, "PRIMARY")
            || eq_ignore_ascii_case(name, "FOREIGN")
            || eq_ignore_ascii_case(name, "REFERENCES")
            || eq_ignore_ascii_case(name, "DEFAULT")
            || eq_ignore_ascii_case(name, "UNIQUE")
            || eq_ignore_ascii_case(name, "CHECK")
            || eq_ignore_ascii_case(name, "CONSTRAINT")
            || eq_ignore_ascii_case(name, "TO")
            || eq_ignore_ascii_case(name, "LIMIT")
            || eq_ignore_ascii_case(name, "DESC")
            || eq_ignore_ascii_case(name, "ASC");
        match self {
            Backend::MySql => common || eq_ignore_ascii_case(name, "KEY") || eq_ignore_ascii_case(name, "IGNORE") || eq_ignore_ascii_case(name, "LOCK") || eq_ignore_ascii_case(name, "SHOW"),
            Backend::Postgres => common || eq_ignore_ascii_case(name, "USER") || eq_ignore_ascii_case(name, "OFFSET"),
            Backend::Sqlite => common,
        }
    }
}

/// The decimal rendering of a number holds digits only, so it never holds a
/// placeholder marker.
pub proof fn lemma_dec_no_marker(n: nat, c: char)
    requires
        !('0' <= c && c <= '9'),
    ensures
        count_char(spec_dec(n), c) == 0,
    decreases n,
{
    assert('0' <= spec_digit(n % 10) && spec_digit(n % 10) <= '9');
    assert('0' <= spec_digit(n) && spec_digit(n) <= '9');
    if n < 10 {
        lemma_count_char_singleton(spec_digit(n), c);
    } else {
        lemma_dec_no_marker(n / 10, c);
        lemma_count_char_append(spec_dec(n / 10), seq![spec_digit(n % 10)], c);
        lemma_count_char_singleton(spec_digit(n % 10), c);
    }
}

/// Every placeholder token holds its dialect's marker character exactly
/// once.
pub proof fn lemma_placeholder_one_marker(b: Backend, n: nat)
    ensures
        count_char(b.spec_placeholder(n), b.spec_marker()) == 1,
{
    match b {
        Backend::Postgres => {
            lemma_dec_no_marker(n, '$');
            lemma_count_char_append(seq!['$'], spec_dec(n), '$');
            lemma_count_char_singleton('$', '$');
        },
        _ => {
            lemma_count_char_singleton('?', '?');
        },
    }
}

} // verus!
