//! Small string helpers shared by the SQL synthesizer and the query builder:
//! joining fragments, counting characters (used to relate placeholder tokens
//! to bound arguments), decimal rendering for numbered placeholders, SQL
//! escaping, and case-insensitive comparison for reserved-word detection.

use vstd::prelude::*;

verus! {

/// Number of occurrences of `c` in `s`.
pub open spec fn count_char(s: Seq<char>, c: char) -> nat
    decreases s.len(),
{
    if s.len() == 0 {
        0
    } else {
        count_char(s.drop_last(), c) + (if s.last() == c {
            1nat
        } else {
            0nat
        })
    }
}

pub proof fn lemma_count_char_append(a: Seq<char>, b: Seq<char>, c: char)
    ensures
        count_char(a + b, c) == count_char(a, c) + count_char(b, c),
    decreases b.len(),
{
    if b.len() == 0 {
        assert(a + b =~= a);
    } else {
        lemma_count_char_append(a, b.drop_last(), c);
        assert((a + b).drop_last() =~= a + b.drop_last());
        assert((a + b).last() == b.last());
    }
}

/// The count of `c` in a one-element sequence.
pub proof fn lemma_count_char_singleton(x: char, c: char)
    ensures
        count_char(seq![x], c) == (if x == c {
            1nat
        } else {
            0nat
        }),
{
    assert(seq![x].drop_last() =~= Seq::<char>::empty());
    assert(count_char(Seq::<char>::empty(), c) == 0);
    assert(seq![x].last() == x);
}

/// A sequence without a single occurrence of `c` counts zero of it.
pub proof fn lemma_count_char_zero(s: Seq<char>, c: char)
    requires
        forall|i: int| 0 <= i < s.len() ==> s[i] != c,
    ensures
        count_char(s, c) == 0,
    decreases s.len(),
{
    if s.len() > 0 {
        lemma_count_char_zero(s.drop_last(), c);
    }
}

/// The elements of `items` joined by `sep`, in order.
pub open spec fn spec_join(items: Seq<Seq<char>>, sep: Seq<char>) -> Seq<char>
    decreases items.len(),
{
    if items.len() == 0 {
        Seq::empty()
    } else if items.len() == 1 {
        items[0]
    } else {
        spec_join(items.drop_last(), sep) + sep + items.last()
    }
}

/// Sum of the per-element counts of `c` over `items`.
pub open spec fn count_char_items(items: Seq<Seq<char>>, c: char) -> nat
    decreases items.len(),
{
    if items.len() == 0 {
        0
    } else {
        count_char_items(items.drop_last(), c) + count_char(items.last(), c)
    }
}

pub proof fn lemma_count_char_join(items: Seq<Seq<char>>, sep: Seq<char>, c: char)
    requires
        count_char(sep, c) == 0,
    ensures
        count_char(spec_join(items, sep), c) == count_char_items(items, c),
    decreases items.len(),
{
    if items.len() == 0 {
        assert(count_char_items(items, c) == 0);
    } else if items.len() == 1 {
        assert(count_char_items(items.drop_last(), c) == 0);
    } else {
        lemma_count_char_join(items.drop_last(), sep, c);
        lemma_count_char_append(spec_join(items.drop_last(), sep), sep, c);
        lemma_count_char_append(spec_join(items.drop_last(), sep) + sep, items.last(), c);
    }
}

/// Join the strings of `v` with the separator `sep`.
pub fn join_strs(v: &Vec<String>, sep: &str) -> (r: String)
    ensures
        r@ == spec_join(v@.map_values(|s: String| s@), sep@),
{
    let ghost items = v@.map_values(|s: String| s@);
    let mut r = String::new();
    let mut i: usize = 0;
    while i < v.len()
        invariant
            0 <= i <= v.len(),
            items == v@.map_values(|s: String| s@),
            r@ == spec_join(items.take(i as int), sep@),
        decreases v.len() - i,
    {
        if i > 0 {
            r.append(sep);
        }
        r.append(v[i].as_str());
        proof {
            assert(items.take(i + 1).drop_last() =~= items.take(i as int));
            assert(items.take(i + 1).last() == items[i as int]);
        }
        i = i + 1;
    }
    proof {
        assert(items.take(v@.len() as int) =~= items);
    }
    r
}

/// Join the strings of `v` with `", "`, the list separator of every generated
/// column and value list.
pub fn join_comma(v: &Vec<String>) -> (r: String)
    ensures
        r@ == spec_join(v@.map_values(|s: String| s@), ", "@),
{
    join_strs(v, ", ")
}

/// The character for the decimal digit `n`.
pub open spec fn spec_digit(n: nat) -> char {
    if n == 0 {
        '0'
    } else if n == 1 {
        '1'
    } else if n == 2 {
        '2'
    } else if n == 3 {
        '3'
    } else if n == 4 {
        '4'
    } else if n == 5 {
        '5'
    } else if n == 6 {
        '6'
    } else if n == 7 {
        '7'
    } else if n == 8 {
        '8'
    } else {
        '9'
    }
}

/// The decimal rendering of `n`, most significant digit first.
pub open spec fn spec_dec(n: nat) -> Seq<char>
    decreases n,
{
    if n < 10 {
        seq![spec_digit(n)]
    } else {
        spec_dec(n / 10) + seq![spec_digit(n % 10)]
    }
}

fn digit_str(n: u64) -> (r: &'static str)
    requires
        n < 10,
    ensures
        r@ =~= seq![spec_digit(n as nat)],
{
    proof {
        reveal_strlit("0");
        reveal_strlit("1");
        reveal_strlit("2");
        reveal_strlit("3");
        reveal_strlit("4");
        reveal_strlit("5");
        reveal_strlit("6");
        reveal_strlit("7");
        reveal_strlit("8");
        reveal_strlit("9");
    }
    match n {
        0 => "0",
        1 => "1",
        2 => "2",
        3 => "3",
        4 => "4",
        5 => "5",
        6 => "6",
        7 => "7",
        8 => "8",
        _ => "9",
    }
}

/// Render `n` in decimal.
pub fn u64_dec(n: u64) -> (r: String)
    ensures
        r@ == spec_dec(n as nat),
    decreases n,
{
    if n < 10 {
        String::from_str(digit_str(n))
    } else {
        let r = u64_dec(n / 10);
        r.concat(digit_str(n % 10))
    }
}

/// `s` with every single quote doubled, the escape convention of SQL string
/// literals.
pub open spec fn spec_esc(s: Seq<char>) -> Seq<char>
    decreases s.len(),
{
    if s.len() == 0 {
        Seq::empty()
    } else {
        spec_esc(s.drop_last()) + (if s.last() == '\'' {
            seq!['\'', '\'']
        } else {
            seq![s.last()]
        })
    }
}

/// Escaping distributes over concatenation.
pub proof fn lemma_esc_append(a: Seq<char>, b: Seq<char>)
    ensures
        spec_esc(a + b) == spec_esc(a) + spec_esc(b),
    decreases b.len(),
{
    if b.len() == 0 {
        assert(a + b =~= a);
        assert(spec_esc(a) + spec_esc(b) =~= spec_esc(a));
    } else {
        lemma_esc_append(a, b.drop_last());
        assert((a + b).drop_last() =~= a + b.drop_last());
        assert((a + b).last() == b.last());
        if b.last() == '\'' {
            assert(spec_esc(a) + (spec_esc(b.drop_last()) + seq!['\'', '\'']) =~= (spec_esc(a)
                + spec_esc(b.drop_last())) + seq!['\'', '\'']);
        } else {
            assert(spec_esc(a) + (spec_esc(b.drop_last()) + seq![b.last()]) =~= (spec_esc(a)
                + spec_esc(b.drop_last())) + seq![b.last()]);
        }
    }
}

/// Escaping leaves a quote-free sequence unchanged.
pub proof fn lemma_esc_quote_free(s: Seq<char>)
    requires
        forall|i: int| 0 <= i < s.len() ==> s[i] != '\'',
    ensures
        spec_esc(s) == s,
    decreases s.len(),
{
    if s.len() > 0 {
        lemma_esc_quote_free(s.drop_last());
        assert(spec_esc(s) =~= s);
    }
}

/// Escape `s` for inlining into an SQL string literal: copy the text,
/// doubling every single quote.
pub(crate) fn esc(s: &str) -> (r: String)
    ensures
        r@ == spec_esc(s@),
{
    let n = s.unicode_len();
    let mut r = String::new();
    let mut start: usize = 0;
    let mut i: usize = 0;
    proof {
        assert(s@.take(0) =~= Seq::<char>::empty());
        assert(spec_esc(Seq::<char>::empty()) =~= Seq::<char>::empty());
    }
    while i < n
        invariant
            0 <= start <= i <= n,
            n == s@.len(),
            r@ == spec_esc(s@.take(start as int)),
            forall|j: int| start <= j < i ==> s@[j] != '\'',
        decreases n - i,
    {
        let c = s.get_char(i);
        if c == '\'' {
            let seg = s.substring_char(start, i);
            r.append(seg);
            r.append("''");
            proof {
                reveal_strlit("''");
                assert("''"@ =~= seq!['\'', '\'']);
                let pre = s@.take(start as int);
                let mid = s@.subrange(start as int, i as int);
                assert forall|k: int| 0 <= k < mid.len() implies mid[k] != '\'' by {
                    assert(mid[k] == s@[start + k]);
                }
                assert(s@.take(i as int) =~= pre + mid);
                lemma_esc_append(pre, mid);
                lemma_esc_quote_free(mid);
                assert(s@.take(i + 1).drop_last() =~= s@.take(i as int));
                assert(s@.take(i + 1).last() == s@[i as int]);
                assert(r@ =~= spec_esc(s@.take(i + 1)));
            }
            start = i + 1;
        }
        i = i + 1;
    }
    let tail = s.substring_char(start, n);
    r.append(tail);
    proof {
        let pre = s@.take(start as int);
        let mid = s@.subrange(start as int, n as int);
        assert forall|k: int| 0 <= k < mid.len() implies mid[k] != '\'' by {
            assert(mid[k] == s@[start + k]);
        }
        assert(s@.take(n as int) =~= pre + mid);
        lemma_esc_append(pre, mid);
        lemma_esc_quote_free(mid);
        assert(s@.take(n as int) =~= s@);
        assert(r@ =~= spec_esc(s@));
    }
    r
}

/// Case-insensitive equality of two characters, folding ASCII letters only.
pub open spec fn chars_eq_ci(a: char, b: char) -> bool {
    ||| a == b
    ||| ('a' <= a && a <= 'z' && a as u32 == b as u32 + 32)
    ||| ('a' <= b && b <= 'z' && b as u32 == a as u32 + 32)
}

/// Case-insensitive equality of two character sequences, ASCII letters only.
pub open spec fn str_eq_ci(a: Seq<char>, b: Seq<char>) -> bool {
    a.len() == b.len() && forall|i: int| 0 <= i < a.len() ==> chars_eq_ci(a[i], b[i])
}

/// Compare two strings for equality up to ASCII case.
pub fn eq_ignore_ascii_case(a: &str, b: &str) -> (r: bool)
    ensures
        r == str_eq_ci(a@, b@),
{
    let alen = a.unicode_len();
    let blen = b.unicode_len();
    if alen != blen {
        return false;
    }
    let mut i: usize = 0;
    while i < alen
        invariant
            0 <= i <= alen,
            alen == a@.len(),
            blen == b@.len(),
            alen == blen,
            forall|j: int| 0 <= j < i ==> chars_eq_ci(a@[j], b@[j]),
        decreases alen - i,
    {
        let ca = a.get_char(i);
        let cb = b.get_char(i);
        let same = if ca == cb {
            true
        } else if 'a' <= ca && ca <= 'z' && ca as u32 == cb as u32 + 32 {
            true
        } else if 'a' <= cb && cb <= 'z' && cb as u32 == ca as u32 + 32 {
            true
        } else {
            false
        };
        if !same {
            return false;
        }
        i = i + 1;
    }
    true
}

} // verus!
