//! Text helpers on `String`/`&str`, specified over `Seq<char>`.

use vstd::prelude::*;
use vstd::string::*;

verus! {

/// `parts` joined with `sep` between consecutive parts.
pub open spec fn seq_join(parts: Seq<Seq<char>>, sep: Seq<char>) -> Seq<char>
    decreases parts.len(),
{
    if parts.len() == 0 {
        Seq::empty()
    } else if parts.len() == 1 {
        parts[0]
    } else {
        seq_join(parts.drop_last(), sep) + sep + parts.last()
    }
}

/// The views of a vector of strings.
pub open spec fn string_views(v: Seq<String>) -> Seq<Seq<char>> {
    v.map_values(|s: String| s@)
}

/// Joins `parts` with `sep`, as `[String]::join` does.
pub fn join(parts: &Vec<String>, sep: &str) -> (r: String)
    ensures
        r@ == seq_join(string_views(parts@), sep@),
{
    let mut r = String::new();
    let n = parts.len();
    let ghost views = string_views(parts@);
    let mut i: usize = 0;
    while i < n
        invariant
            n == parts.len(),
            views == string_views(parts@),
            i <= n,
            r@ == seq_join(views.take(i as int), sep@),
        decreases n - i,
    {
        proof {
            assert(views.take(i + 1).drop_last() =~= views.take(i as int));
        }
        if i > 0 {
            r.append(sep);
        }
        r.append(parts[i].as_str());
        i = i + 1;
    }
    proof {
        assert(views.take(n as int) =~= views);
    }
    r
}

/// Whether two strings hold the same characters.
pub fn str_eq(a: &str, b: &str) -> (r: bool)
    ensures
        r == (a@ == b@),
{
    let x = String::from_str(a);
    let y = String::from_str(b);
    x == y
}

/// `part` occurs in `text` at some position.
pub open spec fn occurs_in(part: Seq<char>, text: Seq<char>) -> bool {
    exists|off: int|
        0 <= off && off + part.len() <= text.len() && #[trigger] text.subrange(off, off + part.len())
            == part
}

/// What occurs in a text occurs in any text that has it in the middle.
pub proof fn lemma_occurs_in_context(part: Seq<char>, text: Seq<char>, before: Seq<char>, after: Seq<char>)
    requires
        occurs_in(part, text),
    ensures
        occurs_in(part, before + text + after),
{
    let off = choose|off: int|
        0 <= off && off + part.len() <= text.len() && #[trigger] text.subrange(off, off + part.len())
            == part;
    let whole = before + text + after;
    let o = before.len() + off;
    assert(whole.subrange(o, o + part.len()) =~= text.subrange(off, off + part.len()));
}

/// Every part occurs, whole, in the joined text.
pub proof fn lemma_seq_join_has_every_part(parts: Seq<Seq<char>>, sep: Seq<char>, i: int)
    requires
        0 <= i < parts.len(),
    ensures
        occurs_in(parts[i], seq_join(parts, sep)),
    decreases parts.len(),
{
    let j = seq_join(parts, sep);
    if parts.len() == 1 {
        let o: int = 0;
        assert(j =~= parts[0]);
        assert(j.subrange(o, o + parts[i].len()) =~= parts[i]);
    } else if i == parts.len() - 1 {
        let o = j.len() - parts.last().len();
        assert(parts[i] == parts.last());
        assert(j.subrange(o, o + parts[i].len()) =~= parts[i]);
    } else {
        let d = parts.drop_last();
        assert(d[i] == parts[i]);
        lemma_seq_join_has_every_part(d, sep, i);
        lemma_occurs_in_context(parts[i], seq_join(d, sep), Seq::empty(), sep + parts.last());
        assert(Seq::<char>::empty() + seq_join(d, sep) + (sep + parts.last()) =~= j);
        assert(occurs_in(parts[i], Seq::<char>::empty() + seq_join(d, sep) + (sep + parts.last())));
    }
}

/// What one character becomes inside a single-quoted SQL literal:
/// a quote is doubled, every other character stands for itself.
pub open spec fn sql_escape_char(c: char) -> Seq<char> {
    if c == '\'' {
        seq!['\'', '\'']
    } else {
        seq![c]
    }
}

/// `s` with every `'` doubled, as `s.replace("'", "''")` gives it.
pub open spec fn sql_escape(s: Seq<char>) -> Seq<char>
    decreases s.len(),
{
    if s.len() == 0 {
        Seq::empty()
    } else {
        sql_escape_char(s[0]) + sql_escape(s.skip(1))
    }
}

/// Reads the body of a single-quoted SQL literal back: `''` stands for `'`.
pub open spec fn sql_unescape(s: Seq<char>) -> Seq<char>
    decreases s.len(),
{
    if s.len() == 0 {
        Seq::empty()
    } else if s.len() >= 2 && s[0] == '\'' && s[1] == '\'' {
        seq!['\''] + sql_unescape(s.skip(2))
    } else {
        seq![s[0]] + sql_unescape(s.skip(1))
    }
}

/// Escaping distributes over concatenation.
pub proof fn lemma_sql_escape_concat(a: Seq<char>, b: Seq<char>)
    ensures
        sql_escape(a + b) == sql_escape(a) + sql_escape(b),
    decreases a.len(),
{
    if a.len() == 0 {
        assert(a + b =~= b);
        assert(sql_escape(a) =~= Seq::<char>::empty());
        assert(sql_escape(a) + sql_escape(b) =~= sql_escape(b));
    } else {
        lemma_sql_escape_concat(a.skip(1), b);
        assert((a + b).skip(1) =~= a.skip(1) + b);
        assert((a + b)[0] == a[0]);
        assert(sql_escape(a + b) =~= sql_escape_char(a[0]) + sql_escape(a.skip(1) + b));
        assert(sql_escape(a) + sql_escape(b) =~= sql_escape_char(a[0]) + (sql_escape(a.skip(1))
            + sql_escape(b)));
    }
}

/// A string written into a quoted SQL literal by doubling its quotes is
/// read back unchanged: the escaping loses nothing and adds nothing.
pub proof fn lemma_sql_escape_round_trip(s: Seq<char>)
    ensures
        sql_unescape(sql_escape(s)) == s,
    decreases s.len(),
{
    if s.len() > 0 {
        lemma_sql_escape_round_trip(s.skip(1));
        let e = sql_escape(s);
        if s[0] == '\'' {
            assert(e.skip(2) =~= sql_escape(s.skip(1)));
            assert(e[0] == '\'' && e[1] == '\'');
        } else {
            assert(e.skip(1) =~= sql_escape(s.skip(1)));
            assert(e[0] == s[0]);
            assert(!(e.len() >= 2 && e[0] == '\'' && e[1] == '\''));
        }
        assert(s =~= seq![s[0]] + s.skip(1));
    }
}

/// `s` with every `'` doubled, as `s.replace("'", "''")` computes it.
pub fn escape_sql_quotes(s: &str) -> (r: String)
    ensures
        r@ == sql_escape(s@),
{
    let n = s.unicode_len();
    let mut r = String::new();
    let mut i: usize = 0;
    while i < n
        invariant
            n == s@.len(),
            i <= n,
            r@ == sql_escape(s@.take(i as int)),
        decreases n - i,
    {
        let c = s.get_char(i);
        proof {
            assert(s@.take(i + 1) =~= s@.take(i as int) + seq![c]);
            lemma_sql_escape_concat(s@.take(i as int), seq![c]);
            assert(seq![c].skip(1) =~= Seq::<char>::empty());
            assert(seq![c][0] == c);
            assert(sql_escape(Seq::<char>::empty()) =~= Seq::<char>::empty());
            assert(sql_escape(seq![c]) =~= sql_escape_char(c) + sql_escape(Seq::<char>::empty()));
            assert(sql_escape(seq![c]) =~= sql_escape_char(c));
        }
        if c == '\'' {
            r.append("''");
            proof {
                reveal_strlit("''");
            }
        } else {
            r.append(s.substring_char(i, i + 1));
            proof {
                assert(s@.subrange(i as int, i + 1) =~= seq![c]);
            }
        }
        i = i + 1;
    }
    proof {
        assert(s@.take(n as int) =~= s@);
    }
    r
}

} // verus!
