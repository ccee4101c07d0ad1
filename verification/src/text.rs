//! Character-level text helpers shared by the catalog checks, the detector and the
//! script builder: Unicode whitespace, trimming by a character class, splitting into
//! whitespace-separated tokens, joining, and single-quote escaping.
use vstd::prelude::*;

verus! {

/// The Unicode `White_Space` property, as `char::is_whitespace` documents it.
pub open spec fn is_unicode_whitespace(c: char) -> bool {
    let u = c as u32;
    ||| u == 0x09
    ||| u == 0x0A
    ||| u == 0x0B
    ||| u == 0x0C
    ||| u == 0x0D
    ||| u == 0x20
    ||| u == 0x85
    ||| u == 0xA0
    ||| u == 0x1680
    ||| (0x2000 <= u && u <= 0x200A)
    ||| u == 0x2028
    ||| u == 0x2029
    ||| u == 0x202F
    ||| u == 0x205F
    ||| u == 0x3000
}

/// Characters that are stripped from both ends of a token when it is read as a version.
pub open spec fn is_version_edge(c: char) -> bool {
    ||| c == 'v'
    ||| c == 'V'
    ||| c == ','
    ||| c == ';'
    ||| c == ':'
    ||| c == '('
    ||| c == ')'
    ||| c == '['
    ||| c == ']'
}

/// The two character classes that text is trimmed by.
#[derive(Debug, Clone, Copy, PartialEq, Eq, Structural)]
pub enum CharClass {
    Whitespace,
    VersionEdge,
}

pub open spec fn in_class(class: CharClass, c: char) -> bool {
    match class {
        CharClass::Whitespace => is_unicode_whitespace(c),
        CharClass::VersionEdge => is_version_edge(c),
    }
}

/// Whether `c` is Unicode whitespace.
pub fn is_whitespace_char(c: char) -> (r: bool)
    ensures
        r == is_unicode_whitespace(c),
{
    let u = c as u32;
    u == 0x09 || u == 0x0A || u == 0x0B || u == 0x0C || u == 0x0D || u == 0x20 || u == 0x85
        || u == 0xA0 || u == 0x1680 || (0x2000 <= u && u <= 0x200A) || u == 0x2028 || u
        == 0x2029 || u == 0x202F || u == 0x205F || u == 0x3000
}

/// Whether `c` belongs to `class`.
pub fn char_in_class(class: CharClass, c: char) -> (r: bool)
    ensures
        r == in_class(class, c),
{
    match class {
        CharClass::Whitespace => is_whitespace_char(c),
        CharClass::VersionEdge => c == 'v' || c == 'V' || c == ',' || c == ';' || c == ':' || c
            == '(' || c == ')' || c == '[' || c == ']',
    }
}

/// Whether `c` is one of the ASCII digits `0` to `9`.
pub open spec fn is_ascii_digit(c: char) -> bool {
    '0' <= c && c <= '9'
}

/// Number of characters at the front of `s` that belong to `class`.
pub open spec fn leading_count(s: Seq<char>, class: CharClass) -> nat
    decreases s.len(),
{
    if s.len() == 0 {
        0
    } else if in_class(class, s[0]) {
        1 + leading_count(s.drop_first(), class)
    } else {
        0
    }
}

/// Number of characters at the back of `s` that belong to `class`.
pub open spec fn trailing_count(s: Seq<char>, class: CharClass) -> nat
    decreases s.len(),
{
    if s.len() == 0 {
        0
    } else if in_class(class, s.last()) {
        1 + trailing_count(s.drop_last(), class)
    } else {
        0
    }
}

/// `s` with every character of `class` removed from both ends (`str::trim_matches`).
pub open spec fn trim_class(s: Seq<char>, class: CharClass) -> Seq<char> {
    let a = leading_count(s, class);
    if a == s.len() {
        Seq::<char>::empty()
    } else {
        s.subrange(a as int, s.len() - trailing_count(s, class))
    }
}

/// `s` without leading and trailing Unicode whitespace (`str::trim`).
pub open spec fn trim_whitespace(s: Seq<char>) -> Seq<char> {
    trim_class(s, CharClass::Whitespace)
}

/// Positions `(a, b)` with `lo <= a <= b <= hi` such that `cs[a..b]` is `cs[lo..hi]`
/// trimmed by `class`.
pub fn trim_bounds(cs: &Vec<char>, lo: usize, hi: usize, class: CharClass) -> (r: (usize, usize))
    requires
        lo <= hi <= cs.len(),
    ensures
        lo <= r.0 <= r.1 <= hi,
        cs@.subrange(r.0 as int, r.1 as int) == trim_class(cs@.subrange(lo as int, hi as int), class),
{
    let ghost s = cs@.subrange(lo as int, hi as int);
    let mut a = lo;
    while a < hi && char_in_class(class, cs[a])
        invariant
            lo <= a <= hi <= cs.len(),
            s == cs@.subrange(lo as int, hi as int),
            leading_count(s, class) == (a - lo) + leading_count(cs@.subrange(a as int, hi as int), class),
        decreases hi - a,
    {
        assert(cs@.subrange(a as int, hi as int).drop_first() =~= cs@.subrange(a + 1, hi as int));
        a = a + 1;
    }
    proof {
        if a < hi {
            assert(cs@.subrange(a as int, hi as int)[0] == cs@[a as int]);
        }
    }
    assert(leading_count(s, class) == a - lo);
    if a == hi {
        assert(cs@.subrange(a as int, a as int) =~= Seq::<char>::empty());
        return (a, a);
    }
    let mut b = hi;
    while b > a && char_in_class(class, cs[b - 1])
        invariant
            lo <= a < hi <= cs.len(),
            a < b <= hi,
            s == cs@.subrange(lo as int, hi as int),
            leading_count(s, class) == a - lo,
            !in_class(class, cs@[a as int]),
            trailing_count(s, class) == (hi - b) + trailing_count(cs@.subrange(lo as int, b as int), class),
        decreases b - a,
    {
        assert(cs@.subrange(lo as int, b as int).drop_last() =~= cs@.subrange(lo as int, b - 1));
        b = b - 1;
    }
    assert(cs@.subrange(lo as int, b as int).last() == cs@[b - 1]);
    assert(trailing_count(s, class) == hi - b);
    assert(cs@.subrange(a as int, b as int) =~= s.subrange(a - lo, s.len() - trailing_count(s, class)));
    (a, b)
}

/// The characters of `s`, one per element.
pub fn chars_of(s: &str) -> (v: Vec<char>)
    ensures
        v@ == s@,
{
    let mut v: Vec<char> = Vec::new();
    for c in it: s.chars()
        invariant
            v@ == it.seq().take(it.index() as int),
            it.seq() == s@,
    {
        v.push(c);
    }
    v
}

/// `s` without leading and trailing whitespace.
pub fn trim_whitespace_str(s: &str) -> (r: String)
    ensures
        r@ == trim_whitespace(s@),
{
    let cs = chars_of(s);
    let (a, b) = trim_bounds(&cs, 0, cs.len(), CharClass::Whitespace);
    assert(cs@.subrange(0, cs@.len() as int) =~= s@);
    let part = s.substring_char(a, b);
    String::from_str(part)
}

/// Whether two texts hold the same characters.
pub fn same_text(a: &str, b: &str) -> (r: bool)
    ensures
        r == (a@ == b@),
{
    let x = String::from_str(a);
    let y = String::from_str(b);
    x == y
}

/// The views of a sequence of strings.
pub open spec fn views_of(v: Seq<String>) -> Seq<Seq<char>> {
    v.map_values(|s: String| s@)
}

/// The parts joined with `sep` between each two neighbours (`[String]::join`).
pub open spec fn join_with(parts: Seq<Seq<char>>, sep: Seq<char>) -> Seq<char>
    decreases parts.len(),
{
    if parts.len() == 0 {
        Seq::<char>::empty()
    } else if parts.len() == 1 {
        parts[0]
    } else {
        join_with(parts.drop_last(), sep) + sep + parts.last()
    }
}

/// Joins `parts` with `sep` between each two neighbours.
pub fn join_strings(parts: &[String], sep: &str) -> (r: String)
    ensures
        r@ == join_with(views_of(parts@), sep@),
{
    let ghost all = views_of(parts@);
    let mut r = String::new();
    let mut i: usize = 0;
    while i < parts.len()
        invariant
            i <= parts.len(),
            all == views_of(parts@),
            r@ == join_with(all.take(i as int), sep@),
        decreases parts.len() - i,
    {
        assert(all.take(i + 1).drop_last() =~= all.take(i as int));
        if i > 0 {
            r.append(sep);
        }
        r.append(parts[i].as_str());
        proof {
            if i == 0 {
                assert(r@ =~= all.take(1)[0]);
            }
        }
        i = i + 1;
    }
    assert(all.take(parts.len() as int) =~= all);
    r
}

/// `s` with every single quote doubled, as PowerShell wants inside single quotes.
pub open spec fn double_single_quotes(s: Seq<char>) -> Seq<char>
    decreases s.len(),
{
    if s.len() == 0 {
        Seq::<char>::empty()
    } else if s.last() == '\'' {
        double_single_quotes(s.drop_last()) + seq!['\'', '\'']
    } else {
        double_single_quotes(s.drop_last()).push(s.last())
    }
}

/// What PowerShell reads from the inside of a single-quoted string: each pair of single
/// quotes stands for one quote.
pub open spec fn halve_single_quotes(t: Seq<char>) -> Seq<char>
    decreases t.len(),
{
    if t.len() == 0 {
        Seq::<char>::empty()
    } else if t.len() >= 2 && t.last() == '\'' && t[t.len() - 2] == '\'' {
        halve_single_quotes(t.drop_last().drop_last()).push('\'')
    } else {
        halve_single_quotes(t.drop_last()).push(t.last())
    }
}

/// Law: reading back a text whose single quotes were doubled gives the text itself.
pub proof fn escaped_quotes_read_back(s: Seq<char>)
    ensures
        halve_single_quotes(double_single_quotes(s)) == s,
    decreases s.len(),
{
    if s.len() > 0 {
        let d = double_single_quotes(s.drop_last());
        escaped_quotes_read_back(s.drop_last());
        if s.last() == '\'' {
            let t = d + seq!['\'', '\''];
            assert(t.drop_last().drop_last() =~= d);
        } else {
            let t = d.push(s.last());
            assert(t.drop_last() =~= d);
        }
        assert(s.drop_last().push(s.last()) =~= s);
    }
}

proof fn lemma_quote_free_run(s: Seq<char>, start: int, i: int)
    requires
        0 <= start <= i <= s.len(),
        forall|k: int| start <= k < i ==> s[k] != '\'',
    ensures
        double_single_quotes(s.take(i)) == double_single_quotes(s.take(start)) + s.subrange(start, i),
    decreases i - start,
{
    if i > start {
        lemma_quote_free_run(s, start, i - 1);
        assert(s.take(i).drop_last() =~= s.take(i - 1));
        assert(s.subrange(start, i) =~= s.subrange(start, i - 1).push(s[i - 1]));
    } else {
        assert(s.subrange(start, i) =~= Seq::<char>::empty());
    }
}

/// Doubles every single quote in `s`.
pub fn escape_single_quotes(s: &str) -> (r: String)
    ensures
        r@ == double_single_quotes(s@),
{
    let cs = chars_of(s);
    let n = cs.len();
    let mut r = String::new();
    let mut start: usize = 0;
    let mut i: usize = 0;
    assert(s@.take(0) =~= Seq::<char>::empty());
    while i < n
        invariant
            cs@ == s@,
            n == cs.len(),
            start <= i <= n,
            r@ == double_single_quotes(s@.take(start as int)),
            forall|k: int| start <= k < i ==> cs@[k] != '\'',
        decreases n - i,
    {
        if cs[i] == '\'' {
            proof {
                lemma_quote_free_run(s@, start as int, i as int);
                assert(s@.take(i + 1).drop_last() =~= s@.take(i as int));
            }
            let run = s.substring_char(start, i);
            r.append(run);
            r.append("''");
            proof {
                reveal_strlit("''");
                assert(r@ =~= double_single_quotes(s@.take(i + 1)));
            }
            start = i + 1;
        }
        i = i + 1;
    }
    proof {
        lemma_quote_free_run(s@, start as int, n as int);
        assert(s@.take(n as int) =~= s@);
    }
    let run = s.substring_char(start, n);
    r.append(run);
    r
}


/// Position of the first line feed at or after `j`, or the end of `s`.
pub open spec fn line_end(s: Seq<char>, j: int) -> int
    decreases s.len() - j,
{
    if j < 0 || j >= s.len() || s[j] == '\n' {
        j
    } else {
        line_end(s, j + 1)
    }
}

pub proof fn lemma_line_end(s: Seq<char>, j: int)
    requires
        0 <= j <= s.len(),
    ensures
        j <= line_end(s, j) <= s.len(),
        forall|k: int| j <= k < line_end(s, j) ==> #[trigger] s[k] != '\n',
        line_end(s, j) < s.len() ==> s[line_end(s, j)] == '\n',
    decreases s.len() - j,
{
    if j < s.len() && s[j] != '\n' {
        lemma_line_end(s, j + 1);
    }
}

/// The lines of `s[i..]` as `str::lines` yields them: split after each line feed, the line
/// feed and a carriage return just before it removed, and no empty line after a final
/// line feed.
pub open spec fn lines_from(s: Seq<char>, i: int) -> Seq<Seq<char>>
    decreases s.len() - i,
{
    if i < 0 || i >= s.len() {
        Seq::empty()
    } else {
        let e = line_end(s, i);
        proof {
            lemma_line_end(s, i);
        }
        let raw = s.subrange(i, e);
        let line = if e < s.len() && raw.len() > 0 && raw.last() == '\r' {
            raw.drop_last()
        } else {
            raw
        };
        if e >= s.len() {
            seq![line]
        } else {
            seq![line] + lines_from(s, e + 1)
        }
    }
}

/// The lines of `s`.
pub open spec fn text_lines(s: Seq<char>) -> Seq<Seq<char>> {
    lines_from(s, 0)
}

/// The lines of `s`, as `str::lines` yields them.
pub fn split_lines(s: &str) -> (r: Vec<String>)
    ensures
        views_of(r@) == text_lines(s@),
{
    let cs = chars_of(s);
    let n = cs.len();
    let ghost t = s@;
    let mut lines: Vec<String> = Vec::new();
    let mut i: usize = 0;
    assert(views_of(lines@) + lines_from(t, 0) =~= text_lines(t));
    while i < n
        invariant
            cs@ == t,
            t == s@,
            n == cs.len(),
            i <= n,
            views_of(lines@) + lines_from(t, i as int) == text_lines(t),
        decreases n - i,
    {
        let mut e = i;
        while e < n && cs[e] != '\n'
            invariant
                cs@ == t,
                n == cs.len(),
                i <= e <= n,
                line_end(t, i as int) == line_end(t, e as int),
            decreases n - e,
        {
            e = e + 1;
        }
        proof {
            lemma_line_end(t, i as int);
        }
        let stop = if e < n && e > i && cs[e - 1] == '\r' {
            e - 1
        } else {
            e
        };
        let line = String::from_str(s.substring_char(i, stop));
        let ghost before = views_of(lines@);
        lines.push(line);
        proof {
            let raw = t.subrange(i as int, e as int);
            if e < n && e > i && cs@[e - 1] == '\r' {
                assert(raw.drop_last() =~= t.subrange(i as int, stop as int));
            } else {
                assert(raw =~= t.subrange(i as int, stop as int));
            }
            assert(views_of(lines@) =~= before.push(line@));
            let rest = if e < n { lines_from(t, e as int + 1) } else { Seq::<Seq<char>>::empty() };
            assert(lines_from(t, i as int) == seq![t.subrange(i as int, stop as int)] + rest);
            assert(views_of(lines@) + rest =~= before + lines_from(t, i as int));
            if e == n {
                assert(lines_from(t, n as int) =~= Seq::<Seq<char>>::empty());
            }
        }
        if e == n {
            i = n;
        } else {
            i = e + 1;
        }
    }
    assert(lines_from(t, i as int) =~= Seq::<Seq<char>>::empty());
    assert(views_of(lines@) =~= views_of(lines@) + lines_from(t, i as int));
    lines
}

} // verus!
