//! Character level helpers for the Arma text format: whitespace and quote
//! trimming, conversion between `String` and characters, and the splitting of
//! an array body into its top level elements.

use vstd::prelude::*;

verus! {

/// Unicode `White_Space` characters, the set that `char::is_whitespace` and `str::trim` use.
pub open spec fn is_ws(c: char) -> bool {
    ||| ('\u{9}' <= c && c <= '\u{d}')
    ||| c == ' '
    ||| c == '\u{85}'
    ||| c == '\u{a0}'
    ||| c == '\u{1680}'
    ||| ('\u{2000}' <= c && c <= '\u{200a}')
    ||| c == '\u{2028}'
    ||| c == '\u{2029}'
    ||| c == '\u{202f}'
    ||| c == '\u{205f}'
    ||| c == '\u{3000}'
}

/// The character that a trim removes: whitespace, or the double quote when `quotes` holds.
pub open spec fn trimmed_char(c: char, quotes: bool) -> bool {
    if quotes {
        c == '"'
    } else {
        is_ws(c)
    }
}

/// `s` without its leading trimmed characters
pub open spec fn trim_start(s: Seq<char>, quotes: bool) -> Seq<char>
    decreases s.len(),
{
    if s.len() > 0 && trimmed_char(s[0], quotes) {
        trim_start(s.drop_first(), quotes)
    } else {
        s
    }
}

/// `s` without its trailing trimmed characters
pub open spec fn trim_end(s: Seq<char>, quotes: bool) -> Seq<char>
    decreases s.len(),
{
    if s.len() > 0 && trimmed_char(s.last(), quotes) {
        trim_end(s.drop_last(), quotes)
    } else {
        s
    }
}

/// `str::trim`: leading and trailing whitespace removed
pub open spec fn trim(s: Seq<char>) -> Seq<char> {
    trim_end(trim_start(s, false), false)
}

/// `trim_start_matches('"')` followed by `trim_end_matches('"')`
pub open spec fn trim_quotes(s: Seq<char>) -> Seq<char> {
    trim_end(trim_start(s, true), true)
}

/// Decides `is_ws`.
pub fn is_whitespace(c: char) -> (r: bool)
    ensures
        r == is_ws(c),
{
    ('\u{9}' <= c && c <= '\u{d}') || c == ' ' || c == '\u{85}' || c == '\u{a0}' || c
        == '\u{1680}' || ('\u{2000}' <= c && c <= '\u{200a}') || c == '\u{2028}' || c
        == '\u{2029}' || c == '\u{202f}' || c == '\u{205f}' || c == '\u{3000}'
}

fn is_trimmed(c: char, quotes: bool) -> (r: bool)
    ensures
        r == trimmed_char(c, quotes),
{
    if quotes {
        c == '"'
    } else {
        is_whitespace(c)
    }
}

/// Leading trimmed characters of `s.skip(i)` are those of `s` past `i`.
proof fn lemma_trim_start_skip(s: Seq<char>, i: int, quotes: bool)
    requires
        0 <= i < s.len(),
        trimmed_char(s[i], quotes),
    ensures
        trim_start(s.skip(i), quotes) == trim_start(s.skip(i + 1), quotes),
{
    assert(s.skip(i).drop_first() =~= s.skip(i + 1));
}

proof fn lemma_trim_end_take(s: Seq<char>, j: int, quotes: bool)
    requires
        0 < j <= s.len(),
        trimmed_char(s[j - 1], quotes),
    ensures
        trim_end(s.take(j), quotes) == trim_end(s.take(j - 1), quotes),
{
    assert(s.take(j).drop_last() =~= s.take(j - 1));
}

/// The characters of `s[lo..hi]` as a new vector
pub fn copy_range(s: &[char], lo: usize, hi: usize) -> (r: Vec<char>)
    requires
        lo <= hi <= s@.len(),
    ensures
        r@ == s@.subrange(lo as int, hi as int),
{
    let mut r: Vec<char> = Vec::new();
    let mut k = lo;
    while k < hi
        invariant
            lo <= k <= hi <= s@.len(),
            r@ == s@.subrange(lo as int, k as int),
        decreases hi - k,
    {
        r.push(s[k]);
        assert(r@ =~= s@.subrange(lo as int, k + 1));
        k = k + 1;
    }
    r
}

/// Bounds `(i, j)` such that `s[i..j]` is `s` trimmed.
pub fn trim_bounds(s: &[char], quotes: bool) -> (r: (usize, usize))
    ensures
        r.0 <= r.1 <= s@.len(),
        s@.subrange(r.0 as int, r.1 as int) == trim_end(trim_start(s@, quotes), quotes),
{
    let mut i: usize = 0;
    assert(s@.skip(0) =~= s@);
    while i < s.len() && is_trimmed(s[i], quotes)
        invariant
            i <= s@.len(),
            trim_start(s@, quotes) == trim_start(s@.skip(i as int), quotes),
        decreases s@.len() - i,
    {
        proof {
            lemma_trim_start_skip(s@, i as int, quotes);
        }
        i = i + 1;
    }
    let ghost rest = s@.skip(i as int);
    assert(trim_start(s@, quotes) == rest) by {
        if i < s@.len() {
            assert(rest[0] == s@[i as int]);
        } else {
            assert(rest.len() == 0);
        }
    }
    let mut j: usize = s.len();
    assert(rest.take(rest.len() as int) =~= rest);
    while j > i && is_trimmed(s[j - 1], quotes)
        invariant
            i <= j <= s@.len(),
            rest == s@.skip(i as int),
            trim_end(rest, quotes) == trim_end(rest.take(j - i), quotes),
        decreases j,
    {
        proof {
            lemma_trim_end_take(rest, j - i, quotes);
        }
        j = j - 1;
    }
    proof {
        let t = rest.take(j - i);
        if j > i {
            assert(t.last() == s@[j - 1]);
        }
        assert(t =~= s@.subrange(i as int, j as int));
    }
    (i, j)
}

/// `s` trimmed of whitespace
pub fn trim_chars(s: &[char]) -> (r: Vec<char>)
    ensures
        r@ == trim(s@),
{
    let (i, j) = trim_bounds(s, false);
    copy_range(s, i, j)
}

/// The characters of a string
pub fn chars_of(s: &str) -> (r: Vec<char>)
    ensures
        r@ == s@,
{
    let mut r: Vec<char> = Vec::new();
    for c in it: s.chars()
        invariant
            r@ == it.seq().take(it.index() as int),
            it.seq() == s@,
    {
        r.push(c);
    }
    r
}

/// `String::push`: the string's characters, then `c`, as its documentation says.
#[verifier::external_body]
fn push_char(s: &mut String, c: char)
    ensures
        final(s)@ == old(s)@.push(c),
{
    s.push(c)
}

/// A string made of the given characters
pub fn string_from_chars(v: &[char]) -> (r: String)
    ensures
        r@ == v@,
{
    let mut r = String::new();
    let mut k: usize = 0;
    while k < v.len()
        invariant
            k <= v@.len(),
            r@ == v@.take(k as int),
        decreases v@.len() - k,
    {
        push_char(&mut r, v[k]);
        assert(r@ =~= v@.take(k + 1));
        k = k + 1;
    }
    assert(v@.take(v@.len() as int) =~= v@);
    r
}


/// The characters of `s` with each double quote doubled, as Arma escapes them
pub open spec fn escape_quotes(s: Seq<char>) -> Seq<char>
    decreases s.len(),
{
    if s.len() == 0 {
        Seq::empty()
    } else {
        escape_quotes(s.drop_last()) + if s.last() == '"' {
            seq!['"', '"']
        } else {
            seq![s.last()]
        }
    }
}

/// Arma's string literal for `s`: its characters between double quotes, each
/// double quote among them doubled
pub open spec fn literal(s: Seq<char>) -> Seq<char> {
    seq!['"'] + escape_quotes(s) + seq!['"']
}

/// A name that Arma's array text carries unchanged: without double quotes,
/// commas or brackets
pub open spec fn plain_name(s: Seq<char>) -> bool {
    &&& !s.contains('"')
    &&& !s.contains(',')
    &&& !s.contains('[')
    &&& !s.contains(']')
}

/// Writes Arma's string literal for `s`.
pub fn quote(s: &str) -> (r: String)
    ensures
        r@ == literal(s@),
{
    let c = chars_of(s);
    let mut out: Vec<char> = Vec::new();
    out.push('"');
    let mut k: usize = 0;
    assert(c@.take(0) =~= Seq::<char>::empty());
    while k < c.len()
        invariant
            k <= c@.len(),
            out@ == seq!['"'] + escape_quotes(c@.take(k as int)),
        decreases c@.len() - k,
    {
        assert(c@.take(k + 1).drop_last() =~= c@.take(k as int));
        assert(c@.take(k + 1).last() == c@[k as int]);
        if c[k] == '"' {
            out.push('"');
            out.push('"');
        } else {
            out.push(c[k]);
        }
        assert(out@ =~= seq!['"'] + escape_quotes(c@.take(k + 1)));
        k = k + 1;
    }
    assert(c@.take(c@.len() as int) =~= c@);
    out.push('"');
    string_from_chars(out.as_slice())
}

/// A text without double quotes needs no escaping.
pub proof fn lemma_escape_plain(s: Seq<char>)
    requires
        !s.contains('"'),
    ensures
        escape_quotes(s) == s,
    decreases s.len(),
{
    if s.len() > 0 {
        assert(!s.drop_last().contains('"')) by {
            if s.drop_last().contains('"') {
                let j = choose|j: int| 0 <= j < s.drop_last().len() && s.drop_last()[j] == '"';
                assert(s[j] == '"');
            }
        }
        lemma_escape_plain(s.drop_last());
        assert(s[s.len() - 1] != '"');
        assert(s.drop_last() + seq![s.last()] =~= s);
    }
}

/// Removing the quotes around the literal of a text without double quotes gives the text back.
pub proof fn lemma_trim_quotes_literal(s: Seq<char>)
    requires
        !s.contains('"'),
    ensures
        trim_quotes(literal(s)) == s,
{
    lemma_escape_plain(s);
    let q: Seq<char> = seq!['"'];
    let lit = q + s + q;
    assert(lit.drop_first() =~= s + q);
    assert(lit[0] == '"');
    if s.len() > 0 {
        assert((s + q)[0] == s[0]);
        assert(s[0] != '"');
        assert(trim_start(s + q, true) == s + q);
        assert(trim_start(lit, true) == trim_start(lit.drop_first(), true));
        assert(trim_start(lit, true) == s + q);
    } else {
        assert(s + q =~= q);
        assert(q.drop_first() =~= Seq::<char>::empty());
        assert(q[0] == '"');
        assert(trim_start(Seq::<char>::empty(), true) == Seq::<char>::empty());
        assert(trim_start(q, true) == trim_start(q.drop_first(), true));
        assert(trim_start(q, true) == Seq::<char>::empty());
        assert(trim_start(lit, true) == trim_start(lit.drop_first(), true));
        assert(trim_start(lit, true) == Seq::<char>::empty());
    }
    if s.len() > 0 {
        assert((s + q).drop_last() =~= s);
        assert((s + q).last() == '"');
        assert(s.last() != '"') by {
            assert(s[s.len() - 1] != '"');
        }
        assert(trim_end(s, true) == s);
    }
}

/// The state of the array splitter after some characters: bracket depth,
/// finished elements, and the element being read.
pub open spec fn split_step(st: (int, Seq<Seq<char>>, Seq<char>), c: char) -> (
    int,
    Seq<Seq<char>>,
    Seq<char>,
) {
    let (nest, parts, part) = st;
    if c == '[' {
        (nest + 1, parts, part.push(c))
    } else if c == ']' {
        (nest - 1, parts, part.push(c))
    } else if c == ',' && nest == 0 {
        (nest, parts.push(trim(part)), Seq::empty())
    } else {
        (nest, parts, part.push(c))
    }
}

/// The splitter's state after reading all of `s`
pub open spec fn split_state(s: Seq<char>) -> (int, Seq<Seq<char>>, Seq<char>)
    decreases s.len(),
{
    if s.len() == 0 {
        (0, Seq::empty(), Seq::empty())
    } else {
        split_step(split_state(s.drop_last()), s.last())
    }
}

/// What the splitter gives after reading all of `s`: the finished elements,
/// and the last one when it is not empty
pub open spec fn split_by_state(s: Seq<char>) -> Seq<Seq<char>> {
    let (_, parts, part) = split_state(s);
    if trim(part).len() == 0 {
        parts
    } else {
        parts.push(trim(part))
    }
}

/// The first comma at or after `i` that lies outside brackets; the length when there is none
pub open spec fn top_comma_from(s: Seq<char>, i: int) -> int
    decreases s.len() - i,
{
    if i < 0 || i >= s.len() {
        s.len() as int
    } else if s[i] == ',' && depth(s.take(i)) == 0 {
        i
    } else {
        top_comma_from(s, i + 1)
    }
}

/// The pieces of `s` between its commas outside brackets
pub open spec fn top_pieces(s: Seq<char>) -> Seq<Seq<char>>
    decreases s.len(),
{
    let i = top_comma_from(s, 0);
    if i < s.len() {
        proof {
            lemma_top_comma_bound(s, 0);
        }
        seq![s.take(i)] + top_pieces(s.skip(i + 1))
    } else {
        seq![s]
    }
}

/// The top level elements of an array body: the pieces between its commas
/// outside brackets, each trimmed, the last one dropped when it is empty.
pub open spec fn spec_split_array(s: Seq<char>) -> Seq<Seq<char>> {
    let p = top_pieces(s).map_values(|x: Seq<char>| trim(x));
    if p.last().len() == 0 {
        p.drop_last()
    } else {
        p
    }
}

/// The first comma outside brackets from `j` on lies within the text, and no
/// comma before it from `j` on is outside brackets.
pub proof fn lemma_top_comma_bound(s: Seq<char>, j: int)
    requires
        0 <= j <= s.len(),
    ensures
        j <= top_comma_from(s, j) <= s.len(),
        top_comma_from(s, j) < s.len() ==> s[top_comma_from(s, j)] == ',' && depth(
            s.take(top_comma_from(s, j)),
        ) == 0,
        forall|k: int|
            j <= k < top_comma_from(s, j) && s[k] == ',' ==> depth(#[trigger] s.take(k)) != 0,
    decreases s.len() - j,
{
    if j < s.len() && !(s[j] == ',' && depth(s.take(j)) == 0) {
        lemma_top_comma_bound(s, j + 1);
    }
}

/// Splits an array body (the text between the brackets) into its top level elements.
pub fn split_array(s: &[char]) -> (r: Vec<Vec<char>>)
    ensures
        r.deep_view() == spec_split_array(s@),
{
    let mut nest: i128 = 0;
    let mut parts: Vec<Vec<char>> = Vec::new();
    let mut part: Vec<char> = Vec::new();
    let mut i: usize = 0;
    assert(s@.take(0) =~= Seq::<char>::empty());
    while i < s.len()
        invariant
            i <= s@.len(),
            -(i as int) <= nest <= i,
            (nest as int, parts.deep_view(), part@) == split_state(s@.take(i as int)),
        decreases s@.len() - i,
    {
        let c = s[i];
        assert(s@.take(i + 1).drop_last() =~= s@.take(i as int));
        if c == '[' {
            part.push(c);
            nest = nest + 1;
        } else if c == ']' {
            nest = nest - 1;
            part.push(c);
        } else if c == ',' && nest == 0 {
            let t = trim_chars(part.as_slice());
            let ghost old_parts = parts.deep_view();
            assert(t.deep_view() =~= t@);
            parts.push(t);
            assert(parts.deep_view() =~= old_parts.push(t@));
            part = Vec::new();
        } else {
            part.push(c);
        }
        i = i + 1;
    }
    assert(s@.take(s@.len() as int) =~= s@);
    let t = trim_chars(part.as_slice());
    if t.len() > 0 {
        let ghost old_parts = parts.deep_view();
        assert(t.deep_view() =~= t@);
        parts.push(t);
        assert(parts.deep_view() =~= old_parts.push(t@));
    }
    proof {
        lemma_split_array_direct(s@);
    }
    parts
}

/// The splitter's state after reading `s` from the state `st`
pub open spec fn split_from(st: (int, Seq<Seq<char>>, Seq<char>), s: Seq<char>) -> (
    int,
    Seq<Seq<char>>,
    Seq<char>,
)
    decreases s.len(),
{
    if s.len() == 0 {
        st
    } else {
        split_step(split_from(st, s.drop_last()), s.last())
    }
}

/// How much the characters of `s` deepen the bracket nesting
pub open spec fn depth(s: Seq<char>) -> int
    decreases s.len(),
{
    if s.len() == 0 {
        0
    } else {
        depth(s.drop_last()) + if s.last() == '[' {
            1int
        } else if s.last() == ']' {
            -1int
        } else {
            0int
        }
    }
}

/// An element that the splitter gives back whole: not empty, without
/// surrounding whitespace, its brackets balanced, and no comma outside them.
pub open spec fn plain_element(p: Seq<char>) -> bool {
    &&& p.len() > 0
    &&& trim(p) == p
    &&& depth(p) == 0
    &&& forall|i: int| 0 <= i <= p.len() ==> depth(#[trigger] p.take(i)) >= 0
    &&& forall|i: int| 0 <= i < p.len() && p[i] == ',' ==> depth(#[trigger] p.take(i)) != 0
}

/// Text without brackets does not change the nesting.
proof fn lemma_depth_no_brackets(s: Seq<char>)
    requires
        !s.contains('['),
        !s.contains(']'),
    ensures
        depth(s) == 0,
    decreases s.len(),
{
    if s.len() > 0 {
        assert(s[s.len() - 1] != '[' && s[s.len() - 1] != ']');
        assert(!s.drop_last().contains('[')) by {
            if s.drop_last().contains('[') {
                let j = choose|j: int| 0 <= j < s.drop_last().len() && s.drop_last()[j] == '[';
                assert(s[j] == '[');
            }
        }
        assert(!s.drop_last().contains(']')) by {
            if s.drop_last().contains(']') {
                let j = choose|j: int| 0 <= j < s.drop_last().len() && s.drop_last()[j] == ']';
                assert(s[j] == ']');
            }
        }
        lemma_depth_no_brackets(s.drop_last());
    }
}

/// Text that neither starts nor ends with whitespace is its own trim.
proof fn lemma_trim_unchanged(s: Seq<char>)
    requires
        s.len() > 0,
        !is_ws(s[0]),
        !is_ws(s.last()),
    ensures
        trim(s) == s,
{
}

/// Text without brackets, commas, or surrounding whitespace is a plain element.
pub proof fn lemma_plain_element_of(s: Seq<char>)
    requires
        s.len() > 0,
        !is_ws(s[0]),
        !is_ws(s.last()),
        !s.contains('['),
        !s.contains(']'),
        !s.contains(','),
    ensures
        plain_element(s),
{
    lemma_trim_unchanged(s);
    lemma_depth_no_brackets(s);
    assert forall|i: int| 0 <= i < s.len() && s[i] == ',' implies depth(#[trigger] s.take(i))
        != 0 by {
        assert(s.contains(','));
    }
    assert forall|i: int| 0 <= i <= s.len() implies depth(#[trigger] s.take(i)) >= 0 by {
        let t = s.take(i);
        assert(!t.contains('[')) by {
            if t.contains('[') {
                let j = choose|j: int| 0 <= j < t.len() && t[j] == '[';
                assert(s[j] == '[');
            }
        }
        assert(!t.contains(']')) by {
            if t.contains(']') {
                let j = choose|j: int| 0 <= j < t.len() && t[j] == ']';
                assert(s[j] == ']');
            }
        }
        lemma_depth_no_brackets(t);
    }
}

/// Nesting adds up over concatenation.
proof fn lemma_depth_concat(a: Seq<char>, b: Seq<char>)
    ensures
        depth(a + b) == depth(a) + depth(b),
    decreases b.len(),
{
    if b.len() == 0 {
        assert(a + b =~= a);
    } else {
        assert((a + b).drop_last() =~= a + b.drop_last());
        assert((a + b).last() == b.last());
        lemma_depth_concat(a, b.drop_last());
    }
}

/// Plain elements joined with commas never nest below zero and end at zero.
proof fn lemma_join_depth(parts: Seq<Seq<char>>)
    requires
        forall|i: int| 0 <= i < parts.len() ==> plain_element(#[trigger] parts[i]),
    ensures
        depth(join_elements(parts)) == 0,
        forall|i: int|
            0 <= i <= join_elements(parts).len() ==> depth(#[trigger] join_elements(parts).take(i))
                >= 0,
    decreases parts.len(),
{
    let j = join_elements(parts);
    if parts.len() == 0 {
        assert forall|i: int| 0 <= i <= j.len() implies depth(#[trigger] j.take(i)) >= 0 by {
            assert(j.take(i) =~= Seq::<char>::empty());
        }
    } else if parts.len() == 1 {
        assert(plain_element(parts[0]));
    } else {
        let pd = parts.drop_last();
        assert forall|i: int| 0 <= i < pd.len() implies plain_element(#[trigger] pd[i]) by {
            assert(pd[i] == parts[i]);
        }
        lemma_join_depth(pd);
        let a = join_elements(pd);
        let l = parts.last();
        assert(plain_element(parts[parts.len() - 1]));
        let comma: Seq<char> = seq![','];
        assert(j == a + comma + l);
        assert(depth(comma) == 0) by {
            assert(comma.drop_last() =~= Seq::<char>::empty());
            assert(depth(Seq::<char>::empty()) == 0);
            assert(comma.last() == ',');
        }
        lemma_depth_concat(a, comma);
        lemma_depth_concat(a + comma, l);
        assert forall|i: int| 0 <= i <= j.len() implies depth(#[trigger] j.take(i)) >= 0 by {
            if i <= a.len() {
                assert(j.take(i) =~= a.take(i));
            } else if i == a.len() + 1 {
                assert(j.take(i) =~= a + comma);
            } else {
                let k = i - a.len() - 1;
                assert(j.take(i) =~= (a + comma) + l.take(k));
                lemma_depth_concat(a + comma, l.take(k));
            }
        }
    }
}

/// An array of plain elements is itself a plain element.
pub proof fn lemma_plain_array(parts: Seq<Seq<char>>)
    requires
        forall|i: int| 0 <= i < parts.len() ==> plain_element(#[trigger] parts[i]),
    ensures
        plain_element(seq!['['] + join_elements(parts) + seq![']']),
{
    let j = join_elements(parts);
    let open: Seq<char> = seq!['['];
    let close: Seq<char> = seq![']'];
    let t = open + j + close;
    lemma_join_depth(parts);
    assert(depth(open) == 1) by {
        assert(open.drop_last() =~= Seq::<char>::empty());
        assert(depth(Seq::<char>::empty()) == 0);
        assert(open.last() == '[');
    }
    assert(depth(close) == -1) by {
        assert(close.drop_last() =~= Seq::<char>::empty());
        assert(depth(Seq::<char>::empty()) == 0);
        assert(close.last() == ']');
    }
    lemma_depth_concat(open, j);
    lemma_depth_concat(open + j, close);
    assert(t[0] == '[' && t.last() == ']');
    lemma_trim_unchanged(t);
    assert forall|i: int| 1 <= i < t.len() implies depth(#[trigger] t.take(i)) >= 1 by {
        assert(t.take(i) =~= open + j.take(i - 1));
        lemma_depth_concat(open, j.take(i - 1));
    }
    assert forall|i: int| 0 <= i <= t.len() implies depth(#[trigger] t.take(i)) >= 0 by {
        if i == 0 {
            assert(t.take(0) =~= Seq::<char>::empty());
        } else if i == t.len() {
            assert(t.take(i) =~= t);
        } else {
            assert(depth(t.take(i)) >= 1);
        }
    }
    assert forall|i: int| 0 <= i < t.len() && t[i] == ',' implies depth(#[trigger] t.take(i))
        != 0 by {
        if i == 0 {
            assert(t[0] == '[');
        } else {
            assert(depth(t.take(i)) >= 1);
        }
    }
}

/// Elements written one after another with a comma between each two
pub open spec fn join_elements(parts: Seq<Seq<char>>) -> Seq<char>
    decreases parts.len(),
{
    if parts.len() == 0 {
        Seq::empty()
    } else if parts.len() == 1 {
        parts[0]
    } else {
        join_elements(parts.drop_last()) + seq![','] + parts.last()
    }
}

proof fn lemma_split_state_from(s: Seq<char>)
    ensures
        split_state(s) == split_from((0, Seq::empty(), Seq::empty()), s),
    decreases s.len(),
{
    if s.len() > 0 {
        lemma_split_state_from(s.drop_last());
    }
}

proof fn lemma_split_from_concat(st: (int, Seq<Seq<char>>, Seq<char>), a: Seq<char>, b: Seq<char>)
    ensures
        split_from(st, a + b) == split_from(split_from(st, a), b),
    decreases b.len(),
{
    if b.len() == 0 {
        assert(a + b =~= a);
    } else {
        assert((a + b).drop_last() =~= a + b.drop_last());
        assert((a + b).last() == b.last());
        lemma_split_from_concat(st, a, b.drop_last());
    }
}

/// Reading the first `k` characters of a plain element from a fresh element
/// leaves the finished elements alone and holds those characters.
proof fn lemma_split_element_prefix(parts: Seq<Seq<char>>, p: Seq<char>, k: int)
    requires
        forall|i: int| 0 <= i < p.len() && p[i] == ',' ==> depth(#[trigger] p.take(i)) != 0,
        0 <= k <= p.len(),
    ensures
        split_from((0, parts, Seq::empty()), p.take(k)) == (depth(p.take(k)), parts, p.take(k)),
    decreases k,
{
    if k == 0 {
        assert(p.take(0) =~= Seq::<char>::empty());
    } else {
        lemma_split_element_prefix(parts, p, k - 1);
        assert(p.take(k).drop_last() =~= p.take(k - 1));
        assert(p.take(k).last() == p[k - 1]);
        assert(p.take(k - 1).push(p[k - 1]) =~= p.take(k));
        if p[k - 1] == ',' {
            assert(depth(p.take(k - 1)) != 0);
        }
    }
}

/// Reading `s` from a fresh element finishes every piece but the last, trimmed,
/// and holds the last piece.
proof fn lemma_split_from_pieces(parts: Seq<Seq<char>>, s: Seq<char>)
    ensures
        split_from((0, parts, Seq::empty()), s) == (
            depth(top_pieces(s).last()),
            parts + top_pieces(s).drop_last().map_values(|x: Seq<char>| trim(x)),
            top_pieces(s).last(),
        ),
    decreases s.len(),
{
    lemma_top_comma_bound(s, 0);
    let i = top_comma_from(s, 0);
    if i < s.len() {
        let head = s.take(i);
        let rest = s.skip(i + 1);
        let comma: Seq<char> = seq![','];
        assert(s =~= head + comma + rest);
        assert forall|k: int| 0 <= k < head.len() && head[k] == ',' implies depth(
            #[trigger] head.take(k),
        ) != 0 by {
            assert(head.take(k) =~= s.take(k));
        }
        lemma_split_element_prefix(parts, head, i);
        assert(head.take(i) =~= head);
        lemma_split_from_concat((0, parts, Seq::empty()), head + comma, rest);
        lemma_split_from_concat((0, parts, Seq::empty()), head, comma);
        assert(comma.drop_last() =~= Seq::<char>::empty());
        assert(comma.last() == ',');
        let parts2 = parts.push(trim(head));
        let x = split_from((0, parts, Seq::empty()), head);
        assert(depth(head) == 0);
        assert(x == (0int, parts, head));
        assert(split_from(x, comma.drop_last()) == x);
        assert(split_from(x, comma) == (0int, parts2, Seq::<char>::empty()));
        assert(split_from((0, parts, Seq::empty()), head + comma) == (0int, parts2, Seq::<char>::empty()));
        lemma_split_from_pieces(parts2, rest);
        let tr = top_pieces(rest);
        assert(top_pieces(s) == seq![head] + tr);
        assert(tr.len() >= 1) by {
            reveal_with_fuel(top_pieces, 1);
        }
        assert((seq![head] + tr).drop_last() =~= seq![head] + tr.drop_last());
        assert((seq![head] + tr).last() == tr.last());
        assert(parts2 + tr.drop_last().map_values(|x: Seq<char>| trim(x)) =~= parts + (seq![head]
            + tr.drop_last()).map_values(|x: Seq<char>| trim(x)));
    } else {
        let no: Seq<Seq<char>> = Seq::empty();
        assert(top_pieces(s) == seq![s]);
        assert(seq![s].drop_last() =~= no);
        assert(no.map_values(|x: Seq<char>| trim(x)) =~= no);
        assert(parts + no =~= parts);
        lemma_split_element_prefix(parts, s, s.len() as int);
        assert(s.take(s.len() as int) =~= s);
    }
}

/// The splitter's fold gives the pieces between commas outside brackets.
proof fn lemma_split_array_direct(s: Seq<char>)
    ensures
        split_by_state(s) == spec_split_array(s),
{
    lemma_split_state_from(s);
    lemma_split_from_pieces(Seq::empty(), s);
    let tp = top_pieces(s);
    assert(tp.len() >= 1) by {
        lemma_top_comma_bound(s, 0);
    }
    let p = tp.map_values(|x: Seq<char>| trim(x));
    assert(Seq::<Seq<char>>::empty() + tp.drop_last().map_values(|x: Seq<char>| trim(x)) =~= p.drop_last());
    assert(p.last() == trim(tp.last()));
    assert(p.drop_last().push(trim(tp.last())) =~= p);
}

/// Elements joined with commas are split back into the same elements.
pub proof fn lemma_split_joined_elements(parts: Seq<Seq<char>>)
    requires
        forall|i: int| 0 <= i < parts.len() ==> plain_element(#[trigger] parts[i]),
    ensures
        spec_split_array(join_elements(parts)) == parts,
{
    let init = (0int, Seq::<Seq<char>>::empty(), Seq::<char>::empty());
    lemma_split_array_direct(join_elements(parts));
    lemma_split_state_from(join_elements(parts));
    if parts.len() == 0 {
        assert(trim(Seq::<char>::empty()) =~= Seq::<char>::empty());
    } else {
        lemma_split_join_from(parts);
        let l = parts.last();
        assert(plain_element(parts[parts.len() - 1]));
        assert(parts.drop_last().push(l) =~= parts);
    }
}

proof fn lemma_split_join_from(parts: Seq<Seq<char>>)
    requires
        parts.len() >= 1,
        forall|i: int| 0 <= i < parts.len() ==> plain_element(#[trigger] parts[i]),
    ensures
        split_from((0, Seq::empty(), Seq::empty()), join_elements(parts)) == (
            0int,
            parts.drop_last(),
            parts.last(),
        ),
    decreases parts.len(),
{
    let init = (0int, Seq::<Seq<char>>::empty(), Seq::<char>::empty());
    let l = parts.last();
    assert(plain_element(parts[parts.len() - 1]));
    if parts.len() == 1 {
        lemma_split_element_prefix(Seq::empty(), l, l.len() as int);
        assert(l.take(l.len() as int) =~= l);
        assert(parts.drop_last() =~= Seq::<Seq<char>>::empty());
        assert(join_elements(parts) == l);
    } else {
        let pd = parts.drop_last();
        assert forall|i: int| 0 <= i < pd.len() implies plain_element(#[trigger] pd[i]) by {
            assert(pd[i] == parts[i]);
        }
        lemma_split_join_from(pd);
        let a = join_elements(pd);
        lemma_split_from_concat(init, a + seq![','], l);
        lemma_split_from_concat(init, a, seq![',']);
        let comma: Seq<char> = seq![','];
        assert(comma.drop_last() =~= Seq::<char>::empty());
        assert(comma.last() == ',');
        assert(plain_element(pd[pd.len() - 1]));
        assert(pd.drop_last().push(pd.last()) =~= pd);
        let s1 = split_from(init, a);
        assert(s1 == (0int, pd.drop_last(), pd.last()));
        assert(split_from(s1, comma.drop_last()) == s1);
        assert(split_from(s1, comma) == (0int, pd, Seq::<char>::empty()));
        lemma_split_element_prefix(pd, l, l.len() as int);
        assert(l.take(l.len() as int) =~= l);
        assert(join_elements(parts) == a + comma + l);
    }
}

/// `s` starts with `[` and ends with a later `]`; the text between them, or
/// which bracket is missing (`true` for the opening one).
pub open spec fn spec_strip_brackets(s: Seq<char>) -> Result<Seq<char>, bool> {
    if s.len() == 0 || s[0] != '[' {
        Err(true)
    } else if s.len() < 2 || s.last() != ']' {
        Err(false)
    } else {
        Ok(s.subrange(1, s.len() - 1))
    }
}

/// Removes the enclosing brackets of an array text.
pub fn strip_brackets(s: &[char]) -> (r: Result<Vec<char>, bool>)
    ensures
        match r {
            Ok(v) => spec_strip_brackets(s@) == Ok::<Seq<char>, bool>(v@),
            Err(b) => spec_strip_brackets(s@) == Err::<Seq<char>, bool>(b),
        },
{
    if s.len() == 0 || s[0] != '[' {
        Err(true)
    } else if s.len() < 2 || s[s.len() - 1] != ']' {
        Err(false)
    } else {
        Ok(copy_range(s, 1, s.len() - 1))
    }
}

/// The decimal digit character for `d < 10`
pub open spec fn digit_char(d: nat) -> char {
    ((d + 48) as u32) as char
}

/// The decimal text of `n`, without leading zeros
pub open spec fn nat_text(n: nat) -> Seq<char>
    decreases n,
{
    if n < 10 {
        seq![digit_char(n)]
    } else {
        nat_text(n / 10).push(digit_char(n % 10))
    }
}

fn digit_to_char(d: u64) -> (c: char)
    requires
        d < 10,
    ensures
        c == digit_char(d as nat),
{
    let b = (d as u8) + 48u8;
    b as char
}

/// Appends the decimal text of `n`.
pub fn push_decimal(out: &mut Vec<char>, n: u64)
    ensures
        final(out)@ == old(out)@ + nat_text(n as nat),
    decreases n,
{
    if n >= 10 {
        push_decimal(out, n / 10);
    }
    let ghost mid = out@;
    out.push(digit_to_char(n % 10));
    proof {
        if n >= 10 {
            assert(nat_text(n as nat) == nat_text((n / 10) as nat).push(digit_char((n % 10) as nat)));
        } else {
            assert(nat_text(n as nat) == seq![digit_char(n as nat)]);
        }
    }
    assert(out@ =~= old(out)@ + nat_text(n as nat));
}

/// One step of Arma's escaping undone, read from the front: each `""` as one `"`
pub open spec fn unescape_quotes(s: Seq<char>) -> Seq<char>
    decreases s.len(),
{
    if s.len() == 0 {
        Seq::empty()
    } else if s.len() >= 2 && s[0] == '"' && s[1] == '"' {
        seq!['"'] + unescape_quotes(s.skip(2))
    } else {
        seq![s[0]] + unescape_quotes(s.skip(1))
    }
}

/// The text of an Arma string value: what stands between its enclosing double
/// quotes (a missing closing quote is tolerated), with one step of escaping undone
pub open spec fn spec_string_value(s: Seq<char>) -> Seq<char> {
    let a = if s.len() > 0 && s[0] == '"' {
        s.skip(1)
    } else {
        s
    };
    let b = if a.len() > 0 && a.last() == '"' {
        a.drop_last()
    } else {
        a
    };
    unescape_quotes(b)
}

/// Reads the text of an Arma string value: `"My name is ""John""."` gives
/// `My name is "John".`
pub fn string_value(s: &str) -> (r: String)
    ensures
        r@ == spec_string_value(s@),
{
    let c = chars_of(s);
    let n = c.len();
    let lo: usize = if n > 0 && c[0] == '"' {
        1
    } else {
        0
    };
    let hi: usize = if n > lo && c[n - 1] == '"' {
        n - 1
    } else {
        n
    };
    let ghost body = c@.subrange(lo as int, hi as int);
    proof {
        let a = if c@.len() > 0 && c@[0] == '"' {
            c@.skip(1)
        } else {
            c@
        };
        assert(a =~= c@.subrange(lo as int, n as int));
        if a.len() > 0 && a.last() == '"' {
            assert(a.drop_last() =~= body);
        } else {
            assert(a =~= body);
        }
    }
    let mut out: Vec<char> = Vec::new();
    let mut k: usize = lo;
    assert(out@ + unescape_quotes(c@.subrange(k as int, hi as int)) =~= unescape_quotes(body));
    while k < hi
        invariant
            lo <= k <= hi,
            hi <= c@.len(),
            body == c@.subrange(lo as int, hi as int),
            out@ + unescape_quotes(c@.subrange(k as int, hi as int)) == unescape_quotes(body),
        decreases hi - k,
    {
        let ghost rest = c@.subrange(k as int, hi as int);
        if k + 1 < hi && c[k] == '"' && c[k + 1] == '"' {
            assert(rest.skip(2) =~= c@.subrange(k + 2, hi as int));
            out.push('"');
            assert(out@ + unescape_quotes(c@.subrange(k + 2, hi as int)) =~= unescape_quotes(body));
            k = k + 2;
        } else {
            assert(rest.skip(1) =~= c@.subrange(k + 1, hi as int));
            out.push(c[k]);
            assert(out@ + unescape_quotes(c@.subrange(k + 1, hi as int)) =~= unescape_quotes(body));
            k = k + 1;
        }
    }
    assert(c@.subrange(k as int, hi as int) =~= Seq::<char>::empty());
    assert(out@ =~= unescape_quotes(body));
    string_from_chars(out.as_slice())
}

proof fn lemma_escape_concat(a: Seq<char>, b: Seq<char>)
    ensures
        escape_quotes(a + b) == escape_quotes(a) + escape_quotes(b),
    decreases b.len(),
{
    if b.len() == 0 {
        assert(a + b =~= a);
        assert(escape_quotes(a) + escape_quotes(b) =~= escape_quotes(a));
    } else {
        assert((a + b).drop_last() =~= a + b.drop_last());
        assert((a + b).last() == b.last());
        lemma_escape_concat(a, b.drop_last());
        let tail = if b.last() == '"' {
            seq!['"', '"']
        } else {
            seq![b.last()]
        };
        assert(escape_quotes(a) + escape_quotes(b.drop_last()) + tail =~= escape_quotes(a) + (
        escape_quotes(b.drop_last()) + tail));
    }
}

proof fn lemma_unescape_escape(t: Seq<char>)
    ensures
        unescape_quotes(escape_quotes(t)) == t,
    decreases t.len(),
{
    if t.len() > 0 {
        let h = seq![t[0]];
        let r = t.skip(1);
        assert(t =~= h + r);
        lemma_escape_concat(h, r);
        assert(h.drop_last() =~= Seq::<char>::empty());
        assert(escape_quotes(h.drop_last()) =~= Seq::<char>::empty());
        assert(h.last() == t[0]);
        let e = escape_quotes(t);
        lemma_unescape_escape(r);
        if t[0] == '"' {
            assert(escape_quotes(h) =~= seq!['"', '"']);
            assert(e.skip(2) =~= escape_quotes(r));
            assert(unescape_quotes(e) =~= seq!['"'] + r);
        } else {
            assert(escape_quotes(h) =~= seq![t[0]]);
            assert(e.skip(1) =~= escape_quotes(r));
            assert(unescape_quotes(e) =~= seq![t[0]] + r);
        }
        assert(seq![t[0]] + r =~= t);
    }
}

/// Reading a string value gives back the text its literal was written from:
/// what `quote` writes, `string_value` reads back unchanged, double quotes included.
pub proof fn lemma_string_value_of_literal(t: Seq<char>)
    ensures
        spec_string_value(literal(t)) == t,
{
    let l = literal(t);
    assert(l.skip(1) =~= escape_quotes(t) + seq!['"']);
    assert((escape_quotes(t) + seq!['"']).drop_last() =~= escape_quotes(t));
    lemma_unescape_escape(t);
}

} // verus!
