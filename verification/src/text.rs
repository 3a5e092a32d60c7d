//! Text: the handful of string operations the rest of the library is built
//! on, each stated over sequences of characters.

use vstd::prelude::*;

verus! {

/// `String::push` appends one character at the end.
pub assume_specification[ String::push ](s: &mut String, c: char)
    ensures
        final(s)@ == old(s)@.push(c),
;

// --- characters ---

/// Whether a character has the Unicode `White_Space` property.
pub open spec fn is_white(c: char) -> bool {
    ||| '\u{9}' <= c <= '\u{d}'
    ||| c == ' '
    ||| c == '\u{85}'
    ||| c == '\u{a0}'
    ||| c == '\u{1680}'
    ||| '\u{2000}' <= c <= '\u{200a}'
    ||| c == '\u{2028}'
    ||| c == '\u{2029}'
    ||| c == '\u{202f}'
    ||| c == '\u{205f}'
    ||| c == '\u{3000}'
}

/// Whether a character is white space.
pub fn is_whitespace(c: char) -> (r: bool)
    ensures
        r == is_white(c),
{
    ('\u{9}' <= c && c <= '\u{d}') || c == ' ' || c == '\u{85}' || c == '\u{a0}' || c == '\u{1680}'
        || ('\u{2000}' <= c && c <= '\u{200a}') || c == '\u{2028}' || c == '\u{2029}' || c
        == '\u{202f}' || c == '\u{205f}' || c == '\u{3000}'
}

/// The ASCII lower case of a character; every other character is itself.
pub open spec fn lower_char(c: char) -> char {
    if 'A' <= c <= 'Z' {
        ((c as u8) + 32) as u8 as char
    } else {
        c
    }
}

pub fn to_lower_char(c: char) -> (r: char)
    ensures
        r == lower_char(c),
{
    if 'A' <= c && c <= 'Z' {
        ((c as u8) + 32) as char
    } else {
        c
    }
}

// --- between strings and vectors of characters ---

/// The characters of a string.
pub fn chars_of(s: &str) -> (r: Vec<char>)
    ensures
        r@ == s@,
{
    let mut out: Vec<char> = Vec::new();
    for c in it: s.chars()
        invariant
            it.seq() == s@,
            out@ == s@.take(it.index() as int),
    {
        out.push(c);
    }
    assert(s@.take(s@.len() as int) =~= s@);
    out
}

/// The string with the characters from `from` up to, not including, `to`.
pub fn string_between(v: &Vec<char>, from: usize, to: usize) -> (r: String)
    requires
        from <= to <= v@.len(),
    ensures
        r@ == v@.subrange(from as int, to as int),
{
    let mut out = String::new();
    let mut i: usize = from;
    while i < to
        invariant
            from <= i <= to <= v@.len(),
            out@ =~= v@.subrange(from as int, i as int),
        decreases to - i,
    {
        out.push(v[i]);
        i += 1;
    }
    out
}

/// Whether two strings hold the same characters.
pub fn same(a: &str, b: &str) -> (r: bool)
    ensures
        r == (a@ == b@),
{
    a.to_owned() == b.to_owned()
}

/// Two strings, one after the other.
pub fn join2(a: &str, b: &str) -> (r: String)
    ensures
        r@ == a@ + b@,
{
    let mut out = a.to_owned();
    out.append(b);
    out
}

// --- trimming ---

/// What is left of a text once its leading white space is gone.
pub open spec fn trim_start_of(s: Seq<char>) -> Seq<char>
    decreases s.len(),
{
    if s.len() > 0 && is_white(s[0]) {
        trim_start_of(s.drop_first())
    } else {
        s
    }
}

/// What is left of a text once its trailing white space is gone.
pub open spec fn trim_end_of(s: Seq<char>) -> Seq<char>
    decreases s.len(),
{
    if s.len() > 0 && is_white(s.last()) {
        trim_end_of(s.drop_last())
    } else {
        s
    }
}

/// A text without the white space around it.
pub open spec fn trim_of(s: Seq<char>) -> Seq<char> {
    trim_end_of(trim_start_of(s))
}

/// A text without the trailing copies of `c`.
pub open spec fn trim_end_char_of(s: Seq<char>, c: char) -> Seq<char>
    decreases s.len(),
{
    if s.len() > 0 && s.last() == c {
        trim_end_char_of(s.drop_last(), c)
    } else {
        s
    }
}

/// The text without surrounding white space.
pub fn trim(s: &str) -> (r: String)
    ensures
        r@ == trim_of(s@),
{
    let v = chars_of(s);
    let mut i: usize = 0;
    assert(s@.skip(0) =~= s@);
    while i < v.len() && is_whitespace(v[i])
        invariant
            v@ == s@,
            i <= v@.len(),
            trim_start_of(s@) == trim_start_of(s@.skip(i as int)),
        decreases v@.len() - i,
    {
        assert(s@.skip(i as int).drop_first() =~= s@.skip(i + 1));
        i += 1;
    }
    let ghost start = s@.skip(i as int);
    assert(trim_start_of(s@) == start);
    let mut j: usize = v.len();
    assert(s@.subrange(i as int, j as int) =~= start);
    while i < j && is_whitespace(v[j - 1])
        invariant
            v@ == s@,
            i <= j <= v@.len(),
            trim_end_of(start) == trim_end_of(s@.subrange(i as int, j as int)),
        decreases j - i,
    {
        assert(s@.subrange(i as int, j as int).drop_last() =~= s@.subrange(i as int, j - 1));
        j -= 1;
    }
    string_between(&v, i, j)
}

/// Whether a character ends a line.
pub open spec fn is_line_end(c: char) -> bool {
    c == '\n' || c == '\r'
}

/// What is left of a text once the line ends behind it are gone.
pub open spec fn trim_newlines_of(s: Seq<char>) -> Seq<char>
    decreases s.len(),
{
    if s.len() > 0 && is_line_end(s.last()) {
        trim_newlines_of(s.drop_last())
    } else {
        s
    }
}

/// The text without the line ends behind it.
pub fn trim_newlines(s: &str) -> (r: String)
    ensures
        r@ == trim_newlines_of(s@),
{
    let v = chars_of(s);
    let mut j: usize = v.len();
    assert(s@.take(j as int) =~= s@);
    while 0 < j && (v[j - 1] == '\n' || v[j - 1] == '\r')
        invariant
            v@ == s@,
            j <= v@.len(),
            trim_newlines_of(s@) == trim_newlines_of(s@.take(j as int)),
        decreases j,
    {
        assert(s@.take(j as int).drop_last() =~= s@.take(j - 1));
        j -= 1;
    }
    string_between(&v, 0, j)
}

/// The text without the trailing copies of `c`.
pub fn trim_end_char(s: &str, c: char) -> (r: String)
    ensures
        r@ == trim_end_char_of(s@, c),
{
    let v = chars_of(s);
    let mut j: usize = v.len();
    assert(s@.take(j as int) =~= s@);
    while 0 < j && v[j - 1] == c
        invariant
            v@ == s@,
            j <= v@.len(),
            trim_end_char_of(s@, c) == trim_end_char_of(s@.take(j as int), c),
        decreases j,
    {
        assert(s@.take(j as int).drop_last() =~= s@.take(j - 1));
        j -= 1;
    }
    string_between(&v, 0, j)
}

/// The text without the leading copies of `c`.
pub open spec fn trim_start_char_of(s: Seq<char>, c: char) -> Seq<char>
    decreases s.len(),
{
    if s.len() > 0 && s[0] == c {
        trim_start_char_of(s.drop_first(), c)
    } else {
        s
    }
}

/// The text without the leading copies of `c`.
pub fn trim_start_char(s: &str, c: char) -> (r: String)
    ensures
        r@ == trim_start_char_of(s@, c),
{
    let v = chars_of(s);
    let mut i: usize = 0;
    assert(s@.skip(0) =~= s@);
    while i < v.len() && v[i] == c
        invariant
            v@ == s@,
            i <= v@.len(),
            trim_start_char_of(s@, c) == trim_start_char_of(s@.skip(i as int), c),
        decreases v@.len() - i,
    {
        assert(s@.skip(i as int).drop_first() =~= s@.skip(i + 1));
        i += 1;
    }
    assert(s@.subrange(i as int, v@.len() as int) =~= s@.skip(i as int));
    string_between(&v, i, v.len())
}

// --- case ---

/// A text in ASCII lower case.
pub open spec fn lower_of(s: Seq<char>) -> Seq<char> {
    s.map_values(|c: char| lower_char(c))
}

/// The text in ASCII lower case.
pub fn to_lower(s: &str) -> (r: String)
    ensures
        r@ == lower_of(s@),
{
    let mut out = String::new();
    for c in it: s.chars()
        invariant
            it.seq() == s@,
            out@ =~= lower_of(s@).take(it.index() as int),
    {
        out.push(to_lower_char(c));
    }
    assert(lower_of(s@).take(s@.len() as int) =~= lower_of(s@));
    out
}

// --- searching and splitting ---

/// The index of the first `c` in a text, or the text's length.
pub open spec fn first_index(s: Seq<char>, c: char) -> int
    decreases s.len(),
{
    if s.len() == 0 || s[0] == c {
        0
    } else {
        1 + first_index(s.drop_first(), c)
    }
}

pub proof fn lemma_first_index(s: Seq<char>, c: char)
    ensures
        0 <= first_index(s, c) <= s.len(),
        first_index(s, c) < s.len() ==> s[first_index(s, c)] == c,
        forall|i: int| 0 <= i < first_index(s, c) ==> s[i] != c,
        s.contains(c) <==> first_index(s, c) < s.len(),
    decreases s.len(),
{
    if s.len() > 0 && s[0] != c {
        lemma_first_index(s.drop_first(), c);
        let k = first_index(s.drop_first(), c);
        assert forall|i: int| 0 <= i < first_index(s, c) implies s[i] != c by {
            if i > 0 {
                assert(s.drop_first()[i - 1] == s[i]);
            }
        }
        if k < s.drop_first().len() {
            assert(s[k + 1] == c);
        }
    }
}

/// The first index is the one place where `c` stands with no `c` before it.
pub proof fn lemma_first_index_is(s: Seq<char>, c: char, k: int)
    requires
        0 <= k <= s.len(),
        k < s.len() ==> s[k] == c,
        forall|i: int| 0 <= i < k ==> s[i] != c,
    ensures
        first_index(s, c) == k,
    decreases s.len(),
{
    if s.len() > 0 && s[0] != c {
        assert forall|i: int| 0 <= i < k - 1 implies s.drop_first()[i] != c by {
            assert(s.drop_first()[i] == s[i + 1]);
        }
        lemma_first_index_is(s.drop_first(), c, k - 1);
    }
}

/// The index of the first `c` from `from` on, or the length.
pub fn find_char(v: &Vec<char>, from: usize, c: char) -> (r: usize)
    requires
        from <= v@.len(),
    ensures
        from <= r <= v@.len(),
        r - from == first_index(v@.skip(from as int), c),
{
    let mut i: usize = from;
    while i < v.len() && v[i] != c
        invariant
            from <= i <= v@.len(),
            forall|j: int| from <= j < i ==> v@[j] != c,
        decreases v@.len() - i,
    {
        i += 1;
    }
    proof {
        lemma_first_index_is(v@.skip(from as int), c, i - from);
    }
    i
}

/// Whether a text holds the character `c`.
pub fn has_char(s: &str, c: char) -> (r: bool)
    ensures
        r == s@.contains(c),
{
    let v = chars_of(s);
    let i: usize = find_char(&v, 0, c);
    proof {
        assert(v@.skip(0) =~= v@);
        lemma_first_index(v@, c);
    }
    i < v.len()
}

/// A text cut at its first `c`, or nothing where it holds none.
pub open spec fn split_once_of(s: Seq<char>, c: char) -> Option<(Seq<char>, Seq<char>)> {
    if first_index(s, c) < s.len() {
        Some((s.take(first_index(s, c)), s.skip(first_index(s, c) + 1)))
    } else {
        None
    }
}

/// The text before the first `c` and the text after it.
pub fn split_once(s: &str, c: char) -> (r: Option<(String, String)>)
    ensures
        match r {
            Some((a, b)) => split_once_of(s@, c) == Some((a@, b@)),
            None => split_once_of(s@, c) is None,
        },
{
    let v = chars_of(s);
    let i: usize = find_char(&v, 0, c);
    proof {
        assert(v@.skip(0) =~= v@);
        lemma_first_index(v@, c);
    }
    if i < v.len() {
        let a = string_between(&v, 0, i);
        let b = string_between(&v, i + 1, v.len());
        assert(a@ =~= s@.take(i as int));
        assert(b@ =~= s@.skip(i + 1));
        Some((a, b))
    } else {
        None
    }
}

/// The pieces of a text between the characters `c`: always at least one.
pub open spec fn split_of(s: Seq<char>, c: char) -> Seq<Seq<char>>
    decreases s.len(),
    via split_of_decreases
{
    if first_index(s, c) < s.len() {
        seq![s.take(first_index(s, c))] + split_of(s.skip(first_index(s, c) + 1), c)
    } else {
        seq![s]
    }
}

#[via_fn]
proof fn split_of_decreases(s: Seq<char>, c: char) {
    lemma_first_index(s, c);
}

/// The strings of a vector, as texts.
pub open spec fn texts(v: Seq<String>) -> Seq<Seq<char>> {
    v.map_values(|s: String| s@)
}

/// The pieces of the text between the characters `c`.
pub fn split(s: &str, c: char) -> (r: Vec<String>)
    ensures
        texts(r@) == split_of(s@, c),
{
    let v = chars_of(s);
    let mut out: Vec<String> = Vec::new();
    let mut from: usize = 0;
    assert(v@.skip(0) =~= v@);
    assert(texts(out@) + split_of(v@.skip(0), c) =~= split_of(s@, c));
    loop
        invariant_except_break
            from <= v@.len(),
            texts(out@) + split_of(v@.skip(from as int), c) == split_of(s@, c),
        invariant
            v@ == s@,
        ensures
            texts(out@) == split_of(s@, c),
        decreases v@.len() - from + 1,
    {
        let i: usize = find_char(&v, from, c);
        let piece = string_between(&v, from, i);
        let ghost rest = v@.skip(from as int);
        let ghost before = out@;
        assert(piece@ =~= rest.take(i - from));
        out.push(piece);
        assert(texts(out@) =~= texts(before).push(rest.take(i - from)));
        if i == v.len() {
            assert(rest.take(i - from) =~= rest);
            assert(texts(out@) =~= texts(before) + split_of(rest, c));
            break;
        }
        assert(rest.skip(i - from + 1) =~= v@.skip(i + 1));
        assert(texts(out@) + split_of(v@.skip(i + 1), c) =~= texts(before) + split_of(rest, c));
        from = i + 1;
    }
    out
}

pub proof fn lemma_split_plain(s: Seq<char>, c: char)
    requires
        !s.contains(c),
    ensures
        split_of(s, c) == seq![s],
{
    lemma_first_index(s, c);
}

/// A piece without the separator, appended behind one, is the last piece.
pub proof fn lemma_split_append(h: Seq<char>, c: char, t: Seq<char>)
    requires
        !t.contains(c),
    ensures
        split_of(h + seq![c] + t, c) == split_of(h, c).push(t),
    decreases h.len(),
{
    let all = h + seq![c] + t;
    lemma_first_index(h, c);
    lemma_first_index(all, c);
    let k = first_index(h, c);
    assert forall|i: int| 0 <= i < k implies all[i] != c by {
        assert(all[i] == h[i]);
    }
    if k < h.len() {
        assert(all[k] == h[k]);
        lemma_first_index_is(all, c, k);
        assert(all.take(k) =~= h.take(k));
        let rest = h.skip(k + 1);
        assert(all.skip(k + 1) =~= rest + seq![c] + t);
        lemma_split_append(rest, c, t);
        assert(seq![h.take(k)] + split_of(rest, c).push(t) =~= (seq![h.take(k)] + split_of(
            rest,
            c,
        )).push(t));
    } else {
        assert(all[k] == c);
        lemma_first_index_is(all, c, k);
        assert(all.take(k) =~= h);
        assert(all.skip(k + 1) =~= t);
        lemma_split_plain(t, c);
        assert(split_of(all, c) =~= seq![h] + seq![t]);
        assert(split_of(h, c) =~= seq![h]);
    }
}

/// A name without the separator is what stands before it.
pub proof fn lemma_split_once_at(k: Seq<char>, c: char, v: Seq<char>)
    requires
        !k.contains(c),
    ensures
        split_once_of(k + seq![c] + v, c) == Some((k, v)),
{
    let all = k + seq![c] + v;
    assert forall|i: int| 0 <= i < k.len() implies all[i] != c by {
        assert(all[i] == k[i]);
    }
    assert(all[k.len() as int] == c);
    lemma_first_index_is(all, c, k.len() as int);
    assert(all.take(k.len() as int) =~= k);
    assert(all.skip(k.len() as int + 1) =~= v);
}

/// A text without white space is its own trimming.
pub proof fn lemma_trim_solid(s: Seq<char>)
    requires
        forall|i: int| 0 <= i < s.len() ==> !is_white(#[trigger] s[i]),
    ensures
        trim_of(s) == s,
{
    assert(trim_start_of(s) == s);
    assert(trim_end_of(s) == s);
}

/// Leading white space is what comes before the first solid character.
pub proof fn lemma_trim_start_at(a: Seq<char>, c: char, b: Seq<char>)
    requires
        !is_white(c),
    ensures
        trim_start_of(a + seq![c] + b) == trim_start_of(a) + seq![c] + b,
    decreases a.len(),
{
    let all = a + seq![c] + b;
    if a.len() > 0 {
        assert(all[0] == a[0]);
        assert(all.drop_first() =~= a.drop_first() + seq![c] + b);
        lemma_trim_start_at(a.drop_first(), c, b);
    } else {
        assert(all[0] == c);
        assert(all =~= trim_start_of(a) + seq![c] + b);
    }
}

/// Trailing white space is what comes behind the last solid character.
pub proof fn lemma_trim_end_at(a: Seq<char>, c: char, b: Seq<char>)
    requires
        !is_white(c),
    ensures
        trim_end_of(a + seq![c] + b) == a + seq![c] + trim_end_of(b),
    decreases b.len(),
{
    let all = a + seq![c] + b;
    if b.len() > 0 {
        assert(all.last() == b.last());
        assert(all.drop_last() =~= a + seq![c] + b.drop_last());
        lemma_trim_end_at(a, c, b.drop_last());
        if !is_white(b.last()) {
            assert(trim_end_of(b) == b);
        }
    } else {
        assert(all.last() == c);
        assert(all =~= a + seq![c] + trim_end_of(b));
    }
}

/// Lower case is taken piece by piece.
pub proof fn lemma_lower_join(a: Seq<char>, b: Seq<char>)
    ensures
        lower_of(a + b) == lower_of(a) + lower_of(b),
{
    assert(lower_of(a + b) =~= lower_of(a) + lower_of(b));
}

/// Lower case adds and loses no character that has no case.
pub proof fn lemma_lower_caseless(s: Seq<char>, c: char)
    requires
        !('a' <= c <= 'z'),
        !('A' <= c <= 'Z'),
    ensures
        lower_of(s).contains(c) <==> s.contains(c),
{
    if s.contains(c) {
        let i = choose|i: int| 0 <= i < s.len() && s[i] == c;
        assert(lower_of(s)[i] == c);
    }
    if lower_of(s).contains(c) {
        let i = choose|i: int| 0 <= i < s.len() && lower_of(s)[i] == c;
        assert(lower_char(s[i]) == c);
        assert(s[i] == c);
    }
}

/// Lower case is its own lower case, and is white where the text is.
pub proof fn lemma_lower_again(s: Seq<char>)
    ensures
        lower_of(lower_of(s)) == lower_of(s),
        forall|i: int|
            0 <= i < s.len() ==> is_white(#[trigger] lower_of(s)[i]) == is_white(s[i]),
{
    assert(lower_of(lower_of(s)) =~= lower_of(s));
}

/// What is left of trimming begins and ends with solid characters.
pub proof fn lemma_trimmed(s: Seq<char>)
    ensures
        trim_of(s).len() > 0 ==> !is_white(trim_of(s)[0]) && !is_white(trim_of(s).last()),
{
    lemma_trimmed_start(s);
    lemma_trimmed_end(trim_start_of(s));
}

proof fn lemma_trimmed_start(s: Seq<char>)
    ensures
        trim_start_of(s).len() > 0 ==> !is_white(trim_start_of(s)[0]),
    decreases s.len(),
{
    if s.len() > 0 && is_white(s[0]) {
        lemma_trimmed_start(s.drop_first());
    }
}

proof fn lemma_trimmed_end(s: Seq<char>)
    ensures
        trim_end_of(s).len() <= s.len(),
        trim_end_of(s).len() > 0 ==> !is_white(trim_end_of(s).last()) && trim_end_of(s)[0] == s[0],
    decreases s.len(),
{
    if s.len() > 0 && is_white(s.last()) {
        lemma_trimmed_end(s.drop_last());
    }
}

/// The pieces of a text hold no separator, and are in lower case where the text
/// is.
pub proof fn lemma_pieces(s: Seq<char>, c: char)
    ensures
        forall|i: int| 0 <= i < split_of(s, c).len() ==> !(#[trigger] split_of(s, c)[i]).contains(c),
        lower_of(s) == s ==> forall|i: int|
            0 <= i < split_of(s, c).len() ==> lower_of(#[trigger] split_of(s, c)[i]) == split_of(s, c)[i],
    decreases s.len(),
{
    lemma_first_index(s, c);
    let k = first_index(s, c);
    if k < s.len() {
        let (head, rest) = (s.take(k), s.skip(k + 1));
        lemma_pieces(rest, c);
        if lower_of(s) == s {
            assert forall|i: int| 0 <= i < s.len() implies lower_char(#[trigger] s[i]) == s[i] by {
                assert(lower_of(s)[i] == s[i]);
            }
            assert(lower_of(head) =~= head);
            assert(lower_of(rest) =~= rest);
        }
        assert(split_of(s, c) == seq![head] + split_of(rest, c));
    }
}

/// Whether `p` stands in `s` at index `i`.
pub open spec fn stands_at(s: Seq<char>, p: Seq<char>, i: int) -> bool {
    &&& 0 <= i <= s.len() - p.len()
    &&& s.subrange(i, i + p.len()) == p
}

/// Whether `p` stands somewhere in `s`.
pub open spec fn holds(s: Seq<char>, p: Seq<char>) -> bool {
    exists|i: int| stands_at(s, p, i)
}

fn matches_at(v: &Vec<char>, p: &Vec<char>, i: usize) -> (r: bool)
    requires
        i + p@.len() <= v@.len(),
    ensures
        r == stands_at(v@, p@, i as int),
{
    let n: usize = v.len();
    let mut k: usize = 0;
    while k < p.len()
        invariant
            k <= p@.len(),
            i + p@.len() <= v@.len(),
            n == v@.len(),
            forall|j: int| 0 <= j < k ==> v@[i + j] == p@[j],
        decreases p@.len() - k,
    {
        if v[i + k] != p[k] {
            assert(v@.subrange(i as int, i + p@.len())[k as int] != p@[k as int]);
            return false;
        }
        k += 1;
    }
    assert(v@.subrange(i as int, i + p@.len()) =~= p@);
    true
}

/// Whether the text holds `p`.
pub fn contains(s: &str, p: &str) -> (r: bool)
    ensures
        r == holds(s@, p@),
{
    let v = chars_of(s);
    let q = chars_of(p);
    if q.len() > v.len() {
        return false;
    }
    let last: usize = v.len() - q.len();
    let mut i: usize = 0;
    while i <= last
        invariant
            v@ == s@,
            q@ == p@,
            last == v@.len() - q@.len(),
            i <= last + 1,
            forall|j: int| 0 <= j < i ==> !stands_at(s@, p@, j),
        decreases last + 1 - i,
    {
        if matches_at(&v, &q, i) {
            return true;
        }
        if i == last {
            return false;
        }
        i += 1;
    }
    false
}

/// Whether the text begins with `p`.
pub fn starts_with(s: &str, p: &str) -> (r: bool)
    ensures
        r == stands_at(s@, p@, 0),
{
    let v = chars_of(s);
    let q = chars_of(p);
    q.len() <= v.len() && matches_at(&v, &q, 0)
}

/// Whether the text ends with `p`.
pub fn ends_with(s: &str, p: &str) -> (r: bool)
    ensures
        r == stands_at(s@, p@, s@.len() - p@.len()),
{
    let v = chars_of(s);
    let q = chars_of(p);
    q.len() <= v.len() && matches_at(&v, &q, v.len() - q.len())
}

/// What follows `p` in the text, where the text begins with it.
pub fn strip_prefix(s: &str, p: &str) -> (r: Option<String>)
    ensures
        r is Some == stands_at(s@, p@, 0),
        r is Some ==> r->0@ == s@.skip(p@.len() as int),
{
    let v = chars_of(s);
    let q = chars_of(p);
    if q.len() <= v.len() && matches_at(&v, &q, 0) {
        let rest = string_between(&v, q.len(), v.len());
        assert(rest@ =~= s@.skip(p@.len() as int));
        Some(rest)
    } else {
        None
    }
}

// --- words ---

/// The words of a text: what stands between its white space.
pub open spec fn words_of(s: Seq<char>) -> Seq<Seq<char>>
    decreases s.len(),
{
    if s.len() == 0 {
        Seq::empty()
    } else {
        let before = words_of(s.drop_last());
        if is_white(s.last()) {
            before
        } else if s.len() > 1 && !is_white(s[s.len() - 2]) {
            before.drop_last().push(before.last().push(s.last()))
        } else {
            before.push(seq![s.last()])
        }
    }
}

/// The words of the text.
pub fn words(s: &str) -> (r: Vec<String>)
    ensures
        texts(r@) == words_of(s@),
{
    let v = chars_of(s);
    let mut out: Vec<String> = Vec::new();
    let mut word = "".to_owned();
    let mut i: usize = 0;
    assert(texts(out@) =~= words_of(v@.take(0)));
    proof {
        reveal_strlit("");
    }
    while i < v.len()
        invariant
            v@ == s@,
            i <= v@.len(),
            i > 0 && !is_white(v@[i - 1]) ==> word@.len() > 0 && words_of(v@.take(i as int))
                == texts(out@).push(word@),
            i == 0 || is_white(v@[i - 1]) ==> word@.len() == 0 && words_of(v@.take(i as int))
                == texts(out@),
        decreases v@.len() - i,
    {
        let c = v[i];
        let ghost before = out@;
        let ghost w = word@;
        proof {
            reveal_strlit("");
            let t = v@.take(i + 1);
            assert(t.drop_last() =~= v@.take(i as int));
            assert(t.last() == c);
            if i > 0 {
                assert(t[t.len() - 2] == v@[i - 1]);
            }
        }
        if is_whitespace(c) {
            if word.unicode_len() > 0 {
                out.push(word);
                assert(texts(out@) =~= texts(before).push(w));
                word = "".to_owned();
            }
        } else {
            word.push(c);
            proof {
                if i > 0 && !is_white(v@[i - 1]) {
                    let all = texts(before).push(w);
                    assert(all.drop_last() =~= texts(before));
                    assert(all.last() == w);
                } else {
                    assert(w =~= Seq::<char>::empty());
                    assert(word@ =~= seq![c]);
                }
            }
        }
        i += 1;
    }
    assert(v@.take(i as int) =~= v@);
    let ghost before = out@;
    let ghost w = word@;
    if word.unicode_len() > 0 {
        out.push(word);
        assert(texts(out@) =~= texts(before).push(w));
    }
    out
}

// --- numbers ---

/// The character of a decimal digit.
pub open spec fn digit_char(d: int) -> char {
    (48 + d) as u8 as char
}

pub open spec fn is_digit(c: char) -> bool {
    '0' <= c <= '9'
}

pub open spec fn digit_value(c: char) -> int {
    c as int - 48
}

/// A natural number in decimal, without leading zeros.
pub open spec fn decimal_nat(n: nat) -> Seq<char>
    decreases n,
{
    if n < 10 {
        seq![digit_char(n as int)]
    } else {
        decimal_nat(n / 10).push(digit_char((n % 10) as int))
    }
}

/// An integer in decimal, with a leading `-` where it is negative.
pub open spec fn decimal_of(i: int) -> Seq<char> {
    if i < 0 {
        seq!['-'] + decimal_nat((-i) as nat)
    } else {
        decimal_nat(i as nat)
    }
}

fn push_decimal(out: &mut String, n: u64)
    ensures
        final(out)@ == old(out)@ + decimal_nat(n as nat),
    decreases n,
{
    if n >= 10 {
        push_decimal(out, n / 10);
    }
    let d: u8 = (n % 10) as u8;
    out.push((48 + d) as char);
    assert(out@ =~= old(out)@ + decimal_nat(n as nat));
}

/// An unsigned number in decimal.
pub fn decimal_u64(n: u64) -> (r: String)
    ensures
        r@ == decimal_of(n as int),
{
    let mut out = String::new();
    push_decimal(&mut out, n);
    assert(out@ =~= decimal_of(n as int));
    out
}

/// A signed number in decimal.
pub fn decimal_i64(n: i64) -> (r: String)
    ensures
        r@ == decimal_of(n as int),
{
    let mut out = String::new();
    if n < 0 {
        out.push('-');
        let m: u64 = (-(n as i128)) as u64;
        push_decimal(&mut out, m);
        assert(out@ =~= decimal_of(n as int));
    } else {
        push_decimal(&mut out, n as u64);
        assert(out@ =~= decimal_of(n as int));
    }
    out
}

/// The value of a run of decimal digits.
pub open spec fn digits_value(s: Seq<char>) -> int
    decreases s.len(),
{
    if s.len() == 0 {
        0
    } else {
        10 * digits_value(s.drop_last()) + digit_value(s.last())
    }
}

pub open spec fn all_digits(s: Seq<char>) -> bool {
    forall|i: int| 0 <= i < s.len() ==> is_digit(#[trigger] s[i])
}

/// The digits of a number's text: what follows an optional sign.
pub open spec fn unsigned_part(s: Seq<char>) -> Seq<char> {
    if s.len() > 0 && (s[0] == '-' || s[0] == '+') {
        s.skip(1)
    } else {
        s
    }
}

pub open spec fn signed_value(s: Seq<char>) -> int {
    if s.len() > 0 && s[0] == '-' {
        -digits_value(unsigned_part(s))
    } else {
        digits_value(unsigned_part(s))
    }
}

/// The 64-bit signed number a text stands for: an optional sign, then at
/// least one digit and nothing else, with a value in range.
pub open spec fn parse_i64_of(s: Seq<char>) -> Option<int> {
    if unsigned_part(s).len() > 0 && all_digits(unsigned_part(s)) && i64::MIN <= signed_value(s)
        <= i64::MAX {
        Some(signed_value(s))
    } else {
        None
    }
}

proof fn lemma_digits_grow(s: Seq<char>, k: int)
    requires
        all_digits(s),
        0 <= k <= s.len(),
    ensures
        0 <= digits_value(s.take(k)) <= digits_value(s),
    decreases s.len(),
{
    if s.len() == 0 {
        assert(s.take(k) =~= s);
    } else {
        let t = s.drop_last();
        assert(all_digits(t));
        assert(is_digit(s.last()));
        lemma_digits_grow(t, t.len() as int);
        assert(t.take(t.len() as int) =~= t);
        if k == s.len() {
            assert(s.take(k) =~= s);
        } else {
            lemma_digits_grow(t, k);
            assert(t.take(k) =~= s.take(k));
        }
    }
}

/// Reads a 64-bit signed number.
pub fn parse_i64(s: &str) -> (r: Option<i64>)
    ensures
        match r {
            Some(n) => parse_i64_of(s@) == Some(n as int),
            None => parse_i64_of(s@) is None,
        },
{
    let v = chars_of(s);
    let signed: bool = v.len() > 0 && (v[0] == '-' || v[0] == '+');
    let negative: bool = v.len() > 0 && v[0] == '-';
    let from: usize = if signed { 1 } else { 0 };
    let ghost ds = unsigned_part(s@);
    assert(ds =~= s@.skip(from as int));
    if v.len() == from {
        return None;
    }
    let mut acc: u128 = 0;
    let mut i: usize = from;
    while i < v.len()
        invariant
            v@ == s@,
            from <= i <= v@.len(),
            from <= v@.len(),
            ds == s@.skip(from as int),
            ds == unsigned_part(s@),
            forall|j: int| from <= j < i ==> is_digit(#[trigger] v@[j]),
            acc == digits_value(ds.take(i - from)),
            acc <= 0x8000_0000_0000_0000,
            negative == (s@.len() > 0 && s@[0] == '-'),
        decreases v@.len() - i,
    {
        let c: char = v[i];
        if !('0' <= c && c <= '9') {
            assert(!is_digit(ds[i - from]));
            return None;
        }
        let d: u128 = (c as u128) - 48;
        let ghost next = ds.take(i - from + 1);
        assert(next.drop_last() =~= ds.take(i - from));
        assert(next.last() == c);
        acc = acc * 10 + d;
        i += 1;
        if acc > 0x8000_0000_0000_0000 {
            proof {
                if all_digits(ds) {
                    lemma_digits_grow(ds, i - from);
                }
            }
            return None;
        }
    }
    assert(ds.take(i - from) =~= ds);
    assert(all_digits(ds)) by {
        assert forall|j: int| 0 <= j < ds.len() implies is_digit(#[trigger] ds[j]) by {
            assert(is_digit(v@[from + j]));
        }
    }
    if negative {
        Some((-(acc as i128)) as i64)
    } else if acc == 0x8000_0000_0000_0000 {
        None
    } else {
        Some(acc as i64)
    }
}

/// The 64-bit unsigned number a text stands for: an optional `+`, then at
/// least one digit and nothing else, with a value in range.
pub open spec fn parse_u64_of(s: Seq<char>) -> Option<int> {
    let ds = if s.len() > 0 && s[0] == '+' {
        s.skip(1)
    } else {
        s
    };
    if ds.len() > 0 && all_digits(ds) && digits_value(ds) <= u64::MAX {
        Some(digits_value(ds))
    } else {
        None
    }
}

/// Reads a 64-bit unsigned number.
pub fn parse_u64(s: &str) -> (r: Option<u64>)
    ensures
        match r {
            Some(n) => parse_u64_of(s@) == Some(n as int),
            None => parse_u64_of(s@) is None,
        },
{
    let v = chars_of(s);
    let from: usize = if v.len() > 0 && v[0] == '+' { 1 } else { 0 };
    let ghost ds = s@.skip(from as int);
    proof {
        assert(from == 0 ==> ds =~= s@);
    }
    if v.len() == from {
        return None;
    }
    let mut acc: u128 = 0;
    let mut i: usize = from;
    while i < v.len()
        invariant
            v@ == s@,
            from <= i <= v@.len(),
            ds == s@.skip(from as int),
            ds == (if s@.len() > 0 && s@[0] == '+' {
                s@.skip(1)
            } else {
                s@
            }),
            forall|j: int| from <= j < i ==> is_digit(#[trigger] v@[j]),
            acc == digits_value(ds.take(i - from)),
            acc <= u64::MAX,
        decreases v@.len() - i,
    {
        let c: char = v[i];
        if !('0' <= c && c <= '9') {
            assert(!is_digit(ds[i - from]));
            return None;
        }
        let d: u128 = (c as u128) - 48;
        let ghost next = ds.take(i - from + 1);
        assert(next.drop_last() =~= ds.take(i - from));
        assert(next.last() == c);
        acc = acc * 10 + d;
        i += 1;
        if acc > u64::MAX as u128 {
            proof {
                if all_digits(ds) {
                    lemma_digits_grow(ds, i - from);
                }
            }
            return None;
        }
    }
    assert(ds.take(i - from) =~= ds);
    assert(all_digits(ds)) by {
        assert forall|j: int| 0 <= j < ds.len() implies is_digit(#[trigger] ds[j]) by {
            assert(is_digit(v@[from + j]));
        }
    }
    Some(acc as u64)
}

pub proof fn lemma_decimal_nat(n: nat)
    ensures
        all_digits(decimal_nat(n)),
        decimal_nat(n).len() > 0,
        digits_value(decimal_nat(n)) == n,
    decreases n,
{
    if n < 10 {
        let s = decimal_nat(n);
        assert(s.drop_last() =~= Seq::<char>::empty());
        assert(digits_value(s.drop_last()) == 0);
    } else {
        lemma_decimal_nat(n / 10);
        let s = decimal_nat(n);
        assert(s.drop_last() =~= decimal_nat(n / 10));
        assert forall|i: int| 0 <= i < s.len() implies is_digit(#[trigger] s[i]) by {
            if i < s.len() - 1 {
                assert(s[i] == decimal_nat(n / 10)[i]);
            }
        }
    }
}

/// Reading back a number that was written in decimal gives that number.
pub proof fn decimal_round_trip(i: int)
    requires
        i64::MIN <= i <= i64::MAX,
    ensures
        parse_i64_of(decimal_of(i)) == Some(i),
{
    let s = decimal_of(i);
    if i < 0 {
        lemma_decimal_nat((-i) as nat);
        assert(s.skip(1) =~= decimal_nat((-i) as nat));
    } else {
        lemma_decimal_nat(i as nat);
        assert(is_digit(s[0]));
    }
}

/// The character of a hexadecimal digit, in lower case.
pub open spec fn hex_char(d: int) -> char {
    if d < 10 {
        (48 + d) as u8 as char
    } else {
        (87 + d) as u8 as char
    }
}

/// A number in hexadecimal with exactly `width` digits.
pub open spec fn hex_fixed(n: nat, width: nat) -> Seq<char>
    decreases width,
{
    if width == 0 {
        Seq::empty()
    } else {
        hex_fixed(n / 16, (width - 1) as nat).push(hex_char((n % 16) as int))
    }
}

fn push_hex(out: &mut String, n: u128, width: u32)
    ensures
        final(out)@ == old(out)@ + hex_fixed(n as nat, width as nat),
    decreases width,
{
    if width > 0 {
        push_hex(out, n / 16, width - 1);
        let d: u8 = (n % 16) as u8;
        let c: char = if d < 10 { (48 + d) as char } else { (87 + d) as char };
        out.push(c);
    }
    assert(out@ =~= old(out)@ + hex_fixed(n as nat, width as nat));
}

/// A 128-bit number as 32 hexadecimal digits.
pub fn hex_u128(n: u128) -> (r: String)
    ensures
        r@ == hex_fixed(n as nat, 32),
{
    let mut out = String::new();
    push_hex(&mut out, n, 32);
    assert(out@ =~= hex_fixed(n as nat, 32));
    out
}

// --- laws ---

/// Lower case changes the letters from `A` to `Z`, each to its own small letter,
/// and nothing else; texts that differ only in the case of letters become one.
pub proof fn lower_case_is_letter_by_letter(s: Seq<char>, i: int)
    requires
        0 <= i < s.len(),
    ensures
        lower_of(s).len() == s.len(),
        65 <= s[i] as int <= 90 ==> lower_of(s)[i] as int == s[i] as int + 32,
        !(65 <= s[i] as int <= 90) ==> lower_of(s)[i] == s[i],
{
}

/// White space is what Unicode calls so.
pub proof fn white_space_is_unicodes(c: char)
    ensures
        is_white(c) <==> {
            let n = c as int;
            ||| 9 <= n <= 13
            ||| n == 32
            ||| n == 0x85
            ||| n == 0xa0
            ||| n == 0x1680
            ||| 0x2000 <= n <= 0x200a
            ||| n == 0x2028
            ||| n == 0x2029
            ||| n == 0x202f
            ||| n == 0x205f
            ||| n == 0x3000
        },
{
}

proof fn lemma_trim_start_cut(s: Seq<char>)
    ensures
        exists|k: int|
            0 <= k <= s.len() && trim_start_of(s) == #[trigger] s.skip(k) && forall|i: int|
                0 <= i < k ==> is_white(#[trigger] s[i]),
    decreases s.len(),
{
    if s.len() > 0 && is_white(s[0]) {
        let t = s.drop_first();
        lemma_trim_start_cut(t);
        let k = choose|k: int|
            0 <= k <= t.len() && trim_start_of(t) == #[trigger] t.skip(k) && forall|i: int|
                0 <= i < k ==> is_white(#[trigger] t[i]);
        assert(s.skip(k + 1) =~= t.skip(k));
        assert forall|i: int| 0 <= i < k + 1 implies is_white(#[trigger] s[i]) by {
            if i > 0 {
                assert(s[i] == t[i - 1]);
            }
        }
    } else {
        assert(s.skip(0) =~= s);
    }
}

proof fn lemma_trim_end_cut(s: Seq<char>)
    ensures
        exists|k: int|
            0 <= k <= s.len() && trim_end_of(s) == #[trigger] s.take(k) && forall|i: int|
                k <= i < s.len() ==> is_white(#[trigger] s[i]),
    decreases s.len(),
{
    if s.len() > 0 && is_white(s.last()) {
        let t = s.drop_last();
        lemma_trim_end_cut(t);
        let k = choose|k: int|
            0 <= k <= t.len() && trim_end_of(t) == #[trigger] t.take(k) && forall|i: int|
                k <= i < t.len() ==> is_white(#[trigger] t[i]);
        assert(s.take(k) =~= t.take(k));
        assert forall|i: int| k <= i < s.len() implies is_white(#[trigger] s[i]) by {
            if i < t.len() {
                assert(s[i] == t[i]);
            }
        }
    } else {
        assert(s.take(s.len() as int) =~= s);
    }
}

/// Trimming cuts white space off both ends, all of it, and nothing else.
pub proof fn trimming_cuts_white_space_alone(s: Seq<char>)
    ensures
        exists|a: int, b: int|
            0 <= a <= b <= s.len() && trim_of(s) == #[trigger] s.subrange(a, b) && (forall|i: int|
                0 <= i < a ==> is_white(#[trigger] s[i])) && (forall|i: int|
                b <= i < s.len() ==> is_white(#[trigger] s[i])),
        trim_of(s).len() > 0 ==> !is_white(trim_of(s)[0]) && !is_white(trim_of(s).last()),
{
    lemma_trimmed(s);
    lemma_trim_start_cut(s);
    let k = choose|k: int|
        0 <= k <= s.len() && trim_start_of(s) == #[trigger] s.skip(k) && forall|i: int|
            0 <= i < k ==> is_white(#[trigger] s[i]);
    let t = s.skip(k);
    lemma_trim_end_cut(t);
    let m = choose|m: int|
        0 <= m <= t.len() && trim_end_of(t) == #[trigger] t.take(m) && forall|i: int|
            m <= i < t.len() ==> is_white(#[trigger] t[i]);
    assert(t.take(m) =~= s.subrange(k, k + m));
    assert forall|i: int| k + m <= i < s.len() implies is_white(#[trigger] s[i]) by {
        assert(t[i - k] == s[i]);
    }
}

/// A text holds another where it is something, that, and something.
pub proof fn texts_hold_their_parts(a: Seq<char>, p: Seq<char>, b: Seq<char>)
    ensures
        holds(a + p + b, p),
        p.len() > a.len() ==> !holds(a, p),
{
    let s = a + p + b;
    assert(s.subrange(a.len() as int, (a.len() + p.len()) as int) =~= p);
    assert(stands_at(s, p, a.len() as int));
}

/// What a text holds stands in it.
pub proof fn parts_stand_in_their_texts(s: Seq<char>, p: Seq<char>)
    requires
        holds(s, p),
    ensures
        exists|i: int|
            0 <= i <= s.len() - p.len() && #[trigger] s.subrange(i, i + p.len()) == p,
{
    let i = choose|i: int| stands_at(s, p, i);
    assert(s.subrange(i, i + p.len()) == p);
}

/// A text is split at the first separator, which is in neither part.
pub proof fn split_at_the_first(a: Seq<char>, c: char, b: Seq<char>)
    requires
        !a.contains(c),
    ensures
        split_once_of(a + seq![c] + b, c) == Some((a, b)),
        split_once_of(a, c) is None,
{
    lemma_split_once_at(a, c, b);
    lemma_first_index(a, c);
    if first_index(a, c) < a.len() {
        assert(a[first_index(a, c)] == c);
    }
}

/// Splitting a text at every separator takes it apart piece by piece: what is
/// joined from a text and a piece without separators has that piece last.
pub proof fn pieces_come_apart_as_joined(h: Seq<char>, c: char, t: Seq<char>)
    requires
        !t.contains(c),
    ensures
        split_of(t, c) == seq![t],
        split_of(h + seq![c] + t, c) == split_of(h, c).push(t),
{
    lemma_split_plain(t, c);
    lemma_split_append(h, c, t);
}

/// A number below ten is written as its digit, and any other as the number of
/// its tens followed by its last digit.
pub proof fn numbers_are_written_in_decimal(n: nat)
    ensures
        n < 10 ==> decimal_of(n as int) == seq![(n + 48) as u8 as char],
        n >= 10 ==> decimal_of(n as int) == decimal_of(n as int / 10).push(
            (n % 10 + 48) as u8 as char,
        ),
        n > 0 ==> decimal_of(-(n as int)) == seq!['-'] + decimal_of(n as int),
        n < 0x8000_0000_0000_0000 ==> parse_i64_of(decimal_of(n as int)) == Some(n as int),
{
    if n < 0x8000_0000_0000_0000 {
        decimal_round_trip(n as int);
    }
}

/// A text that is no number is none: one that is empty, is only a sign, or holds
/// anything but digits behind its sign.
pub proof fn other_texts_are_no_numbers(s: Seq<char>, i: int)
    ensures
        s.len() == 0 ==> parse_i64_of(s) is None && parse_u64_of(s) is None,
        0 < i < s.len() && !('0' <= s[i] <= '9') ==> parse_i64_of(s) is None && parse_u64_of(s) is None,
        s.len() > 0 && !('0' <= s[0] <= '9') && s[0] != '-' && s[0] != '+' ==> parse_i64_of(s) is None
            && parse_u64_of(s) is None,
        s.len() > 0 && s[0] == '-' ==> parse_u64_of(s) is None,
        s.len() == 1 && !('0' <= s[0] <= '9') ==> parse_i64_of(s) is None && parse_u64_of(s) is None,
{
    if 0 < i < s.len() && !('0' <= s[i] <= '9') {
        assert(!is_digit(s[i]));
        assert(s.skip(1)[i - 1] == s[i]);
        if parse_i64_of(s) is Some {
            assert(!all_digits(unsigned_part(s)));
        }
    }
    if s.len() > 0 && !('0' <= s[0] <= '9') {
        assert(!is_digit(s[0]));
    }
}

/// A number in hexadecimal has as many digits as were asked for, all of them
/// decimal digits or small letters from `a` to `f`, with the lowest at the end.
pub proof fn hexadecimal_has_its_width(n: nat, width: nat)
    ensures
        hex_fixed(n, width).len() == width,
        forall|i: int|
            0 <= i < width ==> {
                let c = #[trigger] hex_fixed(n, width)[i] as int;
                48 <= c <= 57 || 97 <= c <= 102
            },
        width > 0 && n % 16 < 10 ==> hex_fixed(n, width).last() as int == 48 + n % 16,
        width > 0 && n % 16 >= 10 ==> hex_fixed(n, width).last() as int == 97 + (n % 16 - 10),
        width > 0 ==> hex_fixed(n, width).drop_last() == hex_fixed(n / 16, (width - 1) as nat),
    decreases width,
{
    if width > 0 {
        let before = hex_fixed(n / 16, (width - 1) as nat);
        hexadecimal_has_its_width(n / 16, (width - 1) as nat);
        let all = hex_fixed(n, width);
        assert(all.drop_last() =~= before);
        assert forall|i: int| 0 <= i < width implies {
            let c = #[trigger] all[i] as int;
            48 <= c <= 57 || 97 <= c <= 102
        } by {
            if i < width - 1 {
                assert(all[i] == before[i]);
            }
        }
    }
}

/// Line ends behind a text are cut, and nothing else.
pub proof fn line_ends_are_cut_behind(s: Seq<char>)
    ensures
        trim_newlines_of(s.push('\n')) == trim_newlines_of(s),
        trim_newlines_of(s.push('\r')) == trim_newlines_of(s),
        s.len() == 0 ==> trim_newlines_of(s) == s,
        s.len() > 0 && s.last() != '\n' && s.last() != '\r' ==> trim_newlines_of(s) == s,
{
    assert(s.push('\n').drop_last() =~= s);
    assert(s.push('\r').drop_last() =~= s);
}

/// Copies of a character at the end, or at the start, of a text are cut, and
/// nothing else.
pub proof fn copies_are_cut_at_the_ends(s: Seq<char>, c: char)
    ensures
        trim_end_char_of(s.push(c), c) == trim_end_char_of(s, c),
        trim_start_char_of(seq![c] + s, c) == trim_start_char_of(s, c),
        s.len() == 0 ==> trim_end_char_of(s, c) == s && trim_start_char_of(s, c) == s,
        s.len() > 0 && s.last() != c ==> trim_end_char_of(s, c) == s,
        s.len() > 0 && s[0] != c ==> trim_start_char_of(s, c) == s,
{
    assert(s.push(c).drop_last() =~= s);
    assert((seq![c] + s).drop_first() =~= s);
}

} // verus!
