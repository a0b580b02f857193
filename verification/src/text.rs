//! Reading text character by character: white space, runs of characters
//! of one class, words and lines.
//!
//! Contracts speak of the characters of a string, a `Seq<char>`. The
//! executable functions read a string once into a `Vec<char>` and then
//! work on windows `from..to` of it.

use vstd::prelude::*;

verus! {

/// Trusted, not proved: `String::push` of the standard library appends the
/// character `c` to the end of the string and changes nothing else.
pub assume_specification[ String::push ](s: &mut String, c: char)
    ensures
        final(s)@ == old(s)@.push(c),
;

/// What `str::to_uppercase` of the standard library makes of a string with
/// the characters `s`: its upper-case equivalent under the Unicode case
/// mapping. The mapping is not written out here; this is only its name.
pub uninterp spec fn uppercase_of(s: Seq<char>) -> Seq<char>;

/// Trusted, not proved: what `str::to_uppercase` of the standard library
/// returns depends on the characters of its argument alone. Nothing is
/// claimed of which characters it returns.
pub assume_specification[ str::to_uppercase ](s: &str) -> (r: String)
    ensures
        r@ == uppercase_of(s@),
;

/// Whether `c` is white space: one of the code points that carry the
/// Unicode property `White_Space`.
pub open spec fn is_whitespace(c: char) -> bool {
    let n = c as u32;
    ||| 0x09 <= n <= 0x0D
    ||| n == 0x20
    ||| n == 0x85
    ||| n == 0xA0
    ||| n == 0x1680
    ||| 0x2000 <= n <= 0x200A
    ||| n == 0x2028
    ||| n == 0x2029
    ||| n == 0x202F
    ||| n == 0x205F
    ||| n == 0x3000
}

/// A set of characters that a run is made of.
#[derive(Clone, Copy, PartialEq, Eq, Structural, Debug)]
pub enum CharClass {
    /// White space.
    Space,
    /// Every character but white space.
    Word,
    /// Every character but the line feed.
    LineBody,
    /// Every character but the comment marker `#`.
    Code,
    /// The colon alone.
    Colon,
}

impl CharClass {
    /// Whether `c` belongs to the class.
    pub open spec fn holds(self, c: char) -> bool {
        match self {
            CharClass::Space => is_whitespace(c),
            CharClass::Word => !is_whitespace(c),
            CharClass::LineBody => c != '\n',
            CharClass::Code => c != '#',
            CharClass::Colon => c == ':',
        }
    }

    /// Tests whether `c` belongs to the class.
    pub fn test(self, c: char) -> (b: bool)
        ensures
            b == self.holds(c),
    {
        match self {
            CharClass::Space => is_whitespace_char(c),
            CharClass::Word => !is_whitespace_char(c),
            CharClass::LineBody => c != '\n',
            CharClass::Code => c != '#',
            CharClass::Colon => c == ':',
        }
    }
}

/// Tests whether `c` is white space.
pub fn is_whitespace_char(c: char) -> (b: bool)
    ensures
        b == is_whitespace(c),
{
    let n: u32 = c as u32;
    (0x09 <= n && n <= 0x0D) || n == 0x20 || n == 0x85 || n == 0xA0 || n == 0x1680 || (0x2000 <= n
        && n <= 0x200A) || n == 0x2028 || n == 0x2029 || n == 0x202F || n == 0x205F || n == 0x3000
}

/// The length of the longest prefix of `s` whose characters all belong to
/// `class`.
pub open spec fn leading(s: Seq<char>, class: CharClass) -> nat
    decreases s.len(),
{
    if s.len() > 0 && class.holds(s[0]) {
        1 + leading(s.skip(1), class)
    } else {
        0
    }
}

/// The length of the longest suffix of `s` whose characters all belong to
/// `class`.
pub open spec fn trailing(s: Seq<char>, class: CharClass) -> nat
    decreases s.len(),
{
    if s.len() > 0 && class.holds(s.last()) {
        1 + trailing(s.drop_last(), class)
    } else {
        0
    }
}

/// `n` is where the leading run of `class` in `s` ends: everything before
/// `n` belongs to the class, and the character at `n`, if there is one,
/// does not.
pub open spec fn ends_leading_run(s: Seq<char>, class: CharClass, n: int) -> bool {
    &&& 0 <= n <= s.len()
    &&& forall|i: int| 0 <= i < n ==> class.holds(#[trigger] s[i])
    &&& n < s.len() ==> !class.holds(s[n])
}

/// `n` is the length of the trailing run of `class` in `s`.
pub open spec fn starts_trailing_run(s: Seq<char>, class: CharClass, n: int) -> bool {
    &&& 0 <= n <= s.len()
    &&& forall|i: int| s.len() - n <= i < s.len() ==> class.holds(#[trigger] s[i])
    &&& n < s.len() ==> !class.holds(s[s.len() - n - 1])
}

/// The leading run is the one and only prefix that `ends_leading_run`
/// describes.
pub proof fn lemma_leading(s: Seq<char>, class: CharClass)
    ensures
        ends_leading_run(s, class, leading(s, class) as int),
        forall|n: int| ends_leading_run(s, class, n) ==> n == leading(s, class),
    decreases s.len(),
{
    if s.len() > 0 && class.holds(s[0]) {
        let t = s.skip(1);
        lemma_leading(t, class);
        let m = leading(t, class) as int;
        assert forall|i: int| 0 <= i < m + 1 implies class.holds(#[trigger] s[i]) by {
            if i > 0 {
                assert(s[i] == t[i - 1]);
            }
        }
        if m + 1 < s.len() {
            assert(s[m + 1] == t[m]);
        }
        assert forall|n: int| ends_leading_run(s, class, n) implies n == m + 1 by {
            assert(n > 0);
            assert forall|i: int| 0 <= i < n - 1 implies class.holds(#[trigger] t[i]) by {
                assert(t[i] == s[i + 1]);
            }
            if n - 1 < t.len() {
                assert(t[n - 1] == s[n]);
            }
            assert(ends_leading_run(t, class, n - 1));
        }
    } else {
        assert forall|n: int| ends_leading_run(s, class, n) implies n == 0 by {
            if n > 0 {
                assert(class.holds(s[0]));
            }
        }
    }
}

/// The trailing run is the one and only suffix that `starts_trailing_run`
/// describes.
pub proof fn lemma_trailing(s: Seq<char>, class: CharClass)
    ensures
        starts_trailing_run(s, class, trailing(s, class) as int),
        forall|n: int| starts_trailing_run(s, class, n) ==> n == trailing(s, class),
    decreases s.len(),
{
    if s.len() > 0 && class.holds(s.last()) {
        let t = s.drop_last();
        lemma_trailing(t, class);
        let m = trailing(t, class) as int;
        assert forall|i: int| s.len() - (m + 1) <= i < s.len() implies class.holds(
            #[trigger] s[i],
        ) by {
            if i < s.len() - 1 {
                assert(s[i] == t[i]);
            }
        }
        if m + 1 < s.len() {
            assert(s[s.len() - (m + 1) - 1] == t[t.len() - m - 1]);
        }
        assert forall|n: int| starts_trailing_run(s, class, n) implies n == m + 1 by {
            assert(n > 0);
            assert forall|i: int| t.len() - (n - 1) <= i < t.len() implies class.holds(
                #[trigger] t[i],
            ) by {
                assert(t[i] == s[i]);
            }
            if n - 1 < t.len() {
                assert(t[t.len() - (n - 1) - 1] == s[s.len() - n - 1]);
            }
            assert(starts_trailing_run(t, class, n - 1));
        }
    } else {
        assert forall|n: int| starts_trailing_run(s, class, n) implies n == 0 by {
            if n > 0 {
                assert(class.holds(s[s.len() - 1]));
            }
        }
    }
}

/// Finds where the run of `class` that starts at `from` ends, looking no
/// further than `to`.
pub(crate) fn scan_forward(v: &Vec<char>, from: usize, to: usize, class: CharClass) -> (end: usize)
    requires
        from <= to <= v.len(),
    ensures
        from <= end <= to,
        end == from + leading(v@.subrange(from as int, to as int), class),
{
    let mut i: usize = from;
    while i < to && class.test(v[i])
        invariant
            from <= i <= to <= v.len(),
            forall|k: int| from <= k < i ==> class.holds(#[trigger] v@[k]),
        decreases to - i,
    {
        i += 1;
    }
    proof {
        let s = v@.subrange(from as int, to as int);
        assert forall|k: int| 0 <= k < i - from implies class.holds(#[trigger] s[k]) by {
            assert(s[k] == v@[from + k]);
        }
        assert(ends_leading_run(s, class, i - from));
        lemma_leading(s, class);
    }
    i
}

/// Finds where the run of `class` that ends at `to` starts, looking no
/// further back than `from`.
pub(crate) fn scan_backward(v: &Vec<char>, from: usize, to: usize, class: CharClass) -> (start: usize)
    requires
        from <= to <= v.len(),
    ensures
        from <= start <= to,
        start == to - trailing(v@.subrange(from as int, to as int), class),
{
    let mut i: usize = to;
    while i > from && class.test(v[i - 1])
        invariant
            from <= i <= to <= v.len(),
            forall|k: int| i <= k < to ==> class.holds(#[trigger] v@[k]),
        decreases i - from,
    {
        i -= 1;
    }
    proof {
        let s = v@.subrange(from as int, to as int);
        assert forall|k: int| s.len() - (to - i) <= k < s.len() implies class.holds(
            #[trigger] s[k],
        ) by {
            assert(s[k] == v@[from + k]);
        }
        if to - i < s.len() {
            assert(s[s.len() - (to - i) - 1] == v@[i - 1]);
        }
        assert(starts_trailing_run(s, class, to - i));
        lemma_trailing(s, class);
    }
    i
}

/// The characters of `s`, in order.
pub fn chars_of(s: &str) -> (v: Vec<char>)
    ensures
        v@ == s@,
{
    let mut v: Vec<char> = Vec::new();
    for c in it: s.chars()
        invariant
            it.seq() == s@,
            v@ == it.seq().take(it.index() as int),
    {
        v.push(c);
        proof {
            assert(it.seq().take(it.index() + 1) =~= it.seq().take(it.index() as int).push(c));
        }
    }
    assert(v@ =~= s@);
    v
}

/// Appends the characters `v[from..to]` to `out`.
pub(crate) fn push_chars(out: &mut String, v: &Vec<char>, from: usize, to: usize)
    requires
        from <= to <= v.len(),
    ensures
        final(out)@ == old(out)@ + v@.subrange(from as int, to as int),
{
    let mut i: usize = from;
    while i < to
        invariant
            from <= i <= to <= v.len(),
            out@ == old(out)@ + v@.subrange(from as int, i as int),
        decreases to - i,
    {
        out.push(v[i]);
        assert(v@.subrange(from as int, i + 1) =~= v@.subrange(from as int, i as int).push(
            v@[i as int],
        ));
        assert(out@ =~= old(out)@ + v@.subrange(from as int, i + 1));
        i += 1;
    }
}

/// The string made of the characters `v[from..to]`.
pub(crate) fn string_from(v: &Vec<char>, from: usize, to: usize) -> (s: String)
    requires
        from <= to <= v.len(),
    ensures
        s@ == v@.subrange(from as int, to as int),
{
    let mut s = String::new();
    push_chars(&mut s, v, from, to);
    assert(s@ =~= v@.subrange(from as int, to as int));
    s
}

/// Tests whether the characters `v` spell `word`.
pub(crate) fn spells(v: &Vec<char>, word: &str) -> (r: bool)
    ensures
        r == (v@ == word@),
{
    let w = chars_of(word);
    if v.len() != w.len() {
        return false;
    }
    let mut i: usize = 0;
    while i < v.len()
        invariant
            w@ == word@,
            v.len() == w.len(),
            i <= v.len(),
            forall|k: int| 0 <= k < i ==> v@[k] == w@[k],
        decreases v.len() - i,
    {
        if v[i] != w[i] {
            return false;
        }
        i += 1;
    }
    assert(v@ =~= w@);
    true
}

/// `s` without its leading and trailing white space.
pub open spec fn trimmed(s: Seq<char>) -> Seq<char> {
    let a = leading(s, CharClass::Space);
    let b = trailing(s, CharClass::Space);
    if a + b >= s.len() {
        Seq::empty()
    } else {
        s.subrange(a as int, s.len() - b)
    }
}

/// The words of `s`: its maximal runs of characters that are not white
/// space, from left to right.
pub open spec fn words(s: Seq<char>) -> Seq<Seq<char>>
    decreases s.len(),
{
    let a = leading(s, CharClass::Space) as int;
    let n = leading(s.skip(a), CharClass::Word) as int;
    if n == 0 {
        Seq::empty()
    } else {
        proof {
            lemma_leading(s, CharClass::Space);
            lemma_leading(s.skip(a), CharClass::Word);
        }
        seq![s.subrange(a, a + n)] + words(s.skip(a + n))
    }
}

/// The pieces into which the line feeds cut `s`. A line feed ends a piece
/// and is not part of it; after the last line feed a piece follows only if
/// characters do.
pub open spec fn pieces(s: Seq<char>) -> Seq<Seq<char>>
    decreases s.len(),
{
    let n = leading(s, CharClass::LineBody) as int;
    if s.len() == 0 {
        Seq::empty()
    } else if n < s.len() {
        seq![s.take(n)] + pieces(s.skip(n + 1))
    } else {
        seq![s]
    }
}

/// The lines of a source text: its pieces between line feeds, each without
/// its leading and trailing white space (a carriage return before the line
/// feed is white space).
pub open spec fn source_lines(s: Seq<char>) -> Seq<Seq<char>> {
    pieces(s).map_values(|line: Seq<char>| trimmed(line))
}

/// A text has no more pieces than characters.
pub proof fn lemma_pieces_len(s: Seq<char>)
    ensures
        pieces(s).len() <= s.len(),
    decreases s.len(),
{
    let n = leading(s, CharClass::LineBody) as int;
    if s.len() > 0 && n < s.len() {
        lemma_pieces_len(s.skip(n + 1));
    }
}

/// The window of `v[from..to]` that is left when the white space on both
/// sides is taken off.
pub(crate) fn trim_window(v: &Vec<char>, from: usize, to: usize) -> (w: (usize, usize))
    requires
        from <= to <= v.len(),
    ensures
        from <= w.0 <= w.1 <= to,
        v@.subrange(w.0 as int, w.1 as int) == trimmed(v@.subrange(from as int, to as int)),
{
    let start = scan_forward(v, from, to, CharClass::Space);
    let end = scan_backward(v, from, to, CharClass::Space);
    if start >= end {
        assert(v@.subrange(start as int, start as int) =~= Seq::<char>::empty());
        (start, start)
    } else {
        assert(v@.subrange(start as int, end as int) =~= v@.subrange(
            from as int,
            to as int,
        ).subrange(start - from, end - from));
        (start, end)
    }
}

/// `s` without its leading and trailing white space.
pub fn trim(s: &str) -> (t: String)
    ensures
        t@ == trimmed(s@),
{
    let v = chars_of(s);
    assert(v@.subrange(0, v.len() as int) =~= v@);
    let w = trim_window(&v, 0, v.len());
    string_from(&v, w.0, w.1)
}

/// The views of the strings of `v`, in order.
pub open spec fn texts(v: Seq<String>) -> Seq<Seq<char>> {
    v.map_values(|s: String| s@)
}

/// The words of `v[from..to]`.
pub(crate) fn split_window(v: &Vec<char>, from: usize, to: usize) -> (out: Vec<String>)
    requires
        from <= to <= v.len(),
    ensures
        texts(out@) == words(v@.subrange(from as int, to as int)),
{
    let mut out: Vec<String> = Vec::new();
    let mut i: usize = from;
    assert(texts(out@) =~= Seq::<Seq<char>>::empty());
    loop
        invariant
            from <= i <= to <= v.len(),
            words(v@.subrange(from as int, to as int)) == texts(out@) + words(
                v@.subrange(i as int, to as int),
            ),
        ensures
            texts(out@) == words(v@.subrange(from as int, to as int)),
        decreases to - i,
    {
        let start = scan_forward(v, i, to, CharClass::Space);
        let end = scan_forward(v, start, to, CharClass::Word);
        let ghost rest = v@.subrange(i as int, to as int);
        proof {
            assert(rest.skip(start - i) =~= v@.subrange(start as int, to as int));
        }
        if end == start {
            assert(words(rest) =~= Seq::<Seq<char>>::empty());
            break ;
        }
        let word = string_from(v, start, end);
        proof {
            assert(rest.subrange(start - i, end - i) =~= v@.subrange(start as int, end as int));
            assert(rest.skip(end - i) =~= v@.subrange(end as int, to as int));
            assert(texts(out@.push(word)) =~= texts(out@).push(word@));
        }
        out.push(word);
        i = end;
    }
    out
}

/// The words of `s`: its maximal runs of characters that are not white
/// space, from left to right.
pub fn split_words(s: &str) -> (out: Vec<String>)
    ensures
        texts(out@) == words(s@),
{
    let v = chars_of(s);
    assert(v@.subrange(0, v.len() as int) =~= v@);
    split_window(&v, 0, v.len())
}

/// The lines of the source text `s`, each without the white space around
/// it.
pub fn split_source(s: &str) -> (out: Vec<String>)
    ensures
        texts(out@) == source_lines(s@),
        out.len() <= s@.len(),
{
    let v = chars_of(s);
    let mut out: Vec<String> = Vec::new();
    let mut i: usize = 0;
    assert(texts(out@) =~= Seq::<Seq<char>>::empty());
    assert(v@.subrange(0, v.len() as int) =~= v@);
    while i < v.len()
        invariant
            i <= v.len(),
            source_lines(v@) == texts(out@) + source_lines(v@.subrange(i as int, v.len() as int)),
        decreases v.len() - i,
    {
        let end = scan_forward(&v, i, v.len(), CharClass::LineBody);
        let w = trim_window(&v, i, end);
        let line = string_from(&v, w.0, w.1);
        let ghost rest = v@.subrange(i as int, v.len() as int);
        let ghost next = if end < v.len() {
            rest.skip(end - i + 1)
        } else {
            Seq::<char>::empty()
        };
        proof {
            assert(rest.take(end - i) =~= v@.subrange(i as int, end as int));
            if end < v.len() {
                assert(pieces(rest) == seq![rest.take(end - i)] + pieces(next));
            } else {
                assert(rest.take(end - i) =~= rest);
                assert(pieces(next) =~= Seq::<Seq<char>>::empty());
                assert(pieces(rest) =~= seq![rest.take(end - i)] + pieces(next));
            }
            assert(source_lines(rest) =~= seq![line@] + source_lines(next));
            assert(texts(out@.push(line)) =~= texts(out@).push(line@));
        }
        out.push(line);
        if end < v.len() {
            i = end + 1;
        } else {
            i = end;
        }
        proof {
            assert(next =~= v@.subrange(i as int, v.len() as int));
        }
    }
    proof {
        assert(v@.subrange(i as int, v.len() as int) =~= Seq::<char>::empty());
        assert(source_lines(Seq::<char>::empty()) =~= Seq::<Seq<char>>::empty());
        assert(texts(out@) =~= source_lines(v@));
        lemma_pieces_len(s@);
    }
    out
}

} // verus!
