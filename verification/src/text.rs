use vstd::prelude::*;

verus! {

broadcast use vstd::string::group_string_axioms;

/// The pieces of `s` between occurrences of `sep`, as `str::split` with a
/// single-character pattern yields them: there is always at least one piece,
/// and every separator ends one piece and starts the next.
pub open spec fn split_on(s: Seq<char>, sep: char) -> Seq<Seq<char>>
    decreases s.len(),
{
    if s.len() == 0 {
        seq![Seq::<char>::empty()]
    } else {
        let pieces = split_on(s.drop_last(), sep);
        if s.last() == sep {
            pieces.push(Seq::<char>::empty())
        } else {
            pieces.update(pieces.len() - 1, pieces.last().push(s.last()))
        }
    }
}

/// `split_on` always yields at least one piece, and no piece holds the separator.
pub proof fn lemma_split_on_shape(s: Seq<char>, sep: char)
    ensures
        split_on(s, sep).len() >= 1,
        forall|i: int| 0 <= i < split_on(s, sep).len() ==> !#[trigger] split_on(s, sep)[i].contains(sep),
    decreases s.len(),
{
    if s.len() > 0 {
        lemma_split_on_shape(s.drop_last(), sep);
        let pieces = split_on(s.drop_last(), sep);
        let n = pieces.len() - 1;
        assert(!pieces[n].contains(sep));
        if s.last() != sep {
            let last = pieces[n].push(s.last());
            assert(!last.contains(sep)) by {
                if last.contains(sep) {
                    let j = choose|j: int| 0 <= j < last.len() && last[j] == sep;
                    if j < pieces[n].len() {
                        assert(pieces[n][j] == sep);
                    }
                }
            }
            let next = pieces.update(n, last);
            assert forall|i: int| 0 <= i < next.len() implies !#[trigger] next[i].contains(sep) by {
                if i != n {
                    assert(next[i] == pieces[i]);
                }
            }
        } else {
            let next = pieces.push(Seq::<char>::empty());
            assert forall|i: int| 0 <= i < next.len() implies !#[trigger] next[i].contains(sep) by {
                if i < n + 1 {
                    assert(next[i] == pieces[i]);
                }
            }
        }
    }
}

/// `s[i]` is the first `sep` in `s`.
pub open spec fn is_first(s: Seq<char>, sep: char, i: int) -> bool {
    0 <= i < s.len() && s[i] == sep && forall|j: int| 0 <= j < i ==> s[j] != sep
}

/// Where `s` splits at the first `sep`: the text before it and the text after it.
pub open spec fn split_once(s: Seq<char>, sep: char) -> Option<(Seq<char>, Seq<char>)> {
    if s.contains(sep) {
        let i = choose|i: int| is_first(s, sep, i);
        Some((s.take(i), s.skip(i + 1)))
    } else {
        None
    }
}

/// Where the first separator stands, `split_once` splits.
pub proof fn lemma_split_once_at(s: Seq<char>, sep: char, k: int)
    requires
        0 <= k < s.len(),
        s[k] == sep,
        !s.take(k).contains(sep),
    ensures
        split_once(s, sep) == Some((s.take(k), s.skip(k + 1))),
{
    assert(s.contains(sep));
    assert forall|j: int| 0 <= j < k implies s[j] != sep by {
        assert(s.take(k)[j] == s[j]);
    }
    assert(is_first(s, sep, k));
    let i = choose|i: int| is_first(s, sep, i);
    assert(i == k);
}

/// The characters of `s`, in order.
pub fn chars_of(s: &str) -> (cs: Vec<char>)
    ensures
        cs@ == s@,
{
    let mut cs: Vec<char> = Vec::new();
    for c in it: s.chars()
        invariant
            cs@ == it.seq().take(it.index() as int),
    {
        cs.push(c);
    }
    cs
}

/// Appends one character to a string (`String::push`).
#[verifier::external_body]
pub(crate) fn push_char(s: &mut String, c: char)
    ensures
        final(s)@ == old(s)@.push(c),
{
    s.push(c);
}

/// The string made of the characters `cs[from..to]`.
pub fn string_of(cs: &Vec<char>, from: usize, to: usize) -> (s: String)
    requires
        from <= to <= cs@.len(),
    ensures
        s@ == cs@.subrange(from as int, to as int),
{
    let mut s = String::new();
    let mut i = from;
    while i < to
        invariant
            from <= i <= to <= cs@.len(),
            s@ == cs@.subrange(from as int, i as int),
        decreases to - i,
    {
        push_char(&mut s, cs[i]);
        assert(s@ =~= cs@.subrange(from as int, i + 1));
        i = i + 1;
    }
    s
}

/// Whether two strings hold the same characters.
pub fn same_text(a: &str, b: &str) -> (same: bool)
    ensures
        same == (a@ == b@),
{
    a.to_owned() == b.to_owned()
}

/// Splits `s` at every `sep` (`str::split` with a character pattern).
pub fn split_at_char(s: &str, sep: char) -> (pieces: Vec<String>)
    ensures
        pieces@.map_values(|p: String| p@) == split_on(s@, sep),
{
    let cs = chars_of(s);
    let mut pieces: Vec<String> = Vec::new();
    let mut start: usize = 0;
    let mut i: usize = 0;
    assert(cs@.take(0) =~= Seq::<char>::empty());
    assert(pieces@.map_values(|p: String| p@).push(cs@.subrange(0, 0)) =~= split_on(
        cs@.take(0),
        sep,
    ));
    while i < cs.len()
        invariant
            0 <= start <= i <= cs@.len(),
            cs@ == s@,
            pieces@.map_values(|p: String| p@).push(cs@.subrange(start as int, i as int))
                == split_on(cs@.take(i as int), sep),
        decreases cs@.len() - i,
    {
        let ghost prefix = cs@.take(i as int);
        assert(cs@.take(i + 1).drop_last() =~= prefix);
        proof {
            lemma_split_on_shape(prefix, sep);
        }
        if cs[i] == sep {
            let piece = string_of(&cs, start, i);
            pieces.push(piece);
            start = i + 1;
            assert(cs@.subrange(start as int, i + 1) =~= Seq::<char>::empty());
            assert(pieces@.map_values(|p: String| p@).push(cs@.subrange(start as int, i + 1))
                =~= split_on(cs@.take(i + 1), sep));
        } else {
            assert(cs@.subrange(start as int, i + 1) =~= cs@.subrange(start as int, i as int).push(
                cs@[i as int],
            ));
            assert(pieces@.map_values(|p: String| p@).push(cs@.subrange(start as int, i + 1))
                =~= split_on(cs@.take(i + 1), sep));
        }
        i = i + 1;
    }
    let last = string_of(&cs, start, cs.len());
    pieces.push(last);
    assert(cs@.take(cs@.len() as int) =~= cs@);
    assert(pieces@.map_values(|p: String| p@) =~= split_on(s@, sep));
    pieces
}


/// Splits `s` at the first `sep` (`str::split_once` with a character pattern).
pub fn split_once_at(s: &str, sep: char) -> (halves: Option<(String, String)>)
    ensures
        match (halves, split_once(s@, sep)) {
            (Some((a, b)), Some((x, y))) => a@ == x && b@ == y,
            (None, None) => true,
            _ => false,
        },
{
    let cs = chars_of(s);
    let mut i: usize = 0;
    while i < cs.len()
        invariant
            0 <= i <= cs@.len(),
            cs@ == s@,
            !cs@.take(i as int).contains(sep),
        decreases cs@.len() - i,
    {
        if cs[i] == sep {
            let before = string_of(&cs, 0, i);
            let after = string_of(&cs, i + 1, cs.len());
            proof {
                let k = i as int;
                assert(s@.contains(sep)) by {
                    assert(s@[k] == sep);
                }
                assert(cs@.take(k) =~= s@.take(k));
                lemma_split_once_at(s@, sep, k);
                assert(cs@.subrange(0, k) =~= s@.take(k));
                assert(cs@.subrange(k + 1, cs@.len() as int) =~= s@.skip(k + 1));
                assert(split_once(s@, sep) == Some((s@.take(k), s@.skip(k + 1))));
            }
            return Some((before, after));
        }
        assert(cs@.take(i + 1) =~= cs@.take(i as int).push(cs@[i as int]));
        i = i + 1;
    }
    assert(cs@.take(cs@.len() as int) =~= s@);
    None
}

/// `prefix` is how `s` begins.
pub fn starts_with(s: &str, prefix: &str) -> (begins: bool)
    ensures
        begins == prefix@.is_prefix_of(s@),
{
    let cs = chars_of(s);
    let ps = chars_of(prefix);
    if ps.len() > cs.len() {
        return false;
    }
    let mut i: usize = 0;
    while i < ps.len()
        invariant
            0 <= i <= ps@.len() <= cs@.len(),
            cs@ == s@,
            ps@ == prefix@,
            forall|j: int| 0 <= j < i ==> ps@[j] == cs@[j],
        decreases ps@.len() - i,
    {
        if ps[i] != cs[i] {
            return false;
        }
        i = i + 1;
    }
    true
}

/// `a` and `b` are the same character, or the same ASCII letter in either case.
pub open spec fn same_letter_ignoring_case(a: char, b: char) -> bool {
    let x = a as u32;
    let y = b as u32;
    ||| x == y
    ||| 65 <= x <= 90 && y == x + 32
    ||| 65 <= y <= 90 && x == y + 32
}

/// `a` and `b` agree up to the case of ASCII letters.
pub open spec fn eq_ignoring_ascii_case(a: Seq<char>, b: Seq<char>) -> bool {
    a.len() == b.len() && forall|i: int| 0 <= i < a.len() ==> same_letter_ignoring_case(a[i], b[i])
}

/// Compares two strings, ignoring the case of ASCII letters.
pub fn text_eq_ignoring_ascii_case(a: &str, b: &str) -> (same: bool)
    ensures
        same == eq_ignoring_ascii_case(a@, b@),
{
    let xs = chars_of(a);
    let ys = chars_of(b);
    if xs.len() != ys.len() {
        return false;
    }
    let mut i: usize = 0;
    while i < xs.len()
        invariant
            0 <= i <= xs@.len(),
            xs@.len() == ys@.len(),
            xs@ == a@,
            ys@ == b@,
            forall|j: int| 0 <= j < i ==> same_letter_ignoring_case(xs@[j], ys@[j]),
        decreases xs@.len() - i,
    {
        let x = xs[i] as u32;
        let y = ys[i] as u32;
        let same = x == y || (65 <= x && x <= 90 && y == x + 32) || (65 <= y && y <= 90 && x == y
            + 32);
        if !same {
            return false;
        }
        i = i + 1;
    }
    true
}

} // verus!
