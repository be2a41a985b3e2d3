use vstd::prelude::*;

use crate::entries::{distinct_keys, entries_map, KeyedEntries};
use crate::text::{
    lemma_split_on_shape, lemma_split_once_at, split_at_char, split_on, split_once, split_once_at,
};

verus! {

broadcast use vstd::string::group_string_axioms;

/// Whether the key/value cache for scripts is built in.
pub const CACHE_FEATURE: bool = true;

/// Whether data generation from descriptions is built in.
pub const RUGEN_FEATURE: bool = true;

/// The non-empty segments of a path, in order: the path split at every `/`,
/// with the empty pieces that leading, trailing or doubled slashes leave dropped.
pub open spec fn path_parts(path: Seq<char>) -> Seq<Seq<char>> {
    split_on(path, '/').filter(|p: Seq<char>| p.len() > 0)
}

/// The parameters that the `&`-separated pieces of a query assign, read left
/// to right: a piece `k=v` assigns `v` to `k` (at its first `=`), a later
/// assignment to the same key replaces an earlier one, and a piece without
/// `=` assigns nothing.
pub open spec fn assignments(pieces: Seq<Seq<char>>) -> Map<Seq<char>, Seq<char>>
    decreases pieces.len(),
{
    if pieces.len() == 0 {
        Map::empty()
    } else {
        let earlier = assignments(pieces.drop_last());
        match split_once(pieces.last(), '=') {
            Some((k, v)) => earlier.insert(k, v),
            None => earlier,
        }
    }
}

/// The parameters of a query string.
pub open spec fn query_map(query: Seq<char>) -> Map<Seq<char>, Seq<char>> {
    assignments(split_on(query, '&'))
}

/// The segments of a path (scripts call it as `path.parts()`).
pub fn parts(value: &str) -> (segments: Vec<String>)
    ensures
        segments@.map_values(|s: String| s@) == path_parts(value@),
{
    let pieces = split_at_char(value, '/');
    let ghost all = pieces@.map_values(|p: String| p@);
    let mut segments: Vec<String> = Vec::new();
    let mut i: usize = 0;
    assert(all.take(0).filter(|p: Seq<char>| p.len() > 0) =~= Seq::<Seq<char>>::empty()) by {
        reveal(Seq::filter);
    }
    while i < pieces.len()
        invariant
            0 <= i <= pieces@.len(),
            all == pieces@.map_values(|p: String| p@),
            segments@.map_values(|s: String| s@) == all.take(i as int).filter(
                |p: Seq<char>| p.len() > 0,
            ),
        decreases pieces@.len() - i,
    {
        let piece = &pieces[i];
        assert(all.take(i + 1) =~= all.take(i as int).push(all[i as int]));
        proof {
            all.take(i as int).lemma_filter_push(all[i as int], |p: Seq<char>| p.len() > 0);
        }
        if !piece.as_str().is_empty() {
            assert(piece@.len() > 0);
            segments.push(piece.clone());
            assert(segments@.map_values(|s: String| s@) =~= all.take(i + 1).filter(
                |p: Seq<char>| p.len() > 0,
            ));
        } else {
            assert(piece@.len() == 0);
        }
        i = i + 1;
    }
    assert(all.take(pieces@.len() as int) =~= all);
    segments
}

/// Whether a build feature is on (scripts call it as `cfg(key)`).
pub fn feature_enabled(key: &str) -> (enabled: bool)
    ensures
        enabled == ((CACHE_FEATURE && key@ == "cache"@) || (RUGEN_FEATURE && key@ == "rugen"@)),
{
    (CACHE_FEATURE && crate::text::same_text(key, "cache")) || (RUGEN_FEATURE
        && crate::text::same_text(key, "rugen"))
}

/// The parameters of a query string as key/value pairs, each key once.
pub fn parse_query(query: &str) -> (params: Vec<(String, String)>)
    ensures
        distinct_keys(params@),
        entries_map(params@).map_values(|v: String| v@) == query_map(query@),
{
    let pieces = split_at_char(query, '&');
    let ghost all = pieces@.map_values(|p: String| p@);
    let mut found: KeyedEntries<String> = KeyedEntries::new();
    let mut i: usize = 0;
    assert(all.take(0) =~= Seq::<Seq<char>>::empty());
    assert(found@.map_values(|v: String| v@) =~= assignments(all.take(0)));
    while i < pieces.len()
        invariant
            0 <= i <= pieces@.len(),
            all == pieces@.map_values(|p: String| p@),
            all == split_on(query@, '&'),
            found@.map_values(|v: String| v@) == assignments(all.take(i as int)),
        decreases pieces@.len() - i,
    {
        assert(all.take(i + 1).drop_last() =~= all.take(i as int));
        assert(all.take(i + 1).last() == pieces@[i as int]@);
        match split_once_at(pieces[i].as_str(), '=') {
            Some((k, v)) => {
                let ghost before = found@;
                found.set(k.as_str(), v);
                assert(found@.map_values(|v: String| v@) =~= before.map_values(|v: String| v@).insert(k@, found@[k@]@));
            },
            None => {},
        }
        i = i + 1;
    }
    assert(all.take(pieces@.len() as int) =~= all);
    found.into_pairs()
}


/// Every path segment is non-empty and holds no `/`.
pub proof fn law_parts_are_clean(path: Seq<char>)
    ensures
        forall|i: int|
            0 <= i < path_parts(path).len() ==> #[trigger] path_parts(path)[i].len() > 0
                && !path_parts(path)[i].contains('/'),
{
    let pieces = split_on(path, '/');
    let keep = |p: Seq<char>| p.len() > 0;
    lemma_split_on_shape(path, '/');
    assert forall|i: int| 0 <= i < path_parts(path).len() implies #[trigger] path_parts(path)[i].len()
        > 0 && !path_parts(path)[i].contains('/') by {
        pieces.lemma_filter_pred(keep, i);
        pieces.lemma_filter_contains_rev(keep, path_parts(path)[i]);
        let j = choose|j: int| 0 <= j < pieces.len() && pieces[j] == path_parts(path)[i];
        assert(!pieces[j].contains('/'));
    }
}

/// A later `key=value` piece sets `key` to `value`, whatever came before.
pub proof fn law_later_assignment_wins(
    pieces: Seq<Seq<char>>,
    key: Seq<char>,
    value: Seq<char>,
)
    requires
        !key.contains('='),
    ensures
        assignments(pieces.push(key + seq!['='] + value))[key] == value,
        assignments(pieces.push(key + seq!['='] + value)).contains_key(key),
{
    let piece = key + seq!['='] + value;
    assert(piece.take(key.len() as int) =~= key);
    assert(piece.skip(key.len() + 1int) =~= value);
    lemma_split_once_at(piece, '=', key.len() as int);
    assert(pieces.push(piece).drop_last() =~= pieces);
}

/// A piece without `=` sets nothing.
pub proof fn law_pieces_without_equals_are_ignored(pieces: Seq<Seq<char>>, piece: Seq<char>)
    requires
        !piece.contains('='),
    ensures
        assignments(pieces.push(piece)) == assignments(pieces),
{
    assert(pieces.push(piece).drop_last() =~= pieces);
}


/// Segments joined with single slashes.
pub open spec fn join_segments(segments: Seq<Seq<char>>) -> Seq<char>
    decreases segments.len(),
{
    if segments.len() == 0 {
        Seq::empty()
    } else if segments.len() == 1 {
        segments[0]
    } else {
        join_segments(segments.drop_last()) + seq!['/'] + segments.last()
    }
}

/// Appending text free of the separator extends the last piece.
proof fn lemma_split_on_extend(s: Seq<char>, t: Seq<char>, sep: char)
    requires
        !t.contains(sep),
    ensures
        split_on(s + t, sep) == split_on(s, sep).update(
            split_on(s, sep).len() - 1,
            split_on(s, sep).last() + t,
        ),
    decreases t.len(),
{
    lemma_split_on_shape(s, sep);
    let pieces = split_on(s, sep);
    if t.len() == 0 {
        assert(s + t =~= s);
        assert(pieces.last() + t =~= pieces.last());
        assert(pieces.update(pieces.len() - 1, pieces.last()) =~= pieces);
    } else {
        let init = t.drop_last();
        assert(!init.contains(sep)) by {
            if init.contains(sep) {
                let j = choose|j: int| 0 <= j < init.len() && init[j] == sep;
                assert(t[j] == sep);
            }
        }
        assert(t.last() != sep) by {
            assert(t[t.len() - 1] == t.last());
        }
        lemma_split_on_extend(s, init, sep);
        assert((s + t).drop_last() =~= s + init);
        assert((s + t).last() == t.last());
        let before = split_on(s + init, sep);
        assert(before.last() == pieces.last() + init);
        assert(before.last().push(t.last()) =~= pieces.last() + t);
        assert(before.update(before.len() - 1, before.last().push(t.last())) =~= pieces.update(
            pieces.len() - 1,
            pieces.last() + t,
        ));
    }
}

/// Joining non-empty, slash-free segments with `/` and taking the path's
/// segments gives them back.
pub proof fn law_parts_of_joined_segments(segments: Seq<Seq<char>>)
    requires
        forall|i: int|
            0 <= i < segments.len() ==> #[trigger] segments[i].len() > 0 && !segments[i].contains(
                '/',
            ),
    ensures
        path_parts(join_segments(segments)) == segments,
    decreases segments.len(),
{
    let keep = |p: Seq<char>| p.len() > 0;
    if segments.len() == 0 {
        assert(split_on(Seq::<char>::empty(), '/') =~= seq![Seq::<char>::empty()]);
        assert(seq![Seq::<char>::empty()] =~= Seq::<Seq<char>>::empty().push(Seq::<char>::empty()));
        Seq::<Seq<char>>::empty().lemma_filter_push(Seq::<char>::empty(), keep);
        assert(Seq::<Seq<char>>::empty().filter(keep) =~= Seq::<Seq<char>>::empty()) by {
            reveal(Seq::filter);
        }
        assert(path_parts(join_segments(segments)) =~= segments);
    } else if segments.len() == 1 {
        let only = segments[0];
        lemma_split_on_extend(Seq::<char>::empty(), only, '/');
        assert(Seq::<char>::empty() + only =~= only);
        assert(split_on(only, '/') =~= seq![only]);
        assert(seq![only] =~= Seq::<Seq<char>>::empty().push(only));
        Seq::<Seq<char>>::empty().lemma_filter_push(only, keep);
        assert(Seq::<Seq<char>>::empty().filter(keep) =~= Seq::<Seq<char>>::empty()) by {
            reveal(Seq::filter);
        }
        assert(path_parts(join_segments(segments)) =~= segments);
    } else {
        let init = segments.drop_last();
        let last = segments.last();
        assert forall|i: int| 0 <= i < init.len() implies #[trigger] init[i].len() > 0
            && !init[i].contains('/') by {
            assert(init[i] == segments[i]);
        }
        assert(last == segments[segments.len() - 1]);
        law_parts_of_joined_segments(init);
        let head = join_segments(init);
        let with_slash = head + seq!['/'];
        assert(with_slash.drop_last() =~= head);
        assert(with_slash.last() == '/');
        lemma_split_on_shape(with_slash, '/');
        lemma_split_on_extend(with_slash, last, '/');
        let pieces = split_on(head, '/');
        assert(split_on(with_slash, '/') == pieces.push(Seq::<char>::empty()));
        assert(Seq::<char>::empty() + last =~= last);
        assert(pieces.push(Seq::<char>::empty()).update(pieces.len() as int, last) =~= pieces.push(last));
        assert(join_segments(segments) == with_slash + last);
        pieces.lemma_filter_push(last, keep);
        assert(path_parts(join_segments(segments)) =~= init.push(last));
        assert(init.push(last) =~= segments);
    }
}

/// The piece assigns to `key`: it splits at its first `=` with `key` before it.
pub open spec fn assigns_key(piece: Seq<char>, key: Seq<char>) -> bool {
    match split_once(piece, '=') {
        Some((k, _)) => k == key,
        None => false,
    }
}

/// An assignment to one key leaves every other key as it was.
pub proof fn law_assignment_keeps_other_keys(
    pieces: Seq<Seq<char>>,
    key: Seq<char>,
    value: Seq<char>,
    other: Seq<char>,
)
    requires
        !key.contains('='),
        other != key,
    ensures
        assignments(pieces.push(key + seq!['='] + value)).contains_key(other) == assignments(
            pieces,
        ).contains_key(other),
        assignments(pieces).contains_key(other) ==> assignments(
            pieces.push(key + seq!['='] + value),
        )[other] == assignments(pieces)[other],
{
    let piece = key + seq!['='] + value;
    assert(piece.take(key.len() as int) =~= key);
    assert(piece.skip(key.len() + 1int) =~= value);
    lemma_split_once_at(piece, '=', key.len() as int);
    assert(pieces.push(piece).drop_last() =~= pieces);
}

/// The parameters are exactly the keys that some piece assigns, and each
/// holds the value of the last piece that assigns it.
pub proof fn law_parameters_come_from_pieces(pieces: Seq<Seq<char>>, key: Seq<char>)
    ensures
        assignments(pieces).contains_key(key) <==> exists|i: int|
            0 <= i < pieces.len() && #[trigger] assigns_key(pieces[i], key),
        assignments(pieces).contains_key(key) ==> exists|i: int|
            0 <= i < pieces.len() && split_once(#[trigger] pieces[i], '=') == Some(
                (key, assignments(pieces)[key]),
            ) && forall|j: int| i < j < pieces.len() ==> !assigns_key(#[trigger] pieces[j], key),
    decreases pieces.len(),
{
    if pieces.len() > 0 {
        let init = pieces.drop_last();
        let n = pieces.len() - 1;
        let last = pieces[n];
        assert(pieces.last() == last);
        law_parameters_come_from_pieces(init, key);
        assert forall|i: int| 0 <= i < n implies pieces[i] == init[i] by {}
        if assigns_key(last, key) {
            let (k, v) = split_once(last, '=').unwrap();
            assert(assignments(pieces) == assignments(init).insert(k, v));
            assert(split_once(pieces[n], '=') == Some((key, assignments(pieces)[key])));
        } else {
            assert(assignments(pieces).contains_key(key) == assignments(init).contains_key(key));
            if assignments(init).contains_key(key) {
                assert(assignments(pieces)[key] == assignments(init)[key]);
                let i = choose|i: int|
                    0 <= i < init.len() && split_once(#[trigger] init[i], '=') == Some(
                        (key, assignments(init)[key]),
                    ) && forall|j: int| i < j < init.len() ==> !assigns_key(#[trigger] init[j], key);
                assert(split_once(pieces[i], '=') == Some((key, assignments(pieces)[key])));
                assert forall|j: int| i < j < pieces.len() implies !assigns_key(
                    #[trigger] pieces[j],
                    key,
                ) by {
                    if j < n {
                        assert(!assigns_key(init[j], key));
                    }
                }
            }
            if exists|i: int| 0 <= i < pieces.len() && #[trigger] assigns_key(pieces[i], key) {
                let i = choose|i: int| 0 <= i < pieces.len() && #[trigger] assigns_key(pieces[i], key);
                assert(i != n);
                assert(assigns_key(init[i], key));
            }
            if exists|i: int| 0 <= i < init.len() && #[trigger] assigns_key(init[i], key) {
                let i = choose|i: int| 0 <= i < init.len() && #[trigger] assigns_key(init[i], key);
                assert(assigns_key(pieces[i], key));
            }
        }
    }
}

} // verus!
