//! Profile tags ("langs"): free text split into short lowercase tags.
//!
//! Input is split on commas and whitespace; each piece is trimmed, loses its
//! leading and trailing `#`, is lowercased (ASCII) and keeps only ASCII
//! letters, digits, `-`, `_` and `.`. Empty pieces, pieces longer than
//! `TAG_MAX_LEN` and repeats are dropped, and at most `TAG_MAX_COUNT` tags
//! are kept, in order of first appearance.

use vstd::prelude::*;

use crate::text::{
    char_is_ascii_alnum, char_is_whitespace, is_ascii_alnum, is_ascii_upper, is_ws, lower_seq,
    lower_vec, string_of, trim_char, trim_matching, trim_pred, trim_whitespace, trim_ws,
    vec_chars_eq, lemma_trim_by_noop, TrimSet, chars_of,
};

verus! {

pub const TAG_MAX_LEN: usize = 24;

pub const TAG_MAX_COUNT: usize = 8;

pub open spec fn tag_separator(c: char) -> bool {
    c == ',' || is_ws(c)
}

pub open spec fn tag_char(c: char) -> bool {
    is_ascii_alnum(c) || c == '-' || c == '_' || c == '.'
}

/// `s.split(|c| c == ',' || c.is_whitespace())`: the pieces between
/// separators, empty pieces included.
pub open spec fn split_tags(s: Seq<char>) -> Seq<Seq<char>>
    decreases s.len(),
{
    if s.len() == 0 {
        seq![Seq::empty()]
    } else {
        let r = split_tags(s.drop_last());
        let c = s.last();
        if tag_separator(c) {
            r.push(Seq::empty())
        } else {
            r.update(r.len() - 1, r.last().push(c))
        }
    }
}

/// The pieces of all values, in order.
pub open spec fn all_pieces(values: Seq<Seq<char>>) -> Seq<Seq<char>>
    decreases values.len(),
{
    if values.len() == 0 {
        Seq::empty()
    } else {
        all_pieces(values.drop_last()) + split_tags(values.last())
    }
}

/// The characters of `s` that may stand in a tag.
pub open spec fn keep_tag_chars(s: Seq<char>) -> Seq<char>
    decreases s.len(),
{
    if s.len() == 0 {
        Seq::empty()
    } else {
        let prev = keep_tag_chars(s.drop_last());
        if tag_char(s.last()) {
            prev.push(s.last())
        } else {
            prev
        }
    }
}

/// The tag a piece stands for (possibly empty).
pub open spec fn tag_of(piece: Seq<char>) -> Seq<char> {
    keep_tag_chars(lower_seq(trim_char(trim_ws(piece), '#')))
}

/// Folds candidates into the tag list, left to right.
pub open spec fn collect_tags(cands: Seq<Seq<char>>) -> Seq<Seq<char>>
    decreases cands.len(),
{
    if cands.len() == 0 {
        Seq::empty()
    } else {
        let prev = collect_tags(cands.drop_last());
        let c = cands.last();
        if prev.len() >= TAG_MAX_COUNT || c.len() == 0 || c.len() > TAG_MAX_LEN || prev.contains(
            c,
        ) {
            prev
        } else {
            prev.push(c)
        }
    }
}

/// The tags made of `values`.
pub open spec fn normalized_tags(values: Seq<Seq<char>>) -> Seq<Seq<char>> {
    collect_tags(all_pieces(values).map_values(|p: Seq<char>| tag_of(p)))
}

pub open spec fn views(s: Seq<Vec<char>>) -> Seq<Seq<char>> {
    s.map_values(|x: Vec<char>| x@)
}

pub open spec fn string_views(s: Seq<String>) -> Seq<Seq<char>> {
    s.map_values(|x: String| x@)
}

proof fn lemma_split_len(s: Seq<char>)
    ensures
        split_tags(s).len() >= 1,
    decreases s.len(),
{
    if s.len() > 0 {
        lemma_split_len(s.drop_last());
    }
}

/// Joining two texts with a separator splits into the pieces of the one
/// followed by the pieces of the other.
proof fn lemma_split_join(x: Seq<char>, sep: char, y: Seq<char>)
    requires
        tag_separator(sep),
    ensures
        split_tags(x + seq![sep] + y) == split_tags(x) + split_tags(y),
    decreases y.len(),
{
    let j = x + seq![sep] + y;
    if y.len() == 0 {
        assert(j.drop_last() =~= x);
        assert(j.last() == sep);
        assert(split_tags(y) =~= seq![Seq::<char>::empty()]);
        assert(split_tags(j) =~= split_tags(x) + split_tags(y));
    } else {
        let y2 = y.drop_last();
        lemma_split_join(x, sep, y2);
        lemma_split_len(y2);
        assert(j.drop_last() =~= x + seq![sep] + y2);
        assert(j.last() == y.last());
        let a = split_tags(x);
        let b = split_tags(y2);
        let c = y.last();
        if tag_separator(c) {
            assert((a + b).push(Seq::empty()) =~= a + b.push(Seq::empty()));
        } else {
            let ab = a + b;
            assert(ab.last() == b.last());
            assert(ab.update(ab.len() - 1, ab.last().push(c)) =~= a + b.update(
                b.len() - 1,
                b.last().push(c),
            ));
        }
    }
}

/// Two values give the same tags as the one value that joins them with a
/// space or a comma (or any other separator).
pub proof fn lemma_joined_values_same_tags(x: Seq<char>, y: Seq<char>, sep: char)
    requires
        tag_separator(sep),
    ensures
        normalized_tags(seq![x, y]) == normalized_tags(seq![x + seq![sep] + y]),
{
    lemma_split_join(x, sep, y);
    let two = seq![x, y];
    let one = seq![x + seq![sep] + y];
    assert(two.drop_last() =~= seq![x]);
    assert(seq![x].drop_last() =~= Seq::<Seq<char>>::empty());
    assert(one.drop_last() =~= Seq::<Seq<char>>::empty());
    let none = Seq::<Seq<char>>::empty();
    assert(all_pieces(none) == none);
    assert(seq![x].last() == x);
    assert(one.last() == x + seq![sep] + y);
    assert(two.last() == y);
    assert(none + split_tags(x) =~= split_tags(x));
    assert(none + split_tags(x + seq![sep] + y) =~= split_tags(x + seq![sep] + y));
    assert(all_pieces(seq![x]) =~= split_tags(x));
    assert(all_pieces(two) =~= split_tags(x) + split_tags(y));
    assert(all_pieces(one) =~= split_tags(x + seq![sep] + y));
    assert(all_pieces(two) == all_pieces(one));
}

/// Appends the pieces of `v` to `out`.
fn split_into(v: &Vec<char>, out: &mut Vec<Vec<char>>)
    ensures
        views(final(out)@) == views(old(out)@) + split_tags(v@),
{
    let ghost start = views(out@);
    let mut cur: Vec<char> = Vec::new();
    let mut i: usize = 0;
    assert(v@.take(0) =~= Seq::<char>::empty());
    assert(views(out@) + seq![cur@] =~= start + split_tags(v@.take(0)));
    while i < v.len()
        invariant
            i <= v.len(),
            start == views(old(out)@),
            views(out@) + seq![cur@] == start + split_tags(v@.take(i as int)),
        decreases v.len() - i,
    {
        let c = v[i];
        proof {
            assert(v@.take(i + 1).drop_last() =~= v@.take(i as int));
            assert(v@.take(i + 1).last() == c);
            lemma_split_len(v@.take(i as int));
        }
        let ghost before = split_tags(v@.take(i as int));
        if c == ',' || char_is_whitespace(c) {
            let done = cur;
            let ghost prev_out = views(out@);
            assert(prev_out + seq![done@] == start + before);
            out.push(done);
            cur = Vec::new();
            proof {
                assert(views(out@) =~= prev_out.push(done@));
                assert(views(out@) == start + before);
                assert(cur@ =~= Seq::<char>::empty());
                assert(views(out@) + seq![cur@] =~= start + before.push(Seq::empty()));
            }
        } else {
            let ghost old_cur = cur@;
            cur.push(c);
            proof {
                let lhs = views(out@) + seq![cur@];
                assert(lhs =~= (views(out@) + seq![old_cur]).update(
                    views(out@).len() as int,
                    old_cur.push(c),
                ));
                assert((start + before).last() == old_cur);
                assert(lhs =~= start + before.update(before.len() - 1, before.last().push(c)));
            }
        }
        i = i + 1;
    }
    assert(v@.take(v.len() as int) =~= v@);
    out.push(cur);
    proof {
        assert(views(out@) =~= views(out@.drop_last()).push(cur@));
    }
}

/// Keeps the characters that may stand in a tag.
fn keep_tag_chars_vec(v: &Vec<char>) -> (r: Vec<char>)
    ensures
        r@ == keep_tag_chars(v@),
{
    let mut r: Vec<char> = Vec::new();
    let mut i: usize = 0;
    while i < v.len()
        invariant
            i <= v.len(),
            r@ == keep_tag_chars(v@.take(i as int)),
        decreases v.len() - i,
    {
        let c = v[i];
        proof {
            assert(v@.take(i + 1).drop_last() =~= v@.take(i as int));
            assert(v@.take(i + 1).last() == c);
        }
        if char_is_ascii_alnum(c) || c == '-' || c == '_' || c == '.' {
            r.push(c);
        }
        i = i + 1;
    }
    assert(v@.take(v.len() as int) =~= v@);
    r
}

fn tag_of_vec(piece: &Vec<char>) -> (r: Vec<char>)
    ensures
        r@ == tag_of(piece@),
{
    let t = trim_whitespace(piece);
    let t = trim_matching(&t, '#');
    let t = lower_vec(&t);
    keep_tag_chars_vec(&t)
}

fn contains_chars(list: &Vec<Vec<char>>, c: &Vec<char>) -> (b: bool)
    ensures
        b == views(list@).contains(c@),
{
    let mut i: usize = 0;
    while i < list.len()
        invariant
            i <= list.len(),
            forall|k: int| 0 <= k < i ==> list@[k]@ != c@,
        decreases list.len() - i,
    {
        if vec_chars_eq(&list[i], c) {
            assert(views(list@)[i as int] == c@);
            return true;
        }
        i = i + 1;
    }
    proof {
        if views(list@).contains(c@) {
            let k = choose|k: int| 0 <= k < views(list@).len() && views(list@)[k] == c@;
            assert(list@[k]@ == c@);
        }
    }
    false
}

/// Splits `values` into normalized, de-duplicated tags (see the module
/// documentation).
pub fn normalize_profile_tags(values: &Vec<String>) -> (r: Vec<String>)
    ensures
        string_views(r@) == normalized_tags(string_views(values@)),
{
    let mut pieces: Vec<Vec<char>> = Vec::new();
    let mut vi: usize = 0;
    while vi < values.len()
        invariant
            vi <= values.len(),
            views(pieces@) == all_pieces(string_views(values@).take(vi as int)),
        decreases values.len() - vi,
    {
        let v = chars_of(values[vi].as_str());
        split_into(&v, &mut pieces);
        proof {
            let sv = string_views(values@);
            assert(sv.take(vi + 1).drop_last() =~= sv.take(vi as int));
            assert(sv.take(vi + 1).last() == v@);
        }
        vi = vi + 1;
    }
    let ghost sv = string_views(values@);
    assert(sv.take(values.len() as int) =~= sv);
    let ghost cands = views(pieces@).map_values(|p: Seq<char>| tag_of(p));
    let mut out: Vec<Vec<char>> = Vec::new();
    let mut i: usize = 0;
    while i < pieces.len()
        invariant
            i <= pieces.len(),
            cands == views(pieces@).map_values(|p: Seq<char>| tag_of(p)),
            views(out@) == collect_tags(cands.take(i as int)),
        decreases pieces.len() - i,
    {
        let c = tag_of_vec(&pieces[i]);
        proof {
            assert(cands.take(i + 1).drop_last() =~= cands.take(i as int));
            assert(cands.take(i + 1).last() == c@);
        }
        if out.len() >= TAG_MAX_COUNT || c.len() == 0 || c.len() > TAG_MAX_LEN || contains_chars(
            &out,
            &c,
        ) {
        } else {
            let ghost before = views(out@);
            out.push(c);
            proof {
                assert(views(out@) =~= before.push(c@));
            }
        }
        i = i + 1;
    }
    assert(cands.take(pieces.len() as int) =~= cands);
    let mut r: Vec<String> = Vec::new();
    let mut k: usize = 0;
    while k < out.len()
        invariant
            k <= out.len(),
            string_views(r@) == views(out@).take(k as int),
        decreases out.len() - k,
    {
        let s = string_of(&out[k]);
        let ghost before_r = string_views(r@);
        r.push(s);
        proof {
            assert(string_views(r@) =~= before_r.push(out@[k as int]@));
            assert(string_views(r@) =~= views(out@).take(k + 1));
        }
        k = k + 1;
    }
    assert(views(out@).take(out.len() as int) =~= views(out@));
    r
}

// ---------------------------------------------------------------------------
// Laws
// ---------------------------------------------------------------------------

/// A tag as `normalize_profile_tags` hands it out.
pub open spec fn tag_well_formed(t: Seq<char>) -> bool {
    &&& 0 < t.len() <= TAG_MAX_LEN
    &&& forall|i: int| 0 <= i < t.len() ==> tag_char(#[trigger] t[i]) && !is_ascii_upper(t[i])
}

proof fn lemma_keep_chars(s: Seq<char>)
    ensures
        forall|i: int|
            0 <= i < keep_tag_chars(s).len() ==> tag_char(#[trigger] keep_tag_chars(s)[i]),
        forall|i: int|
            0 <= i < keep_tag_chars(s).len() ==> exists|j: int|
                0 <= j < s.len() && #[trigger] keep_tag_chars(s)[i] == s[j],
    decreases s.len(),
{
    if s.len() > 0 {
        let t = s.drop_last();
        lemma_keep_chars(t);
        let out = keep_tag_chars(s);
        let prev = keep_tag_chars(t);
        assert forall|i: int| 0 <= i < out.len() implies tag_char(#[trigger] out[i]) by {
            if i < prev.len() {
                assert(out[i] == prev[i]);
            }
        }
        assert forall|i: int| 0 <= i < out.len() implies exists|j: int|
            0 <= j < s.len() && #[trigger] out[i] == s[j] by {
            if i < prev.len() {
                assert(out[i] == prev[i]);
                let j = choose|j: int| 0 <= j < t.len() && prev[i] == t[j];
                assert(t[j] == s[j]);
            } else {
                assert(out[i] == s[s.len() - 1]);
            }
        }
    }
}

proof fn lemma_tag_of_chars(piece: Seq<char>)
    ensures
        forall|i: int|
            0 <= i < tag_of(piece).len() ==> tag_char(#[trigger] tag_of(piece)[i]) && !is_ascii_upper(
                tag_of(piece)[i],
            ),
{
    let low = lower_seq(trim_char(trim_ws(piece), '#'));
    lemma_keep_chars(low);
    let t = tag_of(piece);
    assert forall|i: int| 0 <= i < t.len() implies tag_char(#[trigger] t[i]) && !is_ascii_upper(
        t[i],
    ) by {
        let j = choose|j: int| 0 <= j < low.len() && t[i] == low[j];
        assert(!is_ascii_upper(low[j]));
    }
}

/// Every tag that `normalize_profile_tags` keeps is well formed, no tag
/// appears twice, and there are at most `TAG_MAX_COUNT` of them.
pub proof fn lemma_normalized_tags_well_formed(values: Seq<Seq<char>>)
    ensures
        normalized_tags(values).len() <= TAG_MAX_COUNT,
        normalized_tags(values).no_duplicates(),
        forall|i: int|
            0 <= i < normalized_tags(values).len() ==> tag_well_formed(
                #[trigger] normalized_tags(values)[i],
            ),
{
    let cands = all_pieces(values).map_values(|p: Seq<char>| tag_of(p));
    assert forall|k: int| 0 <= k < cands.len() implies forall|i: int|
        0 <= i < (#[trigger] cands[k]).len() ==> tag_char(cands[k][i]) && !is_ascii_upper(
            cands[k][i],
        ) by {
        lemma_tag_of_chars(all_pieces(values)[k]);
    }
    lemma_collect_tags(cands);
}

proof fn lemma_collect_tags(cands: Seq<Seq<char>>)
    requires
        forall|k: int|
            0 <= k < cands.len() ==> forall|i: int|
                0 <= i < (#[trigger] cands[k]).len() ==> tag_char(cands[k][i]) && !is_ascii_upper(
                    cands[k][i],
                ),
    ensures
        collect_tags(cands).len() <= TAG_MAX_COUNT,
        collect_tags(cands).no_duplicates(),
        forall|i: int|
            0 <= i < collect_tags(cands).len() ==> tag_well_formed(
                #[trigger] collect_tags(cands)[i],
            ),
    decreases cands.len(),
{
    if cands.len() > 0 {
        let t = cands.drop_last();
        assert forall|k: int| 0 <= k < t.len() implies forall|i: int|
            0 <= i < (#[trigger] t[k]).len() ==> tag_char(t[k][i]) && !is_ascii_upper(t[k][i]) by {
            assert(t[k] == cands[k]);
        }
        lemma_collect_tags(t);
        let prev = collect_tags(t);
        let c = cands.last();
        let out = collect_tags(cands);
        assert(c == cands[cands.len() - 1]);
        assert forall|i: int| 0 <= i < out.len() implies tag_well_formed(#[trigger] out[i]) by {
            if i < prev.len() {
                assert(out[i] == prev[i]);
            }
        }
    }
}

/// A well-formed tag is its own only piece, and its own candidate.
proof fn lemma_tag_fixed(t: Seq<char>)
    requires
        tag_well_formed(t),
    ensures
        split_tags(t) == seq![t],
        tag_of(t) == t,
{
    lemma_split_single(t);
    let ws = trim_pred(TrimSet::Whitespace);
    let hash = trim_pred(TrimSet::Only('#'));
    assert(tag_char(t[0]));
    assert(tag_char(t[t.len() - 1]));
    lemma_trim_by_noop(t, ws);
    lemma_trim_by_noop(t, hash);
    assert(lower_seq(t) =~= t) by {
        assert forall|i: int| 0 <= i < t.len() implies lower_seq(t)[i] == t[i] by {
            assert(tag_char(t[i]) && !is_ascii_upper(t[i]));
        }
    }
    lemma_keep_all(t);
}

proof fn lemma_split_single(t: Seq<char>)
    requires
        forall|i: int| 0 <= i < t.len() ==> tag_char(#[trigger] t[i]),
    ensures
        split_tags(t) == seq![t],
    decreases t.len(),
{
    if t.len() > 0 {
        let s = t.drop_last();
        assert forall|i: int| 0 <= i < s.len() implies tag_char(#[trigger] s[i]) by {
            assert(s[i] == t[i]);
        }
        lemma_split_single(s);
        assert(tag_char(t[t.len() - 1]));
        assert(split_tags(t) =~= seq![s.push(t.last())]);
        assert(s.push(t.last()) =~= t);
    } else {
        assert(t =~= Seq::<char>::empty());
    }
}

proof fn lemma_keep_all(t: Seq<char>)
    requires
        forall|i: int| 0 <= i < t.len() ==> tag_char(#[trigger] t[i]),
    ensures
        keep_tag_chars(t) == t,
    decreases t.len(),
{
    if t.len() > 0 {
        let s = t.drop_last();
        assert forall|i: int| 0 <= i < s.len() implies tag_char(#[trigger] s[i]) by {
            assert(s[i] == t[i]);
        }
        lemma_keep_all(s);
        assert(tag_char(t[t.len() - 1]));
        assert(s.push(t.last()) =~= t);
    }
}

proof fn lemma_pieces_of_tags(ts: Seq<Seq<char>>)
    requires
        forall|i: int| 0 <= i < ts.len() ==> tag_well_formed(#[trigger] ts[i]),
    ensures
        all_pieces(ts) == ts,
    decreases ts.len(),
{
    if ts.len() > 0 {
        let s = ts.drop_last();
        assert forall|i: int| 0 <= i < s.len() implies tag_well_formed(#[trigger] s[i]) by {
            assert(s[i] == ts[i]);
        }
        lemma_pieces_of_tags(s);
        lemma_tag_fixed(ts[ts.len() - 1]);
        assert(s + seq![ts.last()] =~= ts);
    }
}

proof fn lemma_collect_fixed(ts: Seq<Seq<char>>)
    requires
        ts.len() <= TAG_MAX_COUNT,
        ts.no_duplicates(),
        forall|i: int| 0 <= i < ts.len() ==> tag_well_formed(#[trigger] ts[i]),
    ensures
        collect_tags(ts) == ts,
    decreases ts.len(),
{
    if ts.len() > 0 {
        let s = ts.drop_last();
        assert forall|i: int| 0 <= i < s.len() implies tag_well_formed(#[trigger] s[i]) by {
            assert(s[i] == ts[i]);
        }
        assert(s.no_duplicates()) by {
            assert forall|i: int, j: int| 0 <= i < s.len() && 0 <= j < s.len() && i != j implies s[i]
                != s[j] by {
                assert(s[i] == ts[i] && s[j] == ts[j]);
            }
        }
        lemma_collect_fixed(s);
        let c = ts.last();
        assert(tag_well_formed(ts[ts.len() - 1]));
        assert(!s.contains(c)) by {
            if s.contains(c) {
                let k = choose|k: int| 0 <= k < s.len() && s[k] == c;
                assert(ts[k] == ts[ts.len() - 1]);
            }
        }
        assert(s.push(c) =~= ts);
    }
}

/// Normalizing tags that came out of `normalize_profile_tags` gives them back
/// unchanged.
pub proof fn lemma_normalize_tags_idempotent(values: Seq<Seq<char>>)
    ensures
        normalized_tags(normalized_tags(values)) == normalized_tags(values),
{
    let ts = normalized_tags(values);
    lemma_normalized_tags_well_formed(values);
    lemma_pieces_of_tags(ts);
    let cands = ts.map_values(|p: Seq<char>| tag_of(p));
    assert(cands =~= ts) by {
        assert forall|i: int| 0 <= i < ts.len() implies cands[i] == ts[i] by {
            lemma_tag_fixed(ts[i]);
        }
    }
    lemma_collect_fixed(ts);
}

} // verus!
