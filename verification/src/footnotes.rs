//! Placing note and cross-reference markers in a verse's text: collecting
//! them in reading order, moving their offsets to word ends, and the
//! superscript labels they are shown with.

use vstd::prelude::*;
use vstd::string::StrSliceExecFns;
use vstd::string::StringSliceAdditionalSpecFns;
use vstd::utf8::*;
use crate::bibles::{CrossRef, Note, Verse};
use crate::text::{lemma_boundary_in_suffix, byte_slice, usize_to_string, str_byte_len, char_ends_word, char_is_whitespace, ends_word, is_white_space, is_ascii_punct, byte_range_chars, char_utf8_len, lemma_encode_utf8_push, lemma_encode_utf8_take, push_char, push_decimal, decimal_digits};

verus! {

broadcast use vstd::utf8::encode_utf8_valid_utf8, vstd::utf8::encode_utf8_decode_utf8;

/// A single in-text marker (note or cross-ref), ready to be numbered in reading order.
#[derive(Debug)]
pub enum FootnoteMarker {
    Note(String),
    CrossRef(Vec<String>),
}

/// The payload carried by a clicked superscript, shown in the popup.
#[derive(Debug, Clone)]
pub enum FootnoteLink {
    Note { number: usize, text: String },
    CrossRef { number: usize, refs: Vec<String> },
}

/// What a marker holds, as plain characters.
pub enum MarkerView {
    Note(Seq<char>),
    CrossRef(Seq<Seq<char>>),
}

impl View for FootnoteMarker {
    type V = MarkerView;

    open spec fn view(&self) -> MarkerView {
        match self {
            FootnoteMarker::Note(t) => MarkerView::Note(t@),
            FootnoteMarker::CrossRef(r) => MarkerView::CrossRef(r.deep_view()),
        }
    }
}

/// A marker with its offset, as plain values.
pub open spec fn marker_item_view(item: (usize, FootnoteMarker)) -> (usize, MarkerView) {
    (item.0, item.1@)
}

/// A list of markers with offsets, as plain values.
pub open spec fn marker_items_view(items: Seq<(usize, FootnoteMarker)>) -> Seq<(usize, MarkerView)> {
    items.map_values(|item: (usize, FootnoteMarker)| marker_item_view(item))
}

/// The marker of a note.
pub open spec fn note_marker(n: Note) -> (usize, MarkerView) {
    (n.offset, MarkerView::Note(n.text@))
}

/// The marker of a cross reference.
pub open spec fn cross_ref_marker(c: CrossRef) -> (usize, MarkerView) {
    (c.offset, MarkerView::CrossRef(c.references.deep_view()))
}

/// The markers of a verse before ordering: its notes, then its cross references.
pub open spec fn verse_markers(v: Verse) -> Seq<(usize, MarkerView)> {
    v.1@.map_values(|n: Note| note_marker(n)) + v.2@.map_values(|c: CrossRef| cross_ref_marker(c))
}

/// Where an item with offset `key` goes among the first `n` items of `s`:
/// after the last of them whose offset is at most `key`.
pub open spec fn insertion_point<T>(s: Seq<(usize, T)>, key: usize, n: int) -> int
    decreases n,
{
    if n <= 0 {
        0
    } else if s[n - 1].0 <= key {
        n
    } else {
        insertion_point(s, key, n - 1)
    }
}

/// `s` with `x` inserted behind every item whose offset is at most that of `x`.
pub open spec fn insert_by_offset<T>(s: Seq<(usize, T)>, x: (usize, T)) -> Seq<(usize, T)> {
    s.insert(insertion_point(s, x.0, s.len() as int), x)
}

/// `s` ordered by offset, items with equal offsets kept in their order (a stable sort).
pub open spec fn sort_by_offset<T>(s: Seq<(usize, T)>) -> Seq<(usize, T)>
    decreases s.len(),
{
    if s.len() == 0 {
        s
    } else {
        insert_by_offset(sort_by_offset(s.drop_last()), s.last())
    }
}

/// Offsets never decrease along `s`.
pub open spec fn sorted_by_offset<T>(s: Seq<(usize, T)>) -> bool {
    forall|i: int, j: int| 0 <= i <= j < s.len() ==> s[i].0 <= s[j].0
}

proof fn lemma_insertion_point_bounds<T>(s: Seq<(usize, T)>, key: usize, n: int)
    requires
        0 <= n <= s.len(),
    ensures
        0 <= insertion_point(s, key, n) <= n,
        forall|j: int| insertion_point(s, key, n) <= j < n ==> s[j].0 > key,
        insertion_point(s, key, n) > 0 ==> s[insertion_point(s, key, n) - 1].0 <= key,
    decreases n,
{
    if n > 0 && s[n - 1].0 > key {
        lemma_insertion_point_bounds(s, key, n - 1);
    }
}

proof fn lemma_insert_keeps_sorted<T>(s: Seq<(usize, T)>, x: (usize, T))
    requires
        sorted_by_offset(s),
    ensures
        sorted_by_offset(insert_by_offset(s, x)),
{
    let p = insertion_point(s, x.0, s.len() as int);
    lemma_insertion_point_bounds(s, x.0, s.len() as int);
    let r = insert_by_offset(s, x);
    assert forall|i: int, j: int| 0 <= i <= j < r.len() implies r[i].0 <= r[j].0 by {
        if i < p && j == p {
            assert(s[i].0 <= s[p - 1].0);
        } else if i == p && j > p {
            assert(r[j] == s[j - 1]);
        } else if i < p && j > p {
            assert(r[j] == s[j - 1]);
        } else if i > p {
            assert(r[i] == s[i - 1]);
            assert(r[j] == s[j - 1]);
        }
    }
}

/// The stable ordering by offset yields offsets in non-decreasing order.
pub proof fn lemma_sort_by_offset_sorted<T>(s: Seq<(usize, T)>)
    ensures
        sorted_by_offset(sort_by_offset(s)),
    decreases s.len(),
{
    if s.len() > 0 {
        lemma_sort_by_offset_sorted(s.drop_last());
        lemma_insert_keeps_sorted(sort_by_offset(s.drop_last()), s.last());
    }
}

/// The stable ordering by offset keeps every item, each as often as it occurs.
pub proof fn lemma_sort_by_offset_permutes<T>(s: Seq<(usize, T)>)
    ensures
        sort_by_offset(s).to_multiset() == s.to_multiset(),
    decreases s.len(),
{
    broadcast use vstd::seq_lib::to_multiset_insert, vstd::seq_lib::to_multiset_build;

    if s.len() > 0 {
        let rest = s.drop_last();
        lemma_sort_by_offset_permutes(rest);
        let sorted = sort_by_offset(rest);
        let p = insertion_point(sorted, s.last().0, sorted.len() as int);
        lemma_insertion_point_bounds(sorted, s.last().0, sorted.len() as int);
        assert(s =~= rest.push(s.last()));
        assert(sorted.insert(p, s.last()).to_multiset() == sorted.to_multiset().insert(s.last()));
    }
}

/// Already ordered items keep their order: ordering items whose offsets never
/// decrease changes nothing.
pub proof fn law_sort_by_offset_keeps_ordered<T>(s: Seq<(usize, T)>)
    requires
        sorted_by_offset(s),
    ensures
        sort_by_offset(s) == s,
    decreases s.len(),
{
    if s.len() > 0 {
        let rest = s.drop_last();
        assert(sorted_by_offset(rest));
        law_sort_by_offset_keeps_ordered(rest);
        if rest.len() > 0 {
            assert(rest[rest.len() - 1].0 <= s.last().0);
        }
        assert(insertion_point(rest, s.last().0, rest.len() as int) == rest.len());
        assert(rest.insert(rest.len() as int, s.last()) =~= s);
    }
}

/// Whether an item sits at offset `k`.
pub open spec fn offset_is<T>(k: usize) -> spec_fn((usize, T)) -> bool {
    |x: (usize, T)| x.0 == k
}

/// The items of `s` at offset `k`, in their order in `s`.
pub open spec fn at_offset<T>(s: Seq<(usize, T)>, k: usize) -> Seq<(usize, T)> {
    s.filter(offset_is::<T>(k))
}

proof fn lemma_none_at_offset<T>(s: Seq<(usize, T)>, k: usize)
    requires
        forall|j: int| 0 <= j < s.len() ==> s[j].0 != k,
    ensures
        at_offset(s, k) == Seq::<(usize, T)>::empty(),
    decreases s.len(),
{
    reveal(Seq::filter);
    if s.len() > 0 {
        lemma_none_at_offset(s.drop_last(), k);
    }
}

/// The ordering by offset is stable: the items at any one offset come out
/// in the order they went in.
pub proof fn law_sort_by_offset_is_stable<T>(s: Seq<(usize, T)>, k: usize)
    ensures
        at_offset(sort_by_offset(s), k) == at_offset(s, k),
    decreases s.len(),
{
    if s.len() > 0 {
        let rest = s.drop_last();
        let x = s.last();
        let pred = offset_is::<T>(k);
        law_sort_by_offset_is_stable(rest, k);
        let t = sort_by_offset(rest);
        let p = insertion_point(t, x.0, t.len() as int);
        lemma_insertion_point_bounds(t, x.0, t.len() as int);
        let front = t.take(p);
        let back = t.skip(p);
        assert(sort_by_offset(s) =~= front + seq![x] + back);
        assert(t =~= front + back);
        Seq::filter_distributes_over_add(front + seq![x], back, pred);
        Seq::filter_distributes_over_add(front, seq![x], pred);
        Seq::filter_distributes_over_add(front, back, pred);
        assert(s =~= rest.push(x));
        rest.lemma_filter_push(x, pred);
        Seq::<(usize, T)>::empty().lemma_filter_push(x, pred);
        assert(seq![x] =~= Seq::<(usize, T)>::empty().push(x));
        reveal(Seq::filter);
        assert(Seq::<(usize, T)>::empty().filter(pred) =~= Seq::<(usize, T)>::empty());
        if x.0 == k {
            assert forall|j: int| 0 <= j < back.len() implies back[j].0 != k by {
                assert(back[j] == t[p + j]);
            }
            lemma_none_at_offset(back, k);
            assert(at_offset(sort_by_offset(s), k) =~= at_offset(front, k).push(x));
            assert(at_offset(t, k) =~= at_offset(front, k));
        } else {
            assert(at_offset(sort_by_offset(s), k) =~= at_offset(t, k));
        }
    }
}

/// The markers of a verse come in reading order — offsets never decrease —
/// and each note and cross reference of the verse is among them exactly once;
/// at one offset, the notes come first, then the cross references, each in
/// the verse's order.
pub proof fn law_markers_in_reading_order(v: Verse)
    ensures
        sorted_by_offset(sort_by_offset(verse_markers(v))),
        sort_by_offset(verse_markers(v)).to_multiset() == verse_markers(v).to_multiset(),
        sort_by_offset(verse_markers(v)).len() == v.1@.len() + v.2@.len(),
        forall|k: usize|
            #[trigger] at_offset(sort_by_offset(verse_markers(v)), k) == at_offset(verse_markers(v), k),
{
    assert forall|k: usize|
        #[trigger] at_offset(sort_by_offset(verse_markers(v)), k) == at_offset(verse_markers(v), k) by {
        law_sort_by_offset_is_stable(verse_markers(v), k);
    }
    lemma_sort_by_offset_sorted(verse_markers(v));
    lemma_sort_by_offset_permutes(verse_markers(v));
    broadcast use vstd::seq_lib::group_to_multiset_ensures;
    assert(sort_by_offset(verse_markers(v)).to_multiset().len() == verse_markers(v).to_multiset().len());
}

/// Inserts `item` into `items`, which is ordered by offset, behind every item
/// whose offset is at most its own.
fn insert_marker(items: &mut Vec<(usize, FootnoteMarker)>, item: (usize, FootnoteMarker))
    ensures
        marker_items_view(final(items)@) == insert_by_offset(
            marker_items_view(old(items)@),
            marker_item_view(item),
        ),
{
    let ghost v = marker_items_view(items@);
    let key = item.0;
    let mut j = items.len();
    while j > 0 && items[j - 1].0 > key
        invariant
            j <= items@.len(),
            v == marker_items_view(items@),
            insertion_point(v, key, v.len() as int) == insertion_point(v, key, j as int),
        decreases j,
    {
        j = j - 1;
    }
    items.insert(j, item);
    assert(marker_items_view(items@) =~= v.insert(j as int, marker_item_view(item)));
}

/// The notes and cross references of a verse with their offsets, ordered by
/// offset; at equal offsets notes come first, each kind in its own order.
pub fn collect_footnote_markers(verse: &Verse) -> (r: Vec<(usize, FootnoteMarker)>)
    ensures
        marker_items_view(r@) == sort_by_offset(verse_markers(*verse)),
{
    let mut items: Vec<(usize, FootnoteMarker)> = Vec::new();
    let ghost all = verse_markers(*verse);
    let ghost notes = verse.1@.map_values(|n: Note| note_marker(n));
    let ghost crosses = verse.2@.map_values(|c: CrossRef| cross_ref_marker(c));
    let n_notes = verse.1.len();
    let mut i: usize = 0;
    assert(marker_items_view(items@) =~= sort_by_offset(notes.take(0)));
    while i < n_notes
        invariant
            i <= n_notes,
            n_notes == verse.1@.len(),
            notes == verse.1@.map_values(|n: Note| note_marker(n)),
            marker_items_view(items@) == sort_by_offset(notes.take(i as int)),
        decreases n_notes - i,
    {
        let note = &verse.1[i];
        let item = (note.offset, FootnoteMarker::Note(note.text.clone()));
        assert(marker_item_view(item) == notes[i as int]);
        insert_marker(&mut items, item);
        assert(notes.take(i + 1).drop_last() =~= notes.take(i as int));
        i = i + 1;
    }
    assert(notes.take(n_notes as int) =~= notes);
    let n_cross = verse.2.len();
    let mut k: usize = 0;
    assert(all.take(n_notes + 0) =~= notes);
    while k < n_cross
        invariant
            k <= n_cross,
            n_cross == verse.2@.len(),
            n_notes == notes.len(),
            crosses == verse.2@.map_values(|c: CrossRef| cross_ref_marker(c)),
            all == notes + crosses,
            marker_items_view(items@) == sort_by_offset(all.take(n_notes + k)),
        decreases n_cross - k,
    {
        let cross = &verse.2[k];
        let refs = cross.references.clone();
        assert(refs.deep_view() =~= cross.references.deep_view());
        let item = (cross.offset, FootnoteMarker::CrossRef(refs));
        assert(marker_item_view(item) == all[n_notes + k]);
        insert_marker(&mut items, item);
        assert(all.take(n_notes + k + 1).drop_last() =~= all.take(n_notes + k));
        k = k + 1;
    }
    assert(all.take(n_notes + n_cross) =~= all);
    items
}

/// The greatest character boundary of `bytes` at or below `i`.
pub open spec fn floor_char_boundary(bytes: Seq<u8>, i: int) -> int
    decreases i,
{
    if i <= 0 {
        0
    } else if is_char_boundary(bytes, i) {
        i
    } else {
        floor_char_boundary(bytes, i - 1)
    }
}

/// The byte position that `clamp_to_char_boundary` gives for `idx` in the text `s`.
pub open spec fn clamped_boundary(s: Seq<char>, idx: int) -> int {
    let bytes = encode_utf8(s);
    floor_char_boundary(bytes, if idx < bytes.len() { idx } else { bytes.len() as int })
}

/// The greatest character boundary at or below `i` is one, lies at or below
/// `i`, and no boundary lies between it and `i`.
pub proof fn lemma_floor_char_boundary(bytes: Seq<u8>, i: int)
    requires
        valid_utf8(bytes),
        0 <= i <= bytes.len(),
    ensures
        0 <= floor_char_boundary(bytes, i) <= i,
        is_char_boundary(bytes, floor_char_boundary(bytes, i)),
        forall|j: int| floor_char_boundary(bytes, i) < j <= i ==> !is_char_boundary(bytes, j),
    decreases i,
{
    if i > 0 && !is_char_boundary(bytes, i) {
        lemma_floor_char_boundary(bytes, i - 1);
    }
}

/// Clamping gives the greatest character boundary of the text that is at most
/// the offset: a boundary, not past the offset or the end, with no boundary
/// between it and the offset.
pub proof fn law_clamp_is_greatest_boundary(s: Seq<char>, idx: int)
    requires
        0 <= idx,
    ensures
        0 <= clamped_boundary(s, idx) <= idx,
        clamped_boundary(s, idx) <= encode_utf8(s).len(),
        is_char_boundary(encode_utf8(s), clamped_boundary(s, idx)),
        forall|j: int|
            clamped_boundary(s, idx) < j <= idx && j <= encode_utf8(s).len() ==> !is_char_boundary(
                encode_utf8(s),
                j,
            ),
{
    let bytes = encode_utf8(s);
    let m = if idx < bytes.len() { idx } else { bytes.len() as int };
    lemma_floor_char_boundary(bytes, m);
}

/// Moves `idx` down to the nearest character boundary of `s`, after first
/// bringing it down to the length of `s`.
pub fn clamp_to_char_boundary(s: &str, idx: usize) -> (r: usize)
    ensures
        r == clamped_boundary(s@, idx as int),
        r <= idx,
        r <= s.spec_bytes().len(),
        is_char_boundary(s.spec_bytes(), r as int),
{
    let ghost bytes = s.spec_bytes();
    let len = str_byte_len(s);
    let mut idx = idx;
    if idx > len {
        idx = len;
    }
    let ghost start = idx;
    while idx > 0 && !s.is_char_boundary(idx)
        invariant
            idx <= start <= bytes.len(),
            bytes == s.spec_bytes(),
            floor_char_boundary(bytes, idx as int) == floor_char_boundary(bytes, start as int),
        decreases idx,
    {
        idx = idx - 1;
    }
    proof {
        lemma_floor_char_boundary(bytes, start as int);
    }
    idx
}

/// The number of leading characters of `s` that are not whitespace.
pub open spec fn first_white_space(s: Seq<char>) -> nat
    decreases s.len(),
{
    if s.len() == 0 || is_white_space(s[0]) {
        0
    } else {
        1 + first_white_space(s.drop_first())
    }
}

proof fn lemma_first_white_space(s: Seq<char>, i: int)
    requires
        0 <= i <= s.len(),
        forall|j: int| 0 <= j < i ==> !is_white_space(#[trigger] s[j]),
        i == s.len() || is_white_space(s[i]),
    ensures
        first_white_space(s) == i,
    decreases i,
{
    if i > 0 {
        assert forall|j: int| 0 <= j < i - 1 implies !is_white_space(#[trigger] s.drop_first()[j]) by {
            assert(s.drop_first()[j] == s[j + 1]);
        }
        lemma_first_white_space(s.drop_first(), i - 1);
    }
}

proof fn lemma_first_white_space_props(t: Seq<char>)
    ensures
        first_white_space(t) <= t.len(),
        first_white_space(t) < t.len() ==> is_white_space(t[first_white_space(t) as int]),
    decreases t.len(),
{
    if t.len() > 0 && !is_white_space(t[0]) {
        lemma_first_white_space_props(t.drop_first());
    }
}

/// Whether byte position `p` of the text `s` lies inside a run of
/// characters that are not whitespace: there is such a character on each side.
pub open spec fn inside_run(s: Seq<char>, p: int) -> bool {
    let before = byte_range_chars(s, 0, p);
    let after = byte_range_chars(s, p, encode_utf8(s).len() as int);
    before.len() > 0 && !is_white_space(before.last()) && after.len() > 0 && !is_white_space(
        after[0],
    )
}

/// Whether a marker at byte position `p` of the text `s` would split a word:
/// the character before it is not whitespace, and the character at it is
/// neither whitespace nor punctuation.
pub open spec fn splits_word(s: Seq<char>, p: int) -> bool {
    let before = byte_range_chars(s, 0, p);
    let after = byte_range_chars(s, p, encode_utf8(s).len() as int);
    before.len() > 0 && !is_white_space(before.last()) && after.len() > 0 && !ends_word(
        after[0],
    )
}

/// Whether a marker at byte position `p` of the text `s` stays put on
/// punctuation inside a run of characters that are not whitespace.
pub open spec fn stops_at_punctuation(s: Seq<char>, p: int) -> bool {
    inside_run(s, p) && is_ascii_punct(byte_range_chars(s, p, encode_utf8(s).len() as int)[0])
}

/// A snapped marker never sits inside a word, lies on a character boundary,
/// and is never moved back before the clamped offset.
pub proof fn law_snap_keeps_words_whole(s: Seq<char>, idx: int)
    requires
        0 <= idx,
    ensures
        !splits_word(s, snapped_offset(s, idx)),
        snapped_offset(s, idx) != clamped_boundary(s, idx) ==> !inside_run(
            s,
            snapped_offset(s, idx),
        ),
        is_char_boundary(encode_utf8(s), snapped_offset(s, idx)),
        clamped_boundary(s, idx) <= snapped_offset(s, idx) <= encode_utf8(s).len(),
{
    let bytes = encode_utf8(s);
    let len = bytes.len() as int;
    let c = clamped_boundary(s, idx);
    law_clamp_is_greatest_boundary(s, idx);
    if splits_word(s, c) {
        let t = byte_range_chars(s, c, len);
        let k = first_white_space(t) as int;
        lemma_first_white_space_props(t);
        vstd::utf8::valid_utf8_split(bytes, c);
        vstd::utf8::decode_utf8_encode_utf8(bytes.subrange(c, len));
        assert(encode_utf8(t) == bytes.subrange(c, len));
        lemma_encode_utf8_take(t, k);
        let r = c + encode_utf8(t.take(k)).len();
        assert(r == snapped_offset(s, idx));
        boundary_after_prefix(s, c, t, k);
        let et = encode_utf8(t);
        let pre = encode_utf8(t.take(k));
        assert(et == pre + encode_utf8(t.skip(k)));
        assert(et.subrange(pre.len() as int, et.len() as int) =~= encode_utf8(t.skip(k)));
        assert(bytes.subrange(r, len) =~= et.subrange(pre.len() as int, et.len() as int));
        vstd::utf8::encode_utf8_decode_utf8(t.skip(k));
        assert(byte_range_chars(s, r, len) == t.skip(k));
        if k < t.len() {
            assert(t.skip(k)[0] == t[k]);
        }
    }
}

/// Where `snap_to_word_end` places `idx` in the text `s`: the offset brought to
/// a character boundary, then, if it splits a word (no whitespace before it,
/// neither whitespace nor punctuation at it), moved forward to the next
/// whitespace or the end of the text.
pub open spec fn snapped_offset(s: Seq<char>, idx: int) -> int {
    let c = clamped_boundary(s, idx);
    let before = byte_range_chars(s, 0, c);
    let after = byte_range_chars(s, c, encode_utf8(s).len() as int);
    if before.len() > 0 && !is_white_space(before.last()) && after.len() > 0 && !ends_word(
        after[0],
    ) {
        c + encode_utf8(after.take(first_white_space(after) as int)).len()
    } else {
        c
    }
}

/// If `idx` lands inside a word (non-whitespace on both sides), pushes it
/// forward to the end of that word so the marker doesn't split it. Offsets
/// that already fall on whitespace or punctuation, or on an end of the text,
/// are left alone.
pub fn snap_to_word_end(s: &str, idx: usize) -> (r: usize)
    ensures
        r == snapped_offset(s@, idx as int),
        r <= s.spec_bytes().len(),
        is_char_boundary(s.spec_bytes(), r as int),
{
    let ghost bytes = s.spec_bytes();
    let len = str_byte_len(s);
    let m = if idx < len { idx } else { len };
    let c = clamp_to_char_boundary(s, m);
    assert(clamped_boundary(s@, m as int) == clamped_boundary(s@, idx as int));
    let (head, tail) = s.split_at(c);
    assert(head.spec_bytes() =~= bytes.subrange(0, c as int));
    assert(tail.spec_bytes() =~= bytes.subrange(c as int, bytes.len() as int));
    assert(head@ == byte_range_chars(s@, 0, c as int));
    assert(tail@ == byte_range_chars(s@, c as int, bytes.len() as int));
    proof {
        assert(bytes.subrange(0, c as int) + bytes.subrange(c as int, bytes.len() as int) =~= bytes);
        lemma_encode_utf8_concat_bytes(head@, tail@);
    }
    let hl = head.unicode_len();
    let before_is_word = hl > 0 && !char_is_whitespace(head.get_char(hl - 1));
    let tl = tail.unicode_len();
    let after_is_word = tl > 0 && !char_ends_word(tail.get_char(0));
    if before_is_word && after_is_word {
        let ghost t = tail@;
        let mut i: usize = 0;
        let mut off: usize = 0;
        while i < tl && !char_is_whitespace(tail.get_char(i))
            invariant
                i <= tl,
                tl == t.len(),
                t == tail@,
                off == encode_utf8(t.take(i as int)).len(),
                c + encode_utf8(t).len() == bytes.len(),
                bytes.len() <= usize::MAX,
                forall|j: int| 0 <= j < i ==> !is_white_space(#[trigger] t[j]),
            decreases tl - i,
        {
            let ch = tail.get_char(i);
            let w = char_utf8_len(ch);
            proof {
                assert(t.take(i + 1) =~= t.take(i as int).push(ch));
                lemma_encode_utf8_push(t.take(i as int), ch);
                lemma_encode_utf8_take(t, i + 1);
            }
            off = off + w;
            i = i + 1;
        }
        proof {
            lemma_first_white_space(t, i as int);
            lemma_encode_utf8_take(t, i as int);
            boundary_after_prefix(s@, c as int, t, i as int);
        }
        c + off
    } else {
        c
    }
}

/// Splitting the bytes of `s` at a character boundary gives the encodings of the two parts.
proof fn lemma_encode_utf8_concat_bytes(a: Seq<char>, b: Seq<char>)
    ensures
        encode_utf8(a + b) == encode_utf8(a) + encode_utf8(b),
{
    crate::text::lemma_encode_utf8_concat(a, b);
}

/// Within the text `s`, whose bytes from `c` on encode `t`, the position after
/// the first `i` characters of `t` is a character boundary.
proof fn boundary_after_prefix(s: Seq<char>, c: int, t: Seq<char>, i: int)
    requires
        0 <= c <= encode_utf8(s).len(),
        is_char_boundary(encode_utf8(s), c),
        encode_utf8(t) == encode_utf8(s).subrange(c, encode_utf8(s).len() as int),
        0 <= i <= t.len(),
    ensures
        is_char_boundary(encode_utf8(s), c + encode_utf8(t.take(i)).len()),
{
    let bytes = encode_utf8(s);
    let k = c + encode_utf8(t.take(i)).len();
    lemma_encode_utf8_take(t, i);
    assert(bytes =~= bytes.subrange(0, c) + bytes.subrange(c, bytes.len() as int));
    assert(bytes =~= bytes.subrange(0, c) + encode_utf8(t.take(i)) + encode_utf8(t.skip(i)));
    vstd::utf8::valid_utf8_split(bytes, c);
    let pre = decode_utf8(bytes.subrange(0, c));
    vstd::utf8::decode_utf8_encode_utf8(bytes.subrange(0, c));
    crate::text::lemma_encode_utf8_concat(pre, t.take(i));
    crate::text::lemma_encode_utf8_concat(pre + t.take(i), t.skip(i));
    boundary_of_prefix(pre + t.take(i), t.skip(i));
    assert(encode_utf8(pre + t.take(i) + t.skip(i)) =~= bytes);
}

/// The end of the encoding of `a` is a character boundary of the encoding of `a + b`.
proof fn boundary_of_prefix(a: Seq<char>, b: Seq<char>)
    ensures
        is_char_boundary(encode_utf8(a + b), encode_utf8(a).len() as int),
    decreases a.len(),
{
    crate::text::lemma_encode_utf8_concat(a, b);
    if a.len() == 0 {
    } else {
        let ab = a + b;
        boundary_of_prefix(a.drop_first(), b);
        vstd::utf8::encode_utf8_first_scalar(ab);
        assert(ab.drop_first() =~= a.drop_first() + b);
        assert(ab[0] == a[0]);
        assert(pop_first_scalar(encode_utf8(ab)) =~= encode_utf8(ab.drop_first()));
        assert(encode_utf8(a) =~= encode_scalar(a[0] as u32) + encode_utf8(a.drop_first()));
    }
}

/// A character boundary of the encoding of `t` is where a prefix of `t` ends.
proof fn lemma_boundary_is_prefix(t: Seq<char>, q: int) -> (j: int)
    requires
        is_char_boundary(encode_utf8(t), q),
    ensures
        0 <= j <= t.len(),
        encode_utf8(t.take(j)).len() == q,
    decreases t.len(),
{
    let bytes = encode_utf8(t);
    if q == 0 {
        assert(t.take(0) =~= Seq::<char>::empty());
        0
    } else {
        assert(t.len() > 0);
        encode_utf8_first_scalar(t);
        let w = encode_scalar(t[0] as u32).len() as int;
        assert(pop_first_scalar(bytes) =~= encode_utf8(t.drop_first()));
        let j1 = lemma_boundary_is_prefix(t.drop_first(), q - w);
        let j = j1 + 1;
        let pre = t.take(j);
        assert(pre[0] == t[0]);
        assert(pre.drop_first() =~= t.drop_first().take(j1));
        j
    }
}

/// Longer prefixes have longer encodings.
proof fn lemma_prefix_encoding_grows(t: Seq<char>, i: int, j: int)
    requires
        0 <= i <= j <= t.len(),
    ensures
        encode_utf8(t.take(i)).len() <= encode_utf8(t.take(j)).len(),
{
    lemma_encode_utf8_take(t.take(j), i);
    assert(t.take(j).take(i) =~= t.take(i));
}

/// Every character before the first whitespace is not whitespace.
proof fn lemma_before_first_white_space(t: Seq<char>, i: int)
    requires
        0 <= i < first_white_space(t),
    ensures
        !is_white_space(t[i]),
    decreases t.len(),
{
    lemma_first_white_space_props(t);
    if i > 0 {
        lemma_before_first_white_space(t.drop_first(), i - 1);
        assert(t.drop_first()[i - 1] == t[i]);
    }
}

/// The greatest character boundary at or below a position never decreases
/// as the position grows.
proof fn lemma_floor_monotone(bytes: Seq<u8>, i: int, j: int)
    requires
        valid_utf8(bytes),
        0 <= i <= j <= bytes.len(),
    ensures
        floor_char_boundary(bytes, i) <= floor_char_boundary(bytes, j),
{
    lemma_floor_char_boundary(bytes, i);
    lemma_floor_char_boundary(bytes, j);
}

/// Every character boundary from the clamped offset up to, not including,
/// the snapped one lies inside a run of characters that are not whitespace.
proof fn lemma_snapped_is_least(s: Seq<char>, idx: int, p: int)
    requires
        0 <= idx,
        clamped_boundary(s, idx) <= p < snapped_offset(s, idx),
        is_char_boundary(encode_utf8(s), p),
    ensures
        inside_run(s, p),
{
    let bytes = encode_utf8(s);
    let len = bytes.len() as int;
    let c = clamped_boundary(s, idx);
    law_clamp_is_greatest_boundary(s, idx);
    law_snap_keeps_words_whole(s, idx);
    if p == c {
        return;
    }
    let t = byte_range_chars(s, c, len);
    let k = first_white_space(t) as int;
    lemma_first_white_space_props(t);
    vstd::utf8::valid_utf8_split(bytes, c);
    vstd::utf8::decode_utf8_encode_utf8(bytes.subrange(c, len));
    assert(encode_utf8(t) == bytes.subrange(c, len));
    lemma_boundary_in_suffix(bytes, c, p);
    let j = lemma_boundary_is_prefix(t, p - c);
    if j >= k {
        lemma_prefix_encoding_grows(t, k, j);
    }
    assert(j < k);
    lemma_before_first_white_space(t, j);
    lemma_encode_utf8_take(t, j);
    // The text after `p` is the rest of `t`.
    let et = encode_utf8(t);
    let tj = encode_utf8(t.take(j));
    assert(et.subrange(tj.len() as int, et.len() as int) =~= encode_utf8(t.skip(j)));
    assert(bytes.subrange(p, len) =~= et.subrange(tj.len() as int, et.len() as int));
    vstd::utf8::encode_utf8_decode_utf8(t.skip(j));
    assert(byte_range_chars(s, p, len) == t.skip(j));
    assert(t.skip(j)[0] == t[j]);
    // The text before `p` ends with the last character of `t.take(j)`.
    let pre = decode_utf8(bytes.subrange(0, c));
    vstd::utf8::decode_utf8_encode_utf8(bytes.subrange(0, c));
    crate::text::lemma_encode_utf8_concat(pre, t.take(j));
    assert(et.subrange(0, tj.len() as int) =~= tj);
    assert(bytes.subrange(c, p) =~= et.subrange(0, tj.len() as int));
    assert(bytes.subrange(0, p) =~= bytes.subrange(0, c) + bytes.subrange(c, p));
    vstd::utf8::encode_utf8_decode_utf8(pre + t.take(j));
    assert(byte_range_chars(s, 0, p) == pre + t.take(j));
    assert(j > 0);
    assert((pre + t.take(j)).last() == t[j - 1]);
    lemma_before_first_white_space(t, j - 1);
}

/// Snapping keeps the order of offsets, but for one case: a later offset
/// that stays put on punctuation inside the word that an earlier offset is
/// moved to the end of.
pub proof fn lemma_snapped_monotone(s: Seq<char>, a: int, b: int)
    requires
        0 <= a <= b,
    ensures
        snapped_offset(s, a) <= snapped_offset(s, b) || (snapped_offset(s, b) == clamped_boundary(
            s,
            b,
        ) && stops_at_punctuation(s, clamped_boundary(s, b))),
{
    let bytes = encode_utf8(s);
    let len = bytes.len() as int;
    let ma = if a < len { a } else { len };
    let mb = if b < len { b } else { len };
    lemma_floor_monotone(bytes, ma, mb);
    law_snap_keeps_words_whole(s, a);
    law_snap_keeps_words_whole(s, b);
    if snapped_offset(s, b) < snapped_offset(s, a) {
        lemma_snapped_is_least(s, a, snapped_offset(s, b));
    }
}

/// Snapping an offset that was already snapped keeps it; and snapping keeps
/// the order of offsets, except where a later offset stays put on
/// punctuation inside the word that an earlier one is moved past (in
/// `"ab,c d"`, offset 1 goes to 4 while offset 2 stays at 2).
pub proof fn law_snap_idempotent_and_monotone(s: Seq<char>, i: int, j: int)
    requires
        0 <= i,
    ensures
        snapped_offset(s, snapped_offset(s, i)) == snapped_offset(s, i),
        i <= j ==> snapped_offset(s, i) <= snapped_offset(s, j) || (snapped_offset(s, j)
            == clamped_boundary(s, j) && stops_at_punctuation(s, clamped_boundary(s, j))),
{
    let p = snapped_offset(s, i);
    law_snap_keeps_words_whole(s, i);
    lemma_floor_char_boundary(encode_utf8(s), p);
    assert(clamped_boundary(s, p) == p);
    if i <= j {
        lemma_snapped_monotone(s, i, j);
    }
}

/// The superscript form of a decimal digit; any other character is kept.
pub open spec fn superscript_char(c: char) -> char {
    if c == '0' {
        '\u{2070}'
    } else if c == '1' {
        '\u{b9}'
    } else if c == '2' {
        '\u{b2}'
    } else if c == '3' {
        '\u{b3}'
    } else if c == '4' {
        '\u{2074}'
    } else if c == '5' {
        '\u{2075}'
    } else if c == '6' {
        '\u{2076}'
    } else if c == '7' {
        '\u{2077}'
    } else if c == '8' {
        '\u{2078}'
    } else if c == '9' {
        '\u{2079}'
    } else {
        c
    }
}

fn superscript_of(c: char) -> (r: char)
    ensures
        r == superscript_char(c),
{
    match c {
        '0' => '\u{2070}',
        '1' => '\u{b9}',
        '2' => '\u{b2}',
        '3' => '\u{b3}',
        '4' => '\u{2074}',
        '5' => '\u{2075}',
        '6' => '\u{2076}',
        '7' => '\u{2077}',
        '8' => '\u{2078}',
        '9' => '\u{2079}',
        other => other,
    }
}

/// The decimal representation of `n` written with superscript digits.
pub fn to_superscript(n: usize) -> (r: String)
    ensures
        r@ == decimal_digits(n as nat).map_values(|c: char| superscript_char(c)),
{
    let digits = usize_to_string(n);
    let d = digits.as_str();
    let len = d.unicode_len();
    let mut out = String::new();
    let mut i: usize = 0;
    while i < len
        invariant
            i <= len,
            len == d@.len(),
            d@ == decimal_digits(n as nat),
            out@ == d@.take(i as int).map_values(|c: char| superscript_char(c)),
        decreases len - i,
    {
        let c = superscript_of(d.get_char(i));
        push_char(&mut out, c);
        assert(d@.take(i + 1).map_values(|c: char| superscript_char(c)) =~= d@.take(
            i as int,
        ).map_values(|c: char| superscript_char(c)).push(c));
        i = i + 1;
    }
    assert(d@.take(len as int) =~= d@);
    out
}

/// The superscript letters `a` to `z` that number cross references.
pub open spec fn superscript_letters() -> Seq<char> {
    seq![
        '\u{1d43}',
        '\u{1d47}',
        '\u{1d9c}',
        '\u{1d48}',
        '\u{1d49}',
        '\u{1da0}',
        '\u{1d4d}',
        '\u{2b0}',
        '\u{2071}',
        '\u{2b2}',
        '\u{1d4f}',
        '\u{2e1}',
        '\u{1d50}',
        '\u{207f}',
        '\u{1d52}',
        '\u{1d56}',
        '\u{71}',
        '\u{2b3}',
        '\u{2e2}',
        '\u{1d57}',
        '\u{1d58}',
        '\u{1d5b}',
        '\u{2b7}',
        '\u{2e3}',
        '\u{2b8}',
        '\u{1dbb}'
    ]
}

fn superscript_letter(i: usize) -> (r: char)
    requires
        i < 26,
    ensures
        r == superscript_letters()[i as int],
{
    match i {
        0 => '\u{1d43}',
        1 => '\u{1d47}',
        2 => '\u{1d9c}',
        3 => '\u{1d48}',
        4 => '\u{1d49}',
        5 => '\u{1da0}',
        6 => '\u{1d4d}',
        7 => '\u{2b0}',
        8 => '\u{2071}',
        9 => '\u{2b2}',
        10 => '\u{1d4f}',
        11 => '\u{2e1}',
        12 => '\u{1d50}',
        13 => '\u{207f}',
        14 => '\u{1d52}',
        15 => '\u{1d56}',
        16 => '\u{71}',
        17 => '\u{2b3}',
        18 => '\u{2e2}',
        19 => '\u{1d57}',
        20 => '\u{1d58}',
        21 => '\u{1d5b}',
        22 => '\u{2b7}',
        23 => '\u{2e3}',
        24 => '\u{2b8}',
        _ => '\u{1dbb}',
    }
}

/// The label of the `n`-th cross reference of a verse: a superscript letter
/// for 1 to 26, else the number in parentheses.
pub open spec fn superscript_letter_label(n: nat) -> Seq<char> {
    if 1 <= n && n <= 26 {
        seq![superscript_letters()[n - 1]]
    } else {
        seq!['('] + decimal_digits(n) + seq![')']
    }
}

proof fn lemma_superscript_letters_distinct(i: int, j: int)
    requires
        0 <= i < 26,
        0 <= j < 26,
        i != j,
    ensures
        superscript_letters()[i] != superscript_letters()[j],
{
    let l = superscript_letters();
    assert(l[0] == '\u{1d43}' && l[1] == '\u{1d47}' && l[2] == '\u{1d9c}' && l[3] == '\u{1d48}'
        && l[4] == '\u{1d49}' && l[5] == '\u{1da0}' && l[6] == '\u{1d4d}' && l[7] == '\u{2b0}'
        && l[8] == '\u{2071}' && l[9] == '\u{2b2}' && l[10] == '\u{1d4f}' && l[11] == '\u{2e1}'
        && l[12] == '\u{1d50}' && l[13] == '\u{207f}' && l[14] == '\u{1d52}' && l[15] == '\u{1d56}'
        && l[16] == '\u{71}' && l[17] == '\u{2b3}' && l[18] == '\u{2e2}' && l[19] == '\u{1d57}'
        && l[20] == '\u{1d58}' && l[21] == '\u{1d5b}' && l[22] == '\u{2b7}' && l[23] == '\u{2e3}'
        && l[24] == '\u{2b8}' && l[25] == '\u{1dbb}');
}

/// Different numbers get different cross-reference labels.
pub proof fn law_superscript_letter_labels_differ(m: usize, n: usize)
    requires
        m != n,
    ensures
        superscript_letter_label(m as nat) != superscript_letter_label(n as nat),
{
    let lm = superscript_letter_label(m as nat);
    let ln = superscript_letter_label(n as nat);
    crate::text::lemma_decimal_digits_nonempty(m as nat);
    crate::text::lemma_decimal_digits_nonempty(n as nat);
    if 1 <= m <= 26 && 1 <= n <= 26 {
        lemma_superscript_letters_distinct(m - 1, n - 1);
        assert(lm[0] != ln[0]);
    } else if 1 <= m <= 26 || 1 <= n <= 26 {
        assert(lm.len() != ln.len());
    } else if lm == ln {
        let dm = decimal_digits(m as nat);
        let dn = decimal_digits(n as nat);
        assert(lm.subrange(1, lm.len() - 1) =~= dm);
        assert(ln.subrange(1, ln.len() - 1) =~= dn);
        crate::text::law_parse_decimal_round_trip(m);
        crate::text::law_parse_decimal_round_trip(n);
    }
}

/// The superscript letter that labels the `n`-th cross reference, or `(n)`
/// when there is no such letter.
pub fn to_superscript_letter(n: usize) -> (r: String)
    ensures
        r@ == superscript_letter_label(n as nat),
{
    let mut out = String::new();
    if n >= 1 && n <= 26 {
        push_char(&mut out, superscript_letter(n - 1));
        assert(out@ =~= seq![superscript_letters()[n - 1]]);
    } else {
        push_char(&mut out, '(');
        push_decimal(&mut out, n);
        push_char(&mut out, ')');
        assert(out@ =~= seq!['('] + decimal_digits(n as nat) + seq![')']);
    }
    out
}

/// A piece of a verse as it is displayed: plain text, or a marker's label with
/// the link that opens the note or cross references.
#[derive(Debug)]
pub enum VerseSegment {
    Text(String),
    Marker { label: String, link: FootnoteLink },
}

/// What a footnote link holds, as plain values.
pub enum LinkView {
    Note { number: usize, text: Seq<char> },
    CrossRef { number: usize, refs: Seq<Seq<char>> },
}

impl View for FootnoteLink {
    type V = LinkView;

    open spec fn view(&self) -> LinkView {
        match self {
            FootnoteLink::Note { number, text } => LinkView::Note { number: *number, text: text@ },
            FootnoteLink::CrossRef { number, refs } => LinkView::CrossRef {
                number: *number,
                refs: refs.deep_view(),
            },
        }
    }
}

/// What a verse segment holds, as plain values.
pub enum SegmentView {
    Text(Seq<char>),
    Marker { label: Seq<char>, link: LinkView },
}

impl View for VerseSegment {
    type V = SegmentView;

    open spec fn view(&self) -> SegmentView {
        match self {
            VerseSegment::Text(t) => SegmentView::Text(t@),
            VerseSegment::Marker { label, link } => SegmentView::Marker { label: label@, link: link@ },
        }
    }
}

/// A list of segments as plain values.
pub open spec fn segments_view(s: Seq<VerseSegment>) -> Seq<SegmentView> {
    s.map_values(|x: VerseSegment| x@)
}

/// The label of the `n`-th note of a verse: `n` in superscript digits.
pub open spec fn note_label(n: nat) -> Seq<char> {
    decimal_digits(n).map_values(|c: char| superscript_char(c))
}

/// The segment that a marker becomes, and the counts of notes and cross
/// references after it.
pub open spec fn marker_segment(m: MarkerView, notes: nat, crosses: nat) -> (SegmentView, nat, nat) {
    match m {
        MarkerView::Note(t) => (
            SegmentView::Marker {
                label: note_label(notes + 1),
                link: LinkView::Note { number: (notes + 1) as usize, text: t },
            },
            notes + 1,
            crosses,
        ),
        MarkerView::CrossRef(r) => (
            SegmentView::Marker {
                label: superscript_letter_label(crosses + 1),
                link: LinkView::CrossRef { number: (crosses + 1) as usize, refs: r },
            },
            notes,
            crosses + 1,
        ),
    }
}

/// The segments of the text `s` for the markers `markers`, taken in order from
/// byte position `cursor` on, after `notes` notes and `crosses` cross
/// references. Each marker is placed at its offset moved to a word end; the
/// text between the previous position and it comes first when it is not empty.
pub open spec fn segments_from(
    s: Seq<char>,
    markers: Seq<(usize, MarkerView)>,
    cursor: int,
    notes: nat,
    crosses: nat,
) -> Seq<SegmentView>
    decreases markers.len(),
{
    let len = encode_utf8(s).len() as int;
    if markers.len() == 0 {
        if cursor < len {
            seq![SegmentView::Text(byte_range_chars(s, cursor, len))]
        } else {
            Seq::empty()
        }
    } else {
        let off = snapped_offset(s, markers[0].0 as int);
        let pre = if off > cursor {
            seq![SegmentView::Text(byte_range_chars(s, cursor, off))]
        } else {
            Seq::empty()
        };
        let m = marker_segment(markers[0].1, notes, crosses);
        pre + seq![m.0] + segments_from(s, markers.drop_first(), off, m.1, m.2)
    }
}

/// How a verse is displayed: its whole text when footnotes are hidden or it
/// has none, else its text cut at each marker, in reading order.
pub open spec fn verse_segments_spec(v: Verse, show_footnotes: bool) -> Seq<SegmentView> {
    let markers = sort_by_offset(verse_markers(v));
    if !show_footnotes || markers.len() == 0 {
        seq![SegmentView::Text(v.0@)]
    } else {
        segments_from(v.0@, markers, 0, 0, 0)
    }
}

/// The text that segments show, markers left out.
pub open spec fn shown_text(segs: Seq<SegmentView>) -> Seq<char>
    decreases segs.len(),
{
    if segs.len() == 0 {
        Seq::empty()
    } else {
        segment_text(segs[0]) + shown_text(segs.drop_first())
    }
}

/// The text a segment shows: none for a marker.
pub open spec fn segment_text(x: SegmentView) -> Seq<char> {
    match x {
        SegmentView::Text(t) => t,
        SegmentView::Marker { .. } => Seq::empty(),
    }
}

proof fn lemma_shown_text_single(x: SegmentView)
    ensures
        shown_text(seq![x]) == segment_text(x),
{
    assert(seq![x].drop_first() =~= Seq::<SegmentView>::empty());
    assert(shown_text(Seq::<SegmentView>::empty()) == Seq::<char>::empty());
    assert(segment_text(x) + Seq::<char>::empty() =~= segment_text(x));
}

proof fn lemma_shown_text_concat(a: Seq<SegmentView>, b: Seq<SegmentView>)
    ensures
        shown_text(a + b) == shown_text(a) + shown_text(b),
    decreases a.len(),
{
    if a.len() == 0 {
        assert(a + b =~= b);
    } else {
        lemma_shown_text_concat(a.drop_first(), b);
        assert((a + b).drop_first() =~= a.drop_first() + b);
        assert((a + b)[0] == a[0]);
    }
}

/// The characters between two character boundaries, then those from the
/// second to the end, are those from the first to the end.
proof fn lemma_byte_ranges_join(s: Seq<char>, a: int, b: int)
    requires
        0 <= a <= b <= encode_utf8(s).len(),
        is_char_boundary(encode_utf8(s), a),
        is_char_boundary(encode_utf8(s), b),
    ensures
        byte_range_chars(s, a, b) + byte_range_chars(s, b, encode_utf8(s).len() as int)
            == byte_range_chars(s, a, encode_utf8(s).len() as int),
{
    let bytes = encode_utf8(s);
    let len = bytes.len() as int;
    lemma_boundary_in_suffix(bytes, a, b);
    let u = bytes.subrange(a, len);
    vstd::utf8::decode_utf8_split(u, b - a);
    assert(u.subrange(0, b - a) =~= bytes.subrange(a, b));
    assert(u.subrange(b - a, u.len() as int) =~= bytes.subrange(b, len));
}

/// The text shown by the segments that start at `cursor` is the text of `s`
/// from `cursor` on, when the markers come in order of offset and the first
/// of them is not placed before `cursor`.
proof fn lemma_segments_show_text(
    s: Seq<char>,
    markers: Seq<(usize, MarkerView)>,
    cursor: int,
    notes: nat,
    crosses: nat,
)
    requires
        snaps_in_order(s, markers),
        0 <= cursor <= encode_utf8(s).len(),
        is_char_boundary(encode_utf8(s), cursor),
        markers.len() > 0 ==> cursor <= snapped_offset(s, markers[0].0 as int),
    ensures
        shown_text(segments_from(s, markers, cursor, notes, crosses)) == byte_range_chars(
            s,
            cursor,
            encode_utf8(s).len() as int,
        ),
    decreases markers.len(),
{
    let len = encode_utf8(s).len() as int;
    if markers.len() == 0 {
        if cursor < len {
            lemma_shown_text_single(SegmentView::Text(byte_range_chars(s, cursor, len)));
        } else {
            assert(encode_utf8(s).subrange(cursor, len) =~= Seq::<u8>::empty());
            assert(byte_range_chars(s, cursor, len) =~= Seq::<char>::empty());
        }
    } else {
        let off = snapped_offset(s, markers[0].0 as int);
        law_snap_keeps_words_whole(s, markers[0].0 as int);
        let rest = markers.drop_first();
        if rest.len() > 0 {
            assert(rest[0] == markers[1]);
        }
        assert forall|i: int, j: int| 0 <= i <= j < rest.len() implies snapped_offset(s, rest[i].0 as int)
            <= snapped_offset(s, rest[j].0 as int) by {
            assert(rest[i] == markers[i + 1]);
            assert(rest[j] == markers[j + 1]);
        }
        let m = marker_segment(markers[0].1, notes, crosses);
        lemma_segments_show_text(s, rest, off, m.1, m.2);
        let pre = if off > cursor {
            seq![SegmentView::Text(byte_range_chars(s, cursor, off))]
        } else {
            Seq::empty()
        };
        let tail = segments_from(s, rest, off, m.1, m.2);
        assert(segments_from(s, markers, cursor, notes, crosses) == pre + seq![m.0] + tail);
        lemma_shown_text_concat(pre + seq![m.0], tail);
        lemma_shown_text_concat(pre, seq![m.0]);
        lemma_shown_text_single(m.0);
        if off > cursor {
            lemma_shown_text_single(SegmentView::Text(byte_range_chars(s, cursor, off)));
        } else {
            assert(encode_utf8(s).subrange(cursor, off) =~= Seq::<u8>::empty());
            assert(byte_range_chars(s, cursor, off) =~= Seq::<char>::empty());
        }
        lemma_byte_ranges_join(s, cursor, off);
        assert(shown_text(segments_from(s, markers, cursor, notes, crosses))
            =~= byte_range_chars(s, cursor, off) + byte_range_chars(s, off, len));
    }
}

/// Whether the markers, snapped to word ends, keep their order in `s`.
pub open spec fn snaps_in_order(s: Seq<char>, markers: Seq<(usize, MarkerView)>) -> bool {
    forall|i: int, j: int|
        0 <= i <= j < markers.len() ==> snapped_offset(s, #[trigger] markers[i].0 as int)
            <= snapped_offset(s, #[trigger] markers[j].0 as int)
}

/// Showing footnotes only adds markers: the text segments of a displayed
/// verse, joined, are the verse's text, whole and in order, as long as the
/// snapped markers keep their order (they can fail to where a later marker
/// stays put on punctuation inside the word an earlier one is moved past).
pub proof fn law_segments_keep_text(v: Verse, show_footnotes: bool)
    requires
        show_footnotes ==> snaps_in_order(v.0@, sort_by_offset(verse_markers(v))),
    ensures
        shown_text(verse_segments_spec(v, show_footnotes)) == v.0@,
{
    let markers = sort_by_offset(verse_markers(v));
    let s = v.0@;
    if !show_footnotes || markers.len() == 0 {
        lemma_shown_text_single(SegmentView::Text(s));
    } else {
        lemma_sort_by_offset_sorted(verse_markers(v));
        law_snap_keeps_words_whole(s, markers[0].0 as int);
        law_clamp_is_greatest_boundary(s, markers[0].0 as int);
        vstd::utf8::is_char_boundary_start_end_of_seq(encode_utf8(s));
        lemma_segments_show_text(s, markers, 0, 0, 0);
        assert(encode_utf8(s).subrange(0, encode_utf8(s).len() as int) =~= encode_utf8(s));
    }
}

/// The marker segments among `segs`, in order, text left out.
pub open spec fn marker_segments(segs: Seq<SegmentView>) -> Seq<SegmentView>
    decreases segs.len(),
{
    if segs.len() == 0 {
        Seq::empty()
    } else {
        let rest = marker_segments(segs.drop_first());
        match segs[0] {
            SegmentView::Text(_) => rest,
            SegmentView::Marker { .. } => seq![segs[0]] + rest,
        }
    }
}

/// How many of `markers` are notes.
pub open spec fn notes_among(markers: Seq<(usize, MarkerView)>) -> nat
    decreases markers.len(),
{
    if markers.len() == 0 {
        0
    } else {
        (if markers[0].1 is Note { 1nat } else { 0nat }) + notes_among(markers.drop_first())
    }
}

/// How many of `markers` are cross references.
pub open spec fn crosses_among(markers: Seq<(usize, MarkerView)>) -> nat
    decreases markers.len(),
{
    if markers.len() == 0 {
        0
    } else {
        (if markers[0].1 is CrossRef { 1nat } else { 0nat }) + crosses_among(markers.drop_first())
    }
}

/// The marker segment that the `k`-th of `markers` is shown as, after `notes`
/// notes and `crosses` cross references that came before all of them: a note
/// is numbered and labelled by how many notes precede it, a cross reference by
/// how many cross references do, each kind counted on its own.
pub open spec fn numbered_marker(
    markers: Seq<(usize, MarkerView)>,
    k: int,
    notes: nat,
    crosses: nat,
) -> SegmentView {
    match markers[k].1 {
        MarkerView::Note(t) => {
            let n = notes + notes_among(markers.take(k)) + 1;
            SegmentView::Marker {
                label: decimal_digits(n).map_values(|c: char| superscript_char(c)),
                link: LinkView::Note { number: n as usize, text: t },
            }
        },
        MarkerView::CrossRef(r) => {
            let n = crosses + crosses_among(markers.take(k)) + 1;
            SegmentView::Marker {
                label: superscript_letter_label(n),
                link: LinkView::CrossRef { number: n as usize, refs: r },
            }
        },
    }
}

proof fn lemma_marker_segments_concat(a: Seq<SegmentView>, b: Seq<SegmentView>)
    ensures
        marker_segments(a + b) == marker_segments(a) + marker_segments(b),
    decreases a.len(),
{
    if a.len() == 0 {
        assert(a + b =~= b);
        assert(marker_segments(a) + marker_segments(b) =~= marker_segments(b));
    } else {
        lemma_marker_segments_concat(a.drop_first(), b);
        assert((a + b).drop_first() =~= a.drop_first() + b);
        assert((a + b)[0] == a[0]);
        match a[0] {
            SegmentView::Text(_) => {},
            SegmentView::Marker { .. } => {
                assert(seq![a[0]] + (marker_segments(a.drop_first()) + marker_segments(b))
                    =~= (seq![a[0]] + marker_segments(a.drop_first())) + marker_segments(b));
            },
        }
    }
}

proof fn lemma_marker_segments_of_text(t: Seq<char>)
    ensures
        marker_segments(seq![SegmentView::Text(t)]) == Seq::<SegmentView>::empty(),
{
    assert(seq![SegmentView::Text(t)].drop_first() =~= Seq::<SegmentView>::empty());
    assert(marker_segments(Seq::<SegmentView>::empty()) == Seq::<SegmentView>::empty());
    assert(seq![SegmentView::Text(t)][0] == SegmentView::Text(t));
}

proof fn lemma_marker_segments_of_marker(x: SegmentView)
    requires
        x is Marker,
    ensures
        marker_segments(seq![x]) == seq![x],
{
    assert(seq![x].drop_first() =~= Seq::<SegmentView>::empty());
    assert(marker_segments(Seq::<SegmentView>::empty()) == Seq::<SegmentView>::empty());
    assert(seq![x][0] == x);
    assert(seq![x] + Seq::<SegmentView>::empty() =~= seq![x]);
}

proof fn lemma_segments_from_markers(
    s: Seq<char>,
    markers: Seq<(usize, MarkerView)>,
    cursor: int,
    notes: nat,
    crosses: nat,
)
    ensures
        marker_segments(segments_from(s, markers, cursor, notes, crosses)).len() == markers.len(),
        forall|k: int|
            0 <= k < markers.len() ==> #[trigger] marker_segments(
                segments_from(s, markers, cursor, notes, crosses),
            )[k] == numbered_marker(markers, k, notes, crosses),
    decreases markers.len(),
{
    let len = encode_utf8(s).len() as int;
    if markers.len() == 0 {
        if cursor < len {
            lemma_marker_segments_of_text(byte_range_chars(s, cursor, len));
        }
    } else {
        let off = snapped_offset(s, markers[0].0 as int);
        let pre = if off > cursor {
            seq![SegmentView::Text(byte_range_chars(s, cursor, off))]
        } else {
            Seq::empty()
        };
        let m = marker_segment(markers[0].1, notes, crosses);
        let rest = segments_from(s, markers.drop_first(), off, m.1, m.2);
        assert(segments_from(s, markers, cursor, notes, crosses) == pre + seq![m.0] + rest);
        lemma_segments_from_markers(s, markers.drop_first(), off, m.1, m.2);
        lemma_marker_segments_concat(pre + seq![m.0], rest);
        lemma_marker_segments_concat(pre, seq![m.0]);
        if off > cursor {
            lemma_marker_segments_of_text(byte_range_chars(s, cursor, off));
        } else {
            assert(marker_segments(pre) == Seq::<SegmentView>::empty());
        }
        lemma_marker_segments_of_marker(m.0);
        let all = marker_segments(segments_from(s, markers, cursor, notes, crosses));
        assert(all =~= seq![m.0] + marker_segments(rest));
        assert(markers.take(0) =~= Seq::<(usize, MarkerView)>::empty());
        assert(all[0] == numbered_marker(markers, 0, notes, crosses));
        assert forall|k: int| 0 <= k < markers.len() implies #[trigger] all[k] == numbered_marker(
            markers,
            k,
            notes,
            crosses,
        ) by {
            if k > 0 {
                assert(all[k] == marker_segments(rest)[k - 1]);
                assert(markers.take(k).drop_first() =~= markers.drop_first().take(k - 1));
                assert(markers.take(k)[0] == markers[0]);
                assert(markers.drop_first()[k - 1] == markers[k]);
            }
        }
    }
}

/// Notes and cross references are numbered each on their own, in reading
/// order: the displayed verse shows one marker per note and cross reference,
/// in the order of their offsets, and the note that has `k` notes before it
/// (cross references not counted) is number `k + 1`, labelled with `k + 1` in
/// superscript digits, while the cross reference that has `k` cross
/// references before it is number `k + 1`, labelled with the `k + 1`-th
/// superscript letter. With footnotes hidden no marker is shown.
pub proof fn law_markers_numbered_by_kind(v: Verse, show_footnotes: bool)
    ensures
        ({
            let markers = sort_by_offset(verse_markers(v));
            let shown = marker_segments(verse_segments_spec(v, show_footnotes));
            &&& shown.len() == if show_footnotes { markers.len() } else { 0 }
            &&& show_footnotes ==> forall|k: int|
                0 <= k < markers.len() ==> #[trigger] shown[k] == numbered_marker(markers, k, 0, 0)
        }),
{
    let markers = sort_by_offset(verse_markers(v));
    if !show_footnotes || markers.len() == 0 {
        lemma_marker_segments_of_text(v.0@);
    } else {
        lemma_segments_from_markers(v.0@, markers, 0, 0, 0);
    }
}

fn text_segment(s: &str, from: usize, to: usize) -> (r: VerseSegment)
    requires
        from <= to <= s.spec_bytes().len(),
        is_char_boundary(s.spec_bytes(), from as int),
        is_char_boundary(s.spec_bytes(), to as int),
    ensures
        r@ == SegmentView::Text(byte_range_chars(s@, from as int, to as int)),
{
    let piece = byte_slice(s, from, to);
    VerseSegment::Text(piece.to_owned())
}

/// Cuts a verse into the segments it is displayed with: plain text and
/// numbered marker labels (superscript digits for notes, superscript letters
/// for cross references).
pub fn verse_segments(verse: &Verse, show_footnotes: bool) -> (r: Vec<VerseSegment>)
    ensures
        segments_view(r@) == verse_segments_spec(*verse, show_footnotes),
{
    let text = verse.text();
    let mut out: Vec<VerseSegment> = Vec::new();
    if !show_footnotes {
        out.push(VerseSegment::Text(verse.0.clone()));
        assert(segments_view(out@) =~= seq![SegmentView::Text(verse.0@)]);
        return out;
    }
    let markers = collect_footnote_markers(verse);
    let n = markers.len();
    if n == 0 {
        out.push(VerseSegment::Text(verse.0.clone()));
        assert(segments_view(out@) =~= seq![SegmentView::Text(verse.0@)]);
        return out;
    }
    let ghost ms = marker_items_view(markers@);
    let ghost s = text@;
    let ghost bytes = text.spec_bytes();
    let len = str_byte_len(text);
    let mut cursor: usize = 0;
    let mut notes: usize = 0;
    let mut crosses: usize = 0;
    let mut i: usize = 0;
    proof {
        vstd::utf8::is_char_boundary_start_end_of_seq(bytes);
        assert(ms.skip(0) =~= ms);
        assert(Seq::<SegmentView>::empty() + segments_from(s, ms, 0, 0, 0) =~= segments_from(
            s,
            ms,
            0,
            0,
            0,
        ));
    }
    while i < n
        invariant
            i <= n,
            n == markers@.len(),
            ms == marker_items_view(markers@),
            s == text@,
            s == verse.0@,
            bytes == text.spec_bytes(),
            len == bytes.len(),
            cursor <= len,
            is_char_boundary(bytes, cursor as int),
            notes + crosses <= i,
            segments_from(s, ms, 0, 0, 0) == segments_view(out@) + segments_from(
                s,
                ms.skip(i as int),
                cursor as int,
                notes as nat,
                crosses as nat,
            ),
        decreases n - i,
    {
        let ghost rest = ms.skip(i as int);
        let ghost before = segments_view(out@);
        let off = snap_to_word_end(text, markers[i].0);
        assert(rest[0] == marker_item_view(markers@[i as int]));
        if off > cursor {
            let seg = text_segment(text, cursor, off);
            out.push(seg);
        }
        let ghost mid = segments_view(out@);
        let ghost notes0 = notes as nat;
        let ghost crosses0 = crosses as nat;
        let seg = match &markers[i].1 {
            FootnoteMarker::Note(t) => {
                notes = notes + 1;
                VerseSegment::Marker {
                    label: to_superscript(notes),
                    link: FootnoteLink::Note { number: notes, text: t.clone() },
                }
            },
            FootnoteMarker::CrossRef(r) => {
                crosses = crosses + 1;
                let refs = r.clone();
                assert(refs.deep_view() =~= r.deep_view());
                VerseSegment::Marker {
                    label: to_superscript_letter(crosses),
                    link: FootnoteLink::CrossRef { number: crosses, refs },
                }
            },
        };
        out.push(seg);
        proof {
            let m = marker_segment(rest[0].1, notes0, crosses0);
            assert(seg@ == m.0);
            assert(notes == m.1 && crosses == m.2);
            assert(rest.drop_first() =~= ms.skip(i + 1));
            assert(segments_view(out@) =~= mid.push(seg@));
            if off > cursor {
                assert(mid =~= before + seq![SegmentView::Text(byte_range_chars(s, cursor as int, off as int))]);
            } else {
                assert(mid =~= before);
            }
        }
        cursor = off;
        i = i + 1;
    }
    if cursor < len {
        let seg = text_segment(text, cursor, len);
        out.push(seg);
    }
    proof {
        assert(ms.skip(n as int) =~= Seq::<(usize, MarkerView)>::empty());
    }
    assert(segments_view(out@) =~= verse_segments_spec(*verse, show_footnotes));
    out
}

} // verus!
