use vstd::prelude::*;
use vstd::utf8::{encode_utf8, encode_utf8_decode_utf8};

use crate::record::{Img, ImgTotals};

verus! {

broadcast use vstd::seq_lib::group_to_multiset_ensures;

/// Lexicographic order on byte strings: the order of `&[u8]` and of `str`.
pub open spec fn bytes_lt(a: Seq<u8>, b: Seq<u8>) -> bool
    decreases a.len(),
{
    if a.len() == 0 {
        b.len() > 0
    } else if b.len() == 0 {
        false
    } else if a[0] != b[0] {
        a[0] < b[0]
    } else {
        bytes_lt(a.drop_first(), b.drop_first())
    }
}

/// The order of `String`: its UTF-8 bytes compared lexicographically.
pub open spec fn name_lt(a: Seq<char>, b: Seq<char>) -> bool {
    bytes_lt(encode_utf8(a), encode_utf8(b))
}

/// The four extreme images that a collection is summarised by.
#[derive(Clone, Copy, Debug, PartialEq, Eq, Structural)]
pub enum Extremum {
    /// Fewest pixels; among equal counts the greatest name.
    Smallest,
    /// Most pixels; among equal counts the least name.
    Largest,
    /// Greatest width; among equal widths the greatest name.
    Widest,
    /// Greatest height; among equal heights the greatest name.
    Tallest,
}

/// `a` is chosen over `b` as the `kind` extremum.
pub open spec fn prefers(kind: Extremum, a: Img, b: Img) -> bool {
    match kind {
        Extremum::Smallest => a.total_pixels < b.total_pixels || (a.total_pixels
            == b.total_pixels && name_lt(b.name@, a.name@)),
        Extremum::Largest => a.total_pixels > b.total_pixels || (a.total_pixels
            == b.total_pixels && name_lt(a.name@, b.name@)),
        Extremum::Widest => a.width > b.width || (a.width == b.width && name_lt(b.name@, a.name@)),
        Extremum::Tallest => a.length > b.length || (a.length == b.length && name_lt(
            b.name@,
            a.name@,
        )),
    }
}

/// Position `k` of `s` holds an image that no image of `s` is chosen over.
pub open spec fn extreme_at(s: Seq<Img>, kind: Extremum, k: int) -> bool {
    &&& 0 <= k < s.len()
    &&& forall|j: int| 0 <= j < s.len() ==> !#[trigger] prefers(kind, s[j], s[k])
}

proof fn lemma_bytes_lt_irreflexive(a: Seq<u8>)
    ensures
        !bytes_lt(a, a),
    decreases a.len(),
{
    if a.len() > 0 {
        lemma_bytes_lt_irreflexive(a.drop_first());
    }
}

proof fn lemma_bytes_lt_transitive(a: Seq<u8>, b: Seq<u8>, c: Seq<u8>)
    requires
        bytes_lt(a, b),
        bytes_lt(b, c),
    ensures
        bytes_lt(a, c),
    decreases a.len(),
{
    if a.len() > 0 && b.len() > 0 && c.len() > 0 && a[0] == b[0] && b[0] == c[0] {
        lemma_bytes_lt_transitive(a.drop_first(), b.drop_first(), c.drop_first());
    }
}

proof fn lemma_bytes_lt_total(a: Seq<u8>, b: Seq<u8>)
    requires
        a != b,
    ensures
        bytes_lt(a, b) || bytes_lt(b, a),
    decreases a.len(),
{
    if a.len() > 0 && b.len() > 0 && a[0] == b[0] {
        if a.drop_first() == b.drop_first() {
            assert(a =~= seq![a[0]] + a.drop_first());
            assert(b =~= seq![b[0]] + b.drop_first());
        }
        lemma_bytes_lt_total(a.drop_first(), b.drop_first());
    } else if a.len() == 0 && b.len() == 0 {
        assert(a =~= b);
    }
}

proof fn lemma_name_lt_total(a: Seq<char>, b: Seq<char>)
    requires
        a != b,
    ensures
        name_lt(a, b) || name_lt(b, a),
{
    if encode_utf8(a) == encode_utf8(b) {
        encode_utf8_decode_utf8(a);
        encode_utf8_decode_utf8(b);
    }
    lemma_bytes_lt_total(encode_utf8(a), encode_utf8(b));
}

proof fn lemma_prefers_irreflexive(kind: Extremum, a: Img)
    ensures
        !prefers(kind, a, a),
{
    lemma_bytes_lt_irreflexive(encode_utf8(a.name@));
}

proof fn lemma_prefers_transitive(kind: Extremum, a: Img, b: Img, c: Img)
    requires
        prefers(kind, a, b),
        prefers(kind, b, c),
    ensures
        prefers(kind, a, c),
{
    let (ea, eb, ec) = (encode_utf8(a.name@), encode_utf8(b.name@), encode_utf8(c.name@));
    if bytes_lt(ea, eb) && bytes_lt(eb, ec) {
        lemma_bytes_lt_transitive(ea, eb, ec);
    }
    if bytes_lt(ec, eb) && bytes_lt(eb, ea) {
        lemma_bytes_lt_transitive(ec, eb, ea);
    }
}

/// Two images neither of which is chosen over the other have the same key and the same name.
proof fn lemma_prefers_total(kind: Extremum, a: Img, b: Img)
    requires
        !prefers(kind, a, b),
        !prefers(kind, b, a),
    ensures
        a.name@ == b.name@,
{
    if a.name@ != b.name@ {
        lemma_name_lt_total(a.name@, b.name@);
    }
}

/// The extremum of each kind is determined: any two positions that hold one
/// hold images with the same name.
pub proof fn lemma_extreme_unique(s: Seq<Img>, kind: Extremum, k1: int, k2: int)
    requires
        extreme_at(s, kind, k1),
        extreme_at(s, kind, k2),
    ensures
        s[k1].name@ == s[k2].name@,
{
    assert(!prefers(kind, s[k1], s[k2]));
    assert(!prefers(kind, s[k2], s[k1]));
    lemma_prefers_total(kind, s[k1], s[k2]);
}

/// The extrema depend only on which images a collection holds, not on the
/// order in which they were found: two collections with the same images give
/// the same names.
pub proof fn lemma_extreme_order_free(s: Seq<Img>, t: Seq<Img>, kind: Extremum, k: int, m: int)
    requires
        s.to_multiset() == t.to_multiset(),
        extreme_at(s, kind, k),
        extreme_at(t, kind, m),
    ensures
        s[k].name@ == t[m].name@,
{
    assert(s.contains(s[k]));
    assert(s.to_multiset().count(s[k]) > 0);
    assert(t.contains(s[k]));
    let m2 = choose|i: int| 0 <= i < t.len() && t[i] == s[k];
    assert forall|j: int| 0 <= j < t.len() implies !#[trigger] prefers(kind, t[j], t[m2]) by {
        assert(t.contains(t[j]));
        assert(t.to_multiset().count(t[j]) > 0);
        assert(s.contains(t[j]));
        let i = choose|i: int| 0 <= i < s.len() && s[i] == t[j];
        assert(!prefers(kind, s[i], s[k]));
    }
    lemma_extreme_unique(t, kind, m2, m);
}

/// `totals` names, for each kind, an image of `images` that is that extremum.
pub open spec fn summarises(images: Seq<Img>, totals: ImgTotals) -> bool {
    &&& exists|k: int| extreme_at(images, Extremum::Smallest, k) && totals.smallest@ == images[k].name@
    &&& exists|k: int| extreme_at(images, Extremum::Largest, k) && totals.largest@ == images[k].name@
    &&& exists|k: int| extreme_at(images, Extremum::Widest, k) && totals.widest@ == images[k].name@
    &&& exists|k: int| extreme_at(images, Extremum::Tallest, k) && totals.tallest@ == images[k].name@
}

/// Two summaries of collections that hold the same images, in whatever order,
/// name the same four images.
pub proof fn lemma_summary_order_free(s: Seq<Img>, t: Seq<Img>, a: ImgTotals, b: ImgTotals)
    requires
        s.to_multiset() == t.to_multiset(),
        summarises(s, a),
        summarises(t, b),
    ensures
        a.smallest@ == b.smallest@,
        a.largest@ == b.largest@,
        a.widest@ == b.widest@,
        a.tallest@ == b.tallest@,
{
    let k = choose|k: int| extreme_at(s, Extremum::Smallest, k) && a.smallest@ == s[k].name@;
    let m = choose|m: int| extreme_at(t, Extremum::Smallest, m) && b.smallest@ == t[m].name@;
    lemma_extreme_order_free(s, t, Extremum::Smallest, k, m);
    let k = choose|k: int| extreme_at(s, Extremum::Largest, k) && a.largest@ == s[k].name@;
    let m = choose|m: int| extreme_at(t, Extremum::Largest, m) && b.largest@ == t[m].name@;
    lemma_extreme_order_free(s, t, Extremum::Largest, k, m);
    let k = choose|k: int| extreme_at(s, Extremum::Widest, k) && a.widest@ == s[k].name@;
    let m = choose|m: int| extreme_at(t, Extremum::Widest, m) && b.widest@ == t[m].name@;
    lemma_extreme_order_free(s, t, Extremum::Widest, k, m);
    let k = choose|k: int| extreme_at(s, Extremum::Tallest, k) && a.tallest@ == s[k].name@;
    let m = choose|m: int| extreme_at(t, Extremum::Tallest, m) && b.tallest@ == t[m].name@;
    lemma_extreme_order_free(s, t, Extremum::Tallest, k, m);
}

/// `a` is less than `b` in the lexicographic order of bytes.
fn bytes_less(a: &[u8], b: &[u8]) -> (r: bool)
    ensures
        r == bytes_lt(a@, b@),
{
    let mut i: usize = 0;
    assert(a@.skip(0) =~= a@);
    assert(b@.skip(0) =~= b@);
    while i < a.len() && i < b.len()
        invariant
            i <= a@.len(),
            i <= b@.len(),
            bytes_lt(a@, b@) == bytes_lt(a@.skip(i as int), b@.skip(i as int)),
        decreases a.len() - i,
    {
        if a[i] != b[i] {
            return a[i] < b[i];
        }
        assert(a@.skip(i as int).drop_first() =~= a@.skip(i + 1));
        assert(b@.skip(i as int).drop_first() =~= b@.skip(i + 1));
        i += 1;
    }
    i < b.len()
}

/// `a` is chosen over `b` as the `kind` extremum.
fn chosen_over(kind: Extremum, a: &Img, b: &Img) -> (r: bool)
    ensures
        r == prefers(kind, *a, *b),
{
    let (ka, kb) = match kind {
        Extremum::Smallest | Extremum::Largest => (a.total_pixels, b.total_pixels),
        Extremum::Widest => (a.width as u64, b.width as u64),
        Extremum::Tallest => (a.length as u64, b.length as u64),
    };
    if ka != kb {
        match kind {
            Extremum::Smallest => ka < kb,
            _ => ka > kb,
        }
    } else {
        let na = a.name.as_str().as_bytes();
        let nb = b.name.as_str().as_bytes();
        match kind {
            Extremum::Largest => bytes_less(na, nb),
            _ => bytes_less(nb, na),
        }
    }
}

/// The position of the `kind` extremum of a non-empty collection.
pub fn extreme_index(images: &Vec<Img>, kind: Extremum) -> (k: usize)
    requires
        images.len() > 0,
    ensures
        extreme_at(images@, kind, k as int),
{
    let mut best: usize = 0;
    let mut i: usize = 1;
    proof {
        lemma_prefers_irreflexive(kind, images@[0]);
    }
    while i < images.len()
        invariant
            1 <= i <= images.len(),
            best < i,
            forall|j: int| 0 <= j < i ==> !#[trigger] prefers(kind, images@[j], images@[best as int]),
        decreases images.len() - i,
    {
        if chosen_over(kind, &images[i], &images[best]) {
            proof {
                assert forall|j: int| 0 <= j <= i implies !#[trigger] prefers(
                    kind,
                    images@[j],
                    images@[i as int],
                ) by {
                    if j == i {
                        lemma_prefers_irreflexive(kind, images@[j]);
                    } else if prefers(kind, images@[j], images@[i as int]) {
                        lemma_prefers_transitive(
                            kind,
                            images@[j],
                            images@[i as int],
                            images@[best as int],
                        );
                    }
                }
            }
            best = i;
        }
        i += 1;
    }
    best
}

/// Fills in the four extrema of a non-empty collection: the smallest and the
/// largest by pixel count, the widest and the tallest. The counters are left as
/// they were.
pub fn analyse(images: &Vec<Img>, totals: &mut ImgTotals)
    requires
        images.len() > 0,
    ensures
        summarises(images@, *final(totals)),
        final(totals).total_pixels == old(totals).total_pixels,
        final(totals).filecount == old(totals).filecount,
        final(totals).photocount == old(totals).photocount,
{
    let s = extreme_index(images, Extremum::Smallest);
    totals.smallest = images[s].name.clone();
    let l = extreme_index(images, Extremum::Largest);
    totals.largest = images[l].name.clone();
    let w = extreme_index(images, Extremum::Widest);
    totals.widest = images[w].name.clone();
    let t = extreme_index(images, Extremum::Tallest);
    totals.tallest = images[t].name.clone();
}

} // verus!
