use std::collections::HashMap;

use vstd::prelude::*;
use vstd::relations::{sorted_by, total_ordering};

use crate::codec::ImageData;

verus! {

broadcast use vstd::seq_lib::group_to_multiset_ensures, vstd::multiset::group_multiset_axioms,
    vstd::std_specs::hash::group_hash_axioms;

/// Distinct colors tracked before the analysis gives up on counting.
pub const UNIQUE_COLOR_LIMIT: usize = 1_000_000;

/// Recommendation for palette-based PNG compression.
#[derive(Debug, Clone, Copy, PartialEq, Eq, Structural)]
pub enum PaletteRecommendation {
    /// Palette compression is likely useful.
    On,
    /// Palette compression may be useful and should be checked with a candidate encode.
    Review,
    /// Palette compression is unlikely to be useful.
    Off,
}

/// Color statistics used to assess palette-based PNG compression suitability.
///
/// The share of pixels covered by the 256 most frequent colors is kept as
/// the exact fraction `top_256_pixel_count / total_pixels`.
#[derive(Debug, Clone, PartialEq, Eq)]
pub struct PaletteStats {
    /// Exact unique RGBA color count while below the tracking limit.
    pub unique_color_count: u32,
    /// Whether unique color tracking exceeded the internal memory guard.
    pub unique_color_count_exceeded: bool,
    /// Pixels covered by the 256 most frequent tracked colors.
    pub top_256_pixel_count: u64,
    /// Pixels in the image.
    pub total_pixels: u64,
    /// Whether any source pixel has alpha below 255.
    pub has_alpha: bool,
    /// Conservative recommendation based on color statistics.
    pub recommendation: PaletteRecommendation,
}

/// Big-endian packing of the RGBA bytes of pixel `i`.
pub open spec fn packed_color(d: Seq<u8>, i: int) -> u32 {
    (d[4 * i] * 16777216 + d[4 * i + 1] * 65536 + d[4 * i + 2] * 256 + d[4 * i + 3]) as u32
}

/// Packed colors of the whole pixels of an RGBA buffer, in pixel order.
pub open spec fn pixel_colors(d: Seq<u8>) -> Seq<u32> {
    Seq::new((d.len() / 4) as nat, |i: int| packed_color(d, i))
}

/// Distinct values of `s` in order of first appearance.
pub open spec fn distinct_colors(s: Seq<u32>) -> Seq<u32>
    decreases s.len(),
{
    if s.len() == 0 {
        Seq::empty()
    } else {
        let p = distinct_colors(s.drop_last());
        if p.contains(s.last()) {
            p
        } else {
            p.push(s.last())
        }
    }
}

/// Number of occurrences of `c` in `s`.
pub open spec fn color_count(s: Seq<u32>, c: u32) -> nat
    decreases s.len(),
{
    if s.len() == 0 {
        0
    } else {
        color_count(s.drop_last(), c) + if s.last() == c {
            1nat
        } else {
            0nat
        }
    }
}

/// Occurrence count of each distinct color, in order of first appearance.
pub open spec fn color_counts(s: Seq<u32>) -> Seq<u64> {
    distinct_colors(s).map_values(|c: u32| color_count(s, c) as u64)
}

/// Pixel `i` introduces a new color while the tracking limit is already reached.
pub open spec fn overflows_at(s: Seq<u32>, i: int) -> bool {
    &&& 0 <= i < s.len()
    &&& !s.take(i).contains(s[i])
    &&& distinct_colors(s.take(i)).len() >= UNIQUE_COLOR_LIMIT
}

/// Some pixel exceeds the tracking limit.
pub open spec fn has_overflow(s: Seq<u32>) -> bool {
    exists|i: int| overflows_at(s, i)
}

/// The first pixel that exceeds the tracking limit.
pub open spec fn first_overflow(s: Seq<u32>) -> int {
    choose|i: int| overflows_at(s, i) && forall|j: int| 0 <= j < i ==> !overflows_at(s, j)
}

/// Some pixel among the first `m` has alpha below 255.
pub open spec fn alpha_below_opaque(d: Seq<u8>, m: int) -> bool {
    exists|i: int| 0 <= i < m && #[trigger] pixel_alpha(d, i) < 255
}

/// Alpha byte of pixel `i`.
pub open spec fn pixel_alpha(d: Seq<u8>, i: int) -> u8 {
    d[4 * i + 3]
}

/// Recommendation from the unique color count and the share of pixels
/// covered by the 256 most frequent colors: at most 256 colors, or a share
/// of at least 98%, recommends palettes; a share of at least 90% asks for
/// review.
pub open spec fn recommendation_for(unique: int, top: int, total: int) -> PaletteRecommendation {
    if unique <= 256 {
        PaletteRecommendation::On
    } else if top * 50 >= total * 49 {
        PaletteRecommendation::On
    } else if top * 10 >= total * 9 {
        PaletteRecommendation::Review
    } else {
        PaletteRecommendation::Off
    }
}

/// Statistics that the analysis reports for an RGBA buffer.
pub open spec fn palette_stats_of(d: Seq<u8>) -> PaletteStats {
    let n = d.len() / 4;
    let s = pixel_colors(d);
    if n == 0 {
        PaletteStats {
            unique_color_count: 0,
            unique_color_count_exceeded: false,
            top_256_pixel_count: 0,
            total_pixels: 0,
            has_alpha: false,
            recommendation: PaletteRecommendation::Off,
        }
    } else if has_overflow(s) {
        PaletteStats {
            unique_color_count: UNIQUE_COLOR_LIMIT as u32,
            unique_color_count_exceeded: true,
            top_256_pixel_count: 0,
            total_pixels: n as u64,
            has_alpha: alpha_below_opaque(d, n as int),
            recommendation: PaletteRecommendation::Off,
        }
    } else {
        let unique: nat = distinct_colors(s).len();
        let top = top_count_sum(color_counts(s), 256);
        PaletteStats {
            unique_color_count: unique as u32,
            unique_color_count_exceeded: false,
            top_256_pixel_count: top as u64,
            total_pixels: n as u64,
            has_alpha: alpha_below_opaque(d, n as int),
            recommendation: recommendation_for(unique as int, top, n as int),
        }
    }
}

pub(crate) proof fn lemma_distinct_push(s: Seq<u32>, c: u32)
    ensures
        distinct_colors(s.push(c)) == (if distinct_colors(s).contains(c) {
            distinct_colors(s)
        } else {
            distinct_colors(s).push(c)
        }),
        forall|x: u32| color_count(s.push(c), x) == color_count(s, x) + if x == c {
            1nat
        } else {
            0nat
        },
{
    assert(s.push(c).drop_last() =~= s);
    assert forall|x: u32| color_count(s.push(c), x) == color_count(s, x) + if x == c {
        1nat
    } else {
        0nat
    } by {
        assert(s.push(c).drop_last() =~= s);
    }
}

pub(crate) proof fn lemma_distinct_props(s: Seq<u32>)
    ensures
        distinct_colors(s).no_duplicates(),
        forall|c: u32|
            #![trigger distinct_colors(s).contains(c)]
            #![trigger s.contains(c)]
            distinct_colors(s).contains(c) <==> s.contains(c),
        distinct_colors(s).len() <= s.len(),
        forall|c: u32| #[trigger] color_count(s, c) <= s.len(),
        forall|c: u32| #[trigger] color_count(s, c) > 0 <==> s.contains(c),
    decreases s.len(),
{
    if s.len() > 0 {
        let t = s.drop_last();
        lemma_distinct_props(t);
        assert(s == t.push(s.last()));
        lemma_distinct_push(t, s.last());
        let dt = distinct_colors(t);
        let ds = distinct_colors(s);
        assert forall|c: u32| ds.contains(c) <==> s.contains(c) by {
            assert(dt.contains(c) == t.contains(c));
            if ds.contains(c) {
                let k = choose|k: int| 0 <= k < ds.len() && ds[k] == c;
                if k < dt.len() {
                    assert(dt[k] == c);
                    assert(dt.contains(c));
                    let m = choose|m: int| 0 <= m < t.len() && t[m] == c;
                    assert(s[m] == c);
                } else {
                    assert(c == s.last());
                    assert(s[s.len() - 1] == c);
                }
            }
            if s.contains(c) {
                let k = choose|k: int| 0 <= k < s.len() && s[k] == c;
                if k < t.len() {
                    assert(t[k] == c);
                    assert(t.contains(c));
                    assert(dt.contains(c));
                    let m = choose|m: int| 0 <= m < dt.len() && dt[m] == c;
                    assert(ds[m] == c);
                } else {
                    assert(c == s.last());
                    if dt.contains(c) {
                        assert(ds == dt);
                    } else {
                        assert(ds[ds.len() - 1] == c);
                    }
                }
            }
        }
        assert forall|c: u32| color_count(s, c) > 0 <==> s.contains(c) by {
            if t.contains(c) {
                let k = choose|k: int| 0 <= k < t.len() && t[k] == c;
                assert(s[k] == c);
            }
            if s.contains(c) {
                let k = choose|k: int| 0 <= k < s.len() && s[k] == c;
                if k < t.len() {
                    assert(t[k] == c);
                }
            }
        }
    }
}

/// A map that indexes the distinct colors of `t` learns a new color `c`.
pub(crate) proof fn lemma_index_step_new(t: Seq<u32>, c: u32, m: Map<u32, usize>)
    requires
        index_matches(t, m),
        !m.contains_key(c),
        distinct_colors(t).len() < usize::MAX,
    ensures
        !t.contains(c),
        distinct_colors(t.push(c)) == distinct_colors(t).push(c),
        index_matches(t.push(c), m.insert(c, distinct_colors(t).len() as usize)),
{
    lemma_distinct_push(t, c);
    lemma_distinct_props(t);
    let dist = distinct_colors(t);
    let nd = distinct_colors(t.push(c));
    assert(!dist.contains(c));
    assert(nd == dist.push(c));
    let nm = m.insert(c, dist.len() as usize);
    assert forall|x: u32| #[trigger] nm.contains_key(x) <==> nd.contains(x) by {
        if x == c {
            assert(nd[dist.len() as int] == x);
        } else if dist.contains(x) {
            let j = choose|j: int| 0 <= j < dist.len() && dist[j] == x;
            assert(nd[j] == x);
        } else if nd.contains(x) {
            let j = choose|j: int| 0 <= j < nd.len() && nd[j] == x;
            if j < dist.len() {
                assert(dist[j] == x);
            }
        }
    }
    assert forall|x: u32| #[trigger] nm.contains_key(x) implies nm[x] < nd.len() && nd[nm[x] as int] == x by {
        if x != c {
            assert(m.contains_key(x));
        }
    }
}

/// A color already indexed leaves the distinct colors and the map unchanged.
pub(crate) proof fn lemma_index_step_known(t: Seq<u32>, c: u32, m: Map<u32, usize>)
    requires
        index_matches(t, m),
        m.contains_key(c),
    ensures
        t.contains(c),
        distinct_colors(t.push(c)) == distinct_colors(t),
        index_matches(t.push(c), m),
{
    lemma_distinct_push(t, c);
    lemma_distinct_props(t);
}

/// Distinct colors of a prefix never outnumber those of a longer prefix.
pub(crate) proof fn lemma_distinct_prefix_len(s: Seq<u32>, a: int, b: int)
    requires
        0 <= a <= b <= s.len(),
    ensures
        distinct_colors(s.take(a)).len() <= distinct_colors(s.take(b)).len(),
    decreases b - a,
{
    if a < b {
        lemma_distinct_prefix_len(s, a, b - 1);
        assert(s.take(b) == s.take(b - 1).push(s[b - 1]));
        lemma_distinct_push(s.take(b - 1), s[b - 1]);
    }
}

/// A new color at pixel `i` after `k` distinct colors means more than `k`
/// distinct colors overall.
pub(crate) proof fn lemma_distinct_grows(s: Seq<u32>, i: int)
    requires
        0 <= i < s.len(),
        !distinct_colors(s.take(i)).contains(s[i]),
    ensures
        distinct_colors(s).len() > distinct_colors(s.take(i)).len(),
{
    assert(s.take(i + 1) == s.take(i).push(s[i]));
    lemma_distinct_push(s.take(i), s[i]);
    lemma_distinct_prefix_len(s, i + 1, s.len() as int);
    assert(s.take(s.len() as int) == s);
}

/// `counts` holds the occurrence count of each distinct color of `t`.
pub open spec fn counts_match(t: Seq<u32>, counts: Seq<u64>) -> bool {
    &&& counts.len() == distinct_colors(t).len()
    &&& forall|k: int| 0 <= k < counts.len() ==> #[trigger] counts[k] == color_count(t, distinct_colors(t)[k])
}

/// `m` maps each distinct color of `t` to its position among them.
pub open spec fn index_matches(t: Seq<u32>, m: Map<u32, usize>) -> bool {
    &&& forall|c: u32| #[trigger] m.contains_key(c) <==> distinct_colors(t).contains(c)
    &&& forall|c: u32| #[trigger] m.contains_key(c) ==> m[c] < distinct_colors(t).len() && distinct_colors(t)[m[c] as int] == c
}

proof fn lemma_step_known_color(t: Seq<u32>, c: u32, counts: Seq<u64>, m: Map<u32, usize>)
    requires
        counts_match(t, counts),
        index_matches(t, m),
        m.contains_key(c),
        t.len() < 0xffff_ffff_ffff_ffff,
    ensures
        counts[m[c] as int] + 1 <= t.len() + 1,
        counts_match(t.push(c), counts.update(m[c] as int, (counts[m[c] as int] + 1) as u64)),
        index_matches(t.push(c), m),
{
    lemma_distinct_push(t, c);
    lemma_distinct_props(t);
    let dist = distinct_colors(t);
    let slot = m[c] as int;
    assert(dist.contains(c));
    assert(distinct_colors(t.push(c)) == dist);
    assert(color_count(t, c) <= t.len());
    assert(dist[slot] == c);
    assert(counts[slot] == color_count(t, c));
    let nc = counts.update(slot, (counts[slot] + 1) as u64);
    assert forall|k: int| 0 <= k < nc.len() implies #[trigger] nc[k] == color_count(t.push(c), distinct_colors(t.push(c))[k]) by {
        if k == slot {
            assert(color_count(t.push(c), c) == color_count(t, c) + 1);
        } else {
            assert(dist[k] != dist[slot]);
        }
    }
}

proof fn lemma_step_new_color(t: Seq<u32>, c: u32, counts: Seq<u64>, m: Map<u32, usize>)
    requires
        counts_match(t, counts),
        index_matches(t, m),
        !m.contains_key(c),
        counts.len() < usize::MAX,
    ensures
        !t.contains(c),
        counts_match(t.push(c), counts.push(1)),
        index_matches(t.push(c), m.insert(c, counts.len() as usize)),
{
    lemma_distinct_push(t, c);
    lemma_distinct_props(t);
    let dist = distinct_colors(t);
    let nd = distinct_colors(t.push(c));
    assert(!dist.contains(c));
    assert(nd == dist.push(c));
    assert(color_count(t, c) == 0);
    let nc = counts.push(1);
    assert forall|k: int| 0 <= k < nc.len() implies #[trigger] nc[k] == color_count(t.push(c), nd[k]) by {
        if k < dist.len() {
            assert(dist[k] != c) by {
                assert(dist.contains(dist[k]));
            }
        }
    }
    let nm = m.insert(c, counts.len() as usize);
    assert forall|x: u32| #[trigger] nm.contains_key(x) <==> nd.contains(x) by {
        if x == c {
            assert(nd[dist.len() as int] == x);
        } else if dist.contains(x) {
            let j = choose|j: int| 0 <= j < dist.len() && dist[j] == x;
            assert(nd[j] == x);
        } else if nd.contains(x) {
            let j = choose|j: int| 0 <= j < nd.len() && nd[j] == x;
            if j < dist.len() {
                assert(dist[j] == x);
            }
        }
    }
    assert forall|x: u32| #[trigger] nm.contains_key(x) implies nm[x] < nd.len() && nd[nm[x] as int] == x by {
        if x != c {
            assert(m.contains_key(x));
        }
    }
}

/// The first overflowing pixel is the one that overflows with none before it.
proof fn lemma_first_overflow(s: Seq<u32>, i: int)
    requires
        overflows_at(s, i),
        forall|j: int| 0 <= j < i ==> !overflows_at(s, j),
    ensures
        has_overflow(s),
        first_overflow(s) == i,
{
    let k = first_overflow(s);
    assert(overflows_at(s, k) && forall|j: int| 0 <= j < k ==> !overflows_at(s, j));
    if k < i {
    } else if k > i {
    }
}

/// Big-endian packing of an RGBA pixel.
pub fn pack_rgba(pixel: &[u8]) -> (r: u32)
    requires
        pixel@.len() >= 4,
    ensures
        r == packed_color(pixel@, 0),
{
    (pixel[0] as u32) * 16777216 + (pixel[1] as u32) * 65536 + (pixel[2] as u32) * 256
        + pixel[3] as u32
}

/// Whether some pixel has alpha below 255, given the answer for the pixels
/// before `start`.
fn scan_alpha(image: &ImageData, start: usize, seen: bool) -> (r: bool)
    requires
        start <= image.data@.len() / 4,
        seen == alpha_below_opaque(image.data@, start as int),
    ensures
        r == alpha_below_opaque(image.data@, (image.data@.len() / 4) as int),
{
    let ghost d = image.data@;
    let n = image.data.len() / 4;
    let mut i = start;
    let mut found = seen;
    while i < n
        invariant
            d == image.data@,
            n == d.len() / 4,
            d.len() == image.data.len(),
            start <= i <= n,
            found == alpha_below_opaque(d, i as int),
        decreases n - i,
    {
        assert(4 * i + 3 < d.len()) by (nonlinear_arith)
            requires
                i < n,
                n == d.len() / 4,
        ;
        let below = image.data[4 * i + 3] < 255;
        proof {
            assert(pixel_alpha(d, i as int) == d[4 * i + 3]);
            if alpha_below_opaque(d, i + 1) && !(below || found) {
                let w = choose|w: int| 0 <= w < i + 1 && #[trigger] pixel_alpha(d, w) < 255;
                assert(w != i);
                assert(alpha_below_opaque(d, i as int));
            }
            if found {
                let w = choose|w: int| 0 <= w < i && #[trigger] pixel_alpha(d, w) < 255;
                assert(pixel_alpha(d, w) < 255);
            }
        }
        found = found || below;
        i = i + 1;
    }
    found
}

/// Analyze whether an RGBA image is suitable for palette-based PNG compression.
#[verifier::spinoff_prover]
#[verifier::rlimit(40)]
pub fn analyze_palette_suitability(image: &ImageData) -> (r: PaletteStats)
    ensures
        r == palette_stats_of(image.data@),
{
    let len = image.data.len();
    let n = len / 4;
    let ghost d = image.data@;
    let ghost s = pixel_colors(d);
    if n == 0 {
        return PaletteStats {
            unique_color_count: 0,
            unique_color_count_exceeded: false,
            top_256_pixel_count: 0,
            total_pixels: 0,
            has_alpha: false,
            recommendation: PaletteRecommendation::Off,
        };
    }
    let mut index_of: HashMap<u32, usize> = HashMap::new();
    let mut counts: Vec<u64> = Vec::new();
    let mut has_alpha = false;
    let mut i: usize = 0;
    proof {
        assert(s.take(0) =~= Seq::<u32>::empty());
        assert(distinct_colors(s.take(0)) =~= Seq::<u32>::empty());
    }
    while i < n
        invariant
            len == d.len(),
            d == image.data@,
            n == len / 4,
            s == pixel_colors(d),
            i <= n,
            has_alpha == alpha_below_opaque(d, i as int),
            counts_match(s.take(i as int), counts@),
            index_matches(s.take(i as int), index_of@),
            counts@.len() <= UNIQUE_COLOR_LIMIT,
            count_sum(counts@) == i,
            forall|j: int| 0 <= j < i ==> !overflows_at(s, j),
        decreases n - i,
    {
        let ghost t = s.take(i as int);
        assert(4 * i + 3 < len);
        let base = 4 * i;
        has_alpha = has_alpha || image.data[base + 3] < 255;
        let color = pack_rgba(&image.data[base..base + 4]);
        proof {
            assert(color == s[i as int]);
            assert(s.take(i + 1) == t.push(color));
            assert(pixel_alpha(d, i as int) == d[4 * i + 3]);
            assert(alpha_below_opaque(d, i + 1) == (alpha_below_opaque(d, i as int) || d[4 * i + 3] < 255)) by {
                if alpha_below_opaque(d, i + 1) && !(d[4 * i + 3] < 255) {
                    let w = choose|w: int| 0 <= w < i + 1 && #[trigger] pixel_alpha(d, w) < 255;
                    assert(w != i);
                    assert(alpha_below_opaque(d, i as int));
                }
            }
        }
        match index_of.get(&color) {
            Some(slot_ref) => {
                let slot = *slot_ref;
                proof {
                    assert(t.len() == i && i < n && n <= usize::MAX);
                    lemma_step_known_color(t, color, counts@, index_of@);
                    lemma_distinct_props(t);
                }
                let updated = counts[slot] + 1;
                proof {
                    lemma_count_sum_update(counts@, slot as int, updated);
                }
                counts.set(slot, updated);
            },
            None => {
                proof {
                    lemma_step_new_color(t, color, counts@, index_of@);
                }
                if counts.len() >= UNIQUE_COLOR_LIMIT {
                    proof {
                        assert(overflows_at(s, i as int));
                        lemma_first_overflow(s, i as int);
                    }
                    let has_alpha = scan_alpha(image, i + 1, has_alpha);
                    return PaletteStats {
                        unique_color_count: counts.len() as u32,
                        unique_color_count_exceeded: true,
                        top_256_pixel_count: 0,
                        total_pixels: n as u64,
                        has_alpha,
                        recommendation: PaletteRecommendation::Off,
                    };
                }
                let slot = counts.len();
                index_of.insert(color, slot);
                proof {
                    assert(counts@.push(1).drop_last() == counts@);
                }
                counts.push(1);
            },
        }
        i = i + 1;
    }
    proof {
        assert(s.take(n as int) == s);
        assert(!has_overflow(s));
        assert(counts@ =~= color_counts(s));
        assert(count_sum(counts@) <= u64::MAX);
    }
    let unique_color_count = counts.len() as u32;
    let top = top_color_count(&counts);
    let recommendation = if unique_color_count <= 256 {
        PaletteRecommendation::On
    } else if (top as u128) * 50 >= (n as u128) * 49 {
        PaletteRecommendation::On
    } else if (top as u128) * 10 >= (n as u128) * 9 {
        PaletteRecommendation::Review
    } else {
        PaletteRecommendation::Off
    };
    PaletteStats {
        unique_color_count,
        unique_color_count_exceeded: false,
        top_256_pixel_count: top,
        total_pixels: n as u64,
        has_alpha,
        recommendation,
    }
}

/// Descending order on pixel counts.
pub open spec fn count_desc() -> spec_fn(u64, u64) -> bool {
    |a: u64, b: u64| a >= b
}

/// Sum of a sequence of counts.
pub open spec fn count_sum(s: Seq<u64>) -> int
    decreases s.len(),
{
    if s.len() == 0 {
        0
    } else {
        count_sum(s.drop_last()) + s.last()
    }
}

/// Sum of the `k` largest counts (all of them when there are fewer than `k`).
pub open spec fn top_count_sum(counts: Seq<u64>, k: int) -> int {
    let sorted = counts.sort_by(count_desc());
    if k < sorted.len() {
        count_sum(sorted.take(k))
    } else {
        count_sum(sorted)
    }
}

proof fn lemma_count_desc_total()
    ensures
        total_ordering(count_desc()),
{
}

proof fn lemma_count_sum_nonneg(s: Seq<u64>)
    ensures
        0 <= count_sum(s),
    decreases s.len(),
{
    if s.len() > 0 {
        lemma_count_sum_nonneg(s.drop_last());
    }
}

/// A prefix sums to no more than the whole.
proof fn lemma_count_sum_prefix(s: Seq<u64>, k: int)
    requires
        0 <= k <= s.len(),
    ensures
        0 <= count_sum(s.take(k)) <= count_sum(s),
    decreases s.len(),
{
    if k == s.len() {
        assert(s.take(k) == s);
        lemma_count_sum_nonneg(s);
    } else {
        assert(s.take(k) == s.drop_last().take(k));
        lemma_count_sum_prefix(s.drop_last(), k);
    }
}

/// Inserting a count adds it to the sum.
proof fn lemma_count_sum_insert(s: Seq<u64>, p: int, v: u64)
    requires
        0 <= p <= s.len(),
    ensures
        count_sum(s.insert(p, v)) == count_sum(s) + v,
    decreases s.len(),
{
    if p == s.len() {
        assert(s.insert(p, v).drop_last() == s);
    } else {
        assert(s.insert(p, v).drop_last() == s.drop_last().insert(p, v));
        lemma_count_sum_insert(s.drop_last(), p, v);
    }
}

/// Replacing a count changes the sum by the difference.
proof fn lemma_count_sum_update(s: Seq<u64>, k: int, v: u64)
    requires
        0 <= k < s.len(),
    ensures
        count_sum(s.update(k, v)) == count_sum(s) - s[k] + v,
    decreases s.len(),
{
    if k == s.len() - 1 {
        assert(s.update(k, v).drop_last() == s.drop_last());
    } else {
        assert(s.update(k, v).drop_last() == s.drop_last().update(k, v));
        lemma_count_sum_update(s.drop_last(), k, v);
    }
}

/// Position at which `v` goes into the descending sequence `best`: after
/// every count at least `v`, before every smaller one.
fn descending_insert_position(best: &Vec<u64>, v: u64) -> (p: usize)
    requires
        sorted_by(best@, count_desc()),
    ensures
        p <= best@.len(),
        forall|j: int| 0 <= j < p ==> best@[j] >= v,
        forall|j: int| p <= j < best@.len() ==> best@[j] < v,
{
    let mut p: usize = 0;
    while p < best.len()
        invariant
            p <= best@.len(),
            sorted_by(best@, count_desc()),
            forall|j: int| 0 <= j < p ==> best@[j] >= v,
        decreases best@.len() - p,
    {
        if best[p] < v {
            assert forall|j: int| p <= j < best@.len() implies best@[j] < v by {
                if p < j {
                    assert(count_desc()(best@[p as int], best@[j]));
                }
            }
            return p;
        }
        p = p + 1;
    }
    p
}

proof fn lemma_insert_sorted(best: Seq<u64>, p: int, v: u64)
    requires
        sorted_by(best, count_desc()),
        0 <= p <= best.len(),
        forall|j: int| 0 <= j < p ==> best[j] >= v,
        forall|j: int| p <= j < best.len() ==> best[j] < v,
    ensures
        sorted_by(best.insert(p, v), count_desc()),
{
    let s = best.insert(p, v);
    assert forall|i: int, j: int| 0 <= i < j < s.len() implies #[trigger] count_desc()(
        s[i],
        s[j],
    ) by {
        if j < p {
            assert(count_desc()(best[i], best[j]));
        } else if j == p {
        } else if i < p {
            assert(s[j] == best[j - 1]);
        } else if i == p {
            assert(s[j] == best[j - 1]);
        } else {
            assert(count_desc()(best[i - 1], best[j - 1]));
        }
    }
}

/// Sum of the 256 largest counts.
pub fn top_color_count(counts: &Vec<u64>) -> (r: u64)
    requires
        count_sum(counts@) <= u64::MAX,
    ensures
        r == top_count_sum(counts@, 256),
{
    let n = counts.len();
    let mut best: Vec<u64> = Vec::new();
    let ghost mut rest: Seq<u64> = Seq::empty();
    let mut i: usize = 0;
    while i < n
        invariant
            n == counts@.len(),
            i <= n,
            sorted_by(best@, count_desc()),
            best@.len() == (if i < 256 {
                i as int
            } else {
                256
            }),
            (best@ + rest).to_multiset() == counts@.take(i as int).to_multiset(),
            forall|a: int, b: int| 0 <= a < rest.len() && 0 <= b < best@.len() ==> rest[a] <= best@[b],
            count_sum(best@) + count_sum(rest) == count_sum(counts@.take(i as int)),
        decreases n - i,
    {
        let v = counts[i];
        let ghost old_best = best@;
        let ghost old_rest = rest;
        assert(counts@.take(i + 1) == counts@.take(i as int).push(v));
        assert(counts@.take(i + 1).drop_last() == counts@.take(i as int));
        proof {
            assert((old_best + old_rest).to_multiset().len() == i);
            assert((old_best + old_rest).len() == i);
        }
        if best.len() < 256 {
            let p = descending_insert_position(&best, v);
            best.insert(p, v);
            proof {
                lemma_insert_sorted(old_best, p as int, v);
                lemma_count_sum_insert(old_best, p as int, v);
                assert(rest.len() == 0);
                assert(best@ + rest == (old_best + rest).insert(p as int, v));
            }
        } else if v > best[255] {
            let last = best.pop().unwrap();
            proof {
                rest = rest.push(last);
            }
            let ghost mid_best = best@;
            assert(sorted_by(mid_best, count_desc()));
            let p = descending_insert_position(&best, v);
            best.insert(p, v);
            proof {
                lemma_insert_sorted(mid_best, p as int, v);
                assert(old_best == mid_best.push(last));
                assert(old_best.drop_last() == mid_best);
                assert(rest.drop_last() == old_rest);
                lemma_count_sum_insert(mid_best, p as int, v);
                assert forall|b: int| 0 <= b < mid_best.len() implies last <= mid_best[b] by {
                    assert(count_desc()(old_best[b], old_best[255]));
                }
                assert(best@ + rest == (mid_best + old_rest).push(last).insert(p as int, v)) by {
                    assert(best@ + rest =~= (mid_best + old_rest).push(last).insert(p as int, v)) by {
                        assert forall|k: int| 0 <= k < (best@ + rest).len() implies (best@ + rest)[k] == (mid_best + old_rest).push(last).insert(p as int, v)[k] by {
                            if k < p {
                            } else if k == p {
                            } else if k < 256 {
                            } else {
                            }
                        }
                    }
                }
                assert((mid_best + old_rest).push(last).to_multiset() == (old_best + old_rest).to_multiset()) by {
                    vstd::seq_lib::lemma_multiset_commutative(mid_best, old_rest);
                    vstd::seq_lib::lemma_multiset_commutative(old_best, old_rest);
                    vstd::seq_lib::lemma_multiset_commutative(mid_best, seq![last]);
                    assert(old_best == mid_best + seq![last]);
                    vstd::seq_lib::lemma_multiset_commutative(mid_best + old_rest, seq![last]);
                    assert((mid_best + old_rest).push(last) == (mid_best + old_rest) + seq![last]);
                }
                assert forall|a: int, b: int| 0 <= a < rest.len() && 0 <= b < best@.len() implies rest[a] <= best@[b] by {
                    let x = rest[a];
                    assert(x <= last) by {
                        if a < old_rest.len() {
                            assert(old_rest[a] <= old_best[255]);
                        }
                    }
                    if b < p {
                        assert(best@[b] == mid_best[b]);
                    } else if b == p {
                    } else {
                        assert(best@[b] == mid_best[b - 1]);
                    }
                }
            }
        } else {
            proof {
                rest = rest.push(v);
                assert(rest.drop_last() == old_rest);
                assert(best@ + rest == (old_best + old_rest).push(v));
                assert forall|a: int, b: int| 0 <= a < rest.len() && 0 <= b < best@.len() implies rest[a] <= best@[b] by {
                    if a == old_rest.len() {
                        assert(count_desc()(best@[b], best@[255]));
                    }
                }
            }
        }
        i = i + 1;
    }
    proof {
        assert(counts@.take(n as int) == counts@);
        lemma_count_sum_nonneg(rest);
        lemma_count_desc_total();
        rest.lemma_sort_by_ensures(count_desc());
        counts@.lemma_sort_by_ensures(count_desc());
        let rs = rest.sort_by(count_desc());
        let candidate = best@ + rs;
        assert forall|x: int, y: int| 0 <= x < y < candidate.len() implies #[trigger] count_desc()(candidate[x], candidate[y]) by {
            if y < best@.len() {
                assert(count_desc()(best@[x], best@[y]));
            } else if x < best@.len() {
                assert(rs.to_multiset().count(rs[y - best@.len()]) > 0);
                assert(rest.contains(rs[y - best@.len()]));
                let a = choose|a: int| 0 <= a < rest.len() && rest[a] == rs[y - best@.len()];
                assert(rest[a] <= best@[x]);
            } else {
                assert(count_desc()(rs[x - best@.len()], rs[y - best@.len()]));
            }
        }
        vstd::seq_lib::lemma_multiset_commutative(best@, rs);
        vstd::seq_lib::lemma_multiset_commutative(best@, rest);
        vstd::seq_lib::lemma_sorted_unique(candidate, counts@.sort_by(count_desc()), count_desc());
        assert(candidate.take(best@.len() as int) == best@);
        assert((best@ + rest).to_multiset().len() == n);
        assert((best@ + rest).len() == n);
        assert(counts@.sort_by(count_desc()).to_multiset().len() == n);
        if n <= 256 {
            assert(rest.len() == 0);
            assert(rs.to_multiset().len() == 0);
            assert(rs.len() == 0);
            assert(candidate == best@);
        }
    }
    let mut total: u64 = 0;
    let mut k: usize = 0;
    while k < best.len()
        invariant
            k <= best@.len(),
            best@.len() <= 256,
            count_sum(best@) <= u64::MAX,
            total == count_sum(best@.take(k as int)),
        decreases best@.len() - k,
    {
        proof {
            lemma_count_sum_prefix(best@, k + 1);
            assert(best@.take(k + 1).drop_last() == best@.take(k as int));
        }
        total = total + best[k] as u64;
        k = k + 1;
    }
    proof {
        assert(best@.take(best@.len() as int) == best@);
    }
    total
}

/// A non-empty image with at most 256 distinct colors is always
/// recommended for palette output, with its exact color count; an empty
/// image, and one whose colors exceed the tracking limit, never is.
pub proof fn few_colors_recommend_palette(d: Seq<u8>)
    ensures
        d.len() / 4 > 0 && distinct_colors(pixel_colors(d)).len() <= 256 ==> {
            &&& palette_stats_of(d).recommendation == PaletteRecommendation::On
            &&& !palette_stats_of(d).unique_color_count_exceeded
            &&& palette_stats_of(d).unique_color_count == distinct_colors(pixel_colors(d)).len()
        },
        d.len() / 4 == 0 ==> palette_stats_of(d).recommendation == PaletteRecommendation::Off,
        palette_stats_of(d).unique_color_count_exceeded ==> palette_stats_of(d).recommendation
            == PaletteRecommendation::Off,
{
    let s = pixel_colors(d);
    if d.len() / 4 > 0 && distinct_colors(s).len() <= 256 {
        if has_overflow(s) {
            let i = choose|i: int| overflows_at(s, i);
            lemma_distinct_prefix_len(s, i, s.len() as int);
            assert(s.take(s.len() as int) =~= s);
        }
    }
}

} // verus!
