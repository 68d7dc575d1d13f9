//! Blob records and the filter that keeps the regions worth pairing.

use vstd::prelude::*;

verus! {

/// A position in frame coordinates.
#[derive(Clone, Copy, Debug, PartialEq, Eq, Structural)]
pub struct Point {
    pub x: i32,
    pub y: i32,
}

/// An axis-aligned rectangle in frame coordinates.
#[derive(Clone, Copy, Debug, PartialEq, Eq, Structural)]
pub struct Rect {
    pub x: i32,
    pub y: i32,
    pub width: i32,
    pub height: i32,
}

/// The geometry of one connected region of a marker's mask.
#[derive(Clone, Copy, Debug, PartialEq, Eq, Structural)]
pub struct BlobInfo {
    /// The number of pixels in the region.
    pub area: i32,
    pub centroid: Point,
    pub bbox: Rect,
}

/// The measurements that labelling reports for one label.
#[derive(Clone, Copy, Debug, PartialEq, Eq, Structural)]
pub struct LabelStats {
    pub area: i32,
    pub left: i32,
    pub top: i32,
    pub width: i32,
    pub height: i32,
    pub centroid_x: i32,
    pub centroid_y: i32,
}

/// What is left of a labelled mask once the small regions are gone.
pub struct BlobbingRet {
    /// The labels of the regions that were kept, in ascending order.
    pub kept: Vec<usize>,
    /// The regions that were kept, largest first.
    pub info: Vec<BlobInfo>,
}

impl BlobInfo {
    /// Whether the blob covers at least one pixel and has a width and a height.
    pub open spec fn valid(self) -> bool {
        self.area >= 1 && self.bbox.width > 0 && self.bbox.height > 0
    }

    /// Whether the blob covers at least one pixel and has a width and a height.
    pub fn is_valid(&self) -> (r: bool)
        ensures
            r == self.valid(),
    {
        self.area >= 1 && self.bbox.width > 0 && self.bbox.height > 0
    }
}

/// The blob that a label's measurements describe.
pub open spec fn blob_of(stats: LabelStats) -> BlobInfo {
    BlobInfo {
        area: stats.area,
        centroid: Point { x: stats.centroid_x, y: stats.centroid_y },
        bbox: Rect { x: stats.left, y: stats.top, width: stats.width, height: stats.height },
    }
}

/// Whether label `k` is kept: it is not the background, label `0`, and its
/// region covers at least `min_size` pixels.
pub open spec fn is_kept(stats: Seq<LabelStats>, min_size: int, k: int) -> bool {
    1 <= k < stats.len() && stats[k].area >= min_size
}

/// The blobs of `blobs` whose area is `area`, in their order.
pub open spec fn with_area(blobs: Seq<BlobInfo>, area: int) -> Seq<BlobInfo> {
    blobs.filter(|b: BlobInfo| b.area == area)
}

/// Whether no blob comes before a larger one.
pub open spec fn largest_first(blobs: Seq<BlobInfo>) -> bool {
    forall|i: int, j: int| 0 <= i < j < blobs.len() ==> blobs[i].area >= blobs[j].area
}

/// Whether `out` holds the blobs of `inp` with blobs of equal area in the
/// order they have in `inp`.
pub open spec fn keeps_order_within_area(out: Seq<BlobInfo>, inp: Seq<BlobInfo>) -> bool {
    out.len() == inp.len() && forall|area: int| #[trigger]
        with_area(out, area) == with_area(inp, area)
}

proof fn lemma_with_area_absent(blobs: Seq<BlobInfo>, area: int)
    requires
        forall|i: int| 0 <= i < blobs.len() ==> blobs[i].area != area,
    ensures
        with_area(blobs, area) == Seq::<BlobInfo>::empty(),
{
    let pred = |b: BlobInfo| b.area == area;
    let found = blobs.filter(pred);
    if found.len() > 0 {
        blobs.lemma_filter_pred(pred, 0);
        assert(found.contains(found[0]));
        blobs.lemma_filter_contains_rev(pred, found[0]);
    }
    assert(found =~= Seq::<BlobInfo>::empty());
}

proof fn lemma_with_area_insert(out: Seq<BlobInfo>, p: int, x: BlobInfo, area: int)
    requires
        0 <= p <= out.len(),
        forall|i: int| p <= i < out.len() ==> out[i].area < x.area,
    ensures
        with_area(out.insert(p, x), area) == if x.area == area {
            with_area(out, area).push(x)
        } else {
            with_area(out, area)
        },
{
    let pred = |b: BlobInfo| b.area == area;
    let head = out.take(p);
    let tail = out.skip(p);
    assert(out =~= head + tail);
    assert(out.insert(p, x) =~= head.push(x) + tail);
    Seq::filter_distributes_over_add(head, tail, pred);
    Seq::filter_distributes_over_add(head.push(x), tail, pred);
    head.lemma_filter_push(x, pred);
    if x.area == area {
        lemma_with_area_absent(tail, area);
        assert(head.filter(pred).push(x) + Seq::<BlobInfo>::empty() =~= (head.filter(pred)
            + Seq::<BlobInfo>::empty()).push(x));
    }
}

proof fn lemma_with_area_of_last(blobs: Seq<BlobInfo>, area: int)
    requires
        blobs.len() > 0,
    ensures
        with_area(blobs, area) == if blobs.last().area == area {
            with_area(blobs.drop_last(), area).push(blobs.last())
        } else {
            with_area(blobs.drop_last(), area)
        },
{
    assert(blobs =~= blobs.drop_last().push(blobs.last()));
    blobs.drop_last().lemma_filter_push(blobs.last(), |b: BlobInfo| b.area == area);
}

proof fn lemma_with_area_holds_a_blob(blobs: Seq<BlobInfo>, area: int)
    requires
        with_area(blobs, area).len() > 0,
    ensures
        exists|i: int| 0 <= i < blobs.len() && (#[trigger] blobs[i]).area == area,
{
    let pred = |b: BlobInfo| b.area == area;
    let found = blobs.filter(pred);
    blobs.lemma_filter_pred(pred, 0);
    assert(found.contains(found[0]));
    blobs.lemma_filter_contains_rev(pred, found[0]);
    let i = choose|i: int| 0 <= i < blobs.len() && blobs[i] == found[0];
    assert(blobs[i].area == area);
}

/// There is one way to put blobs largest first and keep those of equal area
/// in their order: two such orders of the same blobs are the same.
pub proof fn lemma_largest_first_is_one_order(a: Seq<BlobInfo>, b: Seq<BlobInfo>)
    requires
        largest_first(a),
        largest_first(b),
        keeps_order_within_area(a, b),
    ensures
        a == b,
    decreases a.len(),
{
    if a.len() == 0 {
        assert(a =~= b);
    } else {
        let x = a.last();
        let y = b.last();
        let shorter_a = a.drop_last();
        let shorter_b = b.drop_last();
        lemma_with_area_of_last(a, x.area as int);
        lemma_with_area_of_last(b, x.area as int);
        lemma_with_area_of_last(a, y.area as int);
        lemma_with_area_of_last(b, y.area as int);
        assert(with_area(a, x.area as int) == with_area(b, x.area as int));
        assert(with_area(a, y.area as int) == with_area(b, y.area as int));
        // Each holds a blob of the area of the other's last, which is its
        // smallest, so the two last blobs have the same area.
        lemma_with_area_holds_a_blob(b, x.area as int);
        lemma_with_area_holds_a_blob(a, y.area as int);
        let i = choose|i: int| 0 <= i < b.len() && (#[trigger] b[i]).area == x.area;
        let j = choose|j: int| 0 <= j < a.len() && (#[trigger] a[j]).area == y.area;
        assert(b[i].area >= y.area);
        assert(a[j].area >= x.area);
        assert(x.area == y.area);
        // They are the last of the blobs of that area, which are the same.
        let last_a = with_area(shorter_a, x.area as int).push(x);
        let last_b = with_area(shorter_b, x.area as int).push(y);
        assert(last_a == last_b);
        assert(last_a.last() == x && last_b.last() == y);
        assert(last_a.drop_last() =~= with_area(shorter_a, x.area as int));
        assert(last_b.drop_last() =~= with_area(shorter_b, x.area as int));
        assert forall|area: int| #[trigger]
            with_area(shorter_a, area) == with_area(shorter_b, area) by {
            lemma_with_area_of_last(a, area);
            lemma_with_area_of_last(b, area);
            assert(with_area(a, area) == with_area(b, area));
        }
        assert forall|i: int, j: int| 0 <= i < j < shorter_a.len() implies shorter_a[i].area
            >= shorter_a[j].area by {
            assert(shorter_a[i] == a[i] && shorter_a[j] == a[j]);
        }
        assert forall|i: int, j: int| 0 <= i < j < shorter_b.len() implies shorter_b[i].area
            >= shorter_b[j].area by {
            assert(shorter_b[i] == b[i] && shorter_b[j] == b[j]);
        }
        lemma_largest_first_is_one_order(shorter_a, shorter_b);
        assert(a =~= shorter_a.push(x));
        assert(b =~= shorter_b.push(y));
    }
}

/// Orders blobs by area, largest first; blobs of equal area keep their order.
pub fn sort_by_area_descending(blobs: &Vec<BlobInfo>) -> (r: Vec<BlobInfo>)
    ensures
        largest_first(r@),
        keeps_order_within_area(r@, blobs@),
{
    let mut out: Vec<BlobInfo> = Vec::new();
    let mut i: usize = 0;
    assert(blobs@.take(0) =~= out@);
    while i < blobs.len()
        invariant
            i <= blobs.len(),
            largest_first(out@),
            keeps_order_within_area(out@, blobs@.take(i as int)),
        decreases blobs.len() - i,
    {
        let x = blobs[i];
        let mut p: usize = 0;
        while p < out.len() && out[p].area >= x.area
            invariant
                p <= out.len(),
                forall|j: int| 0 <= j < p ==> out[j].area >= x.area,
            decreases out.len() - p,
        {
            p += 1;
        }
        proof {
            let before = out@;
            let after = before.insert(p as int, x);
            let seen = blobs@.take(i as int);
            assert(blobs@.take(i + 1) =~= seen.push(x));
            assert forall|area: int| #[trigger]
                with_area(after, area) == with_area(seen.push(x), area) by {
                lemma_with_area_insert(before, p as int, x, area);
                seen.lemma_filter_push(x, |b: BlobInfo| b.area == area);
                assert(with_area(before, area) == with_area(seen, area));
            }
            assert forall|a: int, b: int| 0 <= a < b < after.len() implies after[a].area
                >= after[b].area by {
                if b < p {
                    assert(after[a] == before[a] && after[b] == before[b]);
                } else if b == p {
                    assert(after[a] == before[a]);
                } else if a < p {
                    assert(after[a] == before[a] && after[b] == before[b - 1]);
                } else if a == p {
                    assert(after[b] == before[b - 1]);
                } else {
                    assert(after[a] == before[a - 1] && after[b] == before[b - 1]);
                }
            }
        }
        out.insert(p, x);
        i += 1;
    }
    assert(blobs@.take(blobs.len() as int) =~= blobs@);
    out
}

/// The blobs of the labels in `kept`, in that order.
pub open spec fn blobs_of_labels(stats: Seq<LabelStats>, kept: Seq<usize>) -> Seq<BlobInfo> {
    Seq::new(kept.len(), |i: int| blob_of(stats[kept[i] as int]))
}

impl BlobbingRet {
    /// Whether this is what is left of the labels measured in `stats` once
    /// the background and the regions of fewer than `min_size` pixels are
    /// gone: the labels kept, in ascending order, and their blobs, largest
    /// first and otherwise by label.
    pub open spec fn is_remainder_of(self, stats: Seq<LabelStats>, min_size: int) -> bool {
        &&& forall|i: int, j: int|
            0 <= i < j < self.kept@.len() ==> self.kept@[i] < self.kept@[j]
        &&& forall|k: usize| self.kept@.contains(k) <==> is_kept(stats, min_size, k as int)
        &&& largest_first(self.info@)
        &&& keeps_order_within_area(self.info@, blobs_of_labels(stats, self.kept@))
    }
}

/// Drops the background and every region of fewer than `min_size` pixels, and
/// orders what is left by area, largest first. `stats` holds one entry per
/// label, the background's first.
pub fn remove_blobs(stats: &Vec<LabelStats>, min_size: i32) -> (r: BlobbingRet)
    ensures
        r.is_remainder_of(stats@, min_size as int),
{
    let mut kept: Vec<usize> = Vec::new();
    let mut survivors: Vec<BlobInfo> = Vec::new();
    let mut k: usize = 1;
    while k < stats.len()
        invariant
            1 <= k,
            forall|i: int| 0 <= i < kept@.len() ==> 1 <= #[trigger] kept@[i] < k,
            forall|i: int, j: int| 0 <= i < j < kept@.len() ==> kept@[i] < kept@[j],
            forall|j: int|
                0 <= j < k ==> (kept@.contains(j as usize) <==> is_kept(
                    stats@,
                    min_size as int,
                    j,
                )),
            survivors@ =~= blobs_of_labels(stats@, kept@),
        decreases stats.len() - k,
    {
        let row = stats[k];
        if row.area >= min_size {
            let ghost before = kept@;
            kept.push(k);
            survivors.push(
                BlobInfo {
                    area: row.area,
                    centroid: Point { x: row.centroid_x, y: row.centroid_y },
                    bbox: Rect { x: row.left, y: row.top, width: row.width, height: row.height },
                },
            );
            proof {
                assert(kept@[before.len() as int] == k);
                assert forall|j: int| 0 <= j < k + 1 implies (kept@.contains(j as usize)
                    <==> is_kept(stats@, min_size as int, j)) by {
                    if before.contains(j as usize) {
                        let at = choose|at: int| 0 <= at < before.len() && before[at] == j as usize;
                        assert(kept@[at] == j as usize);
                    }
                    if kept@.contains(j as usize) && j < k {
                        let at = choose|at: int| 0 <= at < kept@.len() && kept@[at] == j as usize;
                        assert(before[at] == j as usize);
                    }
                }
            }
        } else {
            proof {
                if kept@.contains(k) {
                    let at = choose|at: int| 0 <= at < kept@.len() && kept@[at] == k;
                    assert(kept@[at] < k);
                }
            }
        }
        k += 1;
    }
    proof {
        assert forall|j: usize| kept@.contains(j) <==> is_kept(stats@, min_size as int, j as int) by {
            if kept@.contains(j) {
                let at = choose|at: int| 0 <= at < kept@.len() && kept@[at] == j;
                assert(1 <= kept@[at] < k);
            }
        }
    }
    let info = sort_by_area_descending(&survivors);
    BlobbingRet { kept, info }
}

} // verus!
