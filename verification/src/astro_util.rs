//! Star lists: relating what was detected in an image to what the catalog says is there.

use vstd::prelude::*;

verus! {

/// A place in an image, in micropixels.
#[derive(Clone, Copy, Debug, PartialEq, Eq, Structural)]
pub struct ImageCoord {
    /// Distance from the left edge.
    pub x: i64,
    /// Distance from the top edge.
    pub y: i64,
}

/// A star found in an image.
#[derive(Clone, Copy, Debug, PartialEq, Eq, Structural)]
pub struct StarCentroid {
    /// Where it was found.
    pub centroid_position: ImageCoord,
    /// Its brightness above the background, in thousandths of a pixel value.
    pub brightness: u64,
    /// How many of its pixels are saturated.
    pub num_saturated: i32,
}

/// A catalog object that lies in the field of view.
#[derive(Clone, Copy, Debug, PartialEq, Eq, Structural)]
pub struct FovCatalogEntry {
    /// Its magnitude, in thousandths.
    pub magnitude: i32,
    /// Where it appears in the image.
    pub image_pos: ImageCoord,
}

/// The square of the distance of two places, in square micropixels.
pub open spec fn image_distance_sq_value(a: ImageCoord, b: ImageCoord) -> int {
    (a.x - b.x) * (a.x - b.x) + (a.y - b.y) * (a.y - b.y)
}

/// Whether two places are less than two pixels apart.
pub open spec fn is_near(a: ImageCoord, b: ImageCoord) -> bool {
    image_distance_sq_value(a, b) < 4_000_000_000_000
}

/// Whether two places are less than two pixels apart.
fn near(a: &ImageCoord, b: &ImageCoord) -> (r: bool)
    ensures
        r == is_near(*a, *b),
{
    let dx: i128 = a.x as i128 - b.x as i128;
    let dy: i128 = a.y as i128 - b.y as i128;
    proof {
        let x = dx as int;
        let y = dy as int;
        assert(x * x >= 0 && y * y >= 0) by (nonlinear_arith);
        assert(x <= -2_000_000 || x >= 2_000_000 ==> x * x >= 4_000_000_000_000)
            by (nonlinear_arith);
        assert(y <= -2_000_000 || y >= 2_000_000 ==> y * y >= 4_000_000_000_000)
            by (nonlinear_arith);
        assert(-2_000_000 < x < 2_000_000 ==> x * x < 4_000_000_000_000) by (nonlinear_arith);
        assert(-2_000_000 < y < 2_000_000 ==> y * y < 4_000_000_000_000) by (nonlinear_arith);
    }
    -2_000_000 < dx && dx < 2_000_000 && -2_000_000 < dy && dy < 2_000_000 && dx * dx + dy * dy
        < 4_000_000_000_000
}

/// The first detection near a place, if there is one.
pub open spec fn first_near(detections: Seq<StarCentroid>, place: ImageCoord) -> Option<
    StarCentroid,
>
    decreases detections.len(),
{
    if detections.len() == 0 {
        None
    } else if is_near(detections[0].centroid_position, place) {
        Some(detections[0])
    } else {
        first_near(detections.skip(1), place)
    }
}

/// Brightness and magnitude of the first catalog entry that has a detection near it.
pub open spec fn reference(
    detections: Seq<StarCentroid>,
    catalog_entries: Seq<FovCatalogEntry>,
) -> Option<(u64, i32)>
    decreases catalog_entries.len(),
{
    if catalog_entries.len() == 0 {
        None
    } else {
        match first_near(detections, catalog_entries[0].image_pos) {
            Some(detection) => Some((detection.brightness, catalog_entries[0].magnitude)),
            None => reference(detections, catalog_entries.skip(1)),
        }
    }
}

/// Whether a function scales every brightness between every two magnitudes, always alike.
pub open spec fn is_scaling<F: Fn(u64, i32, i32) -> u64>(scale: F) -> bool {
    &&& forall|args: (u64, i32, i32)| #[trigger] call_requires(scale, args)
    &&& forall|args: (u64, i32, i32), a: u64, b: u64|
        #[trigger] call_ensures(scale, args, a) && #[trigger] call_ensures(scale, args, b) ==> a
            == b
}

/// The brightness of an object of magnitude `to`, where one of magnitude `from` is as bright as
/// `brightness`.
pub open spec fn scaled<F: Fn(u64, i32, i32) -> u64>(
    scale: F,
    brightness: u64,
    from: i32,
    to: i32,
) -> u64 {
    choose|r: u64| call_ensures(scale, (brightness, from, to), r)
}

/// A detection made up for a catalog entry.
pub open spec fn synthesized<F: Fn(u64, i32, i32) -> u64>(
    entry: FovCatalogEntry,
    known: (u64, i32),
    scale: F,
) -> StarCentroid {
    StarCentroid {
        centroid_position: entry.image_pos,
        brightness: scaled(scale, known.0, known.1, entry.magnitude),
        num_saturated: 0,
    }
}

/// Detections made up for the catalog entries without a detection near them, in their order.
pub open spec fn undetected<F: Fn(u64, i32, i32) -> u64>(
    detections: Seq<StarCentroid>,
    catalog_entries: Seq<FovCatalogEntry>,
    known: (u64, i32),
    scale: F,
) -> Seq<StarCentroid>
    decreases catalog_entries.len(),
{
    if catalog_entries.len() == 0 {
        Seq::empty()
    } else {
        let front = undetected(detections, catalog_entries.drop_last(), known, scale);
        if first_near(detections, catalog_entries.last().image_pos) is Some {
            front
        } else {
            front.push(synthesized(catalog_entries.last(), known, scale))
        }
    }
}

/// Two lists in descending brightness merged into one; of two stars equally bright the one of
/// the second list goes first.
pub open spec fn merged(a: Seq<StarCentroid>, b: Seq<StarCentroid>) -> Seq<StarCentroid>
    decreases a.len() + b.len(),
{
    if a.len() == 0 {
        b
    } else if b.len() == 0 {
        a
    } else if a[0].brightness > b[0].brightness {
        seq![a[0]] + merged(a.skip(1), b)
    } else {
        seq![b[0]] + merged(a, b.skip(1))
    }
}

/// The detections, joined by the catalog entries that have none.
pub open spec fn filled_in<F: Fn(u64, i32, i32) -> u64>(
    detections: Seq<StarCentroid>,
    catalog_entries: Seq<FovCatalogEntry>,
    scale: F,
) -> Seq<StarCentroid> {
    match reference(detections, catalog_entries) {
        Some(known) => merged(
            detections,
            undetected(detections, catalog_entries, known, scale),
        ),
        None => detections,
    }
}

/// Finds the first detection near a place.
fn find_near(detections: &Vec<StarCentroid>, place: &ImageCoord) -> (r: Option<StarCentroid>)
    ensures
        r == first_near(detections@, *place),
{
    let mut i: usize = 0;
    assert(detections@.skip(0) =~= detections@);
    while i < detections.len()
        invariant
            i <= detections.len(),
            first_near(detections@, *place) == first_near(detections@.skip(i as int), *place),
        decreases detections.len() - i,
    {
        let rest = Ghost(detections@.skip(i as int));
        if near(&detections[i].centroid_position, place) {
            assert(rest@[0] == detections@[i as int]);
            return Some(detections[i]);
        }
        assert(rest@.skip(1) =~= detections@.skip(i + 1));
        i = i + 1;
    }
    None
}

/// Merges two lists by descending brightness.
fn merge(a: &Vec<StarCentroid>, b: &Vec<StarCentroid>) -> (r: Vec<StarCentroid>)
    ensures
        r@ == merged(a@, b@),
{
    let mut r: Vec<StarCentroid> = Vec::new();
    let mut i: usize = 0;
    let mut j: usize = 0;
    assert(a@.skip(0) =~= a@);
    assert(b@.skip(0) =~= b@);
    while i < a.len() && j < b.len()
        invariant
            i <= a.len(),
            j <= b.len(),
            merged(a@, b@) == r@ + merged(a@.skip(i as int), b@.skip(j as int)),
        decreases a.len() - i + (b.len() - j),
    {
        let ghost x = a@.skip(i as int);
        let ghost y = b@.skip(j as int);
        let ghost before = r@;
        if a[i].brightness > b[j].brightness {
            r.push(a[i]);
            assert(x.skip(1) =~= a@.skip(i + 1));
            assert(before + (seq![x[0]] + merged(x.skip(1), y)) =~= r@ + merged(x.skip(1), y));
            i = i + 1;
        } else {
            r.push(b[j]);
            assert(y.skip(1) =~= b@.skip(j + 1));
            assert(before + (seq![y[0]] + merged(x, y.skip(1))) =~= r@ + merged(x, y.skip(1)));
            j = j + 1;
        }
    }
    let ghost tail = merged(a@.skip(i as int), b@.skip(j as int));
    let ghost head = r@;
    assert(i == a.len() ==> tail =~= b@.skip(j as int));
    assert(j == b.len() ==> tail =~= a@.skip(i as int));
    while i < a.len()
        invariant
            i <= a.len(),
            j <= b.len(),
            i < a.len() ==> j == b.len(),
            tail.len() == (a.len() - i) + (b.len() - j) + (r.len() - head.len()),
            r@ == head + tail.take(r.len() - head.len()),
            head.len() <= r.len(),
            forall|k: int| i <= k < a.len() ==> a@[k] == tail[k - i + (r.len() - head.len())],
            j < b.len() ==> r.len() == head.len(),
            j < b.len() ==> tail == b@.skip(j as int),
        decreases a.len() - i,
    {
        r.push(a[i]);
        i = i + 1;
        assert(r@ =~= head + tail.take(r.len() - head.len()));
    }
    while j < b.len()
        invariant
            j <= b.len(),
            tail.len() == (b.len() - j) + (r.len() - head.len()),
            r@ == head + tail.take(r.len() - head.len()),
            head.len() <= r.len(),
            forall|k: int| j <= k < b.len() ==> b@[k] == tail[k - j + (r.len() - head.len())],
        decreases b.len() - j,
    {
        r.push(b[j]);
        j = j + 1;
        assert(r@ =~= head + tail.take(r.len() - head.len()));
    }
    assert(tail.take(tail.len() as int) =~= tail);
    r
}

/// Adds to the detected stars the catalog entries that were not detected, bright stars and
/// planets that overwhelm the detector above all, with the brightness that they should have. The
/// first catalog entry that was detected relates magnitudes to brightness; without one the
/// detections are returned as they are. Both lists are in order of descending brightness.
///
/// `scale` gives the brightness of an object of one magnitude, from that of another.
pub fn fill_in_detections<F: Fn(u64, i32, i32) -> u64>(
    detections: &Vec<StarCentroid>,
    catalog_entries: &Vec<FovCatalogEntry>,
    scale: &F,
) -> (filled: Vec<StarCentroid>)
    requires
        is_scaling(*scale),
    ensures
        filled@ == filled_in(detections@, catalog_entries@, *scale),
{
    let mut known: Option<(u64, i32)> = None;
    let mut i: usize = 0;
    assert(catalog_entries@.skip(0) =~= catalog_entries@);
    while i < catalog_entries.len() && known.is_none()
        invariant
            i <= catalog_entries.len(),
            known is Some ==> known == reference(detections@, catalog_entries@),
            known is None ==> reference(detections@, catalog_entries@) == reference(
                detections@,
                catalog_entries@.skip(i as int),
            ),
        decreases catalog_entries.len() - i,
    {
        let ghost rest = catalog_entries@.skip(i as int);
        if let Some(detection) = find_near(detections, &catalog_entries[i].image_pos) {
            known = Some((detection.brightness, catalog_entries[i].magnitude));
        }
        assert(rest.skip(1) =~= catalog_entries@.skip(i + 1));
        i = i + 1;
    }
    let known: (u64, i32) = match known {
        Some(known) => known,
        None => {
            let same: Vec<StarCentroid> = detections.clone();
            assert(same@ =~= detections@);
            return same;
        },
    };

    let mut made_up: Vec<StarCentroid> = Vec::new();
    let mut i: usize = 0;
    while i < catalog_entries.len()
        invariant
            i <= catalog_entries.len(),
            is_scaling(*scale),
            made_up@ == undetected(
                detections@,
                catalog_entries@.take(i as int),
                known,
                *scale,
            ),
        decreases catalog_entries.len() - i,
    {
        let entry: FovCatalogEntry = catalog_entries[i];
        let ghost longer = catalog_entries@.take(i + 1);
        assert(longer.drop_last() =~= catalog_entries@.take(i as int));
        if find_near(detections, &entry.image_pos).is_none() {
            let brightness: u64 = scale(known.0, known.1, entry.magnitude);
            made_up.push(
                StarCentroid {
                    centroid_position: entry.image_pos,
                    brightness,
                    num_saturated: 0,
                },
            );
        }
        i = i + 1;
    }
    assert(catalog_entries@.take(catalog_entries.len() as int) =~= catalog_entries@);
    merge(detections, &made_up)
}

/// Whether stars are in order of descending brightness.
pub open spec fn is_descending(stars: Seq<StarCentroid>) -> bool {
    forall|i: int, j: int| 0 <= i <= j < stars.len() ==> stars[i].brightness >= stars[j].brightness
}

/// A merge holds exactly the stars of both lists.
proof fn lemma_merged_multiset(a: Seq<StarCentroid>, b: Seq<StarCentroid>)
    ensures
        merged(a, b).to_multiset() =~= a.to_multiset().add(b.to_multiset()),
    decreases a.len() + b.len(),
{
    broadcast use vstd::seq_lib::group_to_multiset_ensures;

    if a.len() == 0 {
        assert(a =~= Seq::empty());
    } else if b.len() == 0 {
        assert(b =~= Seq::empty());
    } else if a[0].brightness > b[0].brightness {
        lemma_merged_multiset(a.skip(1), b);
        vstd::seq_lib::lemma_multiset_commutative(seq![a[0]], merged(a.skip(1), b));
        vstd::seq_lib::lemma_multiset_commutative(seq![a[0]], a.skip(1));
        assert(seq![a[0]] + a.skip(1) =~= a);
    } else {
        lemma_merged_multiset(a, b.skip(1));
        vstd::seq_lib::lemma_multiset_commutative(seq![b[0]], merged(a, b.skip(1)));
        vstd::seq_lib::lemma_multiset_commutative(seq![b[0]], b.skip(1));
        assert(seq![b[0]] + b.skip(1) =~= b);
    }
}

/// A merge of two descending lists is descending, and no brighter than its brighter head.
proof fn lemma_merged_descending(a: Seq<StarCentroid>, b: Seq<StarCentroid>)
    requires
        is_descending(a),
        is_descending(b),
    ensures
        is_descending(merged(a, b)),
        merged(a, b).len() == a.len() + b.len(),
        a.len() > 0 && b.len() > 0 ==> merged(a, b)[0] == (if a[0].brightness > b[0].brightness {
            a[0]
        } else {
            b[0]
        }),
    decreases a.len() + b.len(),
{
    if a.len() > 0 && b.len() > 0 {
        let (head, rest) = if a[0].brightness > b[0].brightness {
            (a[0], merged(a.skip(1), b))
        } else {
            (b[0], merged(a, b.skip(1)))
        };
        if a[0].brightness > b[0].brightness {
            lemma_merged_descending(a.skip(1), b);
        } else {
            lemma_merged_descending(a, b.skip(1));
        }
        let all = seq![head] + rest;
        assert(merged(a, b) == all);
        assert forall|i: int, j: int| 0 <= i <= j < all.len() implies all[i].brightness
            >= all[j].brightness by {
            if i == 0 && j > 0 {
                assert(all[j] == rest[j - 1]);
                assert(rest[0].brightness >= rest[j - 1].brightness);
            } else if i > 0 {
                assert(all[i] == rest[i - 1] && all[j] == rest[j - 1]);
            }
        }
    }
}

/// Whether a star was made up for one of some catalog entries.
spec fn is_made_up<F: Fn(u64, i32, i32) -> u64>(
    star: StarCentroid,
    catalog_entries: Seq<FovCatalogEntry>,
    known: (u64, i32),
    scale: F,
) -> bool {
    exists|i: int|
        0 <= i < catalog_entries.len() && star == synthesized(
            #[trigger] catalog_entries[i],
            known,
            scale,
        )
}

/// The made-up detections follow the order of the catalog: descending, where fainter entries
/// come later and are scaled to less.
proof fn lemma_undetected_descending<F: Fn(u64, i32, i32) -> u64>(
    detections: Seq<StarCentroid>,
    catalog_entries: Seq<FovCatalogEntry>,
    known: (u64, i32),
    scale: F,
)
    requires
        forall|i: int, j: int|
            0 <= i <= j < catalog_entries.len() ==> scaled(
                scale,
                known.0,
                known.1,
                catalog_entries[i].magnitude,
            ) >= scaled(scale, known.0, known.1, catalog_entries[j].magnitude),
    ensures
        is_descending(undetected(detections, catalog_entries, known, scale)),
        forall|k: int|
            0 <= k < undetected(detections, catalog_entries, known, scale).len() ==> is_made_up(
                #[trigger] undetected(detections, catalog_entries, known, scale)[k],
                catalog_entries,
                known,
                scale,
            ),
    decreases catalog_entries.len(),
{
    if catalog_entries.len() > 0 {
        let front = catalog_entries.drop_last();
        lemma_undetected_descending(detections, front, known, scale);
        let shorter = undetected(detections, front, known, scale);
        let longer = undetected(detections, catalog_entries, known, scale);
        assert forall|k: int| 0 <= k < longer.len() implies is_made_up(
            #[trigger] longer[k],
            catalog_entries,
            known,
            scale,
        ) by {
            if k < shorter.len() {
                assert(is_made_up(shorter[k], front, known, scale));
                let i = choose|i: int|
                    0 <= i < front.len() && shorter[k] == synthesized(
                        #[trigger] front[i],
                        known,
                        scale,
                    );
                assert(catalog_entries[i] == front[i]);
            } else {
                assert(longer[k] == synthesized(
                    catalog_entries[catalog_entries.len() - 1],
                    known,
                    scale,
                ));
            }
        }
        assert forall|i: int, j: int| 0 <= i <= j < longer.len() implies longer[i].brightness
            >= longer[j].brightness by {
            if j < shorter.len() {
                assert(longer[i] == shorter[i] && longer[j] == shorter[j]);
            } else if i < shorter.len() {
                assert(longer[i] == shorter[i]);
                assert(is_made_up(shorter[i], front, known, scale));
                let at = choose|at: int|
                    0 <= at < front.len() && shorter[i] == synthesized(
                        #[trigger] front[at],
                        known,
                        scale,
                    );
                assert(catalog_entries[at] == front[at]);
                assert(longer[j] == synthesized(
                    catalog_entries[catalog_entries.len() - 1],
                    known,
                    scale,
                ));
            }
        }
    }
}

/// No detection is lost and none made up but for catalog entries: the result holds exactly the
/// detections and the entries without one. In order of descending brightness it stays, where
/// the catalog is in that order.
pub proof fn law_filled_in_keeps_detections<F: Fn(u64, i32, i32) -> u64>(
    detections: Seq<StarCentroid>,
    catalog_entries: Seq<FovCatalogEntry>,
    scale: F,
)
    ensures
        match reference(detections, catalog_entries) {
            Some(known) => {
                &&& filled_in(detections, catalog_entries, scale).to_multiset()
                    =~= detections.to_multiset().add(
                    undetected(detections, catalog_entries, known, scale).to_multiset(),
                )
                &&& is_descending(detections) && (forall|i: int, j: int|
                    0 <= i <= j < catalog_entries.len() ==> scaled(
                        scale,
                        known.0,
                        known.1,
                        catalog_entries[i].magnitude,
                    ) >= scaled(scale, known.0, known.1, catalog_entries[j].magnitude))
                    ==> is_descending(filled_in(detections, catalog_entries, scale))
            },
            None => filled_in(detections, catalog_entries, scale) == detections,
        },
{
    if let Some(known) = reference(detections, catalog_entries) {
        let made_up = undetected(detections, catalog_entries, known, scale);
        lemma_merged_multiset(detections, made_up);
        if is_descending(detections) && (forall|i: int, j: int|
            0 <= i <= j < catalog_entries.len() ==> scaled(
                scale,
                known.0,
                known.1,
                catalog_entries[i].magnitude,
            ) >= scaled(scale, known.0, known.1, catalog_entries[j].magnitude)) {
            lemma_undetected_descending(detections, catalog_entries, known, scale);
            lemma_merged_descending(detections, made_up);
        }
    }
}

/// There is a first detection near a place exactly where there is one at all.
proof fn lemma_first_near(detections: Seq<StarCentroid>, place: ImageCoord)
    ensures
        first_near(detections, place) is Some <==> (exists|i: int|
            0 <= i < detections.len() && is_near(
                (#[trigger] detections[i]).centroid_position,
                place,
            )),
    decreases detections.len(),
{
    if detections.len() > 0 && !is_near(detections[0].centroid_position, place) {
        let rest = detections.skip(1);
        lemma_first_near(rest, place);
        if first_near(rest, place) is Some {
            let i = choose|i: int|
                0 <= i < rest.len() && is_near((#[trigger] rest[i]).centroid_position, place);
            assert(detections[i + 1] == rest[i]);
        }
        if exists|i: int|
            0 <= i < detections.len() && is_near(
                (#[trigger] detections[i]).centroid_position,
                place,
            ) {
            let i = choose|i: int|
                0 <= i < detections.len() && is_near(
                    (#[trigger] detections[i]).centroid_position,
                    place,
                );
            assert(rest[i - 1] == detections[i]);
        }
    }
}

/// Merging loses no star of either list.
proof fn lemma_merged_contains(a: Seq<StarCentroid>, b: Seq<StarCentroid>, star: StarCentroid)
    requires
        a.contains(star) || b.contains(star),
    ensures
        merged(a, b).contains(star),
    decreases a.len() + b.len(),
{
    if a.len() > 0 && b.len() > 0 {
        let first = a[0].brightness > b[0].brightness;
        let head = if first {
            a[0]
        } else {
            b[0]
        };
        let rest = if first {
            merged(a.skip(1), b)
        } else {
            merged(a, b.skip(1))
        };
        let all = seq![head] + rest;
        assert(merged(a, b) == all);
        if star == head {
            assert(all[0] == star);
        } else {
            if a.contains(star) {
                let i = choose|i: int| 0 <= i < a.len() && a[i] == star;
                if first {
                    assert(a.skip(1)[i - 1] == star);
                }
            } else {
                let i = choose|i: int| 0 <= i < b.len() && b[i] == star;
                if !first {
                    assert(b.skip(1)[i - 1] == star);
                }
            }
            if first {
                lemma_merged_contains(a.skip(1), b, star);
            } else {
                lemma_merged_contains(a, b.skip(1), star);
            }
            let k = choose|k: int| 0 <= k < rest.len() && rest[k] == star;
            assert(all[k + 1] == star);
        }
    }
}

/// A catalog entry without a detection has one made up for it.
proof fn lemma_entry_made_up<F: Fn(u64, i32, i32) -> u64>(
    detections: Seq<StarCentroid>,
    catalog_entries: Seq<FovCatalogEntry>,
    known: (u64, i32),
    scale: F,
    i: int,
)
    requires
        0 <= i < catalog_entries.len(),
        first_near(detections, catalog_entries[i].image_pos) is None,
    ensures
        undetected(detections, catalog_entries, known, scale).contains(
            synthesized(catalog_entries[i], known, scale),
        ),
    decreases catalog_entries.len(),
{
    let front = catalog_entries.drop_last();
    let star = synthesized(catalog_entries[i], known, scale);
    let shorter = undetected(detections, front, known, scale);
    let longer = undetected(detections, catalog_entries, known, scale);
    if i < front.len() {
        assert(front[i] == catalog_entries[i]);
        lemma_entry_made_up(detections, front, known, scale, i);
        let k = choose|k: int| 0 <= k < shorter.len() && shorter[k] == star;
        assert(longer[k] == star);
    } else {
        assert(longer[longer.len() - 1] == star);
    }
}

/// Where every catalog entry has a detection, none is made up.
proof fn lemma_none_made_up<F: Fn(u64, i32, i32) -> u64>(
    detections: Seq<StarCentroid>,
    catalog_entries: Seq<FovCatalogEntry>,
    known: (u64, i32),
    scale: F,
)
    requires
        forall|i: int|
            0 <= i < catalog_entries.len() ==> first_near(
                detections,
                (#[trigger] catalog_entries[i]).image_pos,
            ) is Some,
    ensures
        undetected(detections, catalog_entries, known, scale).len() == 0,
    decreases catalog_entries.len(),
{
    if catalog_entries.len() > 0 {
        let front = catalog_entries.drop_last();
        assert forall|i: int| 0 <= i < front.len() implies first_near(
            detections,
            (#[trigger] front[i]).image_pos,
        ) is Some by {
            assert(front[i] == catalog_entries[i]);
        }
        lemma_none_made_up(detections, front, known, scale);
        assert(catalog_entries.last() == catalog_entries[catalog_entries.len() - 1]);
    }
}

/// Filling in once is enough: what is filled in again by the same catalog stays as it is.
pub proof fn law_filled_in_once<F: Fn(u64, i32, i32) -> u64>(
    detections: Seq<StarCentroid>,
    catalog_entries: Seq<FovCatalogEntry>,
    scale: F,
)
    ensures
        filled_in(filled_in(detections, catalog_entries, scale), catalog_entries, scale)
            == filled_in(detections, catalog_entries, scale),
{
    let once = filled_in(detections, catalog_entries, scale);
    if let Some(known) = reference(detections, catalog_entries) {
        let made_up = undetected(detections, catalog_entries, known, scale);
        assert forall|i: int| 0 <= i < catalog_entries.len() implies first_near(
            once,
            (#[trigger] catalog_entries[i]).image_pos,
        ) is Some by {
            let place = catalog_entries[i].image_pos;
            lemma_first_near(once, place);
            lemma_first_near(detections, place);
            if first_near(detections, place) is Some {
                let k = choose|k: int|
                    0 <= k < detections.len() && is_near(
                        (#[trigger] detections[k]).centroid_position,
                        place,
                    );
                lemma_merged_contains(detections, made_up, detections[k]);
                let j = choose|j: int| 0 <= j < once.len() && once[j] == detections[k];
                assert(is_near(once[j].centroid_position, place));
            } else {
                let star = synthesized(catalog_entries[i], known, scale);
                lemma_entry_made_up(detections, catalog_entries, known, scale, i);
                lemma_merged_contains(detections, made_up, star);
                let j = choose|j: int| 0 <= j < once.len() && once[j] == star;
                assert((place.x - place.x) * (place.x - place.x) == 0 && (place.y - place.y) * (place.y
                    - place.y) == 0) by (nonlinear_arith);
                assert(is_near(once[j].centroid_position, place));
            }
        }
        if let Some(again) = reference(once, catalog_entries) {
            lemma_none_made_up(once, catalog_entries, again, scale);
        }
    }
}

/// A catalog object that every detection is two pixels away from and more is filled in, where some
/// other is less than that away from one: the result has a star at its place exactly, none of whose
/// pixels are saturated.
pub proof fn law_missed_objects_are_filled_in<F: Fn(u64, i32, i32) -> u64>(
    detections: Vec<StarCentroid>,
    catalog_entries: Vec<FovCatalogEntry>,
    scale: F,
    filled: Vec<StarCentroid>,
    missed: int,
    seen: int,
    by: int,
)
    requires
        call_ensures(fill_in_detections::<F>, (&detections, &catalog_entries, &scale), filled),
        0 <= missed < catalog_entries@.len(),
        0 <= seen < catalog_entries@.len(),
        0 <= by < detections@.len(),
        ({
            let dx = catalog_entries@[seen].image_pos.x - detections@[by].centroid_position.x;
            let dy = catalog_entries@[seen].image_pos.y - detections@[by].centroid_position.y;
            dx * dx + dy * dy < 4_000_000_000_000
        }),
        forall|k: int|
            0 <= k < detections@.len() ==> {
                let place = (#[trigger] detections@[k]).centroid_position;
                let dx = catalog_entries@[missed].image_pos.x - place.x;
                let dy = catalog_entries@[missed].image_pos.y - place.y;
                dx * dx + dy * dy >= 4_000_000_000_000
            },
    ensures
        exists|j: int|
            0 <= j < filled@.len() && (#[trigger] filled@[j]).centroid_position
                == catalog_entries@[missed].image_pos && filled@[j].num_saturated == 0,
{
    let entries = catalog_entries@;
    let place = entries[missed].image_pos;
    assert forall|k: int| 0 <= k < detections@.len() implies !is_near(
        (#[trigger] detections@[k]).centroid_position,
        place,
    ) by {
        lemma_far_apart(detections@[k].centroid_position, place);
    }
    lemma_first_near(detections@, place);
    lemma_close_by(detections@[by].centroid_position, entries[seen].image_pos);
    lemma_first_near(detections@, entries[seen].image_pos);
    lemma_reference(detections@, entries, seen);
    let known = reference(detections@, entries)->0;
    lemma_entry_made_up(detections@, entries, known, scale, missed);
    let star = synthesized(entries[missed], known, scale);
    lemma_merged_contains(
        detections@,
        undetected(detections@, entries, known, scale),
        star,
    );
    let j = choose|j: int| 0 <= j < filled@.len() && filled@[j] == star;
    assert(filled@[j].centroid_position == place);
}

/// Whether some detection is less than two pixels away from a place.
pub open spec fn is_seen(detections: Seq<StarCentroid>, place: ImageCoord) -> bool {
    exists|k: int|
        0 <= k < detections.len() && ({
            let dx = (#[trigger] detections[k]).centroid_position.x - place.x;
            let dy = detections[k].centroid_position.y - place.y;
            dx * dx + dy * dy < 4_000_000_000_000
        })
}

/// A catalog object less than two pixels away from a detection is not filled in: where all are
/// that, the result is what was detected.
pub proof fn law_seen_objects_are_not_filled_in<F: Fn(u64, i32, i32) -> u64>(
    detections: Vec<StarCentroid>,
    catalog_entries: Vec<FovCatalogEntry>,
    scale: F,
    filled: Vec<StarCentroid>,
)
    requires
        call_ensures(fill_in_detections::<F>, (&detections, &catalog_entries, &scale), filled),
        forall|i: int|
            0 <= i < catalog_entries@.len() ==> is_seen(
                detections@,
                (#[trigger] catalog_entries@[i]).image_pos,
            ),
    ensures
        filled@ == detections@,
{
    let entries = catalog_entries@;
    assert forall|i: int| 0 <= i < entries.len() implies first_near(
        detections@,
        (#[trigger] entries[i]).image_pos,
    ) is Some by {
        let k = choose|k: int|
            0 <= k < detections@.len() && ({
                let dx = (#[trigger] detections@[k]).centroid_position.x - entries[i].image_pos.x;
                let dy = detections@[k].centroid_position.y - entries[i].image_pos.y;
                dx * dx + dy * dy < 4_000_000_000_000
            });
        let here = detections@[k].centroid_position;
        let place = entries[i].image_pos;
        assert((-(here.x - place.x)) * (-(here.x - place.x)) == (here.x - place.x) * (here.x
            - place.x) && (-(here.y - place.y)) * (-(here.y - place.y)) == (here.y - place.y) * (
        here.y - place.y)) by (nonlinear_arith);
        lemma_close_by(here, place);
        lemma_first_near(detections@, entries[i].image_pos);
    }
    if let Some(known) = reference(detections@, entries) {
        lemma_none_made_up(detections@, entries, known, scale);
        let made_up = undetected(detections@, entries, known, scale);
        if detections@.len() == 0 {
            assert(made_up =~= detections@);
        }
    }
}

/// Without a detection near some catalog object nothing is filled in, and what was detected is
/// always there.
pub proof fn law_detections_stay<F: Fn(u64, i32, i32) -> u64>(
    detections: Vec<StarCentroid>,
    catalog_entries: Vec<FovCatalogEntry>,
    scale: F,
    filled: Vec<StarCentroid>,
    k: int,
)
    requires
        call_ensures(fill_in_detections::<F>, (&detections, &catalog_entries, &scale), filled),
        0 <= k < detections@.len(),
    ensures
        filled@.contains(detections@[k]),
        filled@.len() <= detections@.len() + catalog_entries@.len(),
        (forall|i: int, j: int|
            0 <= i < catalog_entries@.len() && 0 <= j < detections@.len() ==> {
                let dx = (#[trigger] catalog_entries@[i]).image_pos.x - (
                #[trigger] detections@[j]).centroid_position.x;
                let dy = catalog_entries@[i].image_pos.y - detections@[j].centroid_position.y;
                dx * dx + dy * dy >= 4_000_000_000_000
            }) ==> filled@ == detections@,
{
    let entries = catalog_entries@;
    if let Some(known) = reference(detections@, entries) {
        let made_up = undetected(detections@, entries, known, scale);
        lemma_merged_contains(detections@, made_up, detections@[k]);
        lemma_merged_len(detections@, made_up);
        lemma_made_up_len(detections@, entries, known, scale);
        if forall|i: int, j: int|
            0 <= i < entries.len() && 0 <= j < detections@.len() ==> {
                let dx = (#[trigger] entries[i]).image_pos.x - (
                #[trigger] detections@[j]).centroid_position.x;
                let dy = entries[i].image_pos.y - detections@[j].centroid_position.y;
                dx * dx + dy * dy >= 4_000_000_000_000
            } {
            lemma_no_reference(detections@, entries);
        }
    }
}

/// Whatever is filled in stands for a catalog object and is as bright as the magnitude of that
/// says, going by the first catalog object that was detected: by its brightness, as it was first
/// detected, and its magnitude.
pub proof fn law_filled_in_brightness<F: Fn(u64, i32, i32) -> u64>(
    detections: Vec<StarCentroid>,
    catalog_entries: Vec<FovCatalogEntry>,
    scale: F,
    filled: Vec<StarCentroid>,
    seen: int,
    by: int,
    star: StarCentroid,
)
    requires
        is_scaling(scale),
        call_ensures(fill_in_detections::<F>, (&detections, &catalog_entries, &scale), filled),
        0 <= seen < catalog_entries@.len(),
        0 <= by < detections@.len(),
        ({
            let dx = catalog_entries@[seen].image_pos.x - detections@[by].centroid_position.x;
            let dy = catalog_entries@[seen].image_pos.y - detections@[by].centroid_position.y;
            dx * dx + dy * dy < 4_000_000_000_000
        }),
        forall|i: int, j: int|
            0 <= i <= seen && 0 <= j < detections@.len() && (i < seen || j < by) ==> {
                let dx = (#[trigger] catalog_entries@[i]).image_pos.x - (
                #[trigger] detections@[j]).centroid_position.x;
                let dy = catalog_entries@[i].image_pos.y - detections@[j].centroid_position.y;
                dx * dx + dy * dy >= 4_000_000_000_000
            },
        filled@.contains(star),
        !detections@.contains(star),
    ensures
        exists|i: int|
            0 <= i < catalog_entries@.len() && star.centroid_position == (
            #[trigger] catalog_entries@[i]).image_pos && forall|brightness: u64| #[trigger]
                call_ensures(
                    scale,
                    (
                        detections@[by].brightness,
                        catalog_entries@[seen].magnitude,
                        catalog_entries@[i].magnitude,
                    ),
                    brightness,
                ) ==> star.brightness == brightness,
{
    let entries = catalog_entries@;
    assert forall|i: int, j: int|
        0 <= i <= seen && 0 <= j < detections@.len() && (i < seen || j < by) implies !is_near(
        (#[trigger] detections@[j]).centroid_position,
        (#[trigger] entries[i]).image_pos,
    ) by {
        let there = detections@[j].centroid_position;
        let place = entries[i].image_pos;
        lemma_far_apart(there, place);
    }
    lemma_close_by(detections@[by].centroid_position, entries[seen].image_pos);
    lemma_first_is(detections@, entries[seen].image_pos, by);
    lemma_reference_is(detections@, entries, seen);
    let known = reference(detections@, entries)->0;
    let made_up = undetected(detections@, entries, known, scale);
    lemma_merged_from(detections@, made_up, star);
    lemma_undetected_from(detections@, entries, known, scale, star);
    let i = choose|i: int|
        0 <= i < entries.len() && star == synthesized(#[trigger] entries[i], known, scale);
    assert(star.centroid_position == entries[i].image_pos);
}

/// The first detection near a place is the one that none before it is near.
proof fn lemma_first_is(detections: Seq<StarCentroid>, place: ImageCoord, by: int)
    requires
        0 <= by < detections.len(),
        is_near(detections[by].centroid_position, place),
        forall|j: int| 0 <= j < by
            ==> !is_near((#[trigger] detections[j]).centroid_position, place),
    ensures
        first_near(detections, place) == Some(detections[by]),
    decreases detections.len(),
{
    if by > 0 {
        let rest = detections.skip(1);
        assert(!is_near(detections[0].centroid_position, place));
        assert(rest[by - 1] == detections[by]);
        assert forall|j: int| 0 <= j < by - 1 implies !is_near(
            (#[trigger] rest[j]).centroid_position,
            place,
        ) by {
            assert(rest[j] == detections[j + 1]);
        }
        lemma_first_is(rest, place, by - 1);
    }
}

/// What is gone by is the first catalog entry that was detected.
proof fn lemma_reference_is(
    detections: Seq<StarCentroid>,
    catalog_entries: Seq<FovCatalogEntry>,
    seen: int,
)
    requires
        0 <= seen < catalog_entries.len(),
        first_near(detections, catalog_entries[seen].image_pos) is Some,
        forall|i: int, j: int|
            0 <= i < seen && 0 <= j < detections.len() ==> !is_near(
                (#[trigger] detections[j]).centroid_position,
                (#[trigger] catalog_entries[i]).image_pos,
            ),
    ensures
        reference(detections, catalog_entries) == Some(
            (
                first_near(detections, catalog_entries[seen].image_pos)->0.brightness,
                catalog_entries[seen].magnitude,
            ),
        ),
    decreases catalog_entries.len(),
{
    if seen > 0 {
        lemma_first_near(detections, catalog_entries[0].image_pos);
        let rest = catalog_entries.skip(1);
        assert(rest[seen - 1] == catalog_entries[seen]);
        assert forall|i: int, j: int|
            0 <= i < seen - 1 && 0 <= j < detections.len() implies !is_near(
            (#[trigger] detections[j]).centroid_position,
            (#[trigger] rest[i]).image_pos,
        ) by {
            assert(rest[i] == catalog_entries[i + 1]);
        }
        lemma_reference_is(detections, rest, seen - 1);
    }
}

/// Every detection that is made up stands for a catalog entry.
proof fn lemma_undetected_from<F: Fn(u64, i32, i32) -> u64>(
    detections: Seq<StarCentroid>,
    catalog_entries: Seq<FovCatalogEntry>,
    known: (u64, i32),
    scale: F,
    star: StarCentroid,
)
    requires
        undetected(detections, catalog_entries, known, scale).contains(star),
    ensures
        is_made_up(star, catalog_entries, known, scale),
    decreases catalog_entries.len(),
{
    if catalog_entries.len() > 0 {
        let front = catalog_entries.drop_last();
        let shorter = undetected(detections, front, known, scale);
        let longer = undetected(detections, catalog_entries, known, scale);
        let k = choose|k: int| 0 <= k < longer.len() && longer[k] == star;
        if k < shorter.len() {
            assert(shorter[k] == star);
            lemma_undetected_from(detections, front, known, scale, star);
            let i = choose|i: int|
                0 <= i < front.len() && star == synthesized(#[trigger] front[i], known, scale);
            assert(catalog_entries[i] == front[i]);
        } else {
            assert(star == synthesized(catalog_entries[catalog_entries.len() - 1], known, scale));
        }
    }
}

/// Where two places are two pixels apart and more, they are not near.
proof fn lemma_far_apart(a: ImageCoord, b: ImageCoord)
    requires
        (b.x - a.x) * (b.x - a.x) + (b.y - a.y) * (b.y - a.y) >= 4_000_000_000_000,
    ensures
        !is_near(a, b),
{
    let x = a.x - b.x;
    let y = a.y - b.y;
    assert((-x) * (-x) == x * x && (-y) * (-y) == y * y) by (nonlinear_arith);
}

/// Where two places are less than two pixels apart, they are near.
proof fn lemma_close_by(a: ImageCoord, b: ImageCoord)
    requires
        (b.x - a.x) * (b.x - a.x) + (b.y - a.y) * (b.y - a.y) < 4_000_000_000_000,
    ensures
        is_near(a, b),
{
    let x = a.x - b.x;
    let y = a.y - b.y;
    assert((-x) * (-x) == x * x && (-y) * (-y) == y * y) by (nonlinear_arith);
}

/// There is something to go by where some catalog entry was detected.
proof fn lemma_reference(
    detections: Seq<StarCentroid>,
    catalog_entries: Seq<FovCatalogEntry>,
    seen: int,
)
    requires
        0 <= seen < catalog_entries.len(),
        first_near(detections, catalog_entries[seen].image_pos) is Some,
    ensures
        reference(detections, catalog_entries) is Some,
    decreases catalog_entries.len(),
{
    if seen > 0 && first_near(detections, catalog_entries[0].image_pos) is None {
        assert(catalog_entries.skip(1)[seen - 1] == catalog_entries[seen]);
        lemma_reference(detections, catalog_entries.skip(1), seen - 1);
    }
}

/// There is nothing to go by where no catalog entry was detected.
proof fn lemma_no_reference(detections: Seq<StarCentroid>, catalog_entries: Seq<FovCatalogEntry>)
    requires
        forall|i: int, j: int|
            0 <= i < catalog_entries.len() && 0 <= j < detections.len() ==> {
                let dx = (#[trigger] catalog_entries[i]).image_pos.x - (
                #[trigger] detections[j]).centroid_position.x;
                let dy = catalog_entries[i].image_pos.y - detections[j].centroid_position.y;
                dx * dx + dy * dy >= 4_000_000_000_000
            },
    ensures
        reference(detections, catalog_entries) is None,
    decreases catalog_entries.len(),
{
    if catalog_entries.len() > 0 {
        let place = catalog_entries[0].image_pos;
        assert forall|j: int| 0 <= j < detections.len() implies !is_near(
            (#[trigger] detections[j]).centroid_position,
            place,
        ) by {
            let there = detections[j].centroid_position;
            assert(place == catalog_entries[0].image_pos);
            lemma_far_apart(there, place);
        }
        lemma_first_near(detections, place);
        let rest = catalog_entries.skip(1);
        assert forall|i: int, j: int| 0 <= i < rest.len() && 0 <= j < detections.len() implies {
            let dx = (#[trigger] rest[i]).image_pos.x - (
            #[trigger] detections[j]).centroid_position.x;
            let dy = rest[i].image_pos.y - detections[j].centroid_position.y;
            dx * dx + dy * dy >= 4_000_000_000_000
        } by {
            assert(rest[i] == catalog_entries[i + 1]);
        }
        lemma_no_reference(detections, rest);
    }
}

/// A merge is as long as both lists.
proof fn lemma_merged_len(a: Seq<StarCentroid>, b: Seq<StarCentroid>)
    ensures
        merged(a, b).len() == a.len() + b.len(),
    decreases a.len() + b.len(),
{
    if a.len() > 0 && b.len() > 0 {
        if a[0].brightness > b[0].brightness {
            lemma_merged_len(a.skip(1), b);
        } else {
            lemma_merged_len(a, b.skip(1));
        }
    }
}

/// No more detections are made up than there are catalog entries.
proof fn lemma_made_up_len<F: Fn(u64, i32, i32) -> u64>(
    detections: Seq<StarCentroid>,
    catalog_entries: Seq<FovCatalogEntry>,
    known: (u64, i32),
    scale: F,
)
    ensures
        undetected(detections, catalog_entries, known, scale).len() <= catalog_entries.len(),
    decreases catalog_entries.len(),
{
    if catalog_entries.len() > 0 {
        lemma_made_up_len(detections, catalog_entries.drop_last(), known, scale);
    }
}

/// A merge has no star that neither list has.
proof fn lemma_merged_from(a: Seq<StarCentroid>, b: Seq<StarCentroid>, star: StarCentroid)
    requires
        merged(a, b).contains(star),
    ensures
        a.contains(star) || b.contains(star),
{
    broadcast use vstd::seq_lib::group_to_multiset_ensures;

    lemma_merged_multiset(a, b);
    assert(merged(a, b).to_multiset().count(star) > 0);
}

/// What is filled in stands before a detection that is no brighter, and after one that is.
pub proof fn law_brighter_comes_first<F: Fn(u64, i32, i32) -> u64>(
    detections: Vec<StarCentroid>,
    catalog_entries: Vec<FovCatalogEntry>,
    scale: F,
    filled: Vec<StarCentroid>,
    brightness: u64,
)
    requires
        is_scaling(scale),
        detections@.len() == 1,
        catalog_entries@.len() == 2,
        ({
            let d = detections@[0].centroid_position;
            let near = catalog_entries@[0].image_pos;
            let far = catalog_entries@[1].image_pos;
            &&& (near.x - d.x) * (near.x - d.x) + (near.y - d.y) * (near.y - d.y)
                < 4_000_000_000_000
            &&& (far.x - d.x) * (far.x - d.x) + (far.y - d.y) * (far.y - d.y) >= 4_000_000_000_000
        }),
        call_ensures(
            scale,
            (
                detections@[0].brightness,
                catalog_entries@[0].magnitude,
                catalog_entries@[1].magnitude,
            ),
            brightness,
        ),
        call_ensures(
            fill_in_detections::<F>,
            (&detections, &catalog_entries, &scale),
            filled,
        ),
    ensures
        ({
            let made = StarCentroid {
                centroid_position: catalog_entries@[1].image_pos,
                brightness,
                num_saturated: 0,
            };
            &&& brightness >= detections@[0].brightness ==> filled@ == seq![made, detections@[0]]
            &&& brightness < detections@[0].brightness ==> filled@ == seq![detections@[0], made]
        }),
{
    let d = detections@;
    let c = catalog_entries@;
    lemma_close_by(d[0].centroid_position, c[0].image_pos);
    lemma_far_apart(d[0].centroid_position, c[1].image_pos);
    let none = Seq::<StarCentroid>::empty();
    assert(d.skip(1) =~= none);
    assert(first_near(d, c[0].image_pos) == Some(d[0]));
    assert(first_near(none, c[1].image_pos) is None);
    assert(first_near(d, c[1].image_pos) is None);
    let known = (d[0].brightness, c[0].magnitude);
    assert(reference(d, c) == Some(known));
    let one = c.drop_last();
    let no_entries = one.drop_last();
    assert(undetected(d, no_entries, known, scale) =~= none);
    assert(one.last() == c[0] && c.last() == c[1]);
    assert(undetected(d, one, known, scale) =~= none);
    let made = synthesized(c[1], known, scale);
    assert(undetected(d, c, known, scale) =~= seq![made]);
    let extra = seq![made];
    assert(extra.skip(1) =~= none);
    assert(merged(none, extra) == extra && merged(d, none) == d);
    if d[0].brightness > made.brightness {
        assert(merged(d, extra) =~= seq![d[0]] + extra);
        assert(seq![d[0]] + extra =~= seq![d[0], made]);
    } else {
        assert(merged(d, extra) =~= seq![made] + d);
        assert(seq![made] + d =~= seq![made, d[0]]);
    }
}

} // verus!
