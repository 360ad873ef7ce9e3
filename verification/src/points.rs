use vstd::prelude::*;
use crate::rng::SeededRng;
use crate::rng::std_rng_stream;

verus! {

/// Bounding box of the synthetic dataset (Paris area), in millionths of a
/// degree: lon in [2.25, 2.45), lat in [48.80, 48.92).
pub const LON_MIN_MICRO: u64 = 2_250_000;

pub const LON_SPAN_MICRO: u64 = 200_000;

pub const LAT_MIN_MICRO: u64 = 48_800_000;

pub const LAT_SPAN_MICRO: u64 = 120_000;

/// Fixed seed of the dataset, so repeated runs compare the same points.
pub const POINT_SEED: u64 = 42;

/// Glyph size of every marker, in tenths: 50 stands for a size of 5.0,
/// kept small so glyph drawing stays cheap.
pub const SYMBOL_SIZE_DECI: u64 = 50;

/// One labeled marker: a geographic coordinate in millionths of a degree,
/// a display label as ASCII bytes, and the glyph size of its style record.
pub struct GeoPoint {
    pub lon_micro: u64,
    pub lat_micro: u64,
    pub label: Vec<u8>,
    pub symbol_size_deci: u64,
}

/// Decimal digits of `n`, most significant first, as ASCII bytes.
pub open spec fn dec_digits(n: nat) -> Seq<u8>
    decreases n,
{
    if n < 10 {
        seq![(48 + n) as u8]
    } else {
        dec_digits(n / 10) + seq![(48 + n % 10) as u8]
    }
}

/// The label of the `i`-th point: the letter `P` followed by `i` in decimal.
pub open spec fn spec_label(i: nat) -> Seq<u8> {
    seq![80u8] + dec_digits(i)
}

pub proof fn lemma_dec_digits_len(n: nat)
    ensures
        dec_digits(n).len() >= 1,
        dec_digits(n).len() == 1 <==> n < 10,
    decreases n,
{
    if n >= 10 {
        lemma_dec_digits_len(n / 10);
    }
}

/// The decimal representation is injective: equal digit strings come only
/// from equal numbers.
pub proof fn lemma_dec_digits_inj(a: nat, b: nat)
    requires
        dec_digits(a) == dec_digits(b),
    ensures
        a == b,
    decreases a,
{
    lemma_dec_digits_len(a);
    lemma_dec_digits_len(b);
    if a < 10 && b < 10 {
        assert(dec_digits(a) == seq![(48 + a) as u8]);
        assert(dec_digits(b) == seq![(48 + b) as u8]);
        assert(dec_digits(a)[0] == (48 + a) as u8);
        assert(dec_digits(b)[0] == (48 + b) as u8);
        assert(dec_digits(a)[0] == dec_digits(b)[0]);
        assert((48 + a) as u8 == (48 + b) as u8);
    } else if a < 10 || b < 10 {
        assert(dec_digits(a).len() == dec_digits(b).len());
        assert(false);
    } else {
        assert(dec_digits(a).last() == (48 + a % 10) as u8);
        assert(dec_digits(b).last() == (48 + b % 10) as u8);
        assert(a % 10 == b % 10);
        assert(dec_digits(a).drop_last() =~= dec_digits(a / 10));
        assert(dec_digits(b).drop_last() =~= dec_digits(b / 10));
        lemma_dec_digits_inj(a / 10, b / 10);
        vstd::arithmetic::div_mod::lemma_fundamental_div_mod(a as int, 10);
        vstd::arithmetic::div_mod::lemma_fundamental_div_mod(b as int, 10);
    }
}

/// Law: labels are pairwise distinct — different indices give different
/// label byte strings.
pub proof fn lemma_labels_unique(i: nat, j: nat)
    requires
        i != j,
    ensures
        spec_label(i) != spec_label(j),
{
    if spec_label(i) == spec_label(j) {
        assert(spec_label(i).subrange(1, spec_label(i).len() as int) =~= dec_digits(i));
        assert(spec_label(j).subrange(1, spec_label(j).len() as int) =~= dec_digits(j));
        assert(dec_digits(i) == dec_digits(j));
        lemma_dec_digits_inj(i, j);
        assert(false);
    }
}

/// Decimal digits of `n` as a byte vector, matching `dec_digits`.
pub fn dec_digits_vec(n: usize) -> (r: Vec<u8>)
    ensures
        r@ == dec_digits(n as nat),
    decreases n,
{
    if n < 10 {
        let mut r: Vec<u8> = Vec::new();
        r.push(48 + n as u8);
        proof {
            assert(r@ =~= dec_digits(n as nat));
        }
        r
    } else {
        let mut r = dec_digits_vec(n / 10);
        r.push(48 + (n % 10) as u8);
        proof {
            assert(r@ =~= dec_digits(n as nat));
        }
        r
    }
}

/// The label bytes of the `i`-th point, matching `spec_label`.
pub fn label_bytes(i: usize) -> (r: Vec<u8>)
    ensures
        r@ == spec_label(i as nat),
{
    let mut r: Vec<u8> = Vec::new();
    r.push(80);
    let mut d = dec_digits_vec(i);
    r.append(&mut d);
    proof {
        assert(r@ =~= spec_label(i as nat));
    }
    r
}

/// Longitude of the `k`-th point of a seed's dataset, in microdegrees: the
/// `2k`-th stream value folded into the box's longitude span.
pub open spec fn spec_lon(seed: u64, k: int) -> int {
    LON_MIN_MICRO + (std_rng_stream(seed, (2 * k) as u64) as int) % (LON_SPAN_MICRO as int)
}

/// Latitude of the `k`-th point of a seed's dataset, in microdegrees: the
/// `2k+1`-th stream value folded into the box's latitude span.
pub open spec fn spec_lat(seed: u64, k: int) -> int {
    LAT_MIN_MICRO + (std_rng_stream(seed, (2 * k + 1) as u64) as int) % (LAT_SPAN_MICRO as int)
}

/// The `k`-th point of a seed's dataset has exactly these coordinates,
/// label and style.
pub open spec fn point_matches(p: GeoPoint, seed: u64, k: int) -> bool {
    &&& p.lon_micro == spec_lon(seed, k)
    &&& p.lat_micro == spec_lat(seed, k)
    &&& p.label@ == spec_label(k as nat)
    &&& p.symbol_size_deci == SYMBOL_SIZE_DECI
}

/// `ps` is exactly the dataset of `n` points that `seed` determines.
pub open spec fn points_generated(ps: Seq<GeoPoint>, seed: u64, n: nat) -> bool {
    &&& ps.len() == n
    &&& forall|k: int| 0 <= k < n ==> point_matches(#[trigger] ps[k], seed, k)
}

/// Build the dataset of `n` labeled points that `seed` determines, each
/// inside the bounding box, with sequential labels.
pub fn make_points_seeded(seed: u64, n: usize) -> (ps: Vec<GeoPoint>)
    requires
        2 * (n as int) < u64::MAX,
    ensures
        points_generated(ps@, seed, n as nat),
{
    let mut rng = SeededRng::new(seed);
    let mut ps: Vec<GeoPoint> = Vec::new();
    let mut k: usize = 0;
    while k < n
        invariant
            rng.seed() == seed,
            rng.drawn() == 2 * (k as int),
            ps@.len() == k,
            k <= n,
            2 * (n as int) < u64::MAX,
            forall|j: int| 0 <= j < k ==> point_matches(#[trigger] ps@[j], seed, j),
        decreases n - k,
    {
        let raw_lon = rng.next_u64();
        let raw_lat = rng.next_u64();
        let lon = LON_MIN_MICRO + raw_lon % LON_SPAN_MICRO;
        let lat = LAT_MIN_MICRO + raw_lat % LAT_SPAN_MICRO;
        let label = label_bytes(k);
        let p = GeoPoint { lon_micro: lon, lat_micro: lat, label, symbol_size_deci: SYMBOL_SIZE_DECI };
        proof {
            assert((2 * (k as int)) as u64 == 2 * (k as int));
            assert((2 * (k as int) + 1) as u64 == 2 * (k as int) + 1);
            assert(point_matches(p, seed, k as int));
        }
        ps.push(p);
        k += 1;
    }
    ps
}

/// Build the benchmark dataset: `n` points from the fixed seed.
pub fn make_points(n: usize) -> (ps: Vec<GeoPoint>)
    requires
        2 * (n as int) < u64::MAX,
    ensures
        points_generated(ps@, POINT_SEED, n as nat),
{
    make_points_seeded(POINT_SEED, n)
}

/// Law: generation is deterministic — two datasets of the same seed and
/// count agree on every coordinate, label and style, element by element.
pub proof fn lemma_points_deterministic(a: Seq<GeoPoint>, b: Seq<GeoPoint>, seed: u64, n: nat)
    requires
        points_generated(a, seed, n),
        points_generated(b, seed, n),
    ensures
        a.len() == b.len(),
        forall|k: int|
            0 <= k < n ==> {
                &&& (#[trigger] a[k]).lon_micro == b[k].lon_micro
                &&& a[k].lat_micro == b[k].lat_micro
                &&& a[k].label@ == b[k].label@
                &&& a[k].symbol_size_deci == b[k].symbol_size_deci
            },
{
}

/// Law: every generated point lies inside the bounding box, its label is
/// the letter `P` followed by its index in decimal, and labels are unique.
pub proof fn lemma_points_in_bbox(ps: Seq<GeoPoint>, seed: u64, n: nat)
    requires
        points_generated(ps, seed, n),
    ensures
        forall|k: int|
            0 <= k < n ==> {
                &&& LON_MIN_MICRO <= (#[trigger] ps[k]).lon_micro < LON_MIN_MICRO + LON_SPAN_MICRO
                &&& LAT_MIN_MICRO <= ps[k].lat_micro < LAT_MIN_MICRO + LAT_SPAN_MICRO
                &&& ps[k].label@ == spec_label(k as nat)
            },
        forall|i: int, j: int|
            0 <= i < n && 0 <= j < n && i != j ==> (#[trigger] ps[i]).label@ != (
            #[trigger] ps[j]).label@,
{
    assert forall|k: int| 0 <= k < n implies {
        &&& LON_MIN_MICRO <= (#[trigger] ps[k]).lon_micro < LON_MIN_MICRO + LON_SPAN_MICRO
        &&& LAT_MIN_MICRO <= ps[k].lat_micro < LAT_MIN_MICRO + LAT_SPAN_MICRO
        &&& ps[k].label@ == spec_label(k as nat)
    } by {
        vstd::arithmetic::div_mod::lemma_mod_bound(
            std_rng_stream(seed, (2 * k) as u64) as int,
            LON_SPAN_MICRO as int,
        );
        vstd::arithmetic::div_mod::lemma_mod_bound(
            std_rng_stream(seed, (2 * k + 1) as u64) as int,
            LAT_SPAN_MICRO as int,
        );
    }
    assert forall|i: int, j: int|
        0 <= i < n && 0 <= j < n && i != j implies (#[trigger] ps[i]).label@ != (
    #[trigger] ps[j]).label@ by {
        lemma_labels_unique(i as nat, j as nat);
    }
}

} // verus!
