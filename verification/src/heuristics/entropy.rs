//! Shannon entropy of file names in integer arithmetic.

use vstd::prelude::*;
use vstd::seq_lib::group_to_multiset_ensures;

verus! {

/// The score above which a new file name counts as random.
pub const ENTROPY_THRESHOLD: u32 = 4300;

/// An approximation of `log2(x) * 1024` for each byte-sized `x`, with zero for zero: rounded down up
/// to twelve, coarser beyond.
pub const SCALED_LOG2: [u32; 256] = [
    0, 0, 1024, 1623, 2048, 2377, 2647, 2874, 3072, 3246, 3401, 3542, 3671, 3790, 3900, 4004,
    4100, 4191, 4276, 4356, 4432, 4504, 4572, 4638, 4700, 4760, 4817, 4872, 4925, 4976, 5026, 5074,
    5120, 5164, 5208, 5250, 5291, 5332, 5371, 5410, 5448, 5485, 5521, 5557, 5592, 5626, 5660, 5693,
    5726, 5758, 5789, 5820, 5851, 5881, 5910, 5939, 5968, 5996, 6024, 6052, 6079, 6106, 6132, 6158,
    6184, 6209, 6234, 6259, 6283, 6307, 6331, 6355, 6378, 6401, 6424, 6446, 6468, 6490, 6512, 6533,
    6555, 6576, 6596, 6617, 6638, 6658, 6678, 6698, 6718, 6737, 6757, 6776, 6795, 6814, 6833, 6851,
    6870, 6888, 6906, 6924, 6942, 6960, 6977, 6995, 7012, 7029, 7046, 7063, 7080, 7096, 7113, 7129,
    7145, 7161, 7177, 7193, 7209, 7224, 7240, 7255, 7270, 7285, 7300, 7315, 7330, 7345, 7359, 7374,
    7388, 7402, 7416, 7430, 7444, 7458, 7472, 7486, 7499, 7513, 7526, 7540, 7553, 7566, 7579, 7592,
    7605, 7618, 7631, 7643, 7656, 7668, 7681, 7693, 7705, 7718, 7730, 7742, 7754, 7766, 7778, 7789,
    7801, 7813, 7824, 7836, 7847, 7859, 7870, 7881, 7892, 7903, 7914, 7925, 7936, 7947, 7958, 7969,
    7979, 7990, 8000, 8011, 8021, 8032, 8042, 8052, 8062, 8072, 8083, 8093, 8103, 8113, 8123, 8132,
    8142, 8152, 8162, 8171, 8181, 8191, 8200, 8210, 8219, 8229, 8238, 8247, 8257, 8266, 8275, 8284,
    8294, 8303, 8312, 8321, 8330, 8339, 8348, 8356, 8365, 8374, 8383, 8392, 8400, 8409, 8418, 8426,
    8435, 8443, 8452, 8460, 8469, 8477, 8485, 8494, 8502, 8510, 8518, 8527, 8535, 8543, 8551, 8559,
    8567, 8575, 8583, 8591, 8599, 8607, 8615, 8622, 8630, 8638, 8646, 8653, 8661, 8669, 8676, 8684,
];

/// The scaled logarithm of a length or count, taken modulo 256 as the table is.
pub open spec fn scaled_log2(n: nat) -> nat {
    SCALED_LOG2@[(n % 256) as int] as nat
}

/// How often the byte `b` occurs in `name`.
pub open spec fn occurrences(name: Seq<u8>, b: u8) -> nat {
    name.to_multiset().count(b)
}

/// The sum of `c * log2(c)` over the counts `c` of the byte values below `upto`.
pub open spec fn weighted_sum(name: Seq<u8>, upto: nat) -> nat
    decreases upto,
{
    if upto == 0 {
        0
    } else {
        let c = occurrences(name, (upto - 1) as u8);
        weighted_sum(name, (upto - 1) as nat) + c * scaled_log2(c)
    }
}

/// The scaled entropy of a file name: `log2(n)` less the average of `log2(c)` over its bytes.
pub open spec fn entropy(name: Seq<u8>) -> nat {
    let n = if name.len() == 0 {
        1
    } else {
        name.len()
    };
    let average = weighted_sum(name, 256) / n;
    if scaled_log2(n) > average {
        (scaled_log2(n) - average) as nat
    } else {
        0
    }
}

/// No entry of the table exceeds the last one.
proof fn lemma_table_bound(n: nat)
    ensures
        scaled_log2(n) <= 8684,
{
    assert(SCALED_LOG2@[(n % 256) as int] <= 8684);
}

/// The entropy score of a file name.
pub fn compute_entropy(name: &[u8]) -> (r: u32)
    requires
        name@.len() <= u32::MAX,
    ensures
        r == entropy(name@),
{
    broadcast use group_to_multiset_ensures;

    let mut counts: Vec<u32> = Vec::new();
    let mut k: usize = 0;
    while k < 256
        invariant
            k <= 256,
            counts@.len() == k,
            forall|b: int| 0 <= b < k ==> counts@[b] == 0,
        decreases 256 - k,
    {
        counts.push(0);
        k = k + 1;
    }
    let mut i: usize = 0;
    assert(name@.take(0) =~= Seq::<u8>::empty());
    while i < name.len()
        invariant
            i <= name@.len() <= u32::MAX,
            counts@.len() == 256,
            forall|b: int|
                0 <= b < 256 ==> counts@[b] == #[trigger] occurrences(
                    name@.take(i as int),
                    b as u8,
                ),
            forall|b: int| 0 <= b < 256 ==> counts@[b] <= i,
        decreases name@.len() - i,
    {
        let b = name[i] as usize;
        assert(name@.take(i + 1) =~= name@.take(i as int).push(name@[i as int]));
        let c = counts[b];
        let ghost before = counts@;
        counts.set(b, c + 1);
        let ghost seen = name@.take(i as int);
        proof {
            seen.to_multiset_ensures();
        }
        assert forall|v: int| 0 <= v < 256 implies counts@[v] == #[trigger] occurrences(
            name@.take(i + 1),
            v as u8,
        ) by {
            assert(before[v] == occurrences(name@.take(i as int), v as u8));
        }
        i = i + 1;
    }
    assert(name@.take(i as int) =~= name@);
    let mut sum: u64 = 0;
    let mut v: usize = 0;
    while v < 256
        invariant
            v <= 256,
            counts@.len() == 256,
            forall|b: int| 0 <= b < 256 ==> counts@[b] == #[trigger] occurrences(name@, b as u8),
            sum == weighted_sum(name@, v as nat),
            sum <= v * 0x1_0000_0000 * 8684,
        decreases 256 - v,
    {
        let c = counts[v];
        assert(c == occurrences(name@, v as u8));
        proof {
            lemma_table_bound(c as nat);
        }
        let weight = SCALED_LOG2[(c % 256) as usize];
        assert(c as u64 * weight as u64 <= 0x1_0000_0000 * 8684) by (nonlinear_arith)
            requires
                c <= 0xffff_ffff,
                weight <= 8684,
        ;
        sum = sum + c as u64 * weight as u64;
        v = v + 1;
    }
    let n: u64 = if name.len() == 0 {
        1
    } else {
        name.len() as u64
    };
    let average = sum / n;
    let ceiling = SCALED_LOG2[(n % 256) as usize];
    if ceiling as u64 > average {
        (ceiling as u64 - average) as u32
    } else {
        0
    }
}

/// Whether a file name is random enough to betray an encryption run, in the model.
pub open spec fn suspicious(name: Seq<u8>) -> bool {
    entropy(name) > ENTROPY_THRESHOLD
}

/// Whether a file name is random enough to betray an encryption run.
pub fn is_suspicious(name: &[u8]) -> (r: bool)
    requires
        name@.len() <= u32::MAX,
    ensures
        r == suspicious(name@),
        r == (entropy(name@) > ENTROPY_THRESHOLD),
{
    compute_entropy(name) > ENTROPY_THRESHOLD
}

/// The score of a name does not depend on the order of its bytes.
pub proof fn law_entropy_ignores_order(a: Seq<u8>, b: Seq<u8>)
    requires
        a.to_multiset() == b.to_multiset(),
    ensures
        entropy(a) == entropy(b),
{
    broadcast use group_to_multiset_ensures;

    lemma_same_counts_same_sum(a, b, 256);
    assert(a.len() == a.to_multiset().len());
    assert(b.len() == b.to_multiset().len());
}

proof fn lemma_same_counts_same_sum(a: Seq<u8>, b: Seq<u8>, upto: nat)
    requires
        a.to_multiset() == b.to_multiset(),
    ensures
        weighted_sum(a, upto) == weighted_sum(b, upto),
    decreases upto,
{
    if upto > 0 {
        lemma_same_counts_same_sum(a, b, (upto - 1) as nat);
    }
}

/// No name scores above the entropy of as many distinct bytes.
pub proof fn law_entropy_bounded_by_length(name: Seq<u8>)
    ensures
        name.len() > 0 ==> entropy(name) <= scaled_log2(name.len()),
        name.len() == 0 ==> entropy(name) == 0,
{
    if name.len() == 0 {
        assert(SCALED_LOG2@[1] == 0);
    }
}

/// A name of at most eighteen bytes never crosses the threshold, whatever its bytes are.
pub proof fn law_short_names_are_benign(name: Seq<u8>)
    requires
        name.len() <= 18,
    ensures
        entropy(name) <= ENTROPY_THRESHOLD,
{
    law_entropy_bounded_by_length(name);
    let n = name.len() as int;
    assert(n <= 18 ==> SCALED_LOG2@[n] <= 4276);
}

/// A name that repeats a single byte has no entropy.
pub proof fn law_repeated_byte_scores_zero(name: Seq<u8>, b: u8)
    requires
        0 < name.len() < 256,
        forall|i: int| 0 <= i < name.len() ==> name[i] == b,
    ensures
        entropy(name) == 0,
{
    broadcast use group_to_multiset_ensures;

    let n = name.len();
    assert(occurrences(name, b) == n) by {
        lemma_single_byte_count(name, b);
    }
    lemma_single_byte_sum(name, b, 256);
    assert((n * scaled_log2(n)) / n == scaled_log2(n)) by (nonlinear_arith)
        requires
            n > 0,
    ;
}

proof fn lemma_single_byte_count(name: Seq<u8>, b: u8)
    requires
        forall|i: int| 0 <= i < name.len() ==> name[i] == b,
    ensures
        forall|v: u8| #[trigger]
            occurrences(name, v) == if v == b {
                name.len()
            } else {
                0
            },
    decreases name.len(),
{
    broadcast use group_to_multiset_ensures;

    if name.len() == 0 {
        assert(name =~= Seq::<u8>::empty());
    } else {
        lemma_single_byte_count(name.drop_last(), b);
        assert(name =~= name.drop_last().push(b));
        assert forall|v: u8| #[trigger]
            occurrences(name, v) == if v == b {
                name.len()
            } else {
                0
            } by {
            assert(occurrences(name.drop_last(), v) == if v == b {
                (name.len() - 1) as nat
            } else {
                0
            });
        }
    }
}

proof fn lemma_single_byte_sum(name: Seq<u8>, b: u8, upto: nat)
    requires
        forall|i: int| 0 <= i < name.len() ==> name[i] == b,
        upto <= 256,
    ensures
        weighted_sum(name, upto) == if b < upto {
            name.len() * scaled_log2(name.len())
        } else {
            0
        },
    decreases upto,
{
    if upto > 0 {
        lemma_single_byte_sum(name, b, (upto - 1) as nat);
        lemma_single_byte_count(name, b);
        let v = (upto - 1) as u8;
        assert(occurrences(name, v) == if v == b {
            name.len()
        } else {
            0
        });
        if v != b {
            assert(0 * scaled_log2(0) == 0);
        }
    }
}

/// The table is an approximate logarithm: it starts at zero, never falls, and goes up by 1024 with
/// each doubling of a number below seven.
pub proof fn law_table_is_a_logarithm(x: nat)
    ensures
        scaled_log2(1) == 0,
        1 <= x < 7 ==> scaled_log2(2 * x) == scaled_log2(x) + 1024,
        1 <= x < 255 ==> scaled_log2(x) <= scaled_log2(x + 1),
{
    lemma_first_entries();
    if 1 <= x < 7 {
        assert(x == 1 || x == 2 || x == 3 || x == 4 || x == 5 || x == 6);
    }
    if 1 <= x < 255 {
        lemma_table_ascends();
        lemma_ascent(x, 254);
    }
}

proof fn lemma_first_entries()
    ensures
        scaled_log2(1) == 0 && scaled_log2(2) == 1024 && scaled_log2(3) == 1623,
        scaled_log2(4) == 2048 && scaled_log2(5) == 2377 && scaled_log2(6) == 2647,
        scaled_log2(8) == 3072 && scaled_log2(10) == 3401 && scaled_log2(12) == 3671,
{
    let t = SCALED_LOG2@;
    assert(t[1] == 0 && t[2] == 1024 && t[4] == 2048 && t[8] == 3072);
    assert(t[3] == 1623 && t[6] == 2647 && t[12] == 3671 && t[5] == 2377 && t[10] == 3401);
}

spec fn grows_upto(n: nat) -> bool
    decreases n,
{
    n == 0 || (grows_upto((n - 1) as nat) && scaled_log2(n) <= scaled_log2(n + 1))
}

proof fn lemma_table_ascends()
    ensures
        grows_upto(254),
{
    reveal_with_fuel(grows_upto, 17);
    assert(grows_upto(16));
    assert(grows_upto(32));
    assert(grows_upto(48));
    assert(grows_upto(64));
    assert(grows_upto(80));
    assert(grows_upto(96));
    assert(grows_upto(112));
    assert(grows_upto(128));
    assert(grows_upto(144));
    assert(grows_upto(160));
    assert(grows_upto(176));
    assert(grows_upto(192));
    assert(grows_upto(208));
    assert(grows_upto(224));
    assert(grows_upto(240));
    assert(grows_upto(254));
}

proof fn lemma_ascent(x: nat, n: nat)
    requires
        1 <= x <= n,
        grows_upto(n),
    ensures
        scaled_log2(x) <= scaled_log2(x + 1),
    decreases n,
{
    if x < n {
        lemma_ascent(x, (n - 1) as nat);
    }
}

proof fn lemma_table_grows(x: nat, y: nat)
    requires
        1 <= x <= y < 256,
    ensures
        scaled_log2(x) <= scaled_log2(y),
    decreases y,
{
    if x < y {
        lemma_table_grows(x, (y - 1) as nat);
        law_table_is_a_logarithm((y - 1) as nat);
    }
}

spec fn tally(name: Seq<u8>, upto: nat) -> nat
    decreases upto,
{
    if upto == 0 {
        0
    } else {
        tally(name, (upto - 1) as nat) + occurrences(name, (upto - 1) as u8)
    }
}

proof fn lemma_tally_push(name: Seq<u8>, b: u8, upto: nat)
    requires
        upto <= 256,
    ensures
        tally(name.push(b), upto) == tally(name, upto) + if b < upto {
            1nat
        } else {
            0nat
        },
    decreases upto,
{
    broadcast use group_to_multiset_ensures;

    if upto > 0 {
        lemma_tally_push(name, b, (upto - 1) as nat);
    }
}

proof fn lemma_tally_of_nothing(upto: nat)
    ensures
        tally(Seq::empty(), upto) == 0,
    decreases upto,
{
    broadcast use group_to_multiset_ensures;

    if upto > 0 {
        lemma_tally_of_nothing((upto - 1) as nat);
    }
}

proof fn lemma_tally_is_length(name: Seq<u8>)
    ensures
        tally(name, 256) == name.len(),
    decreases name.len(),
{
    if name.len() == 0 {
        assert(name =~= Seq::empty());
        lemma_tally_of_nothing(256);
    } else {
        lemma_tally_is_length(name.drop_last());
        lemma_tally_push(name.drop_last(), name.last(), 256);
        assert(name =~= name.drop_last().push(name.last()));
    }
}

proof fn lemma_even_sum(name: Seq<u8>, times: nat, upto: nat)
    requires
        upto <= 256,
        forall|b: u8|
            #[trigger] name.to_multiset().count(b) == 0 || name.to_multiset().count(b) == times,
    ensures
        weighted_sum(name, upto) == tally(name, upto) * scaled_log2(times),
    decreases upto,
{
    if upto > 0 {
        lemma_even_sum(name, times, (upto - 1) as nat);
        let c = name.to_multiset().count((upto - 1) as u8);
        let t = tally(name, (upto - 1) as nat);
        let w = scaled_log2(times);
        let l = scaled_log2(c);
        assert(c == 0 || c == times);
        assert((t + c) * w == t * w + c * l) by (nonlinear_arith)
            requires
                c == 0 || l == w,
        ;
    } else {
        assert(0 * scaled_log2(times) == 0);
    }
}

/// A name in which every byte that occurs does so equally often scores the logarithm of its length
/// less that of how often each occurs.
pub proof fn law_even_spread_scores_the_difference(name: Seq<u8>, times: nat)
    requires
        1 <= times <= name.len() < 256,
        forall|b: u8|
            #[trigger] name.to_multiset().count(b) == 0 || name.to_multiset().count(b) == times,
    ensures
        entropy(name) + scaled_log2(times) == scaled_log2(name.len()),
{
    let n = name.len();
    lemma_even_sum(name, times, 256);
    lemma_tally_is_length(name);
    lemma_table_grows(times, n);
    assert((n * scaled_log2(times)) / n == scaled_log2(times)) by (nonlinear_arith)
        requires
            n > 0,
    ;
}

/// A name without a repeated byte scores the logarithm of its length, and is suspicious from
/// nineteen bytes on.
pub proof fn law_distinct_bytes_score_the_length(name: Seq<u8>)
    requires
        1 <= name.len() < 256,
        name.no_duplicates(),
    ensures
        entropy(name) == scaled_log2(name.len()),
        name.len() >= 19 ==> entropy(name) > 4300 && entropy(name) > ENTROPY_THRESHOLD,
        name.len() < 19 ==> entropy(name) <= 4300 && entropy(name) <= ENTROPY_THRESHOLD,
{
    broadcast use group_to_multiset_ensures;

    name.lemma_multiset_has_no_duplicates();
    assert forall|b: u8|
        #[trigger] name.to_multiset().count(b) == 0 || name.to_multiset().count(b) == 1 by {
        if name.to_multiset().count(b) > 0 {
            assert(name.to_multiset().contains(b));
        }
    }
    law_even_spread_scores_the_difference(name, 1);
    law_table_is_a_logarithm(1);
    if name.len() >= 19 {
        lemma_table_grows(19, name.len());
        assert(SCALED_LOG2@[19] == 4356);
    } else {
        law_short_names_are_benign(name);
    }
}

/// A name is suspicious exactly above a score of 4300: never with fewer than nineteen bytes, and always
/// with more than that, up to 255, of which none repeats.
pub proof fn law_threshold(name: Seq<u8>)
    ensures
        suspicious(name) <==> entropy(name) >= 4301,
        name.len() <= 18 ==> !suspicious(name),
        19 <= name.len() < 256 && name.no_duplicates() ==> suspicious(name),
{
    if name.len() <= 18 {
        law_short_names_are_benign(name);
    }
    if 19 <= name.len() < 256 && name.no_duplicates() {
        law_distinct_bytes_score_the_length(name);
    }
}

/// The table is read modulo 256, as it has no more entries than that.
pub proof fn law_table_wraps_around(n: nat)
    ensures
        scaled_log2(n + 256) == scaled_log2(n),
        n < 256 ==> scaled_log2(n) == SCALED_LOG2@[n as int],
{
    assert((n + 256) % 256 == n % 256);
}

} // verus!
