//! The comparator: how alike the fingerprints of two streams are, whether
//! that is an error (streams of one channel have to match, streams of two
//! channels have to differ), and what the alert manager is told of it.
use crate::alertmanager::{AlertManager, AlertManagerModel};
use crate::audiorouter::{AudioRouter, AudioRouterModel};
use crate::clock::{clamp_i64, system_now, Timestamp};
use crate::names::{sort_names, sorted, texts};
use crate::text::{lemma_lex_asymmetric, lex_le, lex_lt, precedes};
use crate::units::{
    clamp_usize, share_hundredths, short_text, spec_items_covering, spec_whole_items_in,
    Percentage,
};
use rusty_chromaprint::MatchError;
use vstd::arithmetic::div_mod::lemma_hoist_over_denominator;
use vstd::prelude::*;

verus! {

/// Seconds between two rounds of comparisons.
pub const COMPARISON_TICK_SECONDS: u64 = 5;

/// The matcher takes fingerprints of fewer items than this.
pub const MATCH_LENGTH_LIMIT: usize = 524_286;

/// A stretch that two fingerprints have in common: `items_count` items
/// from `offset1` on in the first and from `offset2` on in the second.
#[derive(Clone, Copy, Debug, PartialEq, Eq, Structural)]
pub struct MatchSegment {
    pub offset1: usize,
    pub offset2: usize,
    pub items_count: usize,
}

/// `rusty_chromaprint::MatchError`, the error of `match_fingerprints`,
/// taken as it is.
#[verifier::external_type_specification]
#[verifier::external_body]
pub struct ExMatchError(MatchError);

/// The stretches that the matcher finds in common between two
/// fingerprints: what `match_fingerprints` returns for them with the
/// first test preset, score left out.
pub uninterp spec fn matched_segments(fp1: Seq<u32>, fp2: Seq<u32>) -> Seq<MatchSegment>;

/// Whether `segments` lie within fingerprints of `len1` and `len2` items
/// and follow one another in the first without overlap.
pub open spec fn segments_fit(segments: Seq<MatchSegment>, len1: nat, len2: nat) -> bool {
    &&& forall|i: int|
        0 <= i < segments.len() ==> (#[trigger] segments[i]).offset1 + segments[i].items_count
            <= len1 && segments[i].offset2 + segments[i].items_count <= len2
    &&& forall|i: int, j: int|
        0 <= i < j < segments.len() ==> (#[trigger] segments[i]).offset1 + segments[i].items_count
            <= (#[trigger] segments[j]).offset1
}

/// `match_fingerprints` with the first test preset. It refuses a
/// fingerprint of 524286 items or more and nothing else. The segments
/// that it finds belong to one alignment of the two fingerprints: they lie
/// within both and come in the order of their place in the first, none
/// overlapping the one before.
#[verifier::external_body]
fn match_segments(fp1: &[u32], fp2: &[u32]) -> (r: Result<Vec<MatchSegment>, MatchError>)
    ensures
        r is Err <==> fp1@.len() >= MATCH_LENGTH_LIMIT || fp2@.len() >= MATCH_LENGTH_LIMIT,
        r is Ok ==> r->Ok_0@ == matched_segments(fp1@, fp2@) && segments_fit(
            r->Ok_0@,
            fp1@.len(),
            fp2@.len(),
        ),
{
    let config = rusty_chromaprint::Configuration::preset_test1();
    match rusty_chromaprint::match_fingerprints(fp1, fp2, &config) {
        Ok(found) => Ok(
            found.iter().map(
                |s| MatchSegment {
                    offset1: s.offset1,
                    offset2: s.offset2,
                    items_count: s.items_count,
                },
            ).collect(),
        ),
        Err(e) => Err(e),
    }
}

/// How alike two fingerprints are: the items that they have in common,
/// and by how much the second is ahead of the first, in milliseconds.
#[derive(Clone, Copy, Debug, PartialEq, Eq, Structural)]
pub struct Similarity {
    pub matched_items: u64,
    pub offset_millis: i64,
}

/// The items in the first `n` of `segments`.
pub open spec fn matched_total(segments: Seq<MatchSegment>, n: int) -> nat
    decreases n,
{
    if n <= 0 {
        0
    } else {
        matched_total(segments, n - 1) + segments[n - 1].items_count as nat
    }
}

/// The sum of the starts in the first fingerprint of the first `n` of
/// `segments`.
pub open spec fn first_offsets_total(segments: Seq<MatchSegment>, n: int) -> nat
    decreases n,
{
    if n <= 0 {
        0
    } else {
        first_offsets_total(segments, n - 1) + segments[n - 1].offset1 as nat
    }
}

/// The sum of the starts in the second fingerprint of the first `n` of
/// `segments`.
pub open spec fn second_offsets_total(segments: Seq<MatchSegment>, n: int) -> nat
    decreases n,
{
    if n <= 0 {
        0
    } else {
        second_offsets_total(segments, n - 1) + segments[n - 1].offset2 as nat
    }
}

/// The milliseconds that `total / count` items last, rounded toward
/// zero: an item lasts 2600/21 ms. Zero for no segment.
pub open spec fn mean_offset_millis(total: int, count: nat) -> int {
    let divisor: int = 21 * (count as int);
    if count == 0 {
        0
    } else if total >= 0 {
        (total * 2600) / divisor
    } else {
        -(((-total) * 2600) / divisor)
    }
}

/// `v` held within the range of `u64`.
pub open spec fn clamp_u64(v: nat) -> nat {
    if v > u64::MAX {
        u64::MAX as nat
    } else {
        v
    }
}

/// What `segments` amount to: the items in them, and the mean over them
/// of the lead of the second fingerprint, as time. Both are held within
/// the range of their types.
pub open spec fn summary_of(segments: Seq<MatchSegment>) -> Similarity {
    let n = segments.len() as int;
    Similarity {
        matched_items: clamp_u64(matched_total(segments, n)) as u64,
        offset_millis: clamp_i64(
            mean_offset_millis(
                second_offsets_total(segments, n) - first_offsets_total(segments, n),
                segments.len(),
            ),
        ) as i64,
    }
}

/// Segments that fit into a fingerprint hold no more items than it has
/// from where the first of them starts.
proof fn lemma_fitting_segments_total(segments: Seq<MatchSegment>, n: int, len1: nat, len2: nat)
    requires
        segments_fit(segments, len1, len2),
        0 <= n <= segments.len(),
    ensures
        n == 0 ==> matched_total(segments, n) == 0,
        n > 0 ==> matched_total(segments, n) + segments[0].offset1 <= segments[n - 1].offset1
            + segments[n - 1].items_count,
        matched_total(segments, n) <= len1,
    decreases n,
{
    if n > 1 {
        lemma_fitting_segments_total(segments, n - 1, len1, len2);
        assert(segments[n - 2].offset1 + segments[n - 2].items_count <= segments[n - 1].offset1);
    } else if n == 1 {
        assert(matched_total(segments, 0) == 0);
    }
}

/// `magnitude * 2600 / divisor`, or `None` where that is more than
/// `i64::MAX`.
fn scaled_quotient(magnitude: u128, divisor: u128) -> (r: Option<u64>)
    requires
        0 < divisor < 0x1_0000_0000_0000_0000_0000,
    ensures
        match r {
            Some(v) => v as int == (magnitude as int * 2600) / (divisor as int) && v <= i64::MAX,
            None => (magnitude as int * 2600) / (divisor as int) > i64::MAX,
        },
{
    let q: u128 = magnitude / divisor;
    let rest: u128 = magnitude % divisor;
    let ghost m: int = magnitude as int;
    let ghost d: int = divisor as int;
    let ghost qi: int = q as int;
    let ghost ri: int = rest as int;
    proof {
        assert(m == qi * d + ri) by (nonlinear_arith)
            requires
                qi == m / d,
                ri == m % d,
                d > 0,
        ;
        assert(m * 2600 == ri * 2600 + (qi * 2600) * d) by (nonlinear_arith)
            requires
                m == qi * d + ri,
        ;
        lemma_hoist_over_denominator(ri * 2600, qi * 2600, d as nat);
        assert((m * 2600) / d == (ri * 2600) / d + qi * 2600);
        assert(0 <= (ri * 2600) / d <= ri * 2600) by (nonlinear_arith)
            requires
                ri >= 0,
                d >= 1,
        ;
    }
    if q > 3_547_486_937_249_913 {
        return None;
    }
    let low: u128 = rest * 2600 / divisor;
    let value: u128 = q * 2600 + low;
    if value > i64::MAX as u128 {
        None
    } else {
        Some(value as u64)
    }
}

/// Sums up what the matcher found.
pub fn summarize_segments(segments: &Vec<MatchSegment>) -> (s: Similarity)
    ensures
        s == summary_of(segments@),
{
    let mut matched: u128 = 0;
    let mut first: u128 = 0;
    let mut second: u128 = 0;
    let mut i: usize = 0;
    while i < segments.len()
        invariant
            i <= segments.len(),
            matched == matched_total(segments@, i as int),
            first == first_offsets_total(segments@, i as int),
            second == second_offsets_total(segments@, i as int),
            matched <= i * 0xffff_ffff_ffff_ffff,
            first <= i * 0xffff_ffff_ffff_ffff,
            second <= i * 0xffff_ffff_ffff_ffff,
        decreases segments.len() - i,
    {
        let segment = &segments[i];
        matched = matched + segment.items_count as u128;
        first = first + segment.offset1 as u128;
        second = second + segment.offset2 as u128;
        i += 1;
    }
    let matched_items: u64 = if matched > u64::MAX as u128 {
        u64::MAX
    } else {
        matched as u64
    };
    let count: u128 = segments.len() as u128;
    let offset_millis: i64 = if count == 0 {
        0
    } else if second >= first {
        match scaled_quotient(second - first, 21 * count) {
            Some(v) => v as i64,
            None => i64::MAX,
        }
    } else {
        match scaled_quotient(first - second, 21 * count) {
            Some(v) => -(v as i64),
            None => i64::MIN,
        }
    };
    Similarity { matched_items, offset_millis }
}

/// How alike `fp1` and `fp2` are, with a comparison window of
/// `window_size` items: unknown where one of them is shorter than the
/// window or too long for the matcher, and else what the segments amount
/// to that the matcher finds.
pub open spec fn pair_similarity(fp1: Seq<u32>, fp2: Seq<u32>, window_size: nat) -> Option<
    Similarity,
> {
    if fp1.len() < window_size || fp2.len() < window_size {
        None
    } else if fp1.len() >= MATCH_LENGTH_LIMIT || fp2.len() >= MATCH_LENGTH_LIMIT {
        None
    } else {
        Some(summary_of(matched_segments(fp1, fp2)))
    }
}

/// Measures how alike two fingerprints are. The items that they are
/// found to have in common are no more than the first one has.
pub fn get_similarity_time(fp1: &[u32], fp2: &[u32], window_size: usize) -> (r: Option<
    Similarity,
>)
    ensures
        r == pair_similarity(fp1@, fp2@, window_size as nat),
        r is Some ==> r->0.matched_items <= fp1@.len(),
{
    if fp1.len() < window_size || fp2.len() < window_size {
        return None;
    }
    match match_segments(fp1, fp2) {
        Ok(segments) => {
            proof {
                lemma_fitting_segments_total(
                    segments@,
                    segments@.len() as int,
                    fp1@.len(),
                    fp2@.len(),
                );
            }
            Some(summarize_segments(&segments))
        },
        Err(_) => None,
    }
}

/// One comparison of two streams.
#[derive(Clone, Debug)]
pub struct ComparisonResult {
    /// The stream whose name comes first.
    pub stream1: String,
    /// The stream whose name comes second.
    pub stream2: String,
    /// The items that the two fingerprints have in common.
    pub matched_items: u64,
    /// The items of the first fingerprint, of which the items in common
    /// are a share.
    pub compared_items: u64,
    /// The share of the first fingerprint that the two have in common,
    /// rounded down to hundredths of a percent.
    pub similarity_percent: Percentage,
    /// Whether the two streams belong to one channel.
    pub is_within_channel: bool,
    pub is_error: bool,
    /// By how many milliseconds `stream2` is ahead of `stream1`; only for
    /// streams of one channel.
    pub offset_millis: Option<i64>,
}

/// What a comparison holds, as plain values.
pub struct ComparisonModel {
    pub stream1: Seq<char>,
    pub stream2: Seq<char>,
    pub matched_items: nat,
    pub compared_items: nat,
    pub similarity_hundredths: nat,
    pub is_within_channel: bool,
    pub is_error: bool,
    pub offset_millis: Option<int>,
}

impl View for ComparisonResult {
    type V = ComparisonModel;

    open spec fn view(&self) -> ComparisonModel {
        ComparisonModel {
            stream1: self.stream1@,
            stream2: self.stream2@,
            matched_items: self.matched_items as nat,
            compared_items: self.compared_items as nat,
            similarity_hundredths: self.similarity_percent.hundredths as nat,
            is_within_channel: self.is_within_channel,
            is_error: self.is_error,
            offset_millis: match self.offset_millis {
                Some(v) => Some(v as int),
                None => None,
            },
        }
    }
}

/// The models of `results`.
pub open spec fn comparison_models(results: Seq<ComparisonResult>) -> Seq<ComparisonModel> {
    Seq::new(results.len(), |i: int| results[i]@)
}

/// Whether a share of `part` in `whole` is an error against a threshold
/// in hundredths of a percent: streams of one channel have to be at least
/// as alike as the threshold says, streams of two channels may be at most
/// as alike as the threshold says. The share is taken as it is, not
/// rounded; of nothing it is zero.
pub open spec fn share_is_error(part: nat, whole: nat, threshold: nat, within_channel: bool)
    -> bool {
    if whole == 0 {
        within_channel && 0 < threshold
    } else if within_channel {
        part * 10000 < threshold * whole
    } else {
        part * 10000 > threshold * whole
    }
}

impl ComparisonModel {
    /// Whether the comparison was judged by `threshold`: its similarity
    /// is the share of the items in common in the items compared, and it
    /// is an error exactly when that share is on the wrong side of the
    /// threshold.
    pub open spec fn judged_by(self, threshold: Percentage) -> bool {
        &&& self.similarity_hundredths == share_hundredths(self.matched_items, self.compared_items)
        &&& self.is_error == share_is_error(
            self.matched_items,
            self.compared_items,
            threshold.hundredths as nat,
            self.is_within_channel,
        )
    }
}

/// An offset seen from the other stream.
pub open spec fn reversed_offset(offset: int) -> int {
    clamp_i64(-offset)
}

/// The comparison of the stream `a` with the fingerprint `fa` and the
/// stream `b` with the fingerprint `fb`, given how alike the fingerprints
/// are. The stream whose name comes first is `stream1`; where that is
/// `b`, the offset is reversed, so that it always tells by how much
/// `stream2` is ahead of `stream1`.
pub open spec fn comparison_of(
    a: Seq<char>,
    b: Seq<char>,
    first_len: nat,
    similarity: Similarity,
    threshold: Percentage,
    within_channel: bool,
) -> ComparisonModel {
    let share = share_hundredths(similarity.matched_items as nat, first_len);
    let in_order = lex_lt(a, b);
    ComparisonModel {
        stream1: if in_order {
            a
        } else {
            b
        },
        stream2: if in_order {
            b
        } else {
            a
        },
        matched_items: similarity.matched_items as nat,
        compared_items: first_len,
        similarity_hundredths: share,
        is_within_channel: within_channel,
        is_error: share_is_error(
            similarity.matched_items as nat,
            first_len,
            threshold.hundredths as nat,
            within_channel,
        ),
        offset_millis: if !within_channel {
            None
        } else if in_order {
            Some(similarity.offset_millis as int)
        } else {
            Some(reversed_offset(similarity.offset_millis as int))
        },
    }
}

/// The comparison of two streams by their fingerprints, or `None` where
/// it is unknown how alike they are.
pub open spec fn pair_result(
    a: Seq<char>,
    fa: Seq<u32>,
    b: Seq<char>,
    fb: Seq<u32>,
    window_size: nat,
    threshold: Percentage,
    within_channel: bool,
) -> Option<ComparisonModel> {
    match pair_similarity(fa, fb, window_size) {
        Some(similarity) => Some(
            comparison_of(a, b, fa.len(), similarity, threshold, within_channel),
        ),
        None => None,
    }
}

/// Every comparison names its streams in lexicographic order, tells the
/// offset from the first of them to the second, and is an error exactly
/// when the similarity, taken as it is and not rounded, is on the wrong
/// side of the threshold: under it for streams of one channel, over it
/// for streams of two.
pub proof fn law_comparison_is_ordered_and_judged(
    a: Seq<char>,
    b: Seq<char>,
    first_len: nat,
    similarity: Similarity,
    threshold: Percentage,
    within_channel: bool,
)
    ensures
        ({
            let r = comparison_of(a, b, first_len, similarity, threshold, within_channel);
            &&& lex_le(r.stream1, r.stream2)
            &&& (r.stream1 == a && r.stream2 == b) || (r.stream1 == b && r.stream2 == a)
            &&& r.judged_by(threshold)
            &&& first_len > 0 && within_channel ==> r.is_error == (similarity.matched_items
                * 10000 < threshold.hundredths * first_len)
            &&& first_len > 0 && !within_channel ==> r.is_error == (similarity.matched_items
                * 10000 > threshold.hundredths * first_len)
            &&& within_channel && lex_lt(a, b) ==> r.offset_millis == Some(
                similarity.offset_millis as int,
            )
            &&& within_channel && !lex_lt(a, b) ==> r.offset_millis == Some(
                reversed_offset(similarity.offset_millis as int),
            )
            &&& !within_channel ==> r.offset_millis is None
        }),
{
    lemma_lex_asymmetric(a, b);
}

/// Seen from the other stream, an offset has the other sign: comparing
/// `b` with `a` gives the reverse of what comparing `a` with `b` gives,
/// for the same similarity.
pub proof fn law_offset_sign_follows_order(
    a: Seq<char>,
    b: Seq<char>,
    first_len: nat,
    similarity: Similarity,
    threshold: Percentage,
)
    requires
        a != b,
        similarity.offset_millis > i64::MIN,
    ensures
        ({
            let forward = comparison_of(a, b, first_len, similarity, threshold, true);
            let backward = comparison_of(b, a, first_len, similarity, threshold, true);
            &&& forward.stream1 == backward.stream1
            &&& forward.stream2 == backward.stream2
            &&& forward.offset_millis->0 == -backward.offset_millis->0
        }),
{
    lemma_lex_asymmetric(a, b);
    crate::text::lemma_lex_total(a, b);
}

/// Puts one comparison together from how alike the fingerprints are.
pub fn make_comparison(
    a: &str,
    b: &str,
    first_len: usize,
    similarity: Similarity,
    threshold: Percentage,
    within_channel: bool,
) -> (r: ComparisonResult)
    ensures
        r@ == comparison_of(a@, b@, first_len as nat, similarity, threshold, within_channel),
{
    let share = Percentage::of(similarity.matched_items, first_len as u64);
    let part: u128 = similarity.matched_items as u128 * 10000;
    assert(threshold.hundredths as int * (first_len as int) <= 0xffff_ffff
        * 0xffff_ffff_ffff_ffff) by (nonlinear_arith)
        requires
            0 <= threshold.hundredths as int <= 0xffff_ffff,
            0 <= first_len as int <= 0xffff_ffff_ffff_ffff,
    ;
    let limit: u128 = threshold.hundredths as u128 * (first_len as u128);
    let is_error = if first_len == 0 {
        within_channel && threshold.hundredths > 0
    } else if within_channel {
        part < limit
    } else {
        part > limit
    };
    let in_order = precedes(a, b);
    let offset: Option<i64> = if !within_channel {
        None
    } else if in_order {
        Some(similarity.offset_millis)
    } else if similarity.offset_millis == i64::MIN {
        Some(i64::MAX)
    } else {
        Some(-similarity.offset_millis)
    };
    if in_order {
        ComparisonResult {
            stream1: String::from_str(a),
            stream2: String::from_str(b),
            matched_items: similarity.matched_items,
            compared_items: first_len as u64,
            similarity_percent: share,
            is_within_channel: within_channel,
            is_error,
            offset_millis: offset,
        }
    } else {
        ComparisonResult {
            stream1: String::from_str(b),
            stream2: String::from_str(a),
            matched_items: similarity.matched_items,
            compared_items: first_len as u64,
            similarity_percent: share,
            is_within_channel: within_channel,
            is_error,
            offset_millis: offset,
        }
    }
}

/// Compares two streams by their fingerprints. A comparison that comes
/// out tells of a similarity of at most 100 %.
pub fn compare_pair(
    a: &str,
    fa: &[u32],
    b: &str,
    fb: &[u32],
    window_size: usize,
    threshold: Percentage,
    within_channel: bool,
) -> (r: Option<ComparisonResult>)
    ensures
        match r {
            Some(result) => pair_result(
                a@,
                fa@,
                b@,
                fb@,
                window_size as nat,
                threshold,
                within_channel,
            ) == Some(result@) && result@.similarity_hundredths <= 10000,
            None => pair_result(a@, fa@, b@, fb@, window_size as nat, threshold, within_channel)
                is None,
        },
{
    match get_similarity_time(fa, fb, window_size) {
        Some(similarity) => {
            proof {
                let part = similarity.matched_items as nat;
                let whole = fa@.len();
                if whole > 0 {
                    assert(part * 10000 / whole <= 10000) by (nonlinear_arith)
                        requires
                            part <= whole,
                            whole > 0,
                    ;
                }
            }
            Some(make_comparison(a, b, fa.len(), similarity, threshold, within_channel))
        },
        None => None,
    }
}

/// The sequence that holds `r` if there is one, and nothing else.
pub open spec fn maybe(r: Option<ComparisonModel>) -> Seq<ComparisonModel> {
    match r {
        Some(result) => seq![result],
        None => Seq::<ComparisonModel>::empty(),
    }
}

/// A stream that is ready to be compared.
pub struct ReadyStream {
    pub name: String,
    pub fingerprint: Vec<u32>,
}

/// The names and fingerprints of `v`.
pub open spec fn ready_models(v: Seq<ReadyStream>) -> Seq<(Seq<char>, Seq<u32>)> {
    Seq::new(v.len(), |i: int| (v[i].name@, v[i].fingerprint@))
}

/// Of the first `n` of `names`, those streams that are ready to be
/// compared: the ones that the router knows and whose fingerprint window
/// holds at least `min_buffer_size` items, each with its fingerprint, in
/// the order of `names`.
pub open spec fn ready_streams(
    router: AudioRouterModel,
    names: Seq<Seq<char>>,
    n: int,
    min_buffer_size: nat,
) -> Seq<(Seq<char>, Seq<u32>)>
    decreases n,
{
    if n <= 0 {
        Seq::<(Seq<char>, Seq<u32>)>::empty()
    } else {
        let before = ready_streams(router, names, n - 1, min_buffer_size);
        match router.fingerprint_of(names[n - 1]) {
            Some(fp) => if fp.len() >= min_buffer_size {
                before.push((names[n - 1], fp))
            } else {
                before
            },
            None => before,
        }
    }
}

/// The comparisons of the stream at `i` with the streams after it up to
/// `end`, in order.
pub open spec fn row_results(
    ready: Seq<(Seq<char>, Seq<u32>)>,
    i: int,
    end: int,
    window_size: nat,
    threshold: Percentage,
) -> Seq<ComparisonModel>
    decreases end - i,
{
    if end <= i + 1 {
        Seq::<ComparisonModel>::empty()
    } else {
        row_results(ready, i, end - 1, window_size, threshold) + maybe(
            pair_result(
                ready[i].0,
                ready[i].1,
                ready[end - 1].0,
                ready[end - 1].1,
                window_size,
                threshold,
                true,
            ),
        )
    }
}

/// The comparisons of each of the first `n` streams with every stream
/// after it, in order.
pub open spec fn pair_results(
    ready: Seq<(Seq<char>, Seq<u32>)>,
    n: int,
    window_size: nat,
    threshold: Percentage,
) -> Seq<ComparisonModel>
    decreases n,
{
    if n <= 0 {
        Seq::<ComparisonModel>::empty()
    } else {
        pair_results(ready, n - 1, window_size, threshold) + row_results(
            ready,
            n - 1,
            ready.len() as int,
            window_size,
            threshold,
        )
    }
}

/// The comparisons within a channel with the streams `names`: the
/// streams that are ready are taken in the order of their names, and
/// every two of them are compared, unless fewer than two are ready.
pub open spec fn channel_results(
    router: AudioRouterModel,
    names: Seq<Seq<char>>,
    window_size: nat,
    min_buffer_size: nat,
    threshold: Percentage,
) -> Seq<ComparisonModel> {
    let ordered = sorted(names);
    let ready = ready_streams(router, ordered, ordered.len() as int, min_buffer_size);
    pair_results(ready, ready.len() as int, window_size, threshold)
}

/// The comparisons of the stream `a` of one channel with the first `n`
/// of the streams `others` of another, in order. A stream that the
/// router does not know or whose fingerprint window holds fewer than
/// `min_buffer_size` items is not compared.
pub open spec fn cross_row(
    router: AudioRouterModel,
    a: Seq<char>,
    others: Seq<Seq<char>>,
    n: int,
    window_size: nat,
    min_buffer_size: nat,
    threshold: Percentage,
) -> Seq<ComparisonModel>
    decreases n,
{
    if n <= 0 {
        Seq::<ComparisonModel>::empty()
    } else {
        let before = cross_row(router, a, others, n - 1, window_size, min_buffer_size, threshold);
        match (router.fingerprint_of(a), router.fingerprint_of(others[n - 1])) {
            (Some(fa), Some(fb)) => if fa.len() >= min_buffer_size && fb.len()
                >= min_buffer_size {
                before + maybe(
                    pair_result(a, fa, others[n - 1], fb, window_size, threshold, false),
                )
            } else {
                before
            },
            _ => before,
        }
    }
}

/// The comparisons of each of the first `n` of the streams `firsts` of
/// one channel with every one of the streams `seconds` of another.
pub open spec fn cross_results(
    router: AudioRouterModel,
    firsts: Seq<Seq<char>>,
    seconds: Seq<Seq<char>>,
    n: int,
    window_size: nat,
    min_buffer_size: nat,
    threshold: Percentage,
) -> Seq<ComparisonModel>
    decreases n,
{
    if n <= 0 {
        Seq::<ComparisonModel>::empty()
    } else {
        cross_results(router, firsts, seconds, n - 1, window_size, min_buffer_size, threshold)
            + cross_row(
            router,
            firsts[n - 1],
            seconds,
            seconds.len() as int,
            window_size,
            min_buffer_size,
            threshold,
        )
    }
}

/// Whether every comparison in `results` is of two streams that the
/// router knows and whose fingerprint windows hold at least
/// `min_buffer_size` items.
pub open spec fn all_ready(
    router: AudioRouterModel,
    results: Seq<ComparisonModel>,
    min_buffer_size: nat,
) -> bool {
    forall|k: int|
        0 <= k < results.len() ==> is_ready(router, (#[trigger] results[k]).stream1, min_buffer_size)
            && is_ready(router, results[k].stream2, min_buffer_size)
}

/// Whether the router knows the stream `name` and its fingerprint window
/// holds at least `min_buffer_size` items.
pub open spec fn is_ready(router: AudioRouterModel, name: Seq<char>, min_buffer_size: nat) -> bool {
    router.fingerprint_of(name) is Some && router.fingerprint_of(name)->0.len() >= min_buffer_size
}

/// The settings of the comparator and the results of its last round.
pub struct StreamComparator {
    window_size: usize,
    min_buffer_size: usize,
    match_threshold: Percentage,
    divergence_threshold: Percentage,
    reports_alerts: bool,
    comparison_results: Vec<ComparisonResult>,
}

/// What a comparator holds, as plain values.
pub struct StreamComparatorModel {
    /// Items that a fingerprint has to hold to be compared at all.
    pub window_size: nat,
    /// Items that a fingerprint window has to hold before its stream is
    /// compared.
    pub min_buffer_size: nat,
    pub match_threshold: Percentage,
    pub divergence_threshold: Percentage,
    /// Whether the results go to the alert manager.
    pub reports_alerts: bool,
    /// The results of the last round.
    pub results: Seq<ComparisonModel>,
}

impl View for StreamComparator {
    type V = StreamComparatorModel;

    closed spec fn view(&self) -> StreamComparatorModel {
        StreamComparatorModel {
            window_size: self.window_size as nat,
            min_buffer_size: self.min_buffer_size as nat,
            match_threshold: self.match_threshold,
            divergence_threshold: self.divergence_threshold,
            reports_alerts: self.reports_alerts,
            results: comparison_models(self.comparison_results@),
        }
    }
}

/// The comparisons within the first `n` channels of the router.
pub open spec fn within_results(
    router: AudioRouterModel,
    n: int,
    window_size: nat,
    min_buffer_size: nat,
    threshold: Percentage,
) -> Seq<ComparisonModel>
    decreases n,
{
    if n <= 0 {
        Seq::<ComparisonModel>::empty()
    } else {
        within_results(router, n - 1, window_size, min_buffer_size, threshold) + channel_results(
            router,
            router.channels.members[n - 1],
            window_size,
            min_buffer_size,
            threshold,
        )
    }
}

/// The comparisons of the channel `order[i]` with the channels after it
/// in `order` up to `end`. A name in `order` that is no channel stands
/// for a channel without streams.
pub open spec fn across_row(
    router: AudioRouterModel,
    order: Seq<Seq<char>>,
    i: int,
    end: int,
    window_size: nat,
    min_buffer_size: nat,
    threshold: Percentage,
) -> Seq<ComparisonModel>
    decreases end - i,
{
    if end <= i + 1 {
        Seq::<ComparisonModel>::empty()
    } else {
        across_row(router, order, i, end - 1, window_size, min_buffer_size, threshold)
            + cross_results(
            router,
            router.channels.streams_or_none(order[i]),
            router.channels.streams_or_none(order[end - 1]),
            router.channels.streams_or_none(order[i]).len() as int,
            window_size,
            min_buffer_size,
            threshold,
        )
    }
}

/// The comparisons of each of the first `n` channels in `order` with
/// every channel after it in `order`.
pub open spec fn across_results(
    router: AudioRouterModel,
    order: Seq<Seq<char>>,
    n: int,
    window_size: nat,
    min_buffer_size: nat,
    threshold: Percentage,
) -> Seq<ComparisonModel>
    decreases n,
{
    if n <= 0 {
        Seq::<ComparisonModel>::empty()
    } else {
        across_results(router, order, n - 1, window_size, min_buffer_size, threshold)
            + across_row(
            router,
            order,
            n - 1,
            order.len() as int,
            window_size,
            min_buffer_size,
            threshold,
        )
    }
}

impl StreamComparatorModel {
    /// The results of one round over `router`: first the comparisons
    /// within each channel, channel by channel in the order in which the
    /// channels were added, then those across every two channels, the
    /// channels taken in the order of their names.
    pub open spec fn round(self, router: AudioRouterModel) -> Seq<ComparisonModel> {
        within_results(
            router,
            router.channels.names.len() as int,
            self.window_size,
            self.min_buffer_size,
            self.match_threshold,
        ) + across_results(
            router,
            sorted(router.channels.names),
            sorted(router.channels.names).len() as int,
            self.window_size,
            self.min_buffer_size,
            self.divergence_threshold,
        )
    }

    /// The threshold that a comparison is judged by.
    pub open spec fn threshold_for(self, within_channel: bool) -> Percentage {
        if within_channel {
            self.match_threshold
        } else {
            self.divergence_threshold
        }
    }
}

/// The id of the alert on a comparison: the names of the two streams
/// with a `_` between them.
pub open spec fn comparison_alert_id(result: ComparisonModel) -> Seq<char> {
    result.stream1 + "_"@ + result.stream2
}

/// The message of the alert on a comparison that was judged by
/// `threshold`, with the shares to one decimal.
pub open spec fn comparison_message(result: ComparisonModel, threshold: Percentage) -> Seq<char> {
    let start = "Streams `"@ + result.stream1 + "` and `"@ + result.stream2 + "` are "@;
    let share = short_text(result.similarity_hundredths);
    let limit = short_text(threshold.hundredths as nat);
    if result.is_within_channel {
        if result.is_error {
            start + "diverging ("@ + share + "% similar, need ≥"@ + limit + "%)"@
        } else {
            start + "matching ("@ + share + "% similar)"@
        }
    } else {
        if result.is_error {
            start + "colliding ("@ + share + "% similar, need <"@ + limit + "%)"@
        } else {
            start + "different ("@ + share + "% similar)"@
        }
    }
}

/// The alerts after the first `n` of `results` were reported at `now`.
pub open spec fn comparison_updates(
    alerts: AlertManagerModel,
    results: Seq<ComparisonModel>,
    n: int,
    match_threshold: Percentage,
    divergence_threshold: Percentage,
    now: Timestamp,
) -> AlertManagerModel
    decreases n,
{
    if n <= 0 {
        alerts
    } else {
        let result = results[n - 1];
        comparison_updates(
            alerts,
            results,
            n - 1,
            match_threshold,
            divergence_threshold,
            now,
        ).update(
            comparison_alert_id(result),
            result.is_error,
            comparison_message(
                result,
                if result.is_within_channel {
                    match_threshold
                } else {
                    divergence_threshold
                },
            ),
            now,
        )
    }
}

/// The report on a comparison for the alert manager: the id of the
/// alert, whether the comparison is an error, and the message.
pub fn comparison_alert(result: &ComparisonResult, threshold: Percentage) -> (report: (
    String,
    bool,
    String,
))
    ensures
        report.0@ == comparison_alert_id(result@),
        report.1 == result@.is_error,
        report.2@ == comparison_message(result@, threshold),
{
    let mut id = result.stream1.clone();
    id.append("_");
    id.append(result.stream2.as_str());
    let share = result.similarity_percent.to_short_text();
    let limit = threshold.to_short_text();
    let mut message = String::from_str("Streams `");
    message.append(result.stream1.as_str());
    message.append("` and `");
    message.append(result.stream2.as_str());
    message.append("` are ");
    if result.is_within_channel {
        if result.is_error {
            message.append("diverging (");
            message.append(share.as_str());
            message.append("% similar, need ≥");
            message.append(limit.as_str());
            message.append("%)");
        } else {
            message.append("matching (");
            message.append(share.as_str());
            message.append("% similar)");
        }
    } else {
        if result.is_error {
            message.append("colliding (");
            message.append(share.as_str());
            message.append("% similar, need <");
            message.append(limit.as_str());
            message.append("%)");
        } else {
            message.append("different (");
            message.append(share.as_str());
            message.append("% similar)");
        }
    }
    (id, result.is_error, message)
}

fn append_results(all: &mut Vec<ComparisonResult>, more: Vec<ComparisonResult>)
    ensures
        comparison_models(final(all)@) == comparison_models(old(all)@) + comparison_models(more@),
{
    let mut more = more;
    let ghost added = more@;
    all.append(&mut more);
    assert(comparison_models(all@) =~= comparison_models(old(all)@) + comparison_models(added));
}

proof fn lemma_all_ready_concat(
    router: AudioRouterModel,
    a: Seq<ComparisonModel>,
    b: Seq<ComparisonModel>,
    min_buffer_size: nat,
)
    requires
        all_ready(router, a, min_buffer_size),
        all_ready(router, b, min_buffer_size),
    ensures
        all_ready(router, a + b, min_buffer_size),
{
    assert forall|k: int| 0 <= k < (a + b).len() implies is_ready(
        router,
        (#[trigger] (a + b)[k]).stream1,
        min_buffer_size,
    ) && is_ready(router, (a + b)[k].stream2, min_buffer_size) by {
        if k < a.len() {
            assert((a + b)[k] == a[k]);
        } else {
            assert((a + b)[k] == b[k - a.len()]);
        }
    }
}

/// A copy of the names of the streams of a channel, or none where there
/// is no such channel.
fn members_or_none(map: &crate::channels::ChannelMap, channel: &str) -> (members: Vec<String>)
    requires
        map@.wf(),
    ensures
        texts(members@) == map@.streams_or_none(channel@),
{
    match map.streams_of(channel) {
        Some(members) => members,
        None => {
            let members: Vec<String> = Vec::new();
            assert(texts(members@) =~= Seq::<Seq<char>>::empty());
            members
        },
    }
}

impl StreamComparator {
    /// A comparator that compares fingerprints of at least as many whole
    /// items as fit into `comparison_duration_millis`, of streams whose
    /// windows hold at least as many items as it takes to cover
    /// `min_buffer_duration_millis`.
    pub fn new(
        comparison_duration_millis: u64,
        min_buffer_duration_millis: u64,
        match_threshold: Percentage,
        divergence_threshold: Percentage,
    ) -> (comparator: StreamComparator)
        ensures
            comparator@ == (StreamComparatorModel {
                window_size: clamp_usize(spec_whole_items_in(comparison_duration_millis as nat)),
                min_buffer_size: clamp_usize(
                    spec_items_covering(min_buffer_duration_millis as nat),
                ),
                match_threshold,
                divergence_threshold,
                reports_alerts: false,
                results: Seq::<ComparisonModel>::empty(),
            }),
    {
        let comparator = StreamComparator {
            window_size: crate::units::whole_items_in(comparison_duration_millis),
            min_buffer_size: crate::units::items_covering(min_buffer_duration_millis),
            match_threshold,
            divergence_threshold,
            reports_alerts: false,
            comparison_results: Vec::new(),
        };
        assert(comparator@.results =~= Seq::<ComparisonModel>::empty());
        comparator
    }

    /// The same comparator, with its results going to the alert manager.
    pub fn with_alert_manager(self) -> (comparator: StreamComparator)
        ensures
            comparator@ == (StreamComparatorModel { reports_alerts: true, ..self@ }),
    {
        let mut comparator = self;
        comparator.reports_alerts = true;
        comparator
    }

    pub fn window_size(&self) -> (items: usize)
        ensures
            items == self@.window_size,
    {
        self.window_size
    }

    pub fn min_buffer_size(&self) -> (items: usize)
        ensures
            items == self@.min_buffer_size,
    {
        self.min_buffer_size
    }

    pub fn match_threshold(&self) -> (threshold: Percentage)
        ensures
            threshold == self@.match_threshold,
    {
        self.match_threshold
    }

    pub fn divergence_threshold(&self) -> (threshold: Percentage)
        ensures
            threshold == self@.divergence_threshold,
    {
        self.divergence_threshold
    }

    /// A copy of the results of the last round.
    pub fn get_results(&self) -> (results: Vec<ComparisonResult>)
        ensures
            comparison_models(results@) == self@.results,
    {
        let mut results: Vec<ComparisonResult> = Vec::new();
        let mut i: usize = 0;
        while i < self.comparison_results.len()
            invariant
                i <= self.comparison_results.len(),
                results@.len() == i,
                forall|k: int| 0 <= k < i ==> results@[k]@ == self.comparison_results@[k]@,
            decreases self.comparison_results.len() - i,
        {
            let r = &self.comparison_results[i];
            results.push(
                ComparisonResult {
                    stream1: r.stream1.clone(),
                    stream2: r.stream2.clone(),
                    matched_items: r.matched_items,
                    compared_items: r.compared_items,
                    similarity_percent: r.similarity_percent,
                    is_within_channel: r.is_within_channel,
                    is_error: r.is_error,
                    offset_millis: r.offset_millis,
                },
            );
            i += 1;
        }
        assert(comparison_models(results@) =~= self@.results);
        results
    }

    /// Compares every two of the streams `stream_names` of one channel
    /// that are ready. No comparison comes out for a stream whose
    /// fingerprint window holds fewer than `min_buffer_size` items, and
    /// each one is an error exactly when its similarity is under
    /// `match_threshold`.
    pub fn compare_channel_streams(
        router: &AudioRouter,
        stream_names: &Vec<String>,
        window_size: usize,
        min_buffer_size: usize,
        match_threshold: Percentage,
    ) -> (results: Vec<ComparisonResult>)
        ensures
            comparison_models(results@) == channel_results(
                router@,
                texts(stream_names@),
                window_size as nat,
                min_buffer_size as nat,
                match_threshold,
            ),
            all_ready(router@, comparison_models(results@), min_buffer_size as nat),
            forall|k: int|
                0 <= k < results@.len() ==> (#[trigger] results@[k]).is_within_channel
                    && results@[k]@.judged_by(match_threshold) && results@[k].similarity_percent.hundredths
                    <= 10000 && lex_le(results@[k].stream1@, results@[k].stream2@),
    {
        let ordered = sort_names(stream_names);
        let stream_names = &ordered;
        let ghost names = texts(stream_names@);
        let ghost window = window_size as nat;
        let ghost least = min_buffer_size as nat;
        let mut ready: Vec<ReadyStream> = Vec::new();
        let mut n: usize = 0;
        assert(ready_models(ready@) =~= ready_streams(router@, names, 0, least));
        while n < stream_names.len()
            invariant
                n <= stream_names.len(),
                names == texts(stream_names@),
                least == min_buffer_size as nat,
                ready_models(ready@) == ready_streams(router@, names, n as int, least),
                forall|k: int|
                    0 <= k < ready@.len() ==> is_ready(router@, (#[trigger] ready@[k]).name@, least),
            decreases stream_names.len() - n,
        {
            assert(names[n as int] == stream_names@[n as int]@);
            let ghost before = ready@;
            match router.get_stream_fingerprint(stream_names[n].as_str()) {
                Some(fingerprint) => {
                    if fingerprint.len() >= min_buffer_size {
                        ready.push(ReadyStream { name: stream_names[n].clone(), fingerprint });
                        assert(ready_models(ready@) =~= ready_models(before).push(
                            (names[n as int], fingerprint@),
                        ));
                    }
                },
                None => {},
            }
            n += 1;
        }
        let ghost items = ready_models(ready@);
        let mut results: Vec<ComparisonResult> = Vec::new();
        assert(comparison_models(results@) =~= pair_results(items, 0, window, match_threshold));
        let mut i: usize = 0;
        while i < ready.len()
            invariant
                i <= ready.len(),
                items == ready_models(ready@),
                window == window_size as nat,
                least == min_buffer_size as nat,
                comparison_models(results@) == pair_results(
                    items,
                    i as int,
                    window,
                    match_threshold,
                ),
                forall|k: int|
                    0 <= k < ready@.len() ==> is_ready(router@, (#[trigger] ready@[k]).name@, least),
                all_ready(router@, comparison_models(results@), least),
                forall|k: int|
                    0 <= k < results@.len() ==> (#[trigger] results@[k]).is_within_channel
                        && results@[k]@.judged_by(match_threshold)
                        && results@[k].similarity_percent.hundredths <= 10000 && lex_le(
                        results@[k].stream1@,
                        results@[k].stream2@,
                    ),
            decreases ready.len() - i,
        {
            let ghost row_start = comparison_models(results@);
            let mut j: usize = i + 1;
            assert(row_results(items, i as int, i as int + 1, window, match_threshold)
                =~= Seq::<ComparisonModel>::empty());
            while j < ready.len()
                invariant
                    i < j <= ready.len(),
                    items == ready_models(ready@),
                    window == window_size as nat,
                    least == min_buffer_size as nat,
                    comparison_models(results@) == row_start + row_results(
                        items,
                        i as int,
                        j as int,
                        window,
                        match_threshold,
                    ),
                    forall|k: int|
                        0 <= k < ready@.len() ==> is_ready(
                            router@,
                            (#[trigger] ready@[k]).name@,
                            least,
                        ),
                    all_ready(router@, comparison_models(results@), least),
                    forall|k: int|
                        0 <= k < results@.len() ==> (#[trigger] results@[k]).is_within_channel
                            && results@[k]@.judged_by(match_threshold)
                            && results@[k].similarity_percent.hundredths <= 10000 && lex_le(
                            results@[k].stream1@,
                            results@[k].stream2@,
                        ),
                decreases ready.len() - j,
            {
                let first = &ready[i];
                let second = &ready[j];
                assert(items[i as int] == (first.name@, first.fingerprint@));
                assert(items[j as int] == (second.name@, second.fingerprint@));
                let ghost before = results@;
                match compare_pair(
                    first.name.as_str(),
                    first.fingerprint.as_slice(),
                    second.name.as_str(),
                    second.fingerprint.as_slice(),
                    window_size,
                    match_threshold,
                    true,
                ) {
                    Some(result) => {
                        proof {
                            law_comparison_is_ordered_and_judged(
                                first.name@,
                                second.name@,
                                first.fingerprint@.len(),
                                pair_similarity(
                                    first.fingerprint@,
                                    second.fingerprint@,
                                    window,
                                )->0,
                                match_threshold,
                                true,
                            );
                        }
                        results.push(result);
                        assert(comparison_models(results@) =~= comparison_models(before).push(
                            result@,
                        ));
                        assert(comparison_models(results@) =~= row_start + row_results(
                            items,
                            i as int,
                            j as int + 1,
                            window,
                            match_threshold,
                        ));
                    },
                    None => {
                        assert(comparison_models(results@) =~= row_start + row_results(
                            items,
                            i as int,
                            j as int + 1,
                            window,
                            match_threshold,
                        ));
                    },
                }
                j += 1;
            }
            i += 1;
        }
        results
    }

    /// Compares each of the streams `firsts` of one channel with each of
    /// the streams `seconds` of another. No comparison comes out for a
    /// stream whose fingerprint window holds fewer than
    /// `min_buffer_size` items, and each one is an error exactly when its
    /// similarity is over `divergence_threshold`.
    pub fn compare_across_channels(
        router: &AudioRouter,
        firsts: &Vec<String>,
        seconds: &Vec<String>,
        window_size: usize,
        min_buffer_size: usize,
        divergence_threshold: Percentage,
    ) -> (results: Vec<ComparisonResult>)
        ensures
            comparison_models(results@) == cross_results(
                router@,
                texts(firsts@),
                texts(seconds@),
                firsts@.len() as int,
                window_size as nat,
                min_buffer_size as nat,
                divergence_threshold,
            ),
            all_ready(router@, comparison_models(results@), min_buffer_size as nat),
            forall|k: int|
                0 <= k < results@.len() ==> !(#[trigger] results@[k]).is_within_channel
                    && results@[k]@.judged_by(divergence_threshold)
                    && results@[k].similarity_percent.hundredths <= 10000 && lex_le(
                    results@[k].stream1@,
                    results@[k].stream2@,
                ) && results@[k].offset_millis is None,
    {
        let ghost names1 = texts(firsts@);
        let ghost names2 = texts(seconds@);
        let ghost window = window_size as nat;
        let ghost least = min_buffer_size as nat;
        let mut results: Vec<ComparisonResult> = Vec::new();
        assert(comparison_models(results@) =~= cross_results(
            router@,
            names1,
            names2,
            0,
            window,
            least,
            divergence_threshold,
        ));
        let mut i: usize = 0;
        while i < firsts.len()
            invariant
                i <= firsts.len(),
                names1 == texts(firsts@),
                names2 == texts(seconds@),
                window == window_size as nat,
                least == min_buffer_size as nat,
                comparison_models(results@) == cross_results(
                    router@,
                    names1,
                    names2,
                    i as int,
                    window,
                    least,
                    divergence_threshold,
                ),
                all_ready(router@, comparison_models(results@), least),
                forall|k: int|
                    0 <= k < results@.len() ==> !(#[trigger] results@[k]).is_within_channel
                        && results@[k]@.judged_by(divergence_threshold)
                        && results@[k].similarity_percent.hundredths <= 10000 && lex_le(
                        results@[k].stream1@,
                        results@[k].stream2@,
                    ) && results@[k].offset_millis is None,
            decreases firsts.len() - i,
        {
            let ghost row_start = comparison_models(results@);
            assert(names1[i as int] == firsts@[i as int]@);
            let mut j: usize = 0;
            assert(cross_row(
                router@,
                names1[i as int],
                names2,
                0,
                window,
                least,
                divergence_threshold,
            ) =~= Seq::<ComparisonModel>::empty());
            while j < seconds.len()
                invariant
                    i < firsts.len(),
                    j <= seconds.len(),
                    names1 == texts(firsts@),
                    names2 == texts(seconds@),
                    window == window_size as nat,
                    least == min_buffer_size as nat,
                    comparison_models(results@) == row_start + cross_row(
                        router@,
                        names1[i as int],
                        names2,
                        j as int,
                        window,
                        least,
                        divergence_threshold,
                    ),
                    all_ready(router@, comparison_models(results@), least),
                    forall|k: int|
                        0 <= k < results@.len() ==> !(#[trigger] results@[k]).is_within_channel
                            && results@[k]@.judged_by(divergence_threshold)
                            && results@[k].similarity_percent.hundredths <= 10000 && lex_le(
                            results@[k].stream1@,
                            results@[k].stream2@,
                        ) && results@[k].offset_millis is None,
                decreases seconds.len() - j,
            {
                assert(names1[i as int] == firsts@[i as int]@);
                assert(names2[j as int] == seconds@[j as int]@);
                let ghost before = results@;
                let a = firsts[i].as_str();
                let b = seconds[j].as_str();
                let fa = router.get_stream_fingerprint(a);
                let fb = router.get_stream_fingerprint(b);
                let compared = match (fa, fb) {
                    (Some(fa), Some(fb)) => {
                        if fa.len() >= min_buffer_size && fb.len() >= min_buffer_size {
                            let r = compare_pair(
                                a,
                                fa.as_slice(),
                                b,
                                fb.as_slice(),
                                window_size,
                                divergence_threshold,
                                false,
                            );
                            proof {
                                if r is Some {
                                    law_comparison_is_ordered_and_judged(
                                        a@,
                                        b@,
                                        fa@.len(),
                                        pair_similarity(fa@, fb@, window)->0,
                                        divergence_threshold,
                                        false,
                                    );
                                }
                            }
                            r
                        } else {
                            None
                        }
                    },
                    _ => None,
                };
                match compared {
                    Some(result) => {
                        results.push(result);
                        assert(comparison_models(results@) =~= comparison_models(before).push(
                            result@,
                        ));
                        assert(comparison_models(results@) =~= row_start + cross_row(
                            router@,
                            names1[i as int],
                            names2,
                            j as int + 1,
                            window,
                            least,
                            divergence_threshold,
                        ));
                    },
                    None => {
                        assert(comparison_models(results@) =~= row_start + cross_row(
                            router@,
                            names1[i as int],
                            names2,
                            j as int + 1,
                            window,
                            least,
                            divergence_threshold,
                        ));
                    },
                }
                j += 1;
            }
            i += 1;
        }
        results
    }

    /// One round of comparisons over `router`, which the comparator
    /// keeps as its results in place of the ones of the round before. No
    /// comparison comes out for a stream whose fingerprint window holds
    /// fewer than the minimum of items.
    pub fn compare_all(&mut self, router: &AudioRouter)
        ensures
            final(self)@ == (StreamComparatorModel {
                results: old(self)@.round(router@),
                ..old(self)@
            }),
            all_ready(router@, final(self)@.results, old(self)@.min_buffer_size),
    {
        let map = router.channels();
        let count = map.len();
        let ghost m = router@;
        let ghost window = self.window_size as nat;
        let ghost least = self.min_buffer_size as nat;
        let mut results: Vec<ComparisonResult> = Vec::new();
        assert(comparison_models(results@) =~= within_results(
            m,
            0,
            window,
            least,
            self.match_threshold,
        ));
        let mut c: usize = 0;
        while c < count
            invariant
                c <= count,
                count == m.channels.names.len(),
                m == router@,
                m.wf(),
                map@ == m.channels,
                window == self.window_size as nat,
                least == self.min_buffer_size as nat,
                comparison_models(results@) == within_results(
                    m,
                    c as int,
                    window,
                    least,
                    self.match_threshold,
                ),
                all_ready(m, comparison_models(results@), least),
            decreases count - c,
        {
            let members = map.members_at(c);
            let found = StreamComparator::compare_channel_streams(
                router,
                members,
                self.window_size,
                self.min_buffer_size,
                self.match_threshold,
            );
            proof {
                lemma_all_ready_concat(
                    m,
                    comparison_models(results@),
                    comparison_models(found@),
                    least,
                );
            }
            append_results(&mut results, found);
            c += 1;
        }
        let ghost within = comparison_models(results@);
        let all_names = map.channel_names();
        let order = sort_names(&all_names);
        let ghost sorted_names = texts(order@);
        let cross_count = order.len();
        assert(across_results(m, sorted_names, 0, window, least, self.divergence_threshold)
            =~= Seq::<ComparisonModel>::empty());
        assert(within + Seq::<ComparisonModel>::empty() =~= within);
        let mut i: usize = 0;
        while i < cross_count
            invariant
                i <= cross_count,
                cross_count == order@.len(),
                sorted_names == texts(order@),
                sorted_names == sorted(m.channels.names),
                m == router@,
                m.wf(),
                map@ == m.channels,
                window == self.window_size as nat,
                least == self.min_buffer_size as nat,
                comparison_models(results@) == within + across_results(
                    m,
                    sorted_names,
                    i as int,
                    window,
                    least,
                    self.divergence_threshold,
                ),
                all_ready(m, comparison_models(results@), least),
            decreases cross_count - i,
        {
            let ghost rows_start = comparison_models(results@);
            let ghost done = across_results(
                m,
                sorted_names,
                i as int,
                window,
                least,
                self.divergence_threshold,
            );
            assert(across_row(
                m,
                sorted_names,
                i as int,
                i as int + 1,
                window,
                least,
                self.divergence_threshold,
            ) =~= Seq::<ComparisonModel>::empty());
            assert(rows_start + Seq::<ComparisonModel>::empty() =~= rows_start);
            let firsts = members_or_none(map, order[i].as_str());
            assert(sorted_names[i as int] == order@[i as int]@);
            let mut j: usize = i + 1;
            while j < cross_count
                invariant
                    i < j <= cross_count,
                    cross_count == order@.len(),
                    sorted_names == texts(order@),
                    m == router@,
                    m.wf(),
                    map@ == m.channels,
                    window == self.window_size as nat,
                    least == self.min_buffer_size as nat,
                    texts(firsts@) == m.channels.streams_or_none(sorted_names[i as int]),
                    rows_start == within + done,
                    done == across_results(
                        m,
                        sorted_names,
                        i as int,
                        window,
                        least,
                        self.divergence_threshold,
                    ),
                    comparison_models(results@) == rows_start + across_row(
                        m,
                        sorted_names,
                        i as int,
                        j as int,
                        window,
                        least,
                        self.divergence_threshold,
                    ),
                    all_ready(m, comparison_models(results@), least),
                decreases cross_count - j,
            {
                let seconds = members_or_none(map, order[j].as_str());
                assert(sorted_names[j as int] == order@[j as int]@);
                let found = StreamComparator::compare_across_channels(
                    router,
                    &firsts,
                    &seconds,
                    self.window_size,
                    self.min_buffer_size,
                    self.divergence_threshold,
                );
                proof {
                    lemma_all_ready_concat(
                        m,
                        comparison_models(results@),
                        comparison_models(found@),
                        least,
                    );
                    let row = across_row(
                        m,
                        sorted_names,
                        i as int,
                        j as int,
                        window,
                        least,
                        self.divergence_threshold,
                    );
                    assert((rows_start + row) + comparison_models(found@) =~= rows_start + (row
                        + comparison_models(found@)));
                }
                append_results(&mut results, found);
                j += 1;
            }
            proof {
                let row = across_row(
                    m,
                    sorted_names,
                    i as int,
                    cross_count as int,
                    window,
                    least,
                    self.divergence_threshold,
                );
                assert((within + done) + row =~= within + (done + row));
            }
            i += 1;
        }
        self.comparison_results = results;
    }

    /// Reports the results of the last round to `alerts` at `now`, one
    /// observation for each, in order, under the id of its two streams.
    /// Nothing is reported where the results do not go to the alert
    /// manager.
    pub fn report_results_at(&self, alerts: &mut AlertManager, now: Timestamp)
        ensures
            final(alerts)@.wf(),
            self@.reports_alerts ==> final(alerts)@ == comparison_updates(
                old(alerts)@,
                self@.results,
                self@.results.len() as int,
                self@.match_threshold,
                self@.divergence_threshold,
                now,
            ),
            !self@.reports_alerts ==> final(alerts)@ == old(alerts)@,
    {
        let _ = alerts.alert_count();
        if !self.reports_alerts {
            return ;
        }
        let ghost all = self@.results;
        let mut i: usize = 0;
        while i < self.comparison_results.len()
            invariant
                i <= self.comparison_results.len(),
                all == comparison_models(self.comparison_results@),
                alerts@.wf(),
                alerts@ == comparison_updates(
                    old(alerts)@,
                    all,
                    i as int,
                    self.match_threshold,
                    self.divergence_threshold,
                    now,
                ),
            decreases self.comparison_results.len() - i,
        {
            let result = &self.comparison_results[i];
            assert(all[i as int] == result@);
            let threshold = if result.is_within_channel {
                self.match_threshold
            } else {
                self.divergence_threshold
            };
            let (id, is_error, message) = comparison_alert(result, threshold);
            alerts.update_alert_at(id, is_error, message, now);
            i += 1;
        }
    }

    /// One round at `now`: the comparisons over `router`, and their
    /// report to `alerts`.
    pub fn run_cycle_at(&mut self, router: &AudioRouter, alerts: &mut AlertManager, now: Timestamp)
        ensures
            final(self)@ == (StreamComparatorModel {
                results: old(self)@.round(router@),
                ..old(self)@
            }),
            all_ready(router@, final(self)@.results, old(self)@.min_buffer_size),
            final(alerts)@.wf(),
            old(self)@.reports_alerts ==> final(alerts)@ == comparison_updates(
                old(alerts)@,
                old(self)@.round(router@),
                old(self)@.round(router@).len() as int,
                old(self)@.match_threshold,
                old(self)@.divergence_threshold,
                now,
            ),
            !old(self)@.reports_alerts ==> final(alerts)@ == old(alerts)@,
    {
        self.compare_all(router);
        self.report_results_at(alerts, now);
    }

    /// One round at the instant that the system clock gives.
    pub fn run_cycle(&mut self, router: &AudioRouter, alerts: &mut AlertManager)
        ensures
            final(self)@ == (StreamComparatorModel {
                results: old(self)@.round(router@),
                ..old(self)@
            }),
            all_ready(router@, final(self)@.results, old(self)@.min_buffer_size),
            final(alerts)@.wf(),
            !old(self)@.reports_alerts ==> final(alerts)@ == old(alerts)@,
            old(self)@.reports_alerts ==> exists|now: Timestamp|
                final(alerts)@ == comparison_updates(
                    old(alerts)@,
                    old(self)@.round(router@),
                    old(self)@.round(router@).len() as int,
                    old(self)@.match_threshold,
                    old(self)@.divergence_threshold,
                    now,
                ),
    {
        let now = system_now();
        self.run_cycle_at(router, alerts, now);
    }
}

} // verus!
