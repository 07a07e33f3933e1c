use vstd::prelude::*;

use crate::layer::{
    layer_wf, spec_play_sample, spec_playback_active, spec_pos_after, spec_read_pos, AudioLayer,
    LayerV,
};
use crate::peak_meter::spec_meter_after;
use crate::sample::{clip_sample, lemma_scaled_bound, spec_clipped};

verus! {

/// Most layers a mixer accepts in one pass; keeps the running sum within
/// a 64-bit accumulator.
pub const MAX_MIX_LAYERS: usize = 4096;

/// The views of a sequence of layers.
pub open spec fn views_of(ls: Seq<AudioLayer>) -> Seq<LayerV> {
    ls.map_values(|l: AudioLayer| l@)
}

/// Whether any layer of the set is soloed.
pub open spec fn spec_any_solo(ls: Seq<LayerV>) -> bool {
    exists|k: int| 0 <= k < ls.len() && ls[k].is_solo
}

/// The solo/mute audibility policy: a layer enters the mix when it is
/// playing, not muted, and — whenever any layer is soloed — itself soloed.
pub open spec fn spec_selected(l: LayerV, has_solo: bool) -> bool {
    l.is_playing && !l.is_muted && (!has_solo || l.is_solo)
}

/// What one layer contributes to mix step `i`.
pub open spec fn spec_contrib(l: LayerV, has_solo: bool, i: nat) -> int {
    if spec_selected(l, has_solo) && spec_playback_active(l) {
        spec_play_sample(l, i)
    } else {
        0
    }
}

/// The unclipped sum of all contributions at mix step `i`.
pub open spec fn spec_mix_sum(ls: Seq<LayerV>, has_solo: bool, i: nat) -> int
    decreases ls.len(),
{
    if ls.len() == 0 {
        0
    } else {
        spec_mix_sum(ls.drop_last(), has_solo, i) + spec_contrib(ls.last(), has_solo, i)
    }
}

/// The mixed output at step `i`: the sum of the audible layers' samples,
/// hard-clipped to the representable amplitude range.
pub open spec fn spec_mixed_value(ls: Seq<LayerV>, i: nat) -> int {
    spec_clipped(spec_mix_sum(ls, spec_any_solo(ls), i))
}

/// The samples a layer emits over `n` playback steps.
pub open spec fn spec_emitted(l: LayerV, n: nat) -> Seq<i32> {
    Seq::new(n, |i: int| spec_play_sample(l, i as nat) as i32)
}

/// A layer's state after it took part in mixing `n` samples: audible
/// layers advance their playback position and feed their meter; all
/// others are untouched.
pub open spec fn spec_layer_mixed(l: LayerV, has_solo: bool, n: nat) -> LayerV {
    if spec_selected(l, has_solo) && spec_playback_active(l) {
        LayerV {
            playback_position: spec_pos_after(
                l.loop_start,
                l.buffer.len() as int,
                l.playback_position,
                n,
            ),
            meter: spec_meter_after(l.meter, spec_emitted(l, n)),
            ..l
        }
    } else {
        l
    }
}

/// A playing layer's sample at any step fits the sample type.
pub proof fn lemma_play_sample_bound(l: LayerV, i: nat)
    requires
        layer_wf(l),
        spec_playback_active(l),
    ensures
        -0x8000_0000 <= spec_play_sample(l, i) <= 0x7fff_ffff,
{
    crate::layer::lemma_read_pos_in_bounds(
        l.loop_start,
        l.buffer.len() as int,
        l.playback_position,
        i,
    );
    let s = l.buffer[spec_read_pos(l.loop_start, l.buffer.len() as int, l.playback_position, i)];
    lemma_scaled_bound(s as int, l.volume);
}

/// The unclipped mix sum of `n` layers stays within `n` full-scale
/// samples.
pub proof fn lemma_mix_sum_bound(ls: Seq<LayerV>, has_solo: bool, i: nat)
    requires
        forall|k: int| 0 <= k < ls.len() ==> layer_wf(#[trigger] ls[k]),
    ensures
        -(ls.len() as int) * 0x8000_0000 <= spec_mix_sum(ls, has_solo, i) <= (ls.len() as int)
            * 0x8000_0000,
    decreases ls.len(),
{
    if ls.len() == 0 {
    } else {
        let rest = ls.drop_last();
        assert(forall|k: int| 0 <= k < rest.len() ==> layer_wf(#[trigger] rest[k]));
        lemma_mix_sum_bound(rest, has_solo, i);
        if spec_selected(ls.last(), has_solo) && spec_playback_active(ls.last()) {
            lemma_play_sample_bound(ls.last(), i);
        }
        assert((ls.len() as int) * 0x8000_0000 == (rest.len() as int) * 0x8000_0000 + 0x8000_0000)
            by (nonlinear_arith)
            requires
                ls.len() as int == rest.len() as int + 1,
        ;
    }
}

/// One more layer extends the mix sum by its contribution.
pub proof fn lemma_mix_sum_step(ls: Seq<LayerV>, k: int, has_solo: bool, i: nat)
    requires
        0 <= k < ls.len(),
    ensures
        spec_mix_sum(ls.take(k + 1), has_solo, i) == spec_mix_sum(ls.take(k), has_solo, i)
            + spec_contrib(ls[k], has_solo, i),
{
    assert(ls.take(k + 1).drop_last() =~= ls.take(k));
    assert(ls.take(k + 1).last() == ls[k]);
}

/// The audibility policy, shared by every mixing back end.
pub fn should_mix_layer(layer: &AudioLayer, has_solo: bool) -> (r: bool)
    ensures
        r == spec_selected(layer@, has_solo),
{
    layer.is_playing && !layer.is_muted && (!has_solo || layer.is_solo)
}

/// Whether any layer of the pool is soloed.
pub fn any_solo(layers: &Vec<AudioLayer>) -> (r: bool)
    ensures
        r == spec_any_solo(views_of(layers@)),
{
    let mut k: usize = 0;
    while k < layers.len()
        invariant
            k <= layers.len(),
            forall|j: int| 0 <= j < k ==> !views_of(layers@)[j].is_solo,
        decreases layers.len() - k,
    {
        if layers[k].is_solo {
            proof {
                assert(views_of(layers@)[k as int].is_solo);
            }
            return true;
        }
        k = k + 1;
    }
    false
}

/// Grow or shrink a sample buffer to an exact length.
pub(crate) fn resize_samples(v: &mut Vec<i32>, n: usize)
    ensures
        final(v)@.len() == n as int,
{
    v.truncate(n);
    while v.len() < n
        invariant
            v@.len() <= n as int,
        decreases n - v.len(),
    {
        v.push(0);
    }
}

/// Grow or shrink an accumulator to an exact length.
fn resize_accumulator(v: &mut Vec<i64>, n: usize)
    ensures
        final(v)@.len() == n as int,
{
    v.truncate(n);
    while v.len() < n
        invariant
            v@.len() <= n as int,
        decreases n - v.len(),
    {
        v.push(0);
    }
}

/// A mutable borrow of one layer of the pool.
pub(crate) fn layer_at<'a>(layers: &'a mut Vec<AudioLayer>, k: usize) -> (element: &'a mut AudioLayer)
    requires
        k < old(layers)@.len(),
    ensures
        *element == old(layers)@[k as int],
        final(layers)@ == old(layers)@.update(k as int, *final(element)),
{
    &mut layers[k]
}

/// Block-structured mixer: processes samples four at a time, with a
/// scalar pass for the remainder.  Its output is specified — and proved —
/// sample-for-sample equal to the scalar back end's.
pub struct SimdMixer {
    scratch_buffer: Vec<i32>,
    accumulator: Vec<i64>,
}

/// Plain one-sample-at-a-time mixer, the reference back end.
pub struct ScalarMixer {
    scratch_buffer: Vec<i32>,
    accumulator: Vec<i64>,
}

impl SimdMixer {
    /// A mixer whose scratch space starts out sized for `max_buffer_size`
    /// samples.
    pub fn new(max_buffer_size: usize) -> (m: SimdMixer)
    {
        let mut scratch_buffer: Vec<i32> = Vec::new();
        resize_samples(&mut scratch_buffer, max_buffer_size);
        let mut accumulator: Vec<i64> = Vec::new();
        resize_accumulator(&mut accumulator, max_buffer_size);
        SimdMixer { scratch_buffer, accumulator }
    }

    /// Hard-clip a buffer in place to `[-UNIT, UNIT]`, four samples at a
    /// time.
    pub fn soft_clip_simd(&self, buffer: &mut Vec<i32>)
        ensures
            final(buffer)@.len() == old(buffer)@.len(),
            forall|j: int|
                0 <= j < old(buffer)@.len() ==> #[trigger] final(buffer)@[j] as int == spec_clipped(
                    old(buffer)@[j] as int,
                ),
    {
        let n: usize = buffer.len();
        let blocks: usize = n / 4;
        proof {
            vstd::arithmetic::div_mod::lemma_fundamental_div_mod(n as int, 4);
            vstd::arithmetic::div_mod::lemma_mod_bound(n as int, 4);
        }
        let mut b: usize = 0;
        while b < blocks
            invariant
                4 * blocks <= n,
                b <= blocks,
                buffer@.len() == n as int,
                n as int == old(buffer)@.len(),
                forall|j: int|
                    0 <= j < 4 * b ==> #[trigger] buffer@[j] as int == spec_clipped(
                        old(buffer)@[j] as int,
                    ),
                forall|j: int| 4 * b <= j < n ==> #[trigger] buffer@[j] == old(buffer)@[j],
            decreases blocks - b,
        {
            let idx: usize = b * 4;
            let c0: i32 = clip_sample(buffer[idx] as i64);
            let c1: i32 = clip_sample(buffer[idx + 1] as i64);
            let c2: i32 = clip_sample(buffer[idx + 2] as i64);
            let c3: i32 = clip_sample(buffer[idx + 3] as i64);
            buffer.set(idx, c0);
            buffer.set(idx + 1, c1);
            buffer.set(idx + 2, c2);
            buffer.set(idx + 3, c3);
            b = b + 1;
        }
        let mut j: usize = blocks * 4;
        while j < n
            invariant
                4 * blocks <= j <= n,
                buffer@.len() == n as int,
                n as int == old(buffer)@.len(),
                forall|i: int|
                    0 <= i < j ==> #[trigger] buffer@[i] as int == spec_clipped(
                        old(buffer)@[i] as int,
                    ),
                forall|i: int| j <= i < n ==> #[trigger] buffer@[i] == old(buffer)@[i],
            decreases n - j,
        {
            let c: i32 = clip_sample(buffer[j] as i64);
            buffer.set(j, c);
            j = j + 1;
        }
    }

    /// Mix the audible layers into `output`: sum their next samples and
    /// hard-clip the total.
    pub fn mix_layers(&mut self, layers: &mut Vec<AudioLayer>, output: &mut Vec<i32>)
        requires
            old(layers)@.len() <= MAX_MIX_LAYERS,
            forall|k: int| 0 <= k < old(layers)@.len() ==> layer_wf(#[trigger] old(layers)@[k]@),
        ensures
            final(output)@.len() == old(output)@.len(),
            final(layers)@.len() == old(layers)@.len(),
            forall|i: int|
                0 <= i < old(output)@.len() ==> #[trigger] final(output)@[i] as int
                    == spec_mixed_value(views_of(old(layers)@), i as nat),
            forall|k: int|
                0 <= k < old(layers)@.len() ==> #[trigger] final(layers)@[k]@ == spec_layer_mixed(
                    old(layers)@[k]@,
                    spec_any_solo(views_of(old(layers)@)),
                    old(output)@.len() as nat,
                ),
            forall|k: int| 0 <= k < final(layers)@.len() ==> layer_wf(#[trigger] final(layers)@[k]@),
    {
        mix_into(
            layers,
            output,
            &mut self.scratch_buffer,
            &mut self.accumulator,
            true,
        );
    }
}

impl ScalarMixer {
    /// A mixer whose scratch space starts out sized for `max_buffer_size`
    /// samples.
    pub fn new(max_buffer_size: usize) -> (m: ScalarMixer)
    {
        let mut scratch_buffer: Vec<i32> = Vec::new();
        resize_samples(&mut scratch_buffer, max_buffer_size);
        let mut accumulator: Vec<i64> = Vec::new();
        resize_accumulator(&mut accumulator, max_buffer_size);
        ScalarMixer { scratch_buffer, accumulator }
    }

    /// Mix the audible layers into `output`; the contract is identical,
    /// sample for sample, to the block-structured back end's.
    pub fn mix_layers(&mut self, layers: &mut Vec<AudioLayer>, output: &mut Vec<i32>)
        requires
            old(layers)@.len() <= MAX_MIX_LAYERS,
            forall|k: int| 0 <= k < old(layers)@.len() ==> layer_wf(#[trigger] old(layers)@[k]@),
        ensures
            final(output)@.len() == old(output)@.len(),
            final(layers)@.len() == old(layers)@.len(),
            forall|i: int|
                0 <= i < old(output)@.len() ==> #[trigger] final(output)@[i] as int
                    == spec_mixed_value(views_of(old(layers)@), i as nat),
            forall|k: int|
                0 <= k < old(layers)@.len() ==> #[trigger] final(layers)@[k]@ == spec_layer_mixed(
                    old(layers)@[k]@,
                    spec_any_solo(views_of(old(layers)@)),
                    old(output)@.len() as nat,
                ),
            forall|k: int| 0 <= k < final(layers)@.len() ==> layer_wf(#[trigger] final(layers)@[k]@),
    {
        mix_into(
            layers,
            output,
            &mut self.scratch_buffer,
            &mut self.accumulator,
            false,
        );
    }
}

/// The one mixing algorithm, parameterized only by the block width of its
/// inner passes; the audibility policy and the mix formula are shared.
fn mix_into(
    layers: &mut Vec<AudioLayer>,
    output: &mut Vec<i32>,
    scratch: &mut Vec<i32>,
    accumulator: &mut Vec<i64>,
    blockwise: bool,
)
    requires
        old(layers)@.len() <= MAX_MIX_LAYERS,
        forall|k: int| 0 <= k < old(layers)@.len() ==> layer_wf(#[trigger] old(layers)@[k]@),
    ensures
        final(output)@.len() == old(output)@.len(),
        final(layers)@.len() == old(layers)@.len(),
        forall|i: int|
            0 <= i < old(output)@.len() ==> #[trigger] final(output)@[i] as int == spec_mixed_value(
                views_of(old(layers)@),
                i as nat,
            ),
        forall|k: int|
            0 <= k < old(layers)@.len() ==> #[trigger] final(layers)@[k]@ == spec_layer_mixed(
                old(layers)@[k]@,
                spec_any_solo(views_of(old(layers)@)),
                old(output)@.len() as nat,
            ),
        forall|k: int| 0 <= k < final(layers)@.len() ==> layer_wf(#[trigger] final(layers)@[k]@),
{
    let n: usize = output.len();
    let ghost pre = views_of(layers@);
    let has_solo: bool = any_solo(layers);
    resize_samples(scratch, n);
    resize_accumulator(accumulator, n);

    // Zero the accumulator.
    let mut z: usize = 0;
    while z < n
        invariant
            z <= n,
            accumulator@.len() == n as int,
            forall|j: int| 0 <= j < z ==> #[trigger] accumulator@[j] == 0i64,
        decreases n - z,
    {
        accumulator.set(z, 0);
        z = z + 1;
    }

    // Accumulate each audible layer.
    let mut k: usize = 0;
    while k < layers.len()
        invariant
            layers@.len() == pre.len(),
            pre == views_of(old(layers)@),
            has_solo == spec_any_solo(pre),
            k <= layers@.len(),
            pre.len() <= MAX_MIX_LAYERS,
            n as int == old(output)@.len(),
            output@.len() == n as int,
            scratch@.len() == n as int,
            accumulator@.len() == n as int,
            forall|j: int| 0 <= j < pre.len() ==> layer_wf(#[trigger] pre[j]),
            forall|j: int| k <= j < pre.len() ==> #[trigger] layers@[j]@ == pre[j],
            forall|j: int|
                0 <= j < k ==> #[trigger] layers@[j]@ == spec_layer_mixed(pre[j], has_solo, n as nat),
            forall|j: int| 0 <= j < layers@.len() ==> layer_wf(#[trigger] layers@[j]@),
            forall|i: int|
                0 <= i < n ==> #[trigger] accumulator@[i] as int == spec_mix_sum(
                    pre.take(k as int),
                    has_solo,
                    i as nat,
                ),
        decreases layers.len() - k,
    {
        proof {
            assert(pre[k as int] == layers@[k as int]@);
        }
        let selected: bool = should_mix_layer(&layers[k], has_solo);
        if selected {
            let layer = layer_at(layers, k);
            layer.fill_next_samples(scratch);
            proof {
                if spec_playback_active(pre[k as int]) {
                    assert forall|j: int| 0 <= j < n implies #[trigger] scratch@[j]
                        == spec_emitted(pre[k as int], n as nat)[j] by {
                        lemma_play_sample_bound(pre[k as int], j as nat);
                    }
                    assert(scratch@ =~= spec_emitted(pre[k as int], n as nat));
                }
            }
            let ghost acc_pre = accumulator@;
            proof {
                assert forall|i: int| 0 <= i < n implies -((MAX_MIX_LAYERS as int) * 0x8000_0000)
                    <= #[trigger] accumulator@[i] as int <= (MAX_MIX_LAYERS as int)
                    * 0x8000_0000 by {
                    lemma_mix_sum_bound(pre.take(k as int), has_solo, i as nat);
                    assert((pre.take(k as int).len() as int) * 0x8000_0000 <= (
                    MAX_MIX_LAYERS as int) * 0x8000_0000) by (nonlinear_arith)
                        requires
                            pre.take(k as int).len() as int <= MAX_MIX_LAYERS as int,
                    ;
                }
            }
            add_samples(accumulator, scratch, n, blockwise);
            proof {
                assert forall|i: int| 0 <= i < n implies #[trigger] accumulator@[i] as int
                    == spec_mix_sum(pre.take(k as int + 1), has_solo, i as nat) by {
                    lemma_mix_sum_step(pre, k as int, has_solo, i as nat);
                    if spec_playback_active(pre[k as int]) {
                        lemma_play_sample_bound(pre[k as int], i as nat);
                    }
                }
            }
        } else {
            proof {
                assert forall|i: int| 0 <= i < n implies #[trigger] accumulator@[i] as int
                    == spec_mix_sum(pre.take(k as int + 1), has_solo, i as nat) by {
                    lemma_mix_sum_step(pre, k as int, has_solo, i as nat);
                }
            }
        }
        k = k + 1;
    }
    proof {
        assert(pre.take(layers@.len() as int) =~= pre);
    }

    // Hard-clip the totals into the output buffer.
    let mut i: usize = 0;
    while i < n
        invariant
            i <= n,
            n as int == old(output)@.len(),
            output@.len() == n as int,
            accumulator@.len() == n as int,
            forall|j: int|
                0 <= j < n ==> #[trigger] accumulator@[j] as int == spec_mix_sum(
                    pre,
                    spec_any_solo(pre),
                    j as nat,
                ),
            forall|j: int|
                0 <= j < i ==> #[trigger] output@[j] as int == spec_mixed_value(pre, j as nat),
        decreases n - i,
    {
        let c: i32 = clip_sample(accumulator[i]);
        output.set(i, c);
        i = i + 1;
    }
}

/// Add `n` scratch samples into the accumulator, either four at a time or
/// one by one; both paths compute the same sums.
fn add_samples(accumulator: &mut Vec<i64>, scratch: &Vec<i32>, n: usize, blockwise: bool)
    requires
        n <= old(accumulator)@.len(),
        n <= scratch@.len(),
        forall|j: int|
            0 <= j < n ==> -((MAX_MIX_LAYERS as int) * 0x8000_0000) <= #[trigger] old(
                accumulator,
            )@[j] as int <= (MAX_MIX_LAYERS as int) * 0x8000_0000,
    ensures
        final(accumulator)@.len() == old(accumulator)@.len(),
        forall|j: int|
            0 <= j < n ==> #[trigger] final(accumulator)@[j] as int == old(accumulator)@[j] as int
                + scratch@[j] as int,
        forall|j: int|
            n <= j < old(accumulator)@.len() ==> #[trigger] final(accumulator)@[j] == old(
                accumulator,
            )@[j],
{
    if blockwise {
        let blocks: usize = n / 4;
        proof {
            vstd::arithmetic::div_mod::lemma_fundamental_div_mod(n as int, 4);
            vstd::arithmetic::div_mod::lemma_mod_bound(n as int, 4);
        }
        let mut b: usize = 0;
        while b < blocks
            invariant
                blocks == n / 4,
                4 * blocks <= n,
                n <= accumulator@.len(),
                n <= scratch@.len(),
                b <= blocks,
                accumulator@.len() == old(accumulator)@.len(),
                forall|j: int|
                    4 * b <= j < n ==> -((MAX_MIX_LAYERS as int) * 0x8000_0000)
                        <= #[trigger] accumulator@[j] as int <= (MAX_MIX_LAYERS as int)
                        * 0x8000_0000,
                forall|j: int|
                    0 <= j < 4 * b ==> #[trigger] accumulator@[j] as int == old(
                        accumulator,
                    )@[j] as int + scratch@[j] as int,
                forall|j: int|
                    4 * b <= j < accumulator@.len() ==> #[trigger] accumulator@[j] == old(
                        accumulator,
                    )@[j],
            decreases blocks - b,
        {
            let idx: usize = b * 4;
            let a0: i64 = accumulator[idx] + (scratch[idx] as i64);
            let a1: i64 = accumulator[idx + 1] + (scratch[idx + 1] as i64);
            let a2: i64 = accumulator[idx + 2] + (scratch[idx + 2] as i64);
            let a3: i64 = accumulator[idx + 3] + (scratch[idx + 3] as i64);
            accumulator.set(idx, a0);
            accumulator.set(idx + 1, a1);
            accumulator.set(idx + 2, a2);
            accumulator.set(idx + 3, a3);
            b = b + 1;
        }
        let mut j: usize = blocks * 4;
        while j < n
            invariant
                4 * blocks <= j <= n,
                n <= accumulator@.len(),
                n <= scratch@.len(),
                accumulator@.len() == old(accumulator)@.len(),
                forall|i: int|
                    j <= i < n ==> -((MAX_MIX_LAYERS as int) * 0x8000_0000)
                        <= #[trigger] accumulator@[i] as int <= (MAX_MIX_LAYERS as int)
                        * 0x8000_0000,
                forall|i: int|
                    0 <= i < j ==> #[trigger] accumulator@[i] as int == old(
                        accumulator,
                    )@[i] as int + scratch@[i] as int,
                forall|i: int|
                    j <= i < accumulator@.len() ==> #[trigger] accumulator@[i] == old(
                        accumulator,
                    )@[i],
            decreases n - j,
        {
            let a: i64 = accumulator[j] + (scratch[j] as i64);
            accumulator.set(j, a);
            j = j + 1;
        }
    } else {
        let mut j: usize = 0;
        while j < n
            invariant
                j <= n,
                n <= accumulator@.len(),
                n <= scratch@.len(),
                accumulator@.len() == old(accumulator)@.len(),
                forall|i: int|
                    j <= i < n ==> -((MAX_MIX_LAYERS as int) * 0x8000_0000)
                        <= #[trigger] accumulator@[i] as int <= (MAX_MIX_LAYERS as int)
                        * 0x8000_0000,
                forall|i: int|
                    0 <= i < j ==> #[trigger] accumulator@[i] as int == old(
                        accumulator,
                    )@[i] as int + scratch@[i] as int,
                forall|i: int|
                    j <= i < accumulator@.len() ==> #[trigger] accumulator@[i] == old(
                        accumulator,
                    )@[i],
            decreases n - j,
        {
            let a: i64 = accumulator[j] + (scratch[j] as i64);
            accumulator.set(j, a);
            j = j + 1;
        }
    }
}

/// Soloing one layer yields the same mix as muting every other layer:
/// with `k` the only soloed layer, clearing its solo flag and muting all
/// the others instead leaves every mixed sample unchanged.
pub proof fn lemma_solo_equals_muting_others(a: Seq<LayerV>, b: Seq<LayerV>, k: int, i: nat)
    requires
        0 <= k < a.len(),
        b.len() == a.len(),
        a[k].is_solo,
        forall|j: int| 0 <= j < a.len() && j != k ==> !(#[trigger] a[j]).is_solo,
        b[k] == (LayerV { is_solo: false, ..a[k] }),
        forall|j: int|
            0 <= j < a.len() && j != k ==> #[trigger] b[j] == (LayerV {
                is_muted: true,
                is_solo: false,
                ..a[j]
            }),
    ensures
        spec_mixed_value(a, i) == spec_mixed_value(b, i),
{
    assert(spec_any_solo(a));
    assert(!spec_any_solo(b)) by {
        assert forall|j: int| 0 <= j < b.len() implies !(#[trigger] b[j]).is_solo by {}
    }
    lemma_mix_sum_pointwise(a, b, k, spec_any_solo(a), spec_any_solo(b), i, a.len() as int);
    assert(a.take(a.len() as int) =~= a);
    assert(b.take(b.len() as int) =~= b);
}

/// The two layer sets of the solo/mute law have equal partial mix sums.
proof fn lemma_mix_sum_pointwise(
    a: Seq<LayerV>,
    b: Seq<LayerV>,
    k: int,
    solo_a: bool,
    solo_b: bool,
    i: nat,
    upto: int,
)
    requires
        0 <= k < a.len(),
        b.len() == a.len(),
        0 <= upto <= a.len(),
        solo_a,
        !solo_b,
        a[k].is_solo,
        forall|j: int| 0 <= j < a.len() && j != k ==> !(#[trigger] a[j]).is_solo,
        b[k] == (LayerV { is_solo: false, ..a[k] }),
        forall|j: int|
            0 <= j < a.len() && j != k ==> #[trigger] b[j] == (LayerV {
                is_muted: true,
                is_solo: false,
                ..a[j]
            }),
    ensures
        spec_mix_sum(a.take(upto), solo_a, i) == spec_mix_sum(b.take(upto), solo_b, i),
    decreases upto,
{
    if upto > 0 {
        lemma_mix_sum_pointwise(a, b, k, solo_a, solo_b, i, upto - 1);
        assert(a.take(upto).drop_last() =~= a.take(upto - 1));
        assert(b.take(upto).drop_last() =~= b.take(upto - 1));
        let j = upto - 1;
        if j == k {
            assert(spec_contrib(a[j], solo_a, i) == spec_contrib(b[j], solo_b, i)) by {
                if spec_selected(a[j], solo_a) && spec_playback_active(a[j]) {
                    assert(spec_play_sample(a[j], i) == spec_play_sample(b[j], i));
                }
            }
        } else {
            assert(spec_contrib(a[j], solo_a, i) == 0);
            assert(spec_contrib(b[j], solo_b, i) == 0);
        }
    }
}

} // verus!
