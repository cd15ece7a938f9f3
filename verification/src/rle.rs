use vstd::prelude::*;

use crate::delta::DeltaSample;
use crate::delta::delta_channel;
use crate::delta::delta_encode;
use crate::delta::delta_compresser;
use crate::pixel::Pixel;
use crate::pixel::PixelBuffer;

verus! {

/// A maximal run of identical delta values on one channel, rendered
/// textually as `|<run_length>*<value>`.
#[derive(Clone, Copy, PartialEq, Eq, Structural, Debug)]
pub struct RunToken {
    pub channel: u8,
    pub run_length: u64,
    pub value: i16,
}

/// The values of channel `c` across a delta stream, in order.
pub open spec fn channel_values(d: Seq<DeltaSample>, c: int) -> Seq<i16> {
    Seq::new(d.len(), |i: int| delta_channel(d[i], c))
}

/// The length of the maximal run of equal channel-`c` values ending at
/// sample `i`.
pub open spec fn run_len(d: Seq<DeltaSample>, c: int, i: int) -> int
    recommends
        0 <= i < d.len(),
    decreases i,
{
    if i <= 0 {
        1
    } else if delta_channel(d[i], c) == delta_channel(d[i - 1], c) {
        run_len(d, c, i - 1) + 1
    } else {
        1
    }
}

/// The tokens emitted while the encoder processes sample `i` (for
/// `i >= 1`): a channel-1 token, then a channel-2 token, each only when
/// that channel's value changes at `i`.
pub open spec fn step_tokens(d: Seq<DeltaSample>, i: int) -> Seq<RunToken>
    recommends
        1 <= i < d.len(),
{
    (if delta_channel(d[i], 1) != delta_channel(d[i - 1], 1) {
        seq![
            RunToken {
                channel: 1,
                run_length: run_len(d, 1, i - 1) as u64,
                value: delta_channel(d[i - 1], 1),
            },
        ]
    } else {
        Seq::<RunToken>::empty()
    }) + (if delta_channel(d[i], 2) != delta_channel(d[i - 1], 2) {
        seq![
            RunToken {
                channel: 2,
                run_length: run_len(d, 2, i - 1) as u64,
                value: delta_channel(d[i - 1], 2),
            },
        ]
    } else {
        Seq::<RunToken>::empty()
    })
}

/// All tokens emitted while processing the samples before index `i`.
pub open spec fn rle_tokens_prefix(d: Seq<DeltaSample>, i: int) -> Seq<RunToken>
    recommends
        1 <= i <= d.len(),
    decreases i,
{
    if i <= 1 {
        Seq::<RunToken>::empty()
    } else {
        rle_tokens_prefix(d, i - 1) + step_tokens(d, i - 1)
    }
}

/// The full token stream of a delta sequence. The final open run of each
/// channel is never flushed.
pub open spec fn rle_tokens(d: Seq<DeltaSample>) -> Seq<RunToken> {
    rle_tokens_prefix(d, d.len() as int)
}

/// The decimal digits of `n`, as ASCII bytes, most significant first.
pub open spec fn dec_digits(n: nat) -> Seq<u8>
    decreases n,
{
    if n < 10 {
        seq![(48 + n) as u8]
    } else {
        dec_digits(n / 10).push((48 + n % 10) as u8)
    }
}

/// The decimal rendering of a signed value, with a leading `-` when
/// negative.
pub open spec fn dec_int(v: int) -> Seq<u8> {
    if v < 0 {
        seq![45u8] + dec_digits((-v) as nat)
    } else {
        dec_digits(v as nat)
    }
}

/// The bytes of one token: `|`, the run length, `*`, the value.
pub open spec fn token_bytes(t: RunToken) -> Seq<u8> {
    seq![124u8] + dec_digits(t.run_length as nat) + seq![42u8] + dec_int(t.value as int)
}

/// The bytes of a token stream: each token's bytes, concatenated in
/// emission order.
pub open spec fn render_tokens_spec(ts: Seq<RunToken>) -> Seq<u8>
    decreases ts.len(),
{
    if ts.len() == 0 {
        Seq::<u8>::empty()
    } else {
        token_bytes(ts[0]) + render_tokens_spec(ts.drop_first())
    }
}

/// The run-length encoding of a pixel sequence: tokenize its delta
/// stream, then render the tokens as text.
pub open spec fn rle_bytes(s: Seq<Pixel>) -> Seq<u8> {
    render_tokens_spec(rle_tokens(delta_encode(s)))
}

/// Tokenize a delta stream: channels 1 and 2 only, a token per run
/// boundary, the final open run of each channel left unflushed.
pub fn rle_tokenize(deltas: &Vec<DeltaSample>) -> (r: Vec<RunToken>)
    requires
        deltas@.len() >= 1,
    ensures
        r@ == rle_tokens(deltas@),
{
    let n = deltas.len();
    let first = deltas[0];
    let mut count1: u64 = 1;
    let mut last1: i16 = first.d1;
    let mut count2: u64 = 1;
    let mut last2: i16 = first.d2;
    let mut out: Vec<RunToken> = Vec::new();
    let mut i: usize = 1;
    while i < n
        invariant
            n == deltas@.len(),
            1 <= i <= n,
            count1 == run_len(deltas@, 1, i - 1),
            count2 == run_len(deltas@, 2, i - 1),
            count1 <= i,
            count2 <= i,
            last1 == delta_channel(deltas@[i - 1], 1),
            last2 == delta_channel(deltas@[i - 1], 2),
            out@ == rle_tokens_prefix(deltas@, i as int),
        decreases n - i,
    {
        let d = deltas[i];
        let ghost pre = out@;
        if d.d1 == last1 {
            count1 = count1 + 1;
        } else {
            out.push(RunToken { channel: 1, run_length: count1, value: last1 });
            count1 = 1;
            last1 = d.d1;
        }
        if d.d2 == last2 {
            count2 = count2 + 1;
        } else {
            out.push(RunToken { channel: 2, run_length: count2, value: last2 });
            count2 = 1;
            last2 = d.d2;
        }
        proof {
            assert(out@ =~= pre + step_tokens(deltas@, i as int));
        }
        i = i + 1;
    }
    out
}

/// Append the decimal digits of `n` to `out`.
fn push_dec_u64(out: &mut Vec<u8>, n: u64)
    ensures
        final(out)@ == old(out)@ + dec_digits(n as nat),
    decreases n,
{
    if n < 10 {
        out.push(48 + n as u8);
        assert(final(out)@ =~= old(out)@ + dec_digits(n as nat));
    } else {
        push_dec_u64(out, n / 10);
        out.push(48 + (n % 10) as u8);
        assert(final(out)@ =~= old(out)@ + dec_digits(n as nat));
    }
}

/// Append the decimal rendering of `v` to `out`, sign included.
fn push_dec_i16(out: &mut Vec<u8>, v: i16)
    ensures
        final(out)@ == old(out)@ + dec_int(v as int),
{
    if v < 0 {
        out.push(45);
        let m: u32 = (-(v as i32)) as u32;
        push_dec_u64(out, m as u64);
        assert(final(out)@ =~= old(out)@ + dec_int(v as int));
    } else {
        push_dec_u64(out, v as u64);
    }
}

proof fn lemma_render_snoc(ts: Seq<RunToken>, t: RunToken)
    ensures
        render_tokens_spec(ts.push(t)) == render_tokens_spec(ts) + token_bytes(t),
    decreases ts.len(),
{
    if ts.len() == 0 {
        assert(ts.push(t)[0] == t);
        assert(ts.push(t).drop_first() =~= Seq::<RunToken>::empty());
        assert(render_tokens_spec(ts.push(t)) == token_bytes(t) + render_tokens_spec(
            Seq::<RunToken>::empty(),
        ));
        assert(render_tokens_spec(Seq::<RunToken>::empty()) == Seq::<u8>::empty());
        assert(render_tokens_spec(ts) == Seq::<u8>::empty());
        assert(render_tokens_spec(ts.push(t)) =~= render_tokens_spec(ts) + token_bytes(t));
    } else {
        assert(ts.push(t).drop_first() =~= ts.drop_first().push(t));
        lemma_render_snoc(ts.drop_first(), t);
        assert(ts.push(t)[0] == ts[0]);
        assert(render_tokens_spec(ts.push(t)) == token_bytes(ts[0]) + render_tokens_spec(
            ts.drop_first().push(t),
        ));
        assert(render_tokens_spec(ts.push(t)) =~= render_tokens_spec(ts) + token_bytes(t));
    }
}

/// Render a token stream as its textual bytes.
pub fn render_tokens(tokens: &Vec<RunToken>) -> (r: Vec<u8>)
    ensures
        r@ == render_tokens_spec(tokens@),
{
    let n = tokens.len();
    let mut out: Vec<u8> = Vec::new();
    let mut i: usize = 0;
    while i < n
        invariant
            n == tokens@.len(),
            0 <= i <= n,
            out@ == render_tokens_spec(tokens@.take(i as int)),
        decreases n - i,
    {
        let t = tokens[i];
        out.push(124);
        push_dec_u64(&mut out, t.run_length);
        out.push(42);
        push_dec_i16(&mut out, t.value);
        proof {
            assert(tokens@.take(i + 1) =~= tokens@.take(i as int).push(t));
            lemma_render_snoc(tokens@.take(i as int), t);
            assert(out@ =~= render_tokens_spec(tokens@.take(i as int)) + token_bytes(t));
        }
        i = i + 1;
    }
    proof {
        assert(tokens@.take(n as int) =~= tokens@);
    }
    out
}

/// The channel-`c` values a token stream re-expands to: each token of
/// channel `c` contributes its value, repeated its run length, in order.
pub open spec fn expand_tokens(ts: Seq<RunToken>, c: int) -> Seq<i16>
    decreases ts.len(),
{
    if ts.len() == 0 {
        Seq::<i16>::empty()
    } else {
        (if ts[0].channel as int == c {
            Seq::new(ts[0].run_length as nat, |j: int| ts[0].value)
        } else {
            Seq::<i16>::empty()
        }) + expand_tokens(ts.drop_first(), c)
    }
}

proof fn lemma_expand_concat(a: Seq<RunToken>, b: Seq<RunToken>, c: int)
    ensures
        expand_tokens(a + b, c) == expand_tokens(a, c) + expand_tokens(b, c),
    decreases a.len(),
{
    if a.len() == 0 {
        assert(a + b =~= b);
        assert(expand_tokens(a, c) == Seq::<i16>::empty());
        assert(expand_tokens(a + b, c) =~= expand_tokens(a, c) + expand_tokens(b, c));
    } else {
        assert((a + b).drop_first() =~= a.drop_first() + b);
        assert((a + b)[0] == a[0]);
        lemma_expand_concat(a.drop_first(), b, c);
        assert(expand_tokens(a + b, c) =~= expand_tokens(a, c) + expand_tokens(b, c));
    }
}

proof fn lemma_run_len_props(d: Seq<DeltaSample>, c: int, i: int)
    requires
        0 <= i < d.len(),
    ensures
        1 <= run_len(d, c, i) <= i + 1,
        forall|j: int|
            i + 1 - run_len(d, c, i) <= j <= i ==> #[trigger] delta_channel(d[j], c)
                == delta_channel(d[i], c),
    decreases i,
{
    if i > 0 && delta_channel(d[i], c) == delta_channel(d[i - 1], c) {
        lemma_run_len_props(d, c, i - 1);
    }
}

proof fn lemma_expand_single(t: RunToken, c: int)
    ensures
        expand_tokens(seq![t], c) == (if t.channel as int == c {
            Seq::new(t.run_length as nat, |j: int| t.value)
        } else {
            Seq::<i16>::empty()
        }),
{
    let s = seq![t];
    assert(s.drop_first() =~= Seq::<RunToken>::empty());
    assert(expand_tokens(s.drop_first(), c) == Seq::<i16>::empty());
    assert(expand_tokens(s, c) =~= (if t.channel as int == c {
        Seq::new(t.run_length as nat, |j: int| t.value)
    } else {
        Seq::<i16>::empty()
    }));
}

proof fn lemma_expand_step(d: Seq<DeltaSample>, c: int, i: int)
    requires
        1 <= c <= 2,
        1 <= i < d.len(),
        d.len() <= u64::MAX,
    ensures
        expand_tokens(step_tokens(d, i), c) == (if delta_channel(d[i], c) != delta_channel(
            d[i - 1],
            c,
        ) {
            Seq::new(run_len(d, c, i - 1) as nat, |j: int| delta_channel(d[i - 1], c))
        } else {
            Seq::<i16>::empty()
        }),
{
    lemma_run_len_props(d, 1, i - 1);
    lemma_run_len_props(d, 2, i - 1);
    let t1 = (if delta_channel(d[i], 1) != delta_channel(d[i - 1], 1) {
        seq![
            RunToken {
                channel: 1,
                run_length: run_len(d, 1, i - 1) as u64,
                value: delta_channel(d[i - 1], 1),
            },
        ]
    } else {
        Seq::<RunToken>::empty()
    });
    let t2 = (if delta_channel(d[i], 2) != delta_channel(d[i - 1], 2) {
        seq![
            RunToken {
                channel: 2,
                run_length: run_len(d, 2, i - 1) as u64,
                value: delta_channel(d[i - 1], 2),
            },
        ]
    } else {
        Seq::<RunToken>::empty()
    });
    lemma_expand_concat(t1, t2, c);
    if t1.len() > 0 {
        lemma_expand_single(t1[0], c);
        assert(t1 =~= seq![t1[0]]);
    }
    if t2.len() > 0 {
        lemma_expand_single(t2[0], c);
        assert(t2 =~= seq![t2[0]]);
    }
    assert(expand_tokens(step_tokens(d, i), c) =~= (if delta_channel(d[i], c) != delta_channel(
        d[i - 1],
        c,
    ) {
        Seq::new(run_len(d, c, i - 1) as nat, |j: int| delta_channel(d[i - 1], c))
    } else {
        Seq::<i16>::empty()
    }));
}

proof fn lemma_prefix_expand(d: Seq<DeltaSample>, c: int, i: int)
    requires
        1 <= c <= 2,
        1 <= i <= d.len(),
        d.len() <= u64::MAX,
    ensures
        expand_tokens(rle_tokens_prefix(d, i), c) == channel_values(d, c).take(
            i - run_len(d, c, i - 1),
        ),
    decreases i,
{
    if i == 1 {
        assert(rle_tokens_prefix(d, 1) == Seq::<RunToken>::empty());
        assert(expand_tokens(rle_tokens_prefix(d, 1), c) == Seq::<i16>::empty());
        assert(run_len(d, c, 0) == 1);
        assert(expand_tokens(rle_tokens_prefix(d, i), c) =~= channel_values(d, c).take(
            i - run_len(d, c, i - 1),
        ));
    } else {
        lemma_prefix_expand(d, c, i - 1);
        lemma_expand_concat(rle_tokens_prefix(d, i - 1), step_tokens(d, i - 1), c);
        lemma_expand_step(d, c, i - 1);
        lemma_run_len_props(d, c, i - 2);
        if delta_channel(d[i - 1], c) == delta_channel(d[i - 2], c) {
            assert(run_len(d, c, i - 1) == run_len(d, c, i - 2) + 1);
            assert(expand_tokens(rle_tokens_prefix(d, i), c) =~= channel_values(d, c).take(
                i - run_len(d, c, i - 1),
            ));
        } else {
            let rl = run_len(d, c, i - 2);
            assert(run_len(d, c, i - 1) == 1);
            assert(channel_values(d, c).take(i - 1) =~= channel_values(d, c).take(i - 1 - rl)
                + Seq::new(rl as nat, |j: int| delta_channel(d[i - 2], c)));
            assert(expand_tokens(rle_tokens_prefix(d, i), c) =~= channel_values(d, c).take(
                i - run_len(d, c, i - 1),
            ));
        }
    }
}

/// Run-length round trip, for the two encoded channels: re-expanding the
/// emitted tokens in order reproduces the channel's delta sequence up to,
/// but not including, the final open run, which is never flushed.
pub proof fn lemma_run_length_round_trip(d: Seq<DeltaSample>, c: int)
    requires
        1 <= c <= 2,
        1 <= d.len() <= u64::MAX,
    ensures
        expand_tokens(rle_tokens(d), c) == channel_values(d, c).take(
            d.len() - run_len(d, c, d.len() - 1),
        ),
        forall|j: int|
            d.len() - run_len(d, c, d.len() - 1) <= j < d.len() ==> #[trigger] delta_channel(
                d[j],
                c,
            ) == delta_channel(d[d.len() - 1], c),
{
    lemma_prefix_expand(d, c, d.len() as int);
    lemma_run_len_props(d, c, d.len() - 1);
}

/// Run-length-over-delta compression of a pixel buffer: the delta stream
/// of the buffer, tokenized and rendered as text.
pub fn rle_compresser(buffer: &PixelBuffer) -> (r: Vec<u8>)
    requires
        buffer@.len() >= 1,
    ensures
        r@ == rle_bytes(buffer@),
{
    let deltas = delta_compresser(buffer);
    let tokens = rle_tokenize(&deltas);
    render_tokens(&tokens)
}

} // verus!
