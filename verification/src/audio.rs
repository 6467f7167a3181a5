//! Joining runs of audio samples.
//!
//! A sample is any copyable value; what counts as silence is handed in by
//! the caller.

use vstd::prelude::*;

verus! {

/// Samples of silence between the chunks of one message: 0.3 seconds at 24 kHz.
pub const CHUNK_PAUSE_SAMPLES: usize = 7200;

/// Samples of silence after a message: 0.5 seconds at 24 kHz.
pub const TRAILING_PAD_SAMPLES: usize = 12000;

/// Samples that stand for a segment that could not be synthesized: one
/// second at 24 kHz.
pub const FAILED_SEGMENT_SAMPLES: usize = 24000;

/// `count` samples of silence.
pub open spec fn silence_of<T>(count: nat, silence: T) -> Seq<T> {
    Seq::new(count, |i: int| silence)
}

/// The samples of all segments in order.
pub open spec fn samples_of<T>(segments: Seq<Vec<T>>) -> Seq<Seq<T>> {
    Seq::new(segments.len(), |i: int| segments[i]@)
}

/// The total number of samples in `segments`.
pub open spec fn total_len<T>(segments: Seq<Seq<T>>) -> nat
    decreases segments.len(),
{
    if segments.len() == 0 {
        0
    } else {
        total_len(segments.drop_last()) + segments.last().len()
    }
}

/// The segments in order, with `gap` samples of silence between each two
/// neighbours.
pub open spec fn combined<T>(segments: Seq<Seq<T>>, gap: nat, silence: T) -> Seq<T>
    decreases segments.len(),
{
    if segments.len() == 0 {
        Seq::empty()
    } else if segments.len() == 1 {
        segments[0]
    } else {
        combined(segments.drop_last(), gap, silence) + silence_of(gap, silence) + segments.last()
    }
}

/// Where the segment `index` starts in the combined samples.
pub open spec fn segment_start<T>(segments: Seq<Seq<T>>, gap: nat, index: int) -> int {
    total_len(segments.take(index)) + gap * index
}

/// The combined samples of `n` segments are as many as the segments hold
/// together, and `gap` more for each of the `n − 1` junctions.
pub proof fn lemma_combined_len<T>(segments: Seq<Seq<T>>, gap: nat, silence: T)
    requires
        segments.len() >= 1,
    ensures
        combined(segments, gap, silence).len() == total_len(segments) + gap * (segments.len() - 1),
    decreases segments.len(),
{
    if segments.len() == 1 {
        assert(segments.drop_last().len() == 0);
        assert(total_len(segments.drop_last()) == 0);
        assert(total_len(segments) == segments[0].len());
    } else {
        lemma_combined_len(segments.drop_last(), gap, silence);
        assert(gap * (segments.len() - 2) + gap == gap * (segments.len() - 1))
            by (nonlinear_arith);
    }
}

/// Each segment stands unchanged in the combined samples, and each segment
/// but the first has exactly `gap` samples of silence in front of it, which
/// follow its predecessor at once.
pub proof fn lemma_combined_layout<T>(segments: Seq<Seq<T>>, gap: nat, silence: T, index: int)
    requires
        0 <= index < segments.len(),
    ensures
        0 <= segment_start(segments, gap, index),
        segment_start(segments, gap, index) + segments[index].len() <= combined(
            segments,
            gap,
            silence,
        ).len(),
        combined(segments, gap, silence).subrange(
            segment_start(segments, gap, index),
            segment_start(segments, gap, index) + segments[index].len(),
        ) == segments[index],
        index > 0 ==> {
            &&& segment_start(segments, gap, index) - gap == segment_start(
                segments,
                gap,
                index - 1,
            ) + segments[index - 1].len()
            &&& combined(segments, gap, silence).subrange(
                segment_start(segments, gap, index) - gap,
                segment_start(segments, gap, index),
            ) == silence_of(gap, silence)
        },
    decreases segments.len(),
{
    let whole = combined(segments, gap, silence);
    let last = segments.len() - 1;
    lemma_combined_len(segments, gap, silence);
    if segments.len() == 1 {
        assert(segments.take(0).len() == 0);
        assert(whole.subrange(0, segments[0].len() as int) =~= segments[0]);
        assert(gap * 0 == 0);
    } else {
        let earlier = segments.drop_last();
        let head = combined(earlier, gap, silence);
        lemma_combined_len(earlier, gap, silence);
        if index < last {
            lemma_combined_layout(earlier, gap, silence, index);
            assert(earlier.take(index) =~= segments.take(index));
            if index > 0 {
                assert(earlier.take(index - 1) =~= segments.take(index - 1));
            }
            let start = segment_start(segments, gap, index);
            assert(whole.subrange(start, start + segments[index].len()) =~= head.subrange(
                start,
                start + segments[index].len(),
            ));
            if index > 0 {
                assert(whole.subrange(start - gap, start) =~= head.subrange(start - gap, start));
            }
        } else {
            assert(segments.take(index) =~= earlier);
            assert(segments.take(index - 1) =~= earlier.drop_last());
            assert(earlier.last() == segments[index - 1]);
            assert(gap * (index - 1) + gap == gap * index) by (nonlinear_arith);
            assert(gap * ((segments.len() - 1) - 1) + gap == gap * index) by (nonlinear_arith)
                requires
                    index == segments.len() - 1,
            ;
            let start = segment_start(segments, gap, index);
            assert(start == head.len() + gap);
            assert(whole.subrange(start, start + segments[index].len()) =~= segments[index]);
            assert(whole.subrange(start - gap, start) =~= silence_of(gap, silence));
        }
    }
}

/// Appends all of `samples` to `out`.
pub fn append_samples<T: Copy>(out: &mut Vec<T>, samples: &Vec<T>)
    ensures
        final(out)@ == old(out)@ + samples@,
{
    let mut i: usize = 0;
    assert(old(out)@ + samples@.take(0) =~= old(out)@);
    while i < samples.len()
        invariant
            i <= samples@.len(),
            out@ == old(out)@ + samples@.take(i as int),
        decreases samples@.len() - i,
    {
        out.push(samples[i]);
        assert(old(out)@ + samples@.take(i + 1) =~= (old(out)@ + samples@.take(i as int)).push(
            samples@[i as int],
        ));
        i = i + 1;
    }
    assert(samples@.take(samples@.len() as int) =~= samples@);
}

/// Appends `count` samples of silence to `out`.
pub fn append_silence<T: Copy>(out: &mut Vec<T>, count: usize, silence: T)
    ensures
        final(out)@ == old(out)@ + silence_of(count as nat, silence),
{
    let mut i: usize = 0;
    assert(old(out)@ + silence_of(0, silence) =~= old(out)@);
    while i < count
        invariant
            i <= count,
            out@ == old(out)@ + silence_of(i as nat, silence),
        decreases count - i,
    {
        out.push(silence);
        assert(old(out)@ + silence_of((i + 1) as nat, silence) =~= (old(out)@ + silence_of(
            i as nat,
            silence,
        )).push(silence));
        i = i + 1;
    }
}

/// Combines the segments, in order, with `gap_samples` samples of silence
/// between each two of them.
pub fn combine_audio_segments<T: Copy>(segments: Vec<Vec<T>>, gap_samples: usize, silence: T) -> (out:
    Vec<T>)
    ensures
        out@ == combined(samples_of(segments@), gap_samples as nat, silence),
{
    let ghost all = samples_of(segments@);
    let mut out: Vec<T> = Vec::new();
    let mut i: usize = 0;
    assert(all.take(0) =~= Seq::<Seq<T>>::empty());
    while i < segments.len()
        invariant
            i <= segments@.len(),
            all == samples_of(segments@),
            out@ == combined(all.take(i as int), gap_samples as nat, silence),
        decreases segments@.len() - i,
    {
        proof {
            assert(all.take(i + 1).drop_last() =~= all.take(i as int));
            assert(all.take(i + 1).last() == segments@[i as int]@);
        }
        if i > 0 {
            append_silence(&mut out, gap_samples, silence);
        } else {
            assert(all.take(1)[0] == segments@[0]@);
            assert(out@ + segments@[0]@ =~= segments@[0]@);
        }
        append_samples(&mut out, &segments[i]);
        i = i + 1;
    }
    assert(all.take(segments@.len() as int) =~= all);
    out
}

/// The samples of one message: each synthesized chunk followed by the pause
/// between chunks, and the trailing pad at the end.
pub open spec fn speech<T>(pieces: Seq<Seq<T>>, silence: T) -> Seq<T>
    decreases pieces.len(),
{
    if pieces.len() == 0 {
        silence_of(TRAILING_PAD_SAMPLES as nat, silence)
    } else {
        pieces[0] + silence_of(CHUNK_PAUSE_SAMPLES as nat, silence) + speech(
            pieces.drop_first(),
            silence,
        )
    }
}

/// Joins the synthesized chunks of one message: a pause follows each chunk,
/// so that none is cut off, and a longer pad follows the last.
pub fn assemble_speech<T: Copy>(pieces: Vec<Vec<T>>, silence: T) -> (out: Vec<T>)
    ensures
        out@ == speech(samples_of(pieces@), silence),
{
    let ghost all = samples_of(pieces@);
    let mut out: Vec<T> = Vec::new();
    let mut i: usize = 0;
    assert(all.skip(0) =~= all);
    assert(out@ + speech(all, silence) =~= speech(all, silence));
    while i < pieces.len()
        invariant
            i <= pieces@.len(),
            all == samples_of(pieces@),
            out@ + speech(all.skip(i as int), silence) == speech(all, silence),
        decreases pieces@.len() - i,
    {
        let ghost before = out@;
        proof {
            assert(all.skip(i as int)[0] == pieces@[i as int]@);
            assert(all.skip(i as int).drop_first() =~= all.skip(i + 1));
        }
        append_samples(&mut out, &pieces[i]);
        append_silence(&mut out, CHUNK_PAUSE_SAMPLES, silence);
        proof {
            let pause = silence_of(CHUNK_PAUSE_SAMPLES as nat, silence);
            let rest = speech(all.skip(i + 1), silence);
            assert(before + pieces@[i as int]@ + pause + rest =~= before + (pieces@[i as int]@
                + pause + rest));
        }
        i = i + 1;
    }
    let ghost before = out@;
    append_silence(&mut out, TRAILING_PAD_SAMPLES, silence);
    assert(all.skip(pieces@.len() as int).len() == 0);
    out
}

} // verus!
