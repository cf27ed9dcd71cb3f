use crate::frame::{lemma_pixel_in_range, lemma_render_keeps, plot, render, shade_index, Frame, Sample};
use vstd::prelude::*;
use vstd::set_lib::{lemma_int_range, lemma_len_subset, set_int_range};

verus! {

/// The sample is lit and projects onto pixel `p` of a picture of this size.
pub open spec fn reaches(s: Sample, width: nat, height: nat, p: int) -> bool {
    s.hits(width, height) && s.pixel(width) == p
}

/// Something was drawn at pixel `p`.
pub open spec fn drawn(frame: Frame, p: int) -> bool {
    0 <= p < frame.depth.len() && frame.depth[p] > 0
}

/// The pixels at which something was drawn.
pub open spec fn coverage(frame: Frame) -> Set<int> {
    Set::new(|p: int| drawn(frame, p))
}

/// Sample `i` is the one that pixel `p` shows: it reaches the pixel with a
/// depth key above 0, every earlier sample that reaches the pixel is strictly
/// farther, and no later one is nearer.
pub open spec fn wins(samples: Seq<Sample>, width: nat, height: nat, p: int, i: int) -> bool {
    &&& 0 <= i < samples.len()
    &&& reaches(samples[i], width, height, p)
    &&& samples[i].depth > 0
    &&& forall|j: int|
        0 <= j < i && reaches(#[trigger] samples[j], width, height, p) ==> samples[j].depth
            < samples[i].depth
    &&& forall|j: int|
        i < j < samples.len() && reaches(#[trigger] samples[j], width, height, p)
            ==> samples[j].depth <= samples[i].depth
}

/// One more sample changes at most its own pixel, and lowers no depth key.
pub proof fn lemma_plot_elsewhere(frame: Frame, shading: Seq<char>, s: Sample, p: int)
    requires
        frame.wf(),
        0 <= p < frame.width * frame.height,
    ensures
        plot(frame, shading, s).depth[p] >= frame.depth[p],
        !reaches(s, frame.width, frame.height, p) ==> plot(frame, shading, s).depth[p]
            == frame.depth[p] && plot(frame, shading, s).glyphs[p] == frame.glyphs[p],
{
    if s.hits(frame.width, frame.height) {
        lemma_pixel_in_range(s, frame.width, frame.height);
    }
}

/// A pixel's depth key is at least that of every sample that reaches it.
pub proof fn lemma_depth_at_least(
    width: nat,
    height: nat,
    shading: Seq<char>,
    samples: Seq<Sample>,
    i: int,
)
    requires
        shading.len() >= 1,
        0 <= i < samples.len(),
        samples[i].hits(width, height),
    ensures
        render(width, height, shading, samples).depth[samples[i].pixel(width)] >= samples[i].depth,
    decreases samples.len(),
{
    let before = render(width, height, shading, samples.drop_last());
    let p = samples[i].pixel(width);
    lemma_render_keeps(width, height, shading, samples.drop_last());
    lemma_pixel_in_range(samples[i], width, height);
    if i < samples.len() - 1 {
        lemma_depth_at_least(width, height, shading, samples.drop_last(), i);
        lemma_plot_elsewhere(before, shading, samples.last(), p);
    }
}

/// A pixel's depth key is 0 or the depth key of a sample that reaches it.
pub proof fn lemma_depth_source(
    width: nat,
    height: nat,
    shading: Seq<char>,
    samples: Seq<Sample>,
    p: int,
)
    requires
        shading.len() >= 1,
        0 <= p < width * height,
    ensures
        ({
            let frame = render(width, height, shading, samples);
            frame.depth[p] == 0 || exists|j: int|
                0 <= j < samples.len() && reaches(#[trigger] samples[j], width, height, p)
                    && samples[j].depth == frame.depth[p]
        }),
    decreases samples.len(),
{
    if samples.len() > 0 {
        let rest = samples.drop_last();
        let before = render(width, height, shading, rest);
        let after = render(width, height, shading, samples);
        lemma_render_keeps(width, height, shading, rest);
        lemma_depth_source(width, height, shading, rest, p);
        lemma_plot_elsewhere(before, shading, samples.last(), p);
        if after.depth[p] != before.depth[p] {
            assert(reaches(samples[samples.len() - 1], width, height, p));
        } else if before.depth[p] != 0 {
            let j = choose|j: int|
                0 <= j < rest.len() && reaches(#[trigger] rest[j], width, height, p)
                    && rest[j].depth == before.depth[p];
            assert(reaches(samples[j], width, height, p));
        }
    }
}

/// Nearest wins, and among equally near samples the first: the pixel of the
/// winning sample holds its depth key and the glyph of its brightness.
pub proof fn lemma_nearest_wins(
    width: nat,
    height: nat,
    shading: Seq<char>,
    samples: Seq<Sample>,
    p: int,
    i: int,
)
    requires
        shading.len() >= 1,
        wins(samples, width, height, p, i),
    ensures
        render(width, height, shading, samples).depth[p] == samples[i].depth,
        render(width, height, shading, samples).glyphs[p] == shading[shade_index(
            samples[i].level as int,
            shading.len() as int,
        )],
    decreases samples.len(),
{
    let rest = samples.drop_last();
    let before = render(width, height, shading, rest);
    let last = samples.last();
    lemma_render_keeps(width, height, shading, rest);
    lemma_pixel_in_range(samples[i], width, height);
    if i < samples.len() - 1 {
        assert(wins(rest, width, height, p, i)) by {
            assert forall|j: int| 0 <= j < rest.len() implies rest[j] == samples[j] by {}
        }
        lemma_nearest_wins(width, height, shading, rest, p, i);
        lemma_plot_elsewhere(before, shading, last, p);
        if reaches(last, width, height, p) {
            assert(last == samples[samples.len() - 1]);
        }
    } else {
        lemma_depth_source(width, height, shading, rest, p);
        if before.depth[p] != 0 {
            let j = choose|j: int|
                0 <= j < rest.len() && reaches(#[trigger] rest[j], width, height, p)
                    && rest[j].depth == before.depth[p];
            assert(reaches(samples[j], width, height, p));
        }
    }
}

/// A pixel that no sample reaches with a depth key above 0 stays blank.
pub proof fn lemma_unreached_is_blank(
    width: nat,
    height: nat,
    shading: Seq<char>,
    samples: Seq<Sample>,
    p: int,
)
    requires
        shading.len() >= 1,
        0 <= p < width * height,
        forall|j: int|
            0 <= j < samples.len() && reaches(#[trigger] samples[j], width, height, p)
                ==> samples[j].depth == 0,
    ensures
        render(width, height, shading, samples).depth[p] == 0,
        render(width, height, shading, samples).glyphs[p] == ' ',
    decreases samples.len(),
{
    if samples.len() > 0 {
        let rest = samples.drop_last();
        let before = render(width, height, shading, rest);
        lemma_render_keeps(width, height, shading, rest);
        assert forall|j: int|
            0 <= j < rest.len() && reaches(#[trigger] rest[j], width, height, p) implies rest[j].depth
            == 0 by {
            assert(rest[j] == samples[j]);
        }
        lemma_unreached_is_blank(width, height, shading, rest, p);
        lemma_plot_elsewhere(before, shading, samples.last(), p);
        assert(samples.last() == samples[samples.len() - 1]);
    }
}

/// Something is drawn at a pixel exactly where a sample reaches it with a
/// depth key above 0.
pub proof fn lemma_drawn_iff_reached(
    width: nat,
    height: nat,
    shading: Seq<char>,
    samples: Seq<Sample>,
    p: int,
)
    requires
        shading.len() >= 1,
    ensures
        drawn(render(width, height, shading, samples), p) <==> exists|j: int|
            0 <= j < samples.len() && reaches(#[trigger] samples[j], width, height, p)
                && samples[j].depth > 0,
{
    let frame = render(width, height, shading, samples);
    lemma_render_keeps(width, height, shading, samples);
    if drawn(frame, p) {
        lemma_depth_source(width, height, shading, samples, p);
    }
    if exists|j: int|
        0 <= j < samples.len() && reaches(#[trigger] samples[j], width, height, p)
            && samples[j].depth > 0 {
        let j = choose|j: int|
            0 <= j < samples.len() && reaches(#[trigger] samples[j], width, height, p)
                && samples[j].depth > 0;
        lemma_pixel_in_range(samples[j], width, height);
        lemma_depth_at_least(width, height, shading, samples, j);
    }
}

/// Coverage grows with the samples: where every sample of `few` also occurs
/// in `many`, every pixel drawn from `few` is drawn from `many`.
pub proof fn lemma_coverage_grows(
    width: nat,
    height: nat,
    shading: Seq<char>,
    few: Seq<Sample>,
    many: Seq<Sample>,
    p: int,
)
    requires
        shading.len() >= 1,
        forall|i: int| 0 <= i < few.len() ==> many.contains(#[trigger] few[i]),
        drawn(render(width, height, shading, few), p),
    ensures
        drawn(render(width, height, shading, many), p),
{
    lemma_drawn_iff_reached(width, height, shading, few, p);
    lemma_drawn_iff_reached(width, height, shading, many, p);
    let i = choose|i: int|
        0 <= i < few.len() && reaches(#[trigger] few[i], width, height, p) && few[i].depth > 0;
    assert(many.contains(few[i]));
    let j = choose|j: int| 0 <= j < many.len() && many[j] == few[i];
    assert(reaches(many[j], width, height, p));
}

/// No picture has more pixels drawn than it has pixels.
pub proof fn lemma_coverage_finite(frame: Frame)
    ensures
        coverage(frame).finite(),
        coverage(frame).len() <= frame.depth.len(),
{
    lemma_int_range(0, frame.depth.len() as int);
    lemma_len_subset(coverage(frame), set_int_range(0, frame.depth.len() as int));
}

/// Fewer samples draw no more pixels: where every sample of `few` also
/// occurs in `many`, the pixels drawn from `few` are among those drawn from
/// `many`, and are no more in number.
pub proof fn lemma_coverage_count(
    width: nat,
    height: nat,
    shading: Seq<char>,
    few: Seq<Sample>,
    many: Seq<Sample>,
)
    requires
        shading.len() >= 1,
        forall|i: int| 0 <= i < few.len() ==> many.contains(#[trigger] few[i]),
    ensures
        coverage(render(width, height, shading, few)).subset_of(
            coverage(render(width, height, shading, many)),
        ),
        coverage(render(width, height, shading, few)).len() <= coverage(
            render(width, height, shading, many),
        ).len(),
{
    let small = coverage(render(width, height, shading, few));
    let large = coverage(render(width, height, shading, many));
    assert forall|p: int| small.contains(p) implies large.contains(p) by {
        lemma_coverage_grows(width, height, shading, few, many, p);
    }
    lemma_coverage_finite(render(width, height, shading, many));
    lemma_len_subset(small, large);
}

/// The depth keys of a picture are at least those of a picture drawn from
/// samples that all occur among its own.
pub proof fn lemma_depth_grows(
    width: nat,
    height: nat,
    shading: Seq<char>,
    few: Seq<Sample>,
    many: Seq<Sample>,
    p: int,
)
    requires
        shading.len() >= 1,
        0 <= p < width * height,
        forall|i: int| 0 <= i < few.len() ==> many.contains(#[trigger] few[i]),
    ensures
        render(width, height, shading, few).depth[p] <= render(width, height, shading, many).depth[p],
{
    let low = render(width, height, shading, few).depth[p];
    lemma_depth_source(width, height, shading, few, p);
    if low != 0 {
        let i = choose|i: int|
            0 <= i < few.len() && reaches(#[trigger] few[i], width, height, p) && few[i].depth
                == low;
        assert(many.contains(few[i]));
        let j = choose|j: int| 0 <= j < many.len() && many[j] == few[i];
        lemma_depth_at_least(width, height, shading, many, j);
    }
}

/// The depth keys do not depend on the order of the samples: two lists that
/// hold the same samples give the same depth key at every pixel.
pub proof fn lemma_depth_order_free(
    width: nat,
    height: nat,
    shading: Seq<char>,
    one: Seq<Sample>,
    other: Seq<Sample>,
)
    requires
        shading.len() >= 1,
        forall|i: int| 0 <= i < one.len() ==> other.contains(#[trigger] one[i]),
        forall|i: int| 0 <= i < other.len() ==> one.contains(#[trigger] other[i]),
    ensures
        render(width, height, shading, one).depth == render(width, height, shading, other).depth,
{
    let a = render(width, height, shading, one).depth;
    let b = render(width, height, shading, other).depth;
    lemma_render_keeps(width, height, shading, one);
    lemma_render_keeps(width, height, shading, other);
    assert forall|p: int| 0 <= p < a.len() implies a[p] == b[p] by {
        lemma_depth_grows(width, height, shading, one, other, p);
        lemma_depth_grows(width, height, shading, other, one, p);
    }
    assert(a =~= b);
}

} // verus!
