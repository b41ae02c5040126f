//! Where the operations of a command line stand, and what they hold.

use vstd::prelude::*;
use crate::cli::preprocess::{
    first_other, first_set, from_index, is_ascending, law_a_command_line_splits_in_two,
    leading, leading_size, operation_map, planned, size_after,
    with_premultiplies, with_premultiply, with_quantizations, with_resizes, AlphaState, Operation,
    PreprocessArgs, ResizeFilter, Step,
};
use crate::cli::resize::ResizeValue;

verus! {

// --- Resizing ----------------------------------------------------------------
/// The size that a chain of values asks for: each value is asked about the size
/// that those before it gave.
pub open spec fn chained(values: Seq<(usize, ResizeValue)>, size: (nat, nat)) -> (nat, nat)
    decreases values.len(),
{
    if values.len() == 0 {
        size
    } else {
        let before = chained(values.drop_last(), size);
        values.last().1.size(before.0, before.1)
    }
}

/// One value makes one step to the size it asks for, or none: where the size is
/// there already, and where a side would go a way that is not allowed. Without
/// shrinking both sides have to grow, without enlarging both have to shrink.
pub proof fn law_a_value_makes_one_step(
    index: usize,
    value: ResizeValue,
    size: (nat, nat),
    downscale: bool,
    upscale: bool,
)
    ensures
        ({
            let to = value.size(size.0, size.1);
            let steps = planned(seq![(index, value)], size, downscale, upscale);
            let shrinks = to.0 < size.0 && to.1 < size.1;
            let grows = to.0 > size.0 && to.1 > size.1;
            &&& downscale && upscale ==> (steps.len() == 0 <==> to == size)
            &&& downscale && !upscale ==> (steps.len() == 1 <==> shrinks)
            &&& !downscale && upscale ==> (steps.len() == 1 <==> grows)
            &&& !downscale && !upscale ==> steps.len() == 0
            &&& steps.len() <= 1
            &&& steps.len() == 1 ==> steps[0] == (Step { index, size: to })
        }),
{
    let values = seq![(index, value)];
    assert(values.drop_last() =~= Seq::empty());
    assert(values.last() == (index, value));
    assert(planned(values.drop_last(), size, downscale, upscale) =~= Seq::empty());
}

proof fn lemma_chain(values: Seq<(usize, ResizeValue)>, size: (nat, nat))
    ensures
        size_after(planned(values, size, true, true), size) == chained(values, size),
    decreases values.len(),
{
    if values.len() > 0 {
        lemma_chain(values.drop_last(), size);
    }
}

/// Where both directions are allowed, a chain of values leads to the size that
/// its values ask for one after the other.
pub proof fn law_a_chain_leads_to_the_size_asked_for(
    values: Seq<(usize, ResizeValue)>,
    size: (nat, nat),
)
    ensures
        size_after(planned(values, size, true, true), size) == chained(values, size),
{
    lemma_chain(values, size);
}

/// Whether no two values have the same index.
pub open spec fn have_distinct_indices(values: Seq<(usize, ResizeValue)>) -> bool {
    forall|i: int, j: int| 0 <= i < j < values.len() ==> values[i].0 != values[j].0
}

/// Every step of a plan comes from a value with its index.
proof fn lemma_steps_have_values(
    values: Seq<(usize, ResizeValue)>,
    size: (nat, nat),
    downscale: bool,
    upscale: bool,
    at: int,
)
    requires
        0 <= at < planned(values, size, downscale, upscale).len(),
    ensures
        exists|i: int|
            0 <= i < values.len() && (#[trigger] values[i]).0 == planned(
                values,
                size,
                downscale,
                upscale,
            )[at].index,
    decreases values.len(),
{
    if values.len() > 0 {
        let before = planned(values.drop_last(), size, downscale, upscale);
        if at < before.len() {
            lemma_steps_have_values(values.drop_last(), size, downscale, upscale, at);
            let i = choose|i: int|
                0 <= i < values.drop_last().len() && (#[trigger] values.drop_last()[i]).0
                    == before[at].index;
            assert(values[i].0 == before[at].index);
        } else {
            assert(values[values.len() - 1].0 == planned(values, size, downscale, upscale)[at].index);
        }
    }
}

/// What the resize operations hold at a place.
proof fn lemma_resize_at(
    values: Seq<(usize, ResizeValue)>,
    size: (nat, nat),
    filter: ResizeFilter,
    at: int,
)
    requires
        have_distinct_indices(values),
        0 <= at < values.len(),
    ensures
        ({
            let from = chained(values.take(at), size);
            let to = chained(values.take(at + 1), size);
            let map = with_resizes(Map::empty(), planned(values, size, true, true), filter);
            let index = values[at].0;
            &&& from != to ==> map.contains_key(index) && map[index] == Operation::Resize(
                to.0 as usize,
                to.1 as usize,
                filter,
            )
            &&& from == to ==> !map.contains_key(index)
        }),
    decreases values.len(),
{
    let before = values.drop_last();
    let steps = planned(values, size, true, true);
    let earlier = planned(before, size, true, true);
    lemma_chain(before, size);
    lemma_chain(values, size);
    let index = values[at].0;
    if steps.len() > earlier.len() {
        assert(steps.drop_last() =~= earlier);
    }
    if at < before.len() {
        assert(before.take(at) =~= values.take(at));
        assert(before.take(at + 1) =~= values.take(at + 1));
        assert(before[at] == values[at]);
        assert forall|i: int, j: int| 0 <= i < j < before.len() implies before[i].0
            != before[j].0 by {
            assert(values[i].0 != values[j].0);
        }
        lemma_resize_at(before, size, filter, at);
        assert(values[at].0 != values[values.len() - 1].0);
    } else {
        assert(values.take(at) =~= before);
        assert(values.take(at + 1) =~= values);
        if with_resizes(Map::empty(), earlier, filter).contains_key(index) {
            lemma_resize_keys(earlier, filter, index);
            let k = choose|k: int| 0 <= k < earlier.len() && (#[trigger] earlier[k]).index == index;
            lemma_steps_have_values(before, size, true, true, k);
            let i = choose|i: int|
                0 <= i < before.len() && (#[trigger] before[i]).0 == earlier[k].index;
            assert(values[i].0 == values[at].0);
            assert(false);
        }
    }
}

/// A resize operation stands only at the index of a step.
proof fn lemma_resize_keys(steps: Seq<Step>, filter: ResizeFilter, index: usize)
    ensures
        with_resizes(Map::empty(), steps, filter).contains_key(index) ==> exists|k: int|
            0 <= k < steps.len() && (#[trigger] steps[k]).index == index,
    decreases steps.len(),
{
    if steps.len() > 0 {
        lemma_resize_keys(steps.drop_last(), filter, index);
        if with_resizes(Map::empty(), steps.drop_last(), filter).contains_key(index) {
            let k = choose|k: int|
                0 <= k < steps.drop_last().len() && (#[trigger] steps.drop_last()[k]).index
                    == index;
            assert(steps[k].index == index);
        } else {
            assert(steps[steps.len() - 1] == steps.last());
        }
    }
}

// --- Quantization --------------------------------------------------------------
/// A quantization overwrites only its own place.
proof fn lemma_quantization_at(
    map: Map<usize, Operation>,
    qualities: Seq<(usize, u8)>,
    dithering: Option<u8>,
    index: usize,
)
    ensures
        ({
            let after = with_quantizations(map, qualities, dithering);
            &&& (forall|i: int| 0 <= i < qualities.len() ==> (#[trigger] qualities[i]).0 != index)
                ==> (after.contains_key(index) <==> map.contains_key(index)) && (
            map.contains_key(index) ==> after[index] == map[index])
            &&& forall|i: int|
                0 <= i < qualities.len() && (#[trigger] qualities[i]).0 == index && (forall|j: int|
                    i < j < qualities.len() ==> (#[trigger] qualities[j]).0 != index)
                    ==> after.contains_key(index) && after[index] == Operation::Quantize(
                    qualities[i].1,
                    dithering,
                )
        }),
    decreases qualities.len(),
{
    if qualities.len() > 0 {
        let before = qualities.drop_last();
        lemma_quantization_at(map, before, dithering, index);
        let after = with_quantizations(map, qualities, dithering);
        let last = qualities.len() - 1;
        if forall|i: int| 0 <= i < qualities.len() ==> (#[trigger] qualities[i]).0 != index {
            assert(qualities[last].0 != index);
            assert forall|i: int| 0 <= i < before.len() implies (#[trigger] before[i]).0
                != index by {
                assert(before[i] == qualities[i]);
            }
        }
        assert forall|i: int|
            0 <= i < qualities.len() && (#[trigger] qualities[i]).0 == index && (forall|j: int|
                i < j < qualities.len() ==> (#[trigger] qualities[j]).0 != index) implies after.contains_key(
            index,
        ) && after[index] == Operation::Quantize(qualities[i].1, dithering) by {
            if i < last {
                assert(qualities[last].0 != index);
                assert(before[i] == qualities[i]);
                assert forall|j: int| i < j < before.len() implies (#[trigger] before[j]).0
                    != index by {
                    assert(before[j] == qualities[j]);
                }
            }
        }
    }
}

// --- Alpha ---------------------------------------------------------------------
/// A premultiply flag leaves everything alone that stands at another index, but
/// for a free place three behind it.
proof fn lemma_premultiplies_keep(
    map: Map<usize, Operation>,
    flags: Seq<(usize, bool)>,
    index: usize,
)
    requires
        map.contains_key(index),
        forall|i: int| 0 <= i < flags.len() && (#[trigger] flags[i]).1 ==> flags[i].0 != index,
    ensures
        with_premultiplies(map, flags).contains_key(index),
        with_premultiplies(map, flags)[index] == map[index],
    decreases flags.len(),
{
    if flags.len() > 0 {
        let before = flags.drop_last();
        assert forall|i: int| 0 <= i < before.len() && (#[trigger] before[i]).1 implies before[i].0
            != index by {
            assert(before[i] == flags[i]);
        }
        lemma_premultiplies_keep(map, before, index);
        assert(flags[flags.len() - 1] == flags.last());
    }
}

/// Whether a premultiply flag that is set stands at this index.
pub open spec fn is_flagged(args: PreprocessArgs, index: usize) -> bool {
    exists|i: int|
        0 <= i < args.premultiply@.len() && (#[trigger] args.premultiply@[i]) == (index, true)
}

proof fn lemma_not_flagged(args: PreprocessArgs, index: usize)
    requires
        !is_flagged(args, index),
    ensures
        forall|i: int|
            0 <= i < args.premultiply@.len() && (#[trigger] args.premultiply@[i]).1
                ==> args.premultiply@[i].0 != index,
{
    assert forall|i: int|
        0 <= i < args.premultiply@.len() && (#[trigger] args.premultiply@[i]).1 implies args.premultiply@[i].0
        != index by {
        if args.premultiply@[i].0 == index {
            assert(args.premultiply@[i] == (index, true));
        }
    }
}

/// Every quantization of a command line stands at its own index with exactly its
/// quality and the dithering of the command line, unless alpha is premultiplied
/// there. Where two have the same index, the later one stands.
pub proof fn law_a_quantization_stands_at_its_index(
    args: PreprocessArgs,
    size: (nat, nat),
    skip_resize: bool,
    at: int,
)
    requires
        0 <= at < args.quantization@.len(),
        forall|j: int|
            at < j < args.quantization@.len() ==> (#[trigger] args.quantization@[j]).0
                != args.quantization@[at].0,
        !is_flagged(args, args.quantization@[at].0),
    ensures
        ({
            let map = operation_map(args, size, skip_resize);
            let (index, quality) = args.quantization@[at];
            map.contains_key(index) && map[index] == Operation::Quantize(quality, args.dithering)
        }),
{
    let index = args.quantization@[at].0;
    let resized = with_resizes(
        Map::empty(),
        planned(
            crate::cli::preprocess::raster_values(args, skip_resize),
            size,
            args.may_shrink(),
            args.may_enlarge(),
        ),
        args.resampling(),
    );
    lemma_quantization_at(resized, args.quantization@, args.dithering, index);
    let quantized = with_quantizations(resized, args.quantization@, args.dithering);
    lemma_not_flagged(args, index);
    lemma_premultiplies_keep(quantized, args.premultiply@, index);
}

/// Every resize value of a command line stands at its own index, with exactly the
/// size that it asks for of the size that the values before it gave, and with the
/// filter of the command line, which is Lanczos where none is given. This is where
/// both directions are allowed, the size is not there already, and nothing else
/// has that index.
pub proof fn law_a_resize_stands_at_its_index(args: PreprocessArgs, size: (nat, nat), at: int)
    requires
        0 <= at < args.resize@.len(),
        have_distinct_indices(args.resize@),
        args.downscale && !args.no_downscale,
        args.upscale && !args.no_upscale,
        forall|j: int|
            0 <= j < args.quantization@.len() ==> (#[trigger] args.quantization@[j]).0
                != args.resize@[at].0,
        !is_flagged(args, args.resize@[at].0),
    ensures
        ({
            let map = operation_map(args, size, false);
            let from = chained(args.resize@.take(at), size);
            let to = args.resize@[at].1.size(from.0, from.1);
            let index = args.resize@[at].0;
            from != to ==> {
                &&& map.contains_key(index)
                &&& args.filter matches Some(filter) ==> map[index] == Operation::Resize(
                    to.0 as usize,
                    to.1 as usize,
                    filter,
                )
                &&& args.filter is None ==> map[index] == Operation::Resize(
                    to.0 as usize,
                    to.1 as usize,
                    ResizeFilter::Lanczos3,
                )
            }
        }),
{
    let values = args.resize@;
    let index = values[at].0;
    let resized = with_resizes(
        Map::empty(),
        planned(values, size, true, true),
        args.resampling(),
    );
    lemma_resize_at(values, size, args.resampling(), at);
    assert(values.take(at + 1).drop_last() =~= values.take(at));
    assert(values.take(at + 1).last() == values[at]);
    let from = chained(values.take(at), size);
    let to = chained(values.take(at + 1), size);
    lemma_quantization_at(resized, args.quantization@, args.dithering, index);
    let quantized = with_quantizations(resized, args.quantization@, args.dithering);
    lemma_not_flagged(args, index);
    if from != to {
        lemma_premultiplies_keep(quantized, args.premultiply@, index);
    }
}

/// A resize operation holds the size of the last step with its index.
proof fn lemma_step_at(steps: Seq<Step>, filter: ResizeFilter, at: int)
    requires
        0 <= at < steps.len(),
        forall|j: int| at < j < steps.len() ==> (#[trigger] steps[j]).index != steps[at].index,
    ensures
        ({
            let map = with_resizes(Map::empty(), steps, filter);
            let size = steps[at].size;
            &&& map.contains_key(steps[at].index)
            &&& map[steps[at].index] == Operation::Resize(
                size.0 as usize,
                size.1 as usize,
                filter,
            )
        }),
    decreases steps.len(),
{
    if at < steps.len() - 1 {
        let before = steps.drop_last();
        assert(before[at] == steps[at]);
        assert forall|j: int| at < j < before.len() implies (#[trigger] before[j]).index
            != before[at].index by {
            assert(before[j] == steps[j]);
        }
        lemma_step_at(before, filter, at);
        assert(steps[steps.len() - 1].index != steps[at].index);
    }
}

/// Every step that is taken is carried out: at its index stands a resize to
/// exactly its size with the filter of the command line, where nothing else has
/// that index, whichever directions are allowed.
pub proof fn law_every_step_becomes_an_operation(
    args: PreprocessArgs,
    values: Seq<(usize, ResizeValue)>,
    size: (nat, nat),
    shrink: bool,
    enlarge: bool,
    skip_resize: bool,
    at: int,
)
    requires
        shrink == (args.downscale && !args.no_downscale),
        enlarge == (args.upscale && !args.no_upscale),
        !skip_resize ==> values == args.resize@,
        skip_resize ==> values == from_index(args.resize@, first_other(args)),
        ({
            let steps = planned(values, size, shrink, enlarge);
            &&& 0 <= at < steps.len()
            &&& forall|j: int|
                at < j < steps.len() ==> (#[trigger] steps[j]).index != steps[at].index
            &&& forall|j: int|
                0 <= j < args.quantization@.len() ==> (#[trigger] args.quantization@[j]).0
                    != steps[at].index
            &&& !is_flagged(args, steps[at].index)
        }),
    ensures
        ({
            let step = planned(values, size, shrink, enlarge)[at];
            let map = operation_map(args, size, skip_resize);
            &&& map.contains_key(step.index)
            &&& args.filter matches Some(filter) ==> map[step.index] == Operation::Resize(
                step.size.0 as usize,
                step.size.1 as usize,
                filter,
            )
            &&& args.filter is None ==> map[step.index] == Operation::Resize(
                step.size.0 as usize,
                step.size.1 as usize,
                ResizeFilter::Lanczos3,
            )
        }),
{
    let steps = planned(values, size, shrink, enlarge);
    let index = steps[at].index;
    let resized = with_resizes(Map::empty(), steps, args.resampling());
    lemma_step_at(steps, args.resampling(), at);
    lemma_quantization_at(resized, args.quantization@, args.dithering, index);
    let quantized = with_quantizations(resized, args.quantization@, args.dithering);
    lemma_not_flagged(args, index);
    lemma_premultiplies_keep(quantized, args.premultiply@, index);
}

/// What a premultiply flag adds: where it is set and an operation stands two
/// places behind it, alpha is premultiplied at its own place and restored three
/// places behind it, unless something stands there. Everything else stays.
pub proof fn law_premultiply_surrounds_an_operation(
    map: Map<usize, Operation>,
    index: usize,
    other: usize,
)
    requires
        index <= usize::MAX - 3,
    ensures
        ({
            let after = with_premultiply(map, (index, true));
            let served = (index + 2) as usize;
            let behind = (index + 3) as usize;
            &&& map.contains_key(served) ==> {
                &&& after.contains_key(index)
                &&& after[index] == Operation::PremultiplyAlpha(AlphaState::PreMultiplied)
                &&& after.contains_key(behind)
                &&& !map.contains_key(behind) ==> after[behind] == Operation::PremultiplyAlpha(
                    AlphaState::NonPreMultiplied,
                )
                &&& map.contains_key(behind) ==> after[behind] == map[behind]
                &&& other != index && other != behind ==> (after.contains_key(other)
                    <==> map.contains_key(other)) && (map.contains_key(other) ==> after[other]
                    == map[other])
            }
            &&& !map.contains_key(served) ==> after == map
            &&& with_premultiply(map, (index, false)) == map
        }),
{
}

/// Premultiply flags work one after the other on what all else gave: a command
/// line with them runs what the same one without them runs, and then what each
/// flag adds in its turn.
pub proof fn law_premultiply_flags_come_last(
    with: PreprocessArgs,
    without: PreprocessArgs,
    size: (nat, nat),
    front: Seq<(usize, bool)>,
    flag: (usize, bool),
)
    requires
        with.resize@ == without.resize@,
        with.quantization@ == without.quantization@,
        with.dithering == without.dithering,
        with.filter == without.filter,
        with.downscale == without.downscale,
        with.no_downscale == without.no_downscale,
        with.upscale == without.upscale,
        with.no_upscale == without.no_upscale,
        forall|i: int|
            0 <= i < without.premultiply@.len() ==> !(#[trigger] without.premultiply@[i]).1,
    ensures
        operation_map(with, size, false) == with_premultiplies(
            operation_map(without, size, false),
            with.premultiply@,
        ),
        with_premultiplies(operation_map(without, size, false), Seq::empty()) == operation_map(
            without,
            size,
            false,
        ),
        with_premultiplies(operation_map(without, size, false), front.push(flag))
            == with_premultiply(
            with_premultiplies(operation_map(without, size, false), front),
            flag,
        ),
{
    let resized = with_resizes(
        Map::empty(),
        planned(with.resize@, size, with.may_shrink(), with.may_enlarge()),
        with.resampling(),
    );
    let quantized = with_quantizations(resized, with.quantization@, with.dithering);
    lemma_unset_flags_add_nothing(quantized, without.premultiply@);
    assert(front.push(flag).drop_last() =~= front);
}

proof fn lemma_unset_flags_add_nothing(map: Map<usize, Operation>, flags: Seq<(usize, bool)>)
    requires
        forall|i: int| 0 <= i < flags.len() ==> !(#[trigger] flags[i]).1,
    ensures
        with_premultiplies(map, flags) == map,
    decreases flags.len(),
{
    if flags.len() > 0 {
        let before = flags.drop_last();
        assert forall|i: int| 0 <= i < before.len() implies !(#[trigger] before[i]).1 by {
            assert(before[i] == flags[i]);
        }
        lemma_unset_flags_add_nothing(map, before);
        assert(flags[flags.len() - 1] == flags.last());
    }
}

/// Whether an operation may stand at an index: a resize value, a quantization or
/// a premultiply flag that is set has it, or such a flag stands three places
/// before it.
pub open spec fn is_claimed(args: PreprocessArgs, index: usize) -> bool {
    ||| exists|i: int| 0 <= i < args.resize@.len() && (#[trigger] args.resize@[i]).0 == index
    ||| exists|i: int|
        0 <= i < args.quantization@.len() && (#[trigger] args.quantization@[i]).0 == index
    ||| is_flagged(args, index)
    ||| index >= 3 && is_flagged(args, (index - 3) as usize)
}

/// No operation stands at an index that nothing on the command line claims.
pub proof fn law_nothing_runs_that_was_not_asked_for(
    args: PreprocessArgs,
    size: (nat, nat),
    skip_resize: bool,
    index: usize,
)
    requires
        operation_map(args, size, skip_resize).contains_key(index),
        forall|i: int|
            0 <= i < args.premultiply@.len() ==> (#[trigger] args.premultiply@[i]).0 <= usize::MAX
                - 3,
    ensures
        is_claimed(args, index),
{
    let values = crate::cli::preprocess::raster_values(args, skip_resize);
    let steps = planned(values, size, args.may_shrink(), args.may_enlarge());
    let resized = with_resizes(Map::empty(), steps, args.resampling());
    let quantized = with_quantizations(resized, args.quantization@, args.dithering);
    lemma_premultiply_keys(quantized, args.premultiply@, index);
    if quantized.contains_key(index) {
        lemma_quantization_at(resized, args.quantization@, args.dithering, index);
        if forall|i: int|
            0 <= i < args.quantization@.len() ==> (#[trigger] args.quantization@[i]).0 != index {
            lemma_resize_keys(steps, args.resampling(), index);
            let k = choose|k: int| 0 <= k < steps.len() && (#[trigger] steps[k]).index == index;
            lemma_steps_have_values(values, size, args.may_shrink(), args.may_enlarge(), k);
            let i = choose|i: int|
                0 <= i < values.len() && (#[trigger] values[i]).0 == steps[k].index;
            if skip_resize {
                lemma_filtered(args.resize@, first_other(args), values[i]);
                assert(values.contains(values[i]));
                let j = choose|j: int|
                    0 <= j < args.resize@.len() && args.resize@[j] == values[i];
                assert(args.resize@[j].0 == index);
            } else {
                assert(args.resize@[i].0 == index);
            }
        }
    } else {
        let i = choose|i: int|
            0 <= i < args.premultiply@.len() && (#[trigger] args.premultiply@[i]).1 && (
            args.premultiply@[i].0 == index || args.premultiply@[i].0 + 3 == index);
        assert(args.premultiply@[i] == (args.premultiply@[i].0, true));
        if args.premultiply@[i].0 == index {
            assert(is_flagged(args, index));
        } else {
            assert(is_flagged(args, (index - 3) as usize));
        }
    }
}

/// The values from an index on are exactly those with such an index.
proof fn lemma_filtered(values: Seq<(usize, ResizeValue)>, limit: usize, value: (usize, ResizeValue))
    ensures
        from_index(values, limit).contains(value) <==> values.contains(value) && value.0 >= limit,
    decreases values.len(),
{
    reveal(Seq::filter);
    let kept = from_index(values, limit);
    if values.len() > 0 {
        let before = values.drop_last();
        let last = values.last();
        lemma_filtered(before, limit, value);
        assert(values =~= before.push(last));
        let rest = from_index(before, limit);
        if last.0 >= limit {
            assert(kept == rest.push(last));
            if rest.contains(value) {
                let i = choose|i: int| 0 <= i < rest.len() && rest[i] == value;
                assert(kept[i] == value);
            }
            if value == last {
                assert(kept[rest.len() as int] == value);
            }
        } else {
            assert(kept == rest);
        }
        if before.contains(value) {
            let i = choose|i: int| 0 <= i < before.len() && before[i] == value;
            assert(values[i] == value);
        }
        if values.contains(value) && value != last {
            let i = choose|i: int| 0 <= i < values.len() && values[i] == value;
            assert(before[i] == value);
        }
        if value == last {
            assert(values[values.len() - 1] == value);
        }
        if kept.contains(value) && value != last {
            let i = choose|i: int| 0 <= i < kept.len() && kept[i] == value;
            assert(rest[i] == value);
        }
    }
}

proof fn lemma_premultiply_keys(
    map: Map<usize, Operation>,
    flags: Seq<(usize, bool)>,
    index: usize,
)
    requires
        with_premultiplies(map, flags).contains_key(index),
        forall|i: int| 0 <= i < flags.len() ==> (#[trigger] flags[i]).0 <= usize::MAX - 3,
    ensures
        map.contains_key(index) || exists|i: int|
            0 <= i < flags.len() && (#[trigger] flags[i]).1 && (flags[i].0 == index || flags[i].0 + 3
                == index),
    decreases flags.len(),
{
    if flags.len() > 0 {
        let before = flags.drop_last();
        assert(flags[flags.len() - 1] == flags.last());
        assert forall|i: int| 0 <= i < before.len() implies (#[trigger] before[i]).0 <= usize::MAX
            - 3 by {
            assert(before[i] == flags[i]);
        }
        if with_premultiplies(map, before).contains_key(index) {
            lemma_premultiply_keys(map, before, index);
            if !map.contains_key(index) {
                let i = choose|i: int|
                    0 <= i < before.len() && (#[trigger] before[i]).1 && (before[i].0 == index
                        || before[i].0 + 3 == index);
                assert(flags[i] == before[i]);
            }
        }
    }
}

// --- What comes before every other operation -------------------------------------
/// The values of a command line part at an index: those in front of it come
/// first, in order, and those from it on follow.
pub proof fn law_values_part_at_an_index(values: Seq<(usize, ResizeValue)>, limit: usize)
    requires
        is_ascending(values),
    ensures
        values == leading(values, limit) + from_index(values, limit),
        forall|i: int|
            0 <= i < leading(values, limit).len() ==> (#[trigger] leading(values, limit)[i]).0
                < limit,
        forall|i: int|
            0 <= i < from_index(values, limit).len() ==> (#[trigger] from_index(
                values,
                limit,
            )[i]).0 >= limit,
{
    law_a_command_line_splits_in_two(values, limit);
    lemma_leading_are_in_front(values, limit);
    assert forall|i: int| 0 <= i < from_index(values, limit).len() implies (#[trigger] from_index(
        values,
        limit,
    )[i]).0 >= limit by {
        lemma_filtered(values, limit, from_index(values, limit)[i]);
    }
}

proof fn lemma_leading_are_in_front(values: Seq<(usize, ResizeValue)>, limit: usize)
    ensures
        forall|i: int|
            0 <= i < leading(values, limit).len() ==> (#[trigger] leading(values, limit)[i]).0
                < limit,
    decreases values.len(),
{
    if values.len() > 0 && values.first().0 < limit {
        let rest = leading(values.drop_first(), limit);
        lemma_leading_are_in_front(values.drop_first(), limit);
        assert forall|i: int| 0 <= i < leading(values, limit).len() implies (#[trigger] leading(
            values,
            limit,
        )[i]).0 < limit by {
            if i > 0 {
                assert(leading(values, limit)[i] == rest[i - 1]);
            }
        }
    }
}

proof fn lemma_first_set(flags: Seq<(usize, bool)>)
    ensures
        match first_set(flags) {
            None => forall|i: int| 0 <= i < flags.len() ==> !(#[trigger] flags[i]).1,
            Some(index) => exists|i: int|
                0 <= i < flags.len() && (#[trigger] flags[i]) == (index, true) && forall|j: int|
                    0 <= j < i ==> !(#[trigger] flags[j]).1,
        },
    decreases flags.len(),
{
    if flags.len() > 0 {
        if flags.first().1 {
            assert(flags[0] == (flags.first().0, true));
        } else {
            let rest = flags.drop_first();
            lemma_first_set(rest);
            match first_set(rest) {
                None => {
                    assert forall|i: int| 0 <= i < flags.len() implies !(#[trigger] flags[i]).1 by {
                        if i > 0 {
                            assert(rest[i - 1] == flags[i]);
                        }
                    }
                },
                Some(index) => {
                    let i = choose|i: int|
                        0 <= i < rest.len() && (#[trigger] rest[i]) == (index, true) && forall|
                            j: int,
                        | 0 <= j < i ==> !(#[trigger] rest[j]).1;
                    assert(flags[i + 1] == (index, true));
                    assert forall|j: int| 0 <= j < i + 1 implies !(#[trigger] flags[j]).1 by {
                        if j > 0 {
                            assert(rest[j - 1] == flags[j]);
                        }
                    }
                },
            }
        }
    }
}

/// The first operation that is no resize is the earliest of all quantizations and
/// of all premultiply flags that are set; without any, nothing comes after it.
pub proof fn law_the_first_other_operation_is_the_earliest(args: PreprocessArgs)
    requires
        forall|i: int, j: int|
            0 <= i < j < args.quantization@.len() ==> args.quantization@[i].0
                < args.quantization@[j].0,
        forall|i: int, j: int|
            0 <= i < j < args.premultiply@.len() ==> args.premultiply@[i].0
                < args.premultiply@[j].0,
    ensures
        forall|i: int|
            0 <= i < args.quantization@.len() ==> first_other(args) <= (
            #[trigger] args.quantization@[i]).0,
        forall|i: int|
            0 <= i < args.premultiply@.len() && (#[trigger] args.premultiply@[i]).1 ==> first_other(
                args,
            ) <= args.premultiply@[i].0,
        first_other(args) == usize::MAX || is_flagged(args, first_other(args)) || (
        args.quantization@.len() > 0 && args.quantization@[0].0 == first_other(args)),
        args.quantization@.len() == 0 && (forall|i: int|
            0 <= i < args.premultiply@.len() ==> !(#[trigger] args.premultiply@[i]).1)
            ==> first_other(args) == usize::MAX,
{
    let flags = args.premultiply@;
    lemma_first_set(flags);
    if let Some(index) = first_set(flags) {
        let i = choose|i: int|
            0 <= i < flags.len() && (#[trigger] flags[i]) == (index, true) && forall|j: int|
                0 <= j < i ==> !(#[trigger] flags[j]).1;
        assert(is_flagged(args, index));
        assert forall|j: int| 0 <= j < flags.len() && (#[trigger] flags[j]).1 implies index
            <= flags[j].0 by {
            if i < j {
                assert(flags[i].0 < flags[j].0);
            }
        }
    }
}

/// The render target of a vector image is what the resize values in front of
/// every other operation ask for one after the other, where both directions are
/// allowed; there is none where they change nothing.
pub proof fn law_a_render_target_is_what_the_leading_values_ask_for(
    args: PreprocessArgs,
    size: (nat, nat),
)
    requires
        args.downscale && !args.no_downscale,
        args.upscale && !args.no_upscale,
    ensures
        ({
            let asked = chained(leading(args.resize@, first_other(args)), size);
            match leading_size(args, size) {
                Some(target) => target == asked,
                None => size == asked,
            }
        }),
{
    lemma_chain(leading(args.resize@, first_other(args)), size);
}

} // verus!
