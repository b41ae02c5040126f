//! The operations that run between decoding and encoding, planned from the
//! command line.
//!
//! Every value of a command line has an index, which orders the operations.

use std::collections::BTreeMap;
use vstd::prelude::*;

use crate::cli::resize::ResizeValue;
use crate::error::ImageFailure;
use crate::text::push_decimal;

verus! {

/// What the command line says about preprocessing. Each list holds values with
/// their indices, in the order in which they were given.
#[derive(Debug)]
pub struct PreprocessArgs {
    /// The resize values.
    pub resize: Vec<(usize, ResizeValue)>,
    /// The quantization qualities.
    pub quantization: Vec<(usize, u8)>,
    /// The premultiply flags; a flag that was not given is `false`.
    pub premultiply: Vec<(usize, bool)>,
    /// The dithering strength, in percent.
    pub dithering: Option<u8>,
    /// The filter that images are resampled with.
    pub filter: Option<ResizeFilter>,
    /// Whether shrinking is switched on.
    pub downscale: bool,
    /// Whether shrinking is switched off again.
    pub no_downscale: bool,
    /// Whether enlarging is switched on.
    pub upscale: bool,
    /// Whether enlarging is switched off again.
    pub no_upscale: bool,
}

impl PreprocessArgs {
    /// Whether an image may be shrunk.
    pub open spec fn may_shrink(self) -> bool {
        self.downscale && !self.no_downscale
    }

    /// Whether an image may be enlarged.
    pub open spec fn may_enlarge(self) -> bool {
        self.upscale && !self.no_upscale
    }

    /// The filter that images are resampled with, where none is given too.
    pub open spec fn resampling(self) -> ResizeFilter {
        match self.filter {
            Some(filter) => filter,
            None => ResizeFilter::Lanczos3,
        }
    }
}

/// How the pixels of a resized image are made from those of the image.
#[derive(Debug, Clone, Copy, PartialEq, Eq, Structural)]
pub enum ResizeFilter {
    /// The nearest pixel.
    Nearest,
    /// The mean of the pixels that are covered.
    Box,
    /// A linear blend.
    Bilinear,
    /// The Hamming window.
    Hamming,
    /// A cubic after Catmull and Rom.
    CatmullRom,
    /// A cubic after Mitchell and Netravali.
    Mitchell,
    /// The Lanczos window over three lobes.
    Lanczos3,
}

/// How alpha is related to the colour samples.
#[derive(Debug, Clone, Copy, PartialEq, Eq, Structural)]
pub enum AlphaState {
    /// Colours are multiplied by alpha.
    PreMultiplied,
    /// Colours are as they are.
    NonPreMultiplied,
}

/// An operation on the pixels of an image.
#[derive(Debug, Clone, Copy, PartialEq, Eq, Structural)]
pub enum Operation {
    /// Resize to this width and height, with this filter.
    Resize(usize, usize, ResizeFilter),
    /// Reduce the colours: the quality, and the dithering strength in percent.
    Quantize(u8, Option<u8>),
    /// Bring alpha into this relation to the colours.
    PremultiplyAlpha(AlphaState),
}

// --- Planning ----------------------------------------------------------------
/// A step of a resize chain: its index, and the size it leads to.
pub struct Step {
    /// The index of the value.
    pub index: usize,
    /// The size after the step.
    pub size: (nat, nat),
}

/// Whether a step from one size to another is taken, in the directions that
/// are allowed. A size that is there already needs no step; without one of the
/// directions, a step has to go the other way on both sides.
pub open spec fn is_taken(
    from: (nat, nat),
    to: (nat, nat),
    downscale: bool,
    upscale: bool,
) -> bool {
    &&& downscale || upscale
    &&& to != from
    &&& !downscale ==> to.0 > from.0 && to.1 > from.1
    &&& !upscale ==> to.0 < from.0 && to.1 < from.1
}

/// The steps of a resize chain. Each value maps the size that the steps before
/// it left.
pub open spec fn planned(
    values: Seq<(usize, ResizeValue)>,
    size: (nat, nat),
    downscale: bool,
    upscale: bool,
) -> Seq<Step>
    decreases values.len(),
{
    if values.len() == 0 {
        Seq::empty()
    } else {
        let before = planned(values.drop_last(), size, downscale, upscale);
        let from = size_after(before, size);
        let (index, value) = values.last();
        let to = value.size(from.0, from.1);
        if is_taken(from, to, downscale, upscale) {
            before.push(Step { index, size: to })
        } else {
            before
        }
    }
}

/// The size that some steps lead to.
pub open spec fn size_after(steps: Seq<Step>, size: (nat, nat)) -> (nat, nat) {
    if steps.len() == 0 {
        size
    } else {
        steps.last().size
    }
}

/// Steps by their contents.
pub open spec fn steps_of(steps: Seq<(usize, (usize, usize))>) -> Seq<Step> {
    steps.map_values(
        |step: (usize, (usize, usize))|
            Step { index: step.0, size: (step.1.0 as nat, step.1.1 as nat) },
    )
}

/// Plans a chain of resize operations, returning only the steps that are not
/// skipped by the direction flags or by already matching the current size.
///
/// The same plan serves raster images, which get an operation for every step,
/// and SVG inputs, which use the final size as the vector render target.
pub fn resize_plan(
    values: &Vec<(usize, ResizeValue)>,
    size: (usize, usize),
    downscale: bool,
    upscale: bool,
) -> (plan: Vec<(usize, (usize, usize))>)
    ensures
        steps_of(plan@) == planned(
            values@,
            (size.0 as nat, size.1 as nat),
            downscale,
            upscale,
        ),
{
    let ghost start = (size.0 as nat, size.1 as nat);
    let mut plan: Vec<(usize, (usize, usize))> = Vec::new();
    let mut current = size;
    let mut i: usize = 0;
    assert(steps_of(plan@) =~= planned(values@.take(0), start, downscale, upscale));
    while i < values.len()
        invariant
            i <= values@.len(),
            start == (size.0 as nat, size.1 as nat),
            steps_of(plan@) == planned(values@.take(i as int), start, downscale, upscale),
            (current.0 as nat, current.1 as nat) == size_after(steps_of(plan@), start),
        decreases values@.len() - i,
    {
        let (index, value) = values[i];
        let (w, h) = value.map_dimensions(current.0, current.1);
        let ghost before = plan@;
        proof {
            assert(values@.take(i + 1).drop_last() =~= values@.take(i as int));
        }
        let same = w == current.0 && h == current.1;
        let shrinks = w <= current.0 || h <= current.1;
        let enlarges = w >= current.0 || h >= current.1;
        if (downscale || upscale) && !same && (downscale || !shrinks) && (upscale || !enlarges) {
            plan.push((index, (w, h)));
            current = (w, h);
            assert(steps_of(plan@) =~= steps_of(before).push(
                Step { index, size: (w as nat, h as nat) },
            ));
        }
        i = i + 1;
    }
    assert(values@.take(values@.len() as int) =~= values@);
    plan
}

/// The index of the first premultiply flag that is set.
pub open spec fn first_set(flags: Seq<(usize, bool)>) -> Option<usize>
    decreases flags.len(),
{
    if flags.len() == 0 {
        None
    } else if flags.first().1 {
        Some(flags.first().0)
    } else {
        first_set(flags.drop_first())
    }
}

/// The index of the first operation that is no resize: the first quantization
/// or the first set premultiply flag, whichever comes earlier.
pub open spec fn first_other(args: PreprocessArgs) -> usize {
    let premultiply = first_set(args.premultiply@);
    let quantization = if args.quantization@.len() > 0 {
        Some(args.quantization@[0].0)
    } else {
        None
    };
    match (premultiply, quantization) {
        (Some(a), Some(b)) => if a <= b {
            a
        } else {
            b
        },
        (Some(a), None) => a,
        (None, Some(b)) => b,
        (None, None) => usize::MAX,
    }
}

/// The index of the first operation that is no resize.
///
/// Vector resizing can be folded into the render target of an SVG only for the
/// steps before it. The steps behind it have to run as raster operations, so
/// that the order of the command line is kept.
pub fn first_other_index(args: &PreprocessArgs) -> (index: usize)
    ensures
        index == first_other(*args),
{
    let mut premultiply: Option<usize> = None;
    let mut i: usize = 0;
    let ghost flags = args.premultiply@;
    assert(flags.skip(0) =~= flags);
    while i < args.premultiply.len() && premultiply.is_none()
        invariant
            i <= args.premultiply@.len(),
            flags == args.premultiply@,
            premultiply is None ==> first_set(flags) == first_set(flags.skip(i as int)),
            premultiply is Some ==> first_set(flags) == premultiply,
        decreases args.premultiply@.len() - i,
    {
        let (index, set) = args.premultiply[i];
        assert(flags.skip(i as int).drop_first() =~= flags.skip(i + 1));
        if set {
            premultiply = Some(index);
        }
        i = i + 1;
    }
    let quantization: Option<usize> = if args.quantization.len() > 0 {
        Some(args.quantization[0].0)
    } else {
        None
    };
    match (premultiply, quantization) {
        (Some(a), Some(b)) => {
            if a <= b {
                a
            } else {
                b
            }
        },
        (Some(a), None) => a,
        (None, Some(b)) => b,
        (None, None) => usize::MAX,
    }
}

/// The values before the first one with an index from `limit` on.
pub open spec fn leading(values: Seq<(usize, ResizeValue)>, limit: usize) -> Seq<
    (usize, ResizeValue),
>
    decreases values.len(),
{
    if values.len() == 0 || values.first().0 >= limit {
        Seq::empty()
    } else {
        seq![values.first()] + leading(values.drop_first(), limit)
    }
}

/// The values with an index from `limit` on.
pub open spec fn from_index(values: Seq<(usize, ResizeValue)>, limit: usize) -> Seq<
    (usize, ResizeValue),
> {
    values.filter(|value: (usize, ResizeValue)| value.0 >= limit)
}

fn leading_values(values: &Vec<(usize, ResizeValue)>, limit: usize) -> (result: Vec<
    (usize, ResizeValue),
>)
    ensures
        result@ == leading(values@, limit),
{
    let mut result: Vec<(usize, ResizeValue)> = Vec::new();
    let mut i: usize = 0;
    assert(values@.skip(0) =~= values@);
    assert(result@ + leading(values@.skip(0), limit) =~= leading(values@, limit));
    while i < values.len() && values[i].0 < limit
        invariant
            i <= values@.len(),
            result@ + leading(values@.skip(i as int), limit) == leading(values@, limit),
        decreases values@.len() - i,
    {
        let ghost rest = values@.skip(i as int);
        let ghost before = result@;
        result.push(values[i]);
        proof {
            assert(rest.drop_first() =~= values@.skip(i + 1));
            assert(result@ + leading(values@.skip(i + 1), limit) =~= before + (seq![rest.first()]
                + leading(rest.drop_first(), limit)));
        }
        i = i + 1;
    }
    assert(leading(values@.skip(i as int), limit) =~= Seq::empty());
    assert(result@ + Seq::<(usize, ResizeValue)>::empty() =~= result@);
    result
}

fn values_from(values: &Vec<(usize, ResizeValue)>, limit: usize) -> (result: Vec<
    (usize, ResizeValue),
>)
    ensures
        result@ == from_index(values@, limit),
{
    let mut result: Vec<(usize, ResizeValue)> = Vec::new();
    let mut i: usize = 0;
    assert(result@ =~= from_index(values@.take(0), limit)) by {
        reveal(Seq::filter);
    }
    while i < values.len()
        invariant
            i <= values@.len(),
            result@ == from_index(values@.take(i as int), limit),
        decreases values@.len() - i,
    {
        proof {
            reveal(Seq::filter);
            assert(values@.take(i + 1).drop_last() =~= values@.take(i as int));
        }
        if values[i].0 >= limit {
            result.push(values[i]);
        }
        i = i + 1;
    }
    assert(values@.take(values@.len() as int) =~= values@);
    result
}

// --- SVG render targets ------------------------------------------------------
/// The size that the leading resize values lead to.
pub open spec fn leading_size(args: PreprocessArgs, size: (nat, nat)) -> Option<(nat, nat)> {
    let plan = planned(
        leading(args.resize@, first_other(args)),
        size,
        args.may_shrink(),
        args.may_enlarge(),
    );
    if plan.len() == 0 {
        None
    } else {
        Some(plan.last().size)
    }
}

/// The refusal of a side that no render target can have.
pub open spec fn side_refusal(side: Seq<char>, length: nat) -> Seq<char> {
    "SVG target "@ + side + " "@ + crate::text::decimal(length)
        + " exceeds the maximum supported dimension of "@ + crate::text::decimal(u32::MAX as nat)
}

fn refuse_side(side: &str, length: usize) -> (failure: ImageFailure)
    ensures
        failure.is_decode(),
        failure.text@ == side_refusal(side@, length as nat),
{
    let mut message = "SVG target ".to_owned();
    message.append(side);
    message.append(" ");
    push_decimal(&mut message, length as u128);
    message.append(" exceeds the maximum supported dimension of ");
    push_decimal(&mut message, u32::MAX as u128);
    ImageFailure::decode(message)
}

/// The render target of an SVG of this intrinsic size: what the resize values
/// before every other operation lead to, or `None` to render at the intrinsic
/// size.
pub fn svg_target_size(args: &PreprocessArgs, size: (usize, usize)) -> (result: Result<
    Option<(u32, u32)>,
    ImageFailure,
>)
    ensures
        match leading_size(*args, (size.0 as nat, size.1 as nat)) {
            None => result == Ok::<Option<(u32, u32)>, ImageFailure>(None),
            Some((width, height)) => if width > u32::MAX {
                result matches Err(error) && error.is_decode() && error.text@ == side_refusal(
                    "width"@,
                    width,
                )
            } else if height > u32::MAX {
                result matches Err(error) && error.is_decode() && error.text@ == side_refusal(
                    "height"@,
                    height,
                )
            } else {
                result matches Ok(Some(target)) && target.0 == width && target.1 == height
            },
        },
{
    let downscale = args.downscale && !args.no_downscale;
    let upscale = args.upscale && !args.no_upscale;
    let values = leading_values(&args.resize, first_other_index(args));
    let plan = resize_plan(&values, size, downscale, upscale);
    assert(steps_of(plan@).len() == plan@.len());
    if plan.len() == 0 {
        return Ok(None);
    }
    let (width, height) = plan[plan.len() - 1].1;
    assert(steps_of(plan@).last().size == (width as nat, height as nat));
    if width as u64 > u32::MAX as u64 {
        return Err(refuse_side("width", width));
    }
    if height as u64 > u32::MAX as u64 {
        return Err(refuse_side("height", height));
    }
    Ok(Some((width as u32, height as u32)))
}

// --- Operations --------------------------------------------------------------
/// A resize operation for every step.
pub open spec fn with_resizes(
    map: Map<usize, Operation>,
    steps: Seq<Step>,
    filter: ResizeFilter,
) -> Map<usize, Operation>
    decreases steps.len(),
{
    if steps.len() == 0 {
        map
    } else {
        let step = steps.last();
        with_resizes(map, steps.drop_last(), filter).insert(
            step.index,
            Operation::Resize(step.size.0 as usize, step.size.1 as usize, filter),
        )
    }
}

/// A quantize operation for every quality.
pub open spec fn with_quantizations(
    map: Map<usize, Operation>,
    qualities: Seq<(usize, u8)>,
    dithering: Option<u8>,
) -> Map<usize, Operation>
    decreases qualities.len(),
{
    if qualities.len() == 0 {
        map
    } else {
        let (index, quality) = qualities.last();
        with_quantizations(map, qualities.drop_last(), dithering).insert(
            index,
            Operation::Quantize(quality, dithering),
        )
    }
}

/// What one premultiply flag adds: where an operation stands two places
/// behind it, alpha is premultiplied in front of that operation and restored
/// behind it, unless the place behind it is taken.
pub open spec fn with_premultiply(map: Map<usize, Operation>, flag: (usize, bool)) -> Map<
    usize,
    Operation,
> {
    let index = flag.0;
    if flag.1 && map.contains_key((index + 2) as usize) {
        let before = map.insert(index, Operation::PremultiplyAlpha(AlphaState::PreMultiplied));
        if before.contains_key((index + 3) as usize) {
            before
        } else {
            before.insert(
                (index + 3) as usize,
                Operation::PremultiplyAlpha(AlphaState::NonPreMultiplied),
            )
        }
    } else {
        map
    }
}

/// What all premultiply flags add, one after the other.
pub open spec fn with_premultiplies(map: Map<usize, Operation>, flags: Seq<(usize, bool)>) -> Map<
    usize,
    Operation,
>
    decreases flags.len(),
{
    if flags.len() == 0 {
        map
    } else {
        with_premultiply(with_premultiplies(map, flags.drop_last()), flags.last())
    }
}

/// The resize values that run as raster operations. Where the leading ones
/// went into a render target, only those behind another operation do.
pub open spec fn raster_values(args: PreprocessArgs, skip_resize: bool) -> Seq<
    (usize, ResizeValue),
> {
    if skip_resize {
        from_index(args.resize@, first_other(args))
    } else {
        args.resize@
    }
}

/// The operations on an image of this size, by index.
pub open spec fn operation_map(args: PreprocessArgs, size: (nat, nat), skip_resize: bool) -> Map<
    usize,
    Operation,
> {
    let steps = planned(
        raster_values(args, skip_resize),
        size,
        args.may_shrink(),
        args.may_enlarge(),
    );
    with_premultiplies(
        with_quantizations(
            with_resizes(Map::empty(), steps, args.resampling()),
            args.quantization@,
            args.dithering,
        ),
        args.premultiply@,
    )
}

fn add_resizes(
    map: &mut BTreeMap<usize, Operation>,
    plan: &Vec<(usize, (usize, usize))>,
    filter: ResizeFilter,
)
    ensures
        final(map)@ == with_resizes(old(map)@, steps_of(plan@), filter),
{
    let ghost start = map@;
    let ghost steps = steps_of(plan@);
    let mut i: usize = 0;
    assert(steps.take(0) =~= Seq::<Step>::empty());
    while i < plan.len()
        invariant
            i <= plan@.len(),
            steps == steps_of(plan@),
            map@ == with_resizes(start, steps.take(i as int), filter),
        decreases plan@.len() - i,
    {
        let (index, (w, h)) = plan[i];
        map.insert(index, Operation::Resize(w, h, filter));
        proof {
            assert(steps.take(i + 1).drop_last() =~= steps.take(i as int));
            assert(steps.take(i + 1).last() == Step { index, size: (w as nat, h as nat) });
        }
        i = i + 1;
    }
    assert(steps.take(steps.len() as int) =~= steps);
}

fn add_quantizations(
    map: &mut BTreeMap<usize, Operation>,
    qualities: &Vec<(usize, u8)>,
    dithering: Option<u8>,
)
    ensures
        final(map)@ == with_quantizations(old(map)@, qualities@, dithering),
{
    let ghost start = map@;
    let mut i: usize = 0;
    assert(qualities@.take(0) =~= Seq::<(usize, u8)>::empty());
    while i < qualities.len()
        invariant
            i <= qualities@.len(),
            map@ == with_quantizations(start, qualities@.take(i as int), dithering),
        decreases qualities@.len() - i,
    {
        let (index, quality) = qualities[i];
        map.insert(index, Operation::Quantize(quality, dithering));
        proof {
            assert(qualities@.take(i + 1).drop_last() =~= qualities@.take(i as int));
        }
        i = i + 1;
    }
    assert(qualities@.take(qualities@.len() as int) =~= qualities@);
}

fn add_premultiplies(map: &mut BTreeMap<usize, Operation>, flags: &Vec<(usize, bool)>)
    requires
        forall|i: int| 0 <= i < flags@.len() ==> (#[trigger] flags@[i]).0 <= usize::MAX - 3,
    ensures
        final(map)@ == with_premultiplies(old(map)@, flags@),
{
    let ghost start = map@;
    let mut i: usize = 0;
    assert(flags@.take(0) =~= Seq::<(usize, bool)>::empty());
    while i < flags.len()
        invariant
            i <= flags@.len(),
            forall|i: int| 0 <= i < flags@.len() ==> (#[trigger] flags@[i]).0 <= usize::MAX - 3,
            map@ == with_premultiplies(start, flags@.take(i as int)),
        decreases flags@.len() - i,
    {
        let (index, set) = flags[i];
        proof {
            assert(flags@.take(i + 1).drop_last() =~= flags@.take(i as int));
        }
        if set && map.contains_key(&(index + 2)) {
            map.insert(index, Operation::PremultiplyAlpha(AlphaState::PreMultiplied));
            if !map.contains_key(&(index + 3)) {
                map.insert(index + 3, Operation::PremultiplyAlpha(AlphaState::NonPreMultiplied));
            }
        }
        i = i + 1;
    }
    assert(flags@.take(flags@.len() as int) =~= flags@);
}

/// The operations on an image of this size, by index.
///
/// With `skip_resize` the leading resize values are left out, because they
/// already went into a render target.
pub fn operations(args: &PreprocessArgs, size: (usize, usize), skip_resize: bool) -> (map: BTreeMap<
    usize,
    Operation,
>)
    requires
        forall|i: int|
            0 <= i < args.premultiply@.len() ==> (#[trigger] args.premultiply@[i]).0 <= usize::MAX
                - 3,
    ensures
        map@ == operation_map(*args, (size.0 as nat, size.1 as nat), skip_resize),
{
    let mut map: BTreeMap<usize, Operation> = BTreeMap::new();
    let downscale = args.downscale && !args.no_downscale;
    let upscale = args.upscale && !args.no_upscale;
    let plan = if skip_resize {
        let values = values_from(&args.resize, first_other_index(args));
        resize_plan(&values, size, downscale, upscale)
    } else {
        resize_plan(&args.resize, size, downscale, upscale)
    };
    let filter = match args.filter {
        Some(filter) => filter,
        None => ResizeFilter::Lanczos3,
    };
    add_resizes(&mut map, &plan, filter);
    add_quantizations(&mut map, &args.quantization, args.dithering);
    add_premultiplies(&mut map, &args.premultiply);
    map
}

// --- Laws --------------------------------------------------------------------
/// With both directions switched off nothing is resized.
pub proof fn law_disabling_both_directions_skips_every_resize(
    values: Seq<(usize, ResizeValue)>,
    size: (nat, nat),
)
    ensures
        planned(values, size, false, false).len() == 0,
    decreases values.len(),
{
    if values.len() > 0 {
        law_disabling_both_directions_skips_every_resize(values.drop_last(), size);
    }
}

/// The size that a step of a plan starts from.
pub open spec fn size_before(steps: Seq<Step>, index: int, size: (nat, nat)) -> (nat, nat) {
    if index <= 0 {
        size
    } else {
        steps[index - 1].size
    }
}

/// Every step of a plan goes in an allowed direction, and none leaves the size
/// as it was.
pub proof fn law_every_step_goes_an_allowed_way(
    values: Seq<(usize, ResizeValue)>,
    size: (nat, nat),
    downscale: bool,
    upscale: bool,
    index: int,
)
    requires
        0 <= index < planned(values, size, downscale, upscale).len(),
    ensures
        ({
            let steps = planned(values, size, downscale, upscale);
            is_taken(size_before(steps, index, size), steps[index].size, downscale, upscale)
        }),
    decreases values.len(),
{
    let steps = planned(values, size, downscale, upscale);
    let before = planned(values.drop_last(), size, downscale, upscale);
    if index < before.len() {
        law_every_step_goes_an_allowed_way(
            values.drop_last(),
            size,
            downscale,
            upscale,
            index,
        );
        assert(steps[index] == before[index]);
        if index > 0 {
            assert(steps[index - 1] == before[index - 1]);
        }
    } else {
        if index > 0 {
            assert(steps[index - 1] == before[index - 1]);
            assert(before.last() == before[index - 1]);
        }
    }
}

/// Without enlarging, no plan ends with a side that is longer than it was.
pub proof fn law_no_upscale_never_enlarges(
    values: Seq<(usize, ResizeValue)>,
    size: (nat, nat),
    downscale: bool,
)
    ensures
        ({
            let after = size_after(planned(values, size, downscale, false), size);
            after.0 <= size.0 && after.1 <= size.1
        }),
    decreases values.len(),
{
    if values.len() > 0 {
        law_no_upscale_never_enlarges(values.drop_last(), size, downscale);
    }
}

/// Without shrinking, no plan ends with a side that is shorter than it was.
pub proof fn law_no_downscale_never_shrinks(
    values: Seq<(usize, ResizeValue)>,
    size: (nat, nat),
    upscale: bool,
)
    ensures
        ({
            let after = size_after(planned(values, size, false, upscale), size);
            after.0 >= size.0 && after.1 >= size.1
        }),
    decreases values.len(),
{
    if values.len() > 0 {
        law_no_downscale_never_shrinks(values.drop_last(), size, upscale);
    }
}

/// Chains compose: the second part of a chain maps the size that the first
/// part left.
pub proof fn law_chained_values_compose(
    first: Seq<(usize, ResizeValue)>,
    second: Seq<(usize, ResizeValue)>,
    size: (nat, nat),
    downscale: bool,
    upscale: bool,
)
    ensures
        ({
            let start = planned(first, size, downscale, upscale);
            let rest = planned(second, size_after(start, size), downscale, upscale);
            planned(first + second, size, downscale, upscale) == start + rest
        }),
    decreases second.len(),
{
    let start = planned(first, size, downscale, upscale);
    let middle = size_after(start, size);
    if second.len() == 0 {
        assert(first + second =~= first);
        assert(start + planned(second, middle, downscale, upscale) =~= start);
    } else {
        law_chained_values_compose(first, second.drop_last(), size, downscale, upscale);
        assert((first + second).drop_last() =~= first + second.drop_last());
        assert((first + second).last() == second.last());
        let before = planned(second.drop_last(), middle, downscale, upscale);
        assert(size_after(start + before, size) == size_after(before, middle));
        let rest = planned(second, middle, downscale, upscale);
        if rest.len() > before.len() {
            assert(start + rest =~= (start + before).push(rest.last()));
        }
    }
}

/// Whether indices grow along a command line.
pub open spec fn is_ascending(values: Seq<(usize, ResizeValue)>) -> bool {
    forall|i: int, j: int| 0 <= i < j < values.len() ==> values[i].0 < values[j].0
}

/// The values before a point of the command line and those behind it are all
/// values, each once and in order.
pub proof fn law_a_command_line_splits_in_two(values: Seq<(usize, ResizeValue)>, limit: usize)
    requires
        is_ascending(values),
    ensures
        leading(values, limit) + from_index(values, limit) == values,
    decreases values.len(),
{
    if values.len() == 0 || values.first().0 >= limit {
        lemma_all_from(values, limit);
        lemma_nothing_in_front(values);
    } else {
        let rest = values.drop_first();
        assert forall|i: int, j: int| 0 <= i < j < rest.len() implies rest[i].0 < rest[j].0 by {
            assert(values[i + 1].0 < values[j + 1].0);
        }
        law_a_command_line_splits_in_two(rest, limit);
        lemma_filter_first(values, limit);
        lemma_put_in_front(values, leading(rest, limit), from_index(rest, limit));
    }
}

proof fn lemma_nothing_in_front(values: Seq<(usize, ResizeValue)>)
    ensures
        Seq::<(usize, ResizeValue)>::empty() + values == values,
{
    assert(Seq::<(usize, ResizeValue)>::empty() + values =~= values);
}

proof fn lemma_put_in_front(
    values: Seq<(usize, ResizeValue)>,
    head: Seq<(usize, ResizeValue)>,
    tail: Seq<(usize, ResizeValue)>,
)
    requires
        values.len() > 0,
        head + tail == values.drop_first(),
    ensures
        seq![values.first()] + head + tail == values,
{
    assert(seq![values.first()] + head + tail =~= seq![values.first()] + (head + tail));
    assert(seq![values.first()] + values.drop_first() =~= values);
}

proof fn lemma_all_from(values: Seq<(usize, ResizeValue)>, limit: usize)
    requires
        is_ascending(values),
        values.len() > 0 ==> values[0].0 >= limit,
    ensures
        from_index(values, limit) == values,
    decreases values.len(),
{
    reveal(Seq::filter);
    if values.len() > 0 {
        let before = values.drop_last();
        if values.len() > 1 {
            assert(values[0].0 < values[values.len() - 1].0);
        }
        lemma_all_from(before, limit);
        assert(before.push(values.last()) =~= values);
    }
}

/// A value in front that is left out changes nothing.
proof fn lemma_filter_first(values: Seq<(usize, ResizeValue)>, limit: usize)
    requires
        values.len() > 0,
        values.first().0 < limit,
    ensures
        from_index(values, limit) == from_index(values.drop_first(), limit),
    decreases values.len(),
{
    reveal(Seq::filter);
    if values.len() == 1 {
        assert(values.drop_last() =~= Seq::<(usize, ResizeValue)>::empty());
        assert(values.drop_first() =~= Seq::<(usize, ResizeValue)>::empty());
    } else {
        lemma_filter_first(values.drop_last(), limit);
        assert(values.drop_last().drop_first() =~= values.drop_first().drop_last());
    }
}

/// Folding the leading values into a render target and running the others as
/// raster operations gives the steps that running all of them would give.
pub proof fn law_a_render_target_keeps_the_order_of_the_command_line(
    args: PreprocessArgs,
    size: (nat, nat),
)
    requires
        is_ascending(args.resize@),
    ensures
        ({
            let (shrink, enlarge) = (args.may_shrink(), args.may_enlarge());
            let folded = planned(leading(args.resize@, first_other(args)), size, shrink, enlarge);
            let target = size_after(folded, size);
            let raster = planned(raster_values(args, true), target, shrink, enlarge);
            planned(raster_values(args, false), size, shrink, enlarge) == folded + raster
        }),
{
    let limit = first_other(args);
    law_a_command_line_splits_in_two(args.resize@, limit);
    law_chained_values_compose(
        leading(args.resize@, limit),
        from_index(args.resize@, limit),
        size,
        args.may_shrink(),
        args.may_enlarge(),
    );
}

/// A premultiply flag that is not set adds nothing, and one without an
/// operation to serve adds nothing either.
pub proof fn law_an_idle_premultiply_adds_nothing(
    map: Map<usize, Operation>,
    flag: (usize, bool),
)
    requires
        !flag.1 || !map.contains_key((flag.0 + 2) as usize),
    ensures
        with_premultiply(map, flag) == map,
{
}

/// A premultiply flag leaves the operation that it serves in place, and never
/// replaces what stands behind it.
pub proof fn law_premultiply_keeps_the_operation_it_serves(
    map: Map<usize, Operation>,
    flag: (usize, bool),
)
    requires
        flag.0 <= usize::MAX - 3,
    ensures
        ({
            let after = with_premultiply(map, flag);
            let served = (flag.0 + 2) as usize;
            let behind = (flag.0 + 3) as usize;
            &&& map.contains_key(served) ==> after.contains_key(served) && after[served]
                == map[served]
            &&& map.contains_key(behind) ==> after.contains_key(behind) && after[behind]
                == map[behind]
        }),
{
}

} // verus!
