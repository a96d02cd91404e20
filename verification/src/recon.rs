//! One test reconstruction, between its inputs and its outputs: what is run on
//! which rows, the run's specification file, and what is made of the result.
use crate::bands::{band_rows, max_test_rebin, BAND};
use crate::json::{array_value, integer_value, object_value, value_text, JsonView};
use crate::params::AstraParams;
use crate::stack::LoadedStack;
use crate::text::{decimal, decode_lossy, join, lines, trim};
use serde_json::Value;
use vstd::prelude::*;

verus! {

/// What a test reconstruction runs on: the angle of every projection, the
/// rebin factor, the two bands of rows around the selected lines, and the
/// parameters in the pixels of the test resolution.
pub struct ReconPlan<F> {
    pub angles_rad: Vec<F>,
    pub rebin: usize,
    pub bands: [(usize, usize); 2],
    pub params: AstraParams<F>,
}

/// Every projection of the stack has an angle.
pub open spec fn all_angled<F, P>(stack: LoadedStack<F, P>) -> bool {
    forall|i: int| 0 <= i < stack.sample.len() ==> (#[trigger] stack.sample[i]).angle_deg is Some
}

/// The rebin factor of a test run that asks for `test_rebin` on a stack of
/// `height` rows: at least 1, and no larger than is useful.
pub open spec fn run_rebin(test_rebin: usize, height: usize) -> usize {
    if test_rebin < 1 {
        1
    } else if test_rebin > crate::bands::largest_factor(height) {
        crate::bands::largest_factor(height)
    } else {
        test_rebin
    }
}

/// `band` holds the rows around the selected line, or around the last line of
/// the stack where the selected one lies past it.
pub open spec fn band_around(
    band: (usize, usize),
    line: usize,
    height: usize,
    rebin: usize,
) -> bool {
    let row = run_line(line, height);
    &&& band.0 == crate::bands::band_start(row, height, rebin)
    &&& band.1 == crate::bands::band_start(row, height, rebin) + crate::bands::band_height(rebin)
}

/// `r` is the plan of a test reconstruction, or why there is none.
pub open spec fn plan_outcome<F, P, A: Fn(F) -> F, C: Fn(F, usize) -> F>(
    r: Result<ReconPlan<F>, String>,
    stack: LoadedStack<F, P>,
    top_slice: usize,
    bottom_slice: usize,
    params: AstraParams<F>,
    test_rebin: usize,
    to_radians: A,
    rebin_center: C,
) -> bool {
    match r {
        Ok(plan) => {
            let height = stack.sample[0].height;
            &&& stack.sample.len() > 0
            &&& all_angled(stack)
            &&& plan.angles_rad.len() == stack.sample.len()
            &&& forall|i: int|
                0 <= i < stack.sample.len() ==> call_ensures(
                    to_radians,
                    (stack.sample[i].angle_deg->0,),
                    #[trigger] plan.angles_rad[i],
                )
            &&& plan.rebin == run_rebin(test_rebin, height)
            &&& band_around(plan.bands@[0], top_slice, height, plan.rebin)
            &&& band_around(plan.bands@[1], bottom_slice, height, plan.rebin)
            &&& call_ensures(rebin_center, (params.center, plan.rebin), plan.params.center)
            &&& plan.params == (AstraParams { center: plan.params.center, ..params })
        },
        Err(message) => {
            ||| stack.sample.len() == 0 && message@ == "no projections in the stack"@
            ||| stack.sample.len() > 0 && !all_angled(stack) && message@
                == "some projections carry no angle — the reconstruction needs all of them"@
        },
    }
}

/// What a test reconstruction of the two selected lines runs on, at the
/// resolution asked for as far as the stack allows it. The parameters keep the
/// checkpoint's pixel units; only the center of rotation follows the pixel
/// grid onto the rebinned width, by `rebin_center`.
pub fn plan_recon<F: Copy, P, A: Fn(F) -> F, C: Fn(F, usize) -> F>(
    stack: &LoadedStack<F, P>,
    top_slice: usize,
    bottom_slice: usize,
    params: AstraParams<F>,
    test_rebin: usize,
    to_radians: &A,
    rebin_center: &C,
) -> (r: Result<ReconPlan<F>, String>)
    requires
        stack.sample.len() > 0 && all_angled(*stack) ==> stack.sample[0].height > 0,
        forall|angle: F| call_requires(*to_radians, (angle,)),
        forall|center: F, rebin: usize|
            rebin >= 1 ==> #[trigger] call_requires(*rebin_center, (center, rebin)),
    ensures
        plan_outcome(
            r,
            *stack,
            top_slice,
            bottom_slice,
            params,
            test_rebin,
            *to_radians,
            *rebin_center,
        ),
{
    if stack.sample.len() == 0 {
        return Err("no projections in the stack".to_owned());
    }
    let mut angles_rad: Vec<F> = Vec::new();
    let mut i: usize = 0;
    while i < stack.sample.len()
        invariant
            i <= stack.sample.len(),
            stack.sample.len() > 0,
            forall|angle: F| call_requires(*to_radians, (angle,)),
            angles_rad.len() == i,
            forall|k: int|
                0 <= k < i ==> (#[trigger] stack.sample[k]).angle_deg is Some && call_ensures(
                    *to_radians,
                    (stack.sample[k].angle_deg->0,),
                    angles_rad[k],
                ),
        decreases stack.sample.len() - i,
    {
        match stack.sample[i].angle_deg {
            Some(angle) => angles_rad.push(to_radians(angle)),
            None => {
                assert(stack.sample[i as int].angle_deg is None);
                return Err(
                    "some projections carry no angle — the reconstruction needs all of them".to_owned(),
                );
            },
        }
        i = i + 1;
    }
    proof {
        assert(all_angled(*stack));
        assert forall|k: int| 0 <= k < stack.sample.len() implies call_ensures(
            *to_radians,
            (stack.sample[k].angle_deg->0,),
            #[trigger] angles_rad[k],
        ) by {
            assert(stack.sample[k].angle_deg is Some);
        }
    }
    let h: usize = stack.sample[0].height;
    let most: usize = max_test_rebin(h);
    let rebin: usize = if test_rebin < 1 {
        1
    } else if test_rebin > most {
        most
    } else {
        test_rebin
    };
    let top: usize = if top_slice < h {
        top_slice
    } else {
        h - 1
    };
    let bottom: usize = if bottom_slice < h {
        bottom_slice
    } else {
        h - 1
    };
    let mut test_params = params;
    test_params.center = rebin_center(params.center, rebin);
    Ok(
        ReconPlan {
            angles_rad,
            rebin,
            bands: [band_rows(top, h, rebin), band_rows(bottom, h, rebin)],
            params: test_params,
        },
    )
}

/// A planned band lies within every projection of the planned height, holds
/// the selected line, or the last one where that lies past the end, and is
/// `BAND` slices high after the rebin.
pub proof fn law_planned_band_fits<F, P>(
    p: crate::stack::Projection<F, P>,
    band: (usize, usize),
    line: usize,
    test_rebin: usize,
)
    requires
        p.height > 0,
        p.height * p.width <= p.mean@.len(),
        band_around(band, line, p.height, run_rebin(test_rebin, p.height)),
    ensures
        crate::bands::band_fits(p, band),
        band.1 <= p.height,
        line < p.height ==> band.0 <= line < band.1,
        line >= p.height ==> band.0 <= p.height - 1 && band.1 == p.height,
        band.1 - band.0 == BAND * run_rebin(test_rebin, p.height),
{
    let rebin = run_rebin(test_rebin, p.height);
    let row = if line < p.height {
        line
    } else {
        (p.height - 1) as usize
    };
    assert(BAND * rebin == rebin);
    crate::bands::law_band_holds_its_line(row, p.height, rebin);
    assert(band.1 * p.width <= p.height * p.width) by (nonlinear_arith)
        requires
            band.1 <= p.height,
    ;
}

/// A planned run's input matches its plan: where the projections are of one size,
/// the sinograms fill the shape of one block for every projection, each block is
/// what `extract_bands` gives for the projection at its place, and the angle at
/// that place is the projection's.
pub proof fn law_planned_sinograms_fill_their_shape<
    F,
    P,
    A: Fn(F) -> F,
    C: Fn(F, usize) -> F,
    B: Fn(&crate::stack::Projection<F, P>, usize) -> Vec<P>,
>(
    stack: LoadedStack<F, P>,
    top_slice: usize,
    bottom_slice: usize,
    params: AstraParams<F>,
    test_rebin: usize,
    to_radians: A,
    rebin_center: C,
    plan: ReconPlan<F>,
    rebin_band: B,
    width: usize,
    out: Seq<P>,
    i: int,
)
    requires
        plan_outcome(
            Ok::<ReconPlan<F>, String>(plan),
            stack,
            top_slice,
            bottom_slice,
            params,
            test_rebin,
            to_radians,
            rebin_center,
        ),
        stack.sample[0].height > 0,
        forall|k: int|
            0 <= k < stack.sample.len() ==> (#[trigger] stack.sample@[k]).height
                == stack.sample@[0].height && stack.sample@[k].width == stack.sample@[0].width
                && stack.sample@[k].height * stack.sample@[k].width
                == stack.sample@[k].mean@.len(),
        crate::bands::rebins_to_width(rebin_band, stack.sample@[0].width, plan.rebin, width),
        crate::bands::volume_gives(stack.sample@, plan.bands, plan.rebin, rebin_band, out),
    ensures
        out.len() == stack.sample.len() * (2 * BAND) * width,
        plan.angles_rad.len() == stack.sample.len(),
        0 <= i < stack.sample.len() ==> {
            &&& crate::bands::bands_give(
                stack.sample@[i],
                plan.bands,
                plan.rebin,
                rebin_band,
                crate::bands::sinogram_of(out, i, width),
            )
            &&& call_ensures(
                to_radians,
                (stack.sample@[i].angle_deg->0,),
                plan.angles_rad@[i],
            )
        },
{
    let first = stack.sample@[0];
    assert(stack.sample[0] == first);
    assert forall|k: int| 0 <= k < stack.sample.len() implies (#[trigger] stack.sample@[k]).width
        == first.width && crate::bands::band_fits(stack.sample@[k], plan.bands@[0])
        && crate::bands::band_fits(stack.sample@[k], plan.bands@[1]) by {
        law_planned_band_fits(stack.sample@[k], plan.bands@[0], top_slice, test_rebin);
        law_planned_band_fits(stack.sample@[k], plan.bands@[1], bottom_slice, test_rebin);
    }
    crate::bands::law_sinograms_fill_their_shape(
        stack.sample@,
        plan.bands,
        plan.rebin,
        rebin_band,
        first.width,
        width,
        out,
        i,
    );
    if 0 <= i < stack.sample.len() {
        assert(plan.angles_rad[i] == plan.angles_rad@[i]);
        assert(stack.sample[i] == stack.sample@[i]);
    }
}

/// A useful rebin factor is run as asked for, and every request is run at a
/// factor from 1 up to the largest useful one.
pub proof fn law_useful_rebin_is_run(test_rebin: usize, height: usize)
    ensures
        1 <= run_rebin(test_rebin, height) <= crate::bands::largest_factor(height),
        crate::bands::useful_factor(test_rebin, height) ==> run_rebin(test_rebin, height)
            == test_rebin,
{
    let factors = crate::bands::TEST_REBIN_FACTORS@;
    if factors.contains(test_rebin) {
        let k = choose|k: int| 0 <= k < factors.len() && factors[k] == test_rebin;
        assert(k == 0 || k == 1 || k == 2 || k == 3 || k == 4);
    }
}

/// The specification file of a run: the angles, the row of each band that is
/// reconstructed (its middle one), and the parameters in their saved form.
pub open spec fn spec_json(angles: Seq<JsonView>, params: JsonView) -> JsonView {
    JsonView::Object(
        map![
            "angles_rad"@ => JsonView::Array(angles),
            "rows"@ => JsonView::Array(
                seq![
                    crate::json::integer_json((BAND / 2) as i64),
                    crate::json::integer_json((BAND + BAND / 2) as i64),
                ],
            ),
            "params"@ => params
        ],
    )
}

/// `json` is what `number` makes of `x`.
pub open spec fn written_as<F, W: Fn(F) -> Value>(number: W, x: F, json: JsonView) -> bool {
    exists|value: Value|
        #[trigger] call_ensures(number, (x,), value) && json == crate::json::json_of(value)
}

/// `text` is the specification file of a run as compact JSON, its numbers turned
/// into JSON values by `number`.
pub open spec fn run_spec<F, W: Fn(F) -> Value>(
    angles_rad: Seq<F>,
    params: AstraParams<F>,
    number: W,
    text: Seq<char>,
) -> bool {
    exists|angles: Seq<JsonView>, config: JsonView|
        {
            &&& angles.len() == angles_rad.len()
            &&& forall|i: int|
                0 <= i < angles.len() ==> written_as(number, angles_rad[i], #[trigger] angles[i])
            &&& crate::params::saved_form(params, number, config)
            &&& text == crate::json::json_text(#[trigger] spec_json(angles, config))
        }
}

/// The compact JSON text of a run's specification file, for angles in radians
/// and parameters in the pixels of the test resolution. Numbers become JSON
/// values by `number`.
pub fn recon_spec<F: Copy, W: Fn(F) -> Value>(
    angles_rad: &Vec<F>,
    params: &AstraParams<F>,
    number: &W,
) -> (r: String)
    requires
        forall|x: F| call_requires(*number, (x,)),
    ensures
        run_spec(angles_rad@, *params, *number, r@),
{
    let mut items: Vec<Value> = Vec::new();
    let mut i: usize = 0;
    while i < angles_rad.len()
        invariant
            i <= angles_rad.len(),
            forall|x: F| call_requires(*number, (x,)),
            items.len() == i,
            forall|k: int|
                0 <= k < i ==> call_ensures(*number, (angles_rad[k],), #[trigger] items[k]),
        decreases angles_rad.len() - i,
    {
        items.push(number(angles_rad[i]));
        i = i + 1;
    }
    let ghost angles = items@.map_values(|item: Value| crate::json::json_of(item));
    assert forall|k: int| 0 <= k < angles.len() implies written_as(
        *number,
        angles_rad[k],
        #[trigger] angles[k],
    ) by {
        assert(call_ensures(*number, (angles_rad[k],), items[k]));
    }
    let mut rows: Vec<Value> = Vec::new();
    rows.push(integer_value((BAND / 2) as i64));
    rows.push(integer_value((BAND + BAND / 2) as i64));
    assert(rows@.map_values(|item: Value| crate::json::json_of(item)) =~= seq![
        crate::json::integer_json((BAND / 2) as i64),
        crate::json::integer_json((BAND + BAND / 2) as i64),
    ]);
    let config = params.to_value(number);
    let ghost form = spec_json(angles, crate::json::json_of(config));
    let mut members: Vec<(String, Value)> = Vec::new();
    members.push(("angles_rad".to_owned(), array_value(items)));
    members.push(("rows".to_owned(), array_value(rows)));
    members.push(("params".to_owned(), config));
    proof {
        reveal_strlit("angles_rad");
        reveal_strlit("rows");
        reveal_strlit("params");
        assert("angles_rad"@.len() == 10 && "rows"@.len() == 4 && "params"@.len() == 6);
        reveal_with_fuel(crate::json::object_of, 4);
        assert(crate::json::object_of(members@) =~= form->Object_0);
    }
    let doc = object_value(members);
    value_text(&doc)
}

/// The same angles and parameters make one specification file, where writing a
/// number is repeatable.
pub proof fn law_run_spec_is_repeatable<F, W: Fn(F) -> Value>(
    angles_rad: Seq<F>,
    params: AstraParams<F>,
    number: W,
    text: Seq<char>,
    again: Seq<char>,
)
    requires
        crate::params::writes_repeatably(number),
        run_spec(angles_rad, params, number, text),
        run_spec(angles_rad, params, number, again),
    ensures
        text == again,
{
    let (angles, config) = choose|angles: Seq<JsonView>, config: JsonView|
        {
            &&& angles.len() == angles_rad.len()
            &&& forall|i: int|
                0 <= i < angles.len() ==> written_as(number, angles_rad[i], #[trigger] angles[i])
            &&& crate::params::saved_form(params, number, config)
            &&& text == crate::json::json_text(#[trigger] spec_json(angles, config))
        };
    let (same_angles, same_config) = choose|angles: Seq<JsonView>, config: JsonView|
        {
            &&& angles.len() == angles_rad.len()
            &&& forall|i: int|
                0 <= i < angles.len() ==> written_as(number, angles_rad[i], #[trigger] angles[i])
            &&& crate::params::saved_form(params, number, config)
            &&& again == crate::json::json_text(#[trigger] spec_json(angles, config))
        };
    assert forall|i: int| 0 <= i < angles.len() implies #[trigger] angles[i] == same_angles[i] by {
        assert(written_as(number, angles_rad[i], angles[i]));
        assert(written_as(number, angles_rad[i], same_angles[i]));
    }
    assert(angles =~= same_angles);
    assert(config == same_config);
}

/// `f` gives the same for the same number every time.
pub open spec fn gives_repeatably<F, A: Fn(F) -> F>(f: A) -> bool {
    forall|x: F, a: F, b: F|
        #[trigger] call_ensures(f, (x,), a) && #[trigger] call_ensures(f, (x,), b) ==> a == b
}

/// `f` gives the same for the same number and factor every time.
pub open spec fn converts_repeatably<F, C: Fn(F, usize) -> F>(f: C) -> bool {
    forall|x: F, n: usize, a: F, b: F|
        #[trigger] call_ensures(f, (x, n), a) && #[trigger] call_ensures(f, (x, n), b) ==> a == b
}

/// Two plans are alike, or neither run has one, for the same reason.
pub open spec fn same_outcome<F>(
    a: Result<ReconPlan<F>, String>,
    b: Result<ReconPlan<F>, String>,
) -> bool {
    match (a, b) {
        (Ok(x), Ok(y)) => {
            &&& x.angles_rad@ == y.angles_rad@
            &&& x.rebin == y.rebin
            &&& x.bands@ == y.bands@
            &&& x.params == y.params
        },
        (Err(x), Err(y)) => x@ == y@,
        _ => false,
    }
}

/// The line that a run takes for the selected one: the last line of the stack
/// where the selected one lies past it.
pub open spec fn run_line(line: usize, height: usize) -> usize {
    if line < height {
        line
    } else {
        (height - 1) as usize
    }
}

/// Lines and rebin factors out of range are clamped, not errors: a run can be
/// planned exactly as the same run with its lines and its factor in range, and
/// has a plan where every projection has an angle.
pub proof fn law_clamped_run_is_planned_alike<F, P, A: Fn(F) -> F, C: Fn(F, usize) -> F>(
    stack: LoadedStack<F, P>,
    top_slice: usize,
    bottom_slice: usize,
    params: AstraParams<F>,
    test_rebin: usize,
    to_radians: A,
    rebin_center: C,
    r: Result<ReconPlan<F>, String>,
)
    requires
        stack.sample.len() > 0,
        stack.sample[0].height > 0,
    ensures
        plan_outcome(
            r,
            stack,
            top_slice,
            bottom_slice,
            params,
            test_rebin,
            to_radians,
            rebin_center,
        ) <==> plan_outcome(
            r,
            stack,
            run_line(top_slice, stack.sample[0].height),
            run_line(bottom_slice, stack.sample[0].height),
            params,
            run_rebin(test_rebin, stack.sample[0].height),
            to_radians,
            rebin_center,
        ),
        plan_outcome(
            r,
            stack,
            top_slice,
            bottom_slice,
            params,
            test_rebin,
            to_radians,
            rebin_center,
        ) ==> (r is Ok <==> all_angled(stack)),
{
}

/// Lines and rebin factors out of range are clamped, not errors: a run and the
/// same run with its lines and its factor in range have one plan, where the
/// conversions of the angles and the center are repeatable.
pub proof fn law_clamped_run_has_one_plan<F, P, A: Fn(F) -> F, C: Fn(F, usize) -> F>(
    stack: LoadedStack<F, P>,
    top_slice: usize,
    bottom_slice: usize,
    params: AstraParams<F>,
    test_rebin: usize,
    to_radians: A,
    rebin_center: C,
    asked: Result<ReconPlan<F>, String>,
    clamped: Result<ReconPlan<F>, String>,
)
    requires
        stack.sample.len() > 0,
        stack.sample[0].height > 0,
        gives_repeatably(to_radians),
        converts_repeatably(rebin_center),
        plan_outcome(
            asked,
            stack,
            top_slice,
            bottom_slice,
            params,
            test_rebin,
            to_radians,
            rebin_center,
        ),
        plan_outcome(
            clamped,
            stack,
            run_line(top_slice, stack.sample[0].height),
            run_line(bottom_slice, stack.sample[0].height),
            params,
            run_rebin(test_rebin, stack.sample[0].height),
            to_radians,
            rebin_center,
        ),
    ensures
        same_outcome(asked, clamped),
        asked is Ok <==> all_angled(stack),
{
    if let (Ok(x), Ok(y)) = (asked, clamped) {
        assert forall|i: int| 0 <= i < x.angles_rad@.len() implies #[trigger] x.angles_rad@[i]
            == y.angles_rad@[i] by {
            assert(x.angles_rad[i] == x.angles_rad@[i] && y.angles_rad[i] == y.angles_rad@[i]);
        }
        assert(x.angles_rad@ =~= y.angles_rad@);
        assert(x.bands@ =~= y.bands@);
    }
}

/// A run and the same run with its lines and its factor in range hand the
/// reconstruction one input: the same sinograms and the same specification
/// file, where what is handed in for the numbers and the rebin is repeatable.
pub proof fn law_clamped_run_has_one_input<
    F,
    P,
    W: Fn(F) -> Value,
    B: Fn(&crate::stack::Projection<F, P>, usize) -> Vec<P>,
>(
    stack: LoadedStack<F, P>,
    asked: ReconPlan<F>,
    clamped: ReconPlan<F>,
    number: W,
    rebin_band: B,
    asked_volume: Seq<P>,
    clamped_volume: Seq<P>,
    asked_spec: Seq<char>,
    clamped_spec: Seq<char>,
)
    requires
        same_outcome::<F>(Ok(asked), Ok(clamped)),
        crate::params::writes_repeatably(number),
        crate::bands::rebins_repeatably(rebin_band),
        crate::bands::volume_gives(
            stack.sample@,
            asked.bands,
            asked.rebin,
            rebin_band,
            asked_volume,
        ),
        crate::bands::volume_gives(
            stack.sample@,
            clamped.bands,
            clamped.rebin,
            rebin_band,
            clamped_volume,
        ),
        run_spec(asked.angles_rad@, asked.params, number, asked_spec),
        run_spec(clamped.angles_rad@, clamped.params, number, clamped_spec),
    ensures
        asked_volume == clamped_volume,
        asked_spec == clamped_spec,
{
    crate::bands::law_volume_is_repeatable(
        stack.sample@,
        asked.bands,
        clamped.bands,
        asked.rebin,
        rebin_band,
        asked_volume,
        clamped_volume,
    );
    law_run_spec_is_repeatable(
        asked.angles_rad@,
        asked.params,
        number,
        asked_spec,
        clamped_spec,
    );
}

/// A run of the two selected lines can hand the reconstruction these sinograms
/// and this specification file.
pub open spec fn run_input<
    F,
    P,
    A: Fn(F) -> F,
    C: Fn(F, usize) -> F,
    W: Fn(F) -> Value,
    B: Fn(&crate::stack::Projection<F, P>, usize) -> Vec<P>,
>(
    stack: LoadedStack<F, P>,
    top_slice: usize,
    bottom_slice: usize,
    params: AstraParams<F>,
    test_rebin: usize,
    to_radians: A,
    rebin_center: C,
    number: W,
    rebin_band: B,
    volume: Seq<P>,
    spec: Seq<char>,
) -> bool {
    exists|plan: ReconPlan<F>|
        {
            &&& plan_outcome(
                Ok::<ReconPlan<F>, String>(plan),
                stack,
                top_slice,
                bottom_slice,
                params,
                test_rebin,
                to_radians,
                rebin_center,
            )
            &&& crate::bands::volume_gives(
                stack.sample@,
                plan.bands,
                plan.rebin,
                rebin_band,
                volume,
            )
            &&& #[trigger] run_spec(plan.angles_rad@, plan.params, number, spec)
        }
}

/// A run and the same run with its lines and its factor in range can hand the
/// reconstruction the same inputs and no others.
pub proof fn law_clamped_run_has_the_same_inputs<
    F,
    P,
    A: Fn(F) -> F,
    C: Fn(F, usize) -> F,
    W: Fn(F) -> Value,
    B: Fn(&crate::stack::Projection<F, P>, usize) -> Vec<P>,
>(
    stack: LoadedStack<F, P>,
    top_slice: usize,
    bottom_slice: usize,
    params: AstraParams<F>,
    test_rebin: usize,
    to_radians: A,
    rebin_center: C,
    number: W,
    rebin_band: B,
    volume: Seq<P>,
    spec: Seq<char>,
)
    requires
        stack.sample.len() > 0,
        stack.sample[0].height > 0,
    ensures
        run_input(
            stack,
            top_slice,
            bottom_slice,
            params,
            test_rebin,
            to_radians,
            rebin_center,
            number,
            rebin_band,
            volume,
            spec,
        ) <==> run_input(
            stack,
            run_line(top_slice, stack.sample[0].height),
            run_line(bottom_slice, stack.sample[0].height),
            params,
            run_rebin(test_rebin, stack.sample[0].height),
            to_radians,
            rebin_center,
            number,
            rebin_band,
            volume,
            spec,
        ),
{
    assert forall|plan: ReconPlan<F>|
        #![trigger run_spec(plan.angles_rad@, plan.params, number, spec)]
        plan_outcome(
            Ok::<ReconPlan<F>, String>(plan),
            stack,
            top_slice,
            bottom_slice,
            params,
            test_rebin,
            to_radians,
            rebin_center,
        ) <==> plan_outcome(
            Ok::<ReconPlan<F>, String>(plan),
            stack,
            run_line(top_slice, stack.sample[0].height),
            run_line(bottom_slice, stack.sample[0].height),
            params,
            run_rebin(test_rebin, stack.sample[0].height),
            to_radians,
            rebin_center,
        ) by {
        law_clamped_run_is_planned_alike(
            stack,
            top_slice,
            bottom_slice,
            params,
            test_rebin,
            to_radians,
            rebin_center,
            Ok::<ReconPlan<F>, String>(plan),
        );
    }
}

/// The last four of the lines, or all of them where they are fewer.
pub open spec fn last_four(lines: Seq<Seq<char>>) -> Seq<Seq<char>> {
    if lines.len() > 4 {
        lines.skip(lines.len() - 4)
    } else {
        lines
    }
}

/// The message for a run that failed: its exit status and the end of what it
/// wrote to its error stream.
pub open spec fn failure_text(status: Seq<char>, stderr: Seq<char>) -> Seq<char> {
    "astra failed ("@ + status + "): "@ + crate::text::joined(
        last_four(crate::text::lines_of(crate::text::trimmed(stderr))),
        " | "@,
    )
}

/// The message for a run that failed: its exit status and the end of what it
/// wrote to its error stream.
pub fn failure_message(status: &str, stderr: &str) -> (r: String)
    ensures
        r@ == failure_text(status@, stderr@),
{
    let all = lines(trim(stderr));
    let first: usize = if all.len() > 4 {
        all.len() - 4
    } else {
        0
    };
    let mut tail: Vec<String> = Vec::new();
    let mut i: usize = first;
    while i < all.len()
        invariant
            first <= i <= all.len(),
            crate::text::texts(tail@) =~= crate::text::texts(all@).subrange(first as int, i as int),
        decreases all.len() - i,
    {
        let ghost before = crate::text::texts(tail@);
        tail.push(all[i].clone());
        assert(crate::text::texts(tail@) =~= before.push(all@[i as int]@));
        i = i + 1;
    }
    assert(crate::text::texts(tail@) =~= last_four(crate::text::texts(all@)));
    let mut message = "astra failed (".to_owned();
    message.append(status);
    message.append("): ");
    message.append(join(&tail, " | ").as_str());
    message
}

/// What is wrong with a run that has ended: nothing where it succeeded, so that
/// its output is to be read, and else the message made of its exit status and of
/// the bytes that it wrote to its error stream.
pub fn run_failure(success: bool, status: &str, stderr: &[u8]) -> (r: Option<String>)
    ensures
        match r {
            Some(message) => {
                &&& !success
                &&& message@ == failure_text(status@, crate::text::lossy_text(stderr@))
                &&& vstd::utf8::valid_utf8(stderr@) ==> message@ == failure_text(
                    status@,
                    vstd::utf8::decode_utf8(stderr@),
                )
            },
            None => success,
        },
{
    if success {
        None
    } else {
        let written = decode_lossy(stderr);
        Some(failure_message(status, written.as_str()))
    }
}

/// A shape as text, e.g. `[2, 64, 64]`.
pub open spec fn shape_text(shape: Seq<usize>) -> Seq<char> {
    "["@ + crate::text::joined(
        shape.map_values(|n: usize| crate::text::decimal_of(n as int)),
        ", "@,
    ) + "]"@
}

/// A shape as text, e.g. `[2, 64, 64]`.
pub fn describe_shape(shape: &Vec<usize>) -> (r: String)
    ensures
        r@ == shape_text(shape@),
{
    let ghost numbers = shape@.map_values(|n: usize| crate::text::decimal_of(n as int));
    let mut parts: Vec<String> = Vec::new();
    let mut i: usize = 0;
    while i < shape.len()
        invariant
            i <= shape.len(),
            numbers == shape@.map_values(|n: usize| crate::text::decimal_of(n as int)),
            crate::text::texts(parts@) =~= numbers.take(i as int),
        decreases shape.len() - i,
    {
        let ghost before = crate::text::texts(parts@);
        let number = decimal(shape[i]);
        let ghost text = number@;
        parts.push(number);
        assert(crate::text::texts(parts@) =~= before.push(text));
        i = i + 1;
    }
    assert(numbers.take(i as int) =~= numbers);
    let mut r = "[".to_owned();
    r.append(join(&parts, ", ").as_str());
    r.append("]");
    r
}

/// The two reconstructed slices in what a run returned, as their height, their
/// width and the values of each; an error where it returned anything but two
/// slices.
pub fn split_slices<P>(shape: &Vec<usize>, values: Vec<P>) -> (r: Result<
    (usize, usize, Vec<P>, Vec<P>),
    String,
>)
    requires
        shape.len() == 3 && shape[0] == 2 ==> shape[1] * shape[2] <= values.len(),
    ensures
        match r {
            Ok((height, width, top, bottom)) => {
                &&& shape@ =~= seq![2, height, width]
                &&& top@ == values@.take(height * width)
                &&& bottom@ == values@.skip(height * width)
                &&& top@ + bottom@ == values@
            },
            Err(message) => {
                ||| shape.len() != 3 && message@ == "astra returned shape "@ + shape_text(shape@)
                    + ", expected 3-D"@
                ||| shape.len() == 3 && shape[0] != 2 && message@ == "astra returned "@
                    + crate::text::decimal_of(shape[0] as int) + " slices, expected 2"@
            },
        },
{
    if shape.len() != 3 {
        let mut message = "astra returned shape ".to_owned();
        message.append(describe_shape(shape).as_str());
        message.append(", expected 3-D");
        return Err(message);
    }
    let count: usize = shape[0];
    if count != 2 {
        let mut message = "astra returned ".to_owned();
        message.append(decimal(count).as_str());
        message.append(" slices, expected 2");
        return Err(message);
    }
    let height: usize = shape[1];
    let width: usize = shape[2];
    let total: usize = values.len();
    assert(height * width <= total);
    let mut top = values;
    let bottom = top.split_off(height * width);
    assert(top@ + bottom@ =~= values@);
    Ok((height, width, top, bottom))
}

/// What a run does to the machine that can fail.
#[derive(Clone, Copy, Debug, PartialEq, Eq, Structural)]
pub enum RunStep {
    /// Create the scratch directory.
    CreateDirectory,
    /// Write a file into it.
    WriteFile,
    /// Launch the reconstruction.
    Launch,
}

/// The message for a step of a run that failed on `subject`: the directory, the
/// file or the program.
pub fn run_error(step: RunStep, subject: &str, error: &str) -> (r: String)
    ensures
        r@ == (match step {
            RunStep::CreateDirectory => "create "@,
            RunStep::WriteFile => "write "@,
            RunStep::Launch => "cannot launch "@,
        }) + subject@ + ": "@ + error@,
{
    let mut message = match step {
        RunStep::CreateDirectory => "create ".to_owned(),
        RunStep::WriteFile => "write ".to_owned(),
        RunStep::Launch => "cannot launch ".to_owned(),
    };
    message.append(subject);
    message.append(": ");
    message.append(error);
    message
}

/// Where a scratch directory is made.
#[derive(Clone, Copy, Debug, PartialEq, Eq, Structural)]
pub enum ScratchPlace {
    /// In the checkpoint's own directory.
    BesideCheckpoint,
    /// In the system's directory for temporary files.
    Temporary,
}

/// The name of the scratch directory of the process `pid`, hidden or not.
pub open spec fn scratch_name(hidden: bool, pid: u32) -> Seq<char> {
    (if hidden {
        ".astra_optimizer_"@
    } else {
        "astra_optimizer_"@
    }) + crate::text::decimal_of(pid as int)
}

/// The directory to make for a run's files after `failed` directories could
/// not be made: first a hidden one beside the checkpoint (where the checkpoint
/// has a directory; else among the temporary files), then one among the
/// temporary files, then none.
pub fn scratch_try(has_directory: bool, pid: u32, failed: usize) -> (r: Option<
    (ScratchPlace, String),
>)
    ensures
        match r {
            Some((place, name)) => {
                &&& failed < 2
                &&& place == (if failed == 0 && has_directory {
                    ScratchPlace::BesideCheckpoint
                } else {
                    ScratchPlace::Temporary
                })
                &&& name@ == scratch_name(failed == 0, pid)
            },
            None => failed >= 2,
        },
{
    if failed >= 2 {
        return None;
    }
    let place = if failed == 0 && has_directory {
        ScratchPlace::BesideCheckpoint
    } else {
        ScratchPlace::Temporary
    };
    let mut name = if failed == 0 {
        ".astra_optimizer_".to_owned()
    } else {
        "astra_optimizer_".to_owned()
    };
    name.append(decimal(pid as usize).as_str());
    Some((place, name))
}

/// A run is planned exactly where the stack has projections and all of them have
/// an angle; else the error says which of the two is missing.
pub proof fn law_run_needs_every_angle<F: Copy, P, A: Fn(F) -> F, C: Fn(F, usize) -> F>(
    stack: &LoadedStack<F, P>,
    top_slice: usize,
    bottom_slice: usize,
    params: AstraParams<F>,
    test_rebin: usize,
    to_radians: A,
    rebin_center: C,
    r: Result<ReconPlan<F>, String>,
    i: int,
)
    requires
        call_ensures(
            plan_recon::<F, P, A, C>,
            (stack, top_slice, bottom_slice, params, test_rebin, &to_radians, &rebin_center),
            r,
        ),
    ensures
        r is Ok <==> stack.sample@.len() > 0 && (forall|k: int|
            0 <= k < stack.sample@.len() ==> (#[trigger] stack.sample@[k]).angle_deg is Some),
        stack.sample@.len() == 0 ==> (r->Err_0)@ == "no projections in the stack"@,
        stack.sample@.len() > 0 && r is Err ==> (r->Err_0)@
            == "some projections carry no angle — the reconstruction needs all of them"@,
        r is Ok ==> (r->Ok_0).angles_rad@.len() == stack.sample@.len(),
        r is Ok && 0 <= i < stack.sample@.len() ==> call_ensures(
            to_radians,
            (stack.sample@[i].angle_deg->0,),
            (r->Ok_0).angles_rad@[i],
        ),
{
    assert(forall|k: int|
        0 <= k < stack.sample@.len() ==> #[trigger] stack.sample@[k] == stack.sample[k]);
    assert(forall|k: int|
        0 <= k < stack.sample@.len() ==> #[trigger] stack.sample[k] == stack.sample@[k]);
    if r is Ok && 0 <= i < stack.sample@.len() {
        let plan = r->Ok_0;
        assert(plan.angles_rad[i] == plan.angles_rad@[i]);
    }
}

/// The run's factor is the one asked for, taken up to 1 or down to the largest
/// factor of the stack, and its bands are those around the two lines at that
/// factor, a line past the end taken for the last one.
pub proof fn law_run_is_planned_within_the_stack<
    F: Copy,
    P,
    A: Fn(F) -> F,
    C: Fn(F, usize) -> F,
>(
    stack: &LoadedStack<F, P>,
    top_slice: usize,
    bottom_slice: usize,
    params: AstraParams<F>,
    test_rebin: usize,
    to_radians: A,
    rebin_center: C,
    plan: ReconPlan<F>,
    most: usize,
    top: (usize, usize),
    bottom: (usize, usize),
)
    requires
        call_ensures(
            plan_recon::<F, P, A, C>,
            (stack, top_slice, bottom_slice, params, test_rebin, &to_radians, &rebin_center),
            Ok::<ReconPlan<F>, String>(plan),
        ),
        stack.sample@[0].height > 0,
        call_ensures(max_test_rebin, (stack.sample@[0].height,), most),
        call_ensures(
            band_rows,
            (
                if top_slice < stack.sample@[0].height {
                    top_slice
                } else {
                    (stack.sample@[0].height - 1) as usize
                },
                stack.sample@[0].height,
                plan.rebin,
            ),
            top,
        ),
        call_ensures(
            band_rows,
            (
                if bottom_slice < stack.sample@[0].height {
                    bottom_slice
                } else {
                    (stack.sample@[0].height - 1) as usize
                },
                stack.sample@[0].height,
                plan.rebin,
            ),
            bottom,
        ),
    ensures
        test_rebin < 1 ==> plan.rebin == 1,
        1 <= test_rebin <= most ==> plan.rebin == test_rebin,
        test_rebin > most ==> plan.rebin == most,
        plan.bands@[0] == top,
        plan.bands@[1] == bottom,
        plan.bands@[0].1 <= stack.sample@[0].height,
        plan.bands@[1].1 <= stack.sample@[0].height,
        top_slice < stack.sample@[0].height ==> plan.bands@[0].0 <= top_slice < plan.bands@[0].1,
        bottom_slice < stack.sample@[0].height ==> plan.bands@[1].0 <= bottom_slice
            < plan.bands@[1].1,
        top_slice >= stack.sample@[0].height ==> plan.bands@[0].1 == stack.sample@[0].height,
        bottom_slice >= stack.sample@[0].height ==> plan.bands@[1].1 == stack.sample@[0].height,
{
    assert(stack.sample@[0] == stack.sample[0]);
    let height = stack.sample@[0].height;
    crate::bands::law_band_holds_its_line(run_line(top_slice, height), height, plan.rebin);
    crate::bands::law_band_holds_its_line(run_line(bottom_slice, height), height, plan.rebin);
    assert(plan.bands@[0].0 == top.0 && plan.bands@[0].1 == top.1);
    assert(plan.bands@[1].0 == bottom.0 && plan.bands@[1].1 == bottom.1);
}

/// The center follows the pixel grid of the very factor that the bands are rebinned
/// by: it is what `rebin_center` gives for the center that was set and for that
/// factor, which is the number of rows that are cut for one. Every other
/// parameter is as it was set.
pub proof fn law_planned_center_follows_the_rebinned_grid<
    F: Copy,
    P,
    A: Fn(F) -> F,
    C: Fn(F, usize) -> F,
>(
    stack: &LoadedStack<F, P>,
    top_slice: usize,
    bottom_slice: usize,
    params: AstraParams<F>,
    test_rebin: usize,
    to_radians: A,
    rebin_center: C,
    plan: ReconPlan<F>,
    n: usize,
)
    requires
        call_ensures(
            plan_recon::<F, P, A, C>,
            (stack, top_slice, bottom_slice, params, test_rebin, &to_radians, &rebin_center),
            Ok::<ReconPlan<F>, String>(plan),
        ),
    ensures
        call_ensures(rebin_center, (params.center, plan.rebin), plan.params.center),
        n == plan.bands@[0].1 - plan.bands@[0].0 || n == plan.bands@[1].1 - plan.bands@[1].0
            ==> call_ensures(rebin_center, (params.center, n), plan.params.center),
        n == test_rebin && (n == 1 || n == 2 || n == 3 || n == 4 || n == 6) && n
            <= stack.sample@[0].height ==> plan.rebin == n && call_ensures(
            rebin_center,
            (params.center, n),
            plan.params.center,
        ),
        plan.params.method == params.method,
        plan.params.gpu == params.gpu,
        plan.params.num_iter == params.num_iter,
        plan.params.filter == params.filter,
        plan.params.ratio == params.ratio,
        plan.params.pad == params.pad,
{
    assert(stack.sample@[0] == stack.sample[0]);
    assert(plan.rebin >= 1);
    assert(BAND * plan.rebin == plan.rebin);
}

/// `number` gives a value for `x` that holds `json`.
pub open spec fn is_one_of_its_values<F, W: Fn(F) -> Value>(json: JsonView, x: F, number: W) -> bool {
    exists|value: Value|
        crate::json::json_of(value) == json && #[trigger] call_ensures(number, (x,), value)
}

/// `list` is an array with what `number` gives for the numbers, in their order.
pub open spec fn are_written<F, W: Fn(F) -> Value>(
    list: JsonView,
    numbers: Seq<F>,
    number: W,
) -> bool {
    &&& list is Array
    &&& list->Array_0.len() == numbers.len()
    &&& forall|i: int|
        0 <= i < numbers.len() ==> #[trigger] is_one_of_its_values(
            list->Array_0[i],
            numbers[i],
            number,
        )
}

/// The specification file of a run is an object of three members: the angles in
/// their order, each as `number` writes it, the rows 0 and 1, and the parameters
/// in the form in which they are saved, with every one of them as it is set.
pub proof fn law_specification_holds_the_saved_parameters<F: Copy, W: Fn(F) -> Value>(
    angles_rad: Vec<F>,
    params: AstraParams<F>,
    number: W,
    text: String,
    saved: String,
)
    requires
        call_ensures(recon_spec::<F, W>, (&angles_rad, &params, &number), text),
        call_ensures(AstraParams::<F>::to_json::<W>, (&params, &number), saved),
    ensures
        exists|json: JsonView, config: JsonView|
            {
                &&& text@ == #[trigger] crate::json::json_text(json)
                &&& json is Object
                &&& json->Object_0.dom() =~= set!["angles_rad"@, "rows"@, "params"@]
                &&& crate::json::member(json, "angles_rad"@) is Some
                &&& are_written(
                    crate::json::member(json, "angles_rad"@)->0,
                    angles_rad@,
                    number,
                )
                &&& crate::json::member(json, "rows"@) == Some(
                    JsonView::Array(
                        seq![
                            JsonView::Number(crate::json::NumberView::Unsigned(0)),
                            JsonView::Number(crate::json::NumberView::Unsigned(1)),
                        ],
                    ),
                )
                &&& crate::json::member(json, "params"@) == Some(config)
                &&& #[trigger] crate::params::has_members_of(config, params, number)
                &&& crate::params::writes_repeatably(number) ==> saved@
                    == crate::json::json_text(config)
            },
{
    let (angles, config) = choose|angles: Seq<JsonView>, config: JsonView|
        {
            &&& angles.len() == angles_rad@.len()
            &&& forall|i: int|
                0 <= i < angles.len() ==> written_as(number, angles_rad@[i], #[trigger] angles[i])
            &&& crate::params::saved_form(params, number, config)
            &&& text@ == crate::json::json_text(#[trigger] spec_json(angles, config))
        };
    let json = spec_json(angles, config);
    reveal_strlit("angles_rad");
    reveal_strlit("rows");
    reveal_strlit("params");
    assert("angles_rad"@.len() == 10 && "rows"@.len() == 4 && "params"@.len() == 6);
    crate::params::lemma_saved_form_has_its_members(params, number, config);
    assert(json->Object_0.dom() =~= set!["angles_rad"@, "rows"@, "params"@]);
    assert(crate::json::member(json, "angles_rad"@) == Some(JsonView::Array(angles)));
    assert(crate::json::member(json, "params"@) == Some(config));
    let zero = JsonView::Number(crate::json::NumberView::Unsigned(0));
    let one = JsonView::Number(crate::json::NumberView::Unsigned(1));
    assert(seq![
        crate::json::integer_json((BAND / 2) as i64),
        crate::json::integer_json((BAND + BAND / 2) as i64),
    ] =~= seq![zero, one]);
    let list = JsonView::Array(angles);
    assert forall|i: int| 0 <= i < angles_rad@.len() implies #[trigger] is_one_of_its_values(
        list->Array_0[i],
        angles_rad@[i],
        number,
    ) by {
        assert(written_as(number, angles_rad@[i], angles[i]));
    }
    assert(are_written(list, angles_rad@, number));
    if crate::params::writes_repeatably(number) {
        let form = choose|form: JsonView|
            #[trigger] crate::params::saved_form(params, number, form) && saved@
                == crate::json::json_text(form);
        assert(form == config);
    }
}

/// The message for a failed run names the exit status and ends with the last
/// lines of what the run wrote, trimmed, four at most and in their order, with a
/// bar between two of them.
pub proof fn law_failure_ends_with_the_last_lines(
    status: &str,
    stderr: &str,
    message: String,
    trimmed: &str,
    all: Vec<String>,
)
    requires
        call_ensures(failure_message, (status, stderr), message),
        call_ensures(trim, (stderr,), trimmed),
        call_ensures(lines, (trimmed,), all),
    ensures
        ({
            let head = "astra failed ("@ + status@ + "): "@;
            let n = all@.len();
            &&& n == 0 ==> message@ == head
            &&& n == 1 ==> message@ == head + all@[0]@
            &&& n == 2 ==> message@ == head + (all@[0]@ + " | "@ + all@[1]@)
            &&& n == 3 ==> message@ == head + (all@[0]@ + " | "@ + all@[1]@ + " | "@ + all@[2]@)
            &&& n >= 4 ==> message@ == head + (all@[n - 4]@ + " | "@ + all@[n - 3]@ + " | "@
                + all@[n - 2]@ + " | "@ + all@[n - 1]@)
        }),
{
    let head = "astra failed ("@ + status@ + "): "@;
    let shown = last_four(crate::text::texts(all@));
    let n = all@.len() as int;
    assert(crate::text::texts(all@).len() == n);
    assert(forall|k: int| 0 <= k < n ==> #[trigger] crate::text::texts(all@)[k] == all@[k]@);
    reveal_with_fuel(crate::text::joined, 5);
    if n == 0 {
        assert(head + crate::text::joined(shown, " | "@) =~= head);
    } else if n >= 4 {
        assert(shown[0] == all@[n - 4]@ && shown[1] == all@[n - 3]@ && shown[2] == all@[n - 2]@
            && shown[3] == all@[n - 1]@);
    }
}

/// A run has failed exactly where it did not succeed, and its message is the one
/// for its exit status and for what it wrote, decoded.
pub proof fn law_failed_run_is_reported_by_its_own_words(
    success: bool,
    status: &str,
    stderr: &[u8],
    r: Option<String>,
    written: &str,
    message: String,
)
    requires
        call_ensures(run_failure, (success, status, stderr), r),
        call_ensures(failure_message, (status, written), message),
        written@ == crate::text::lossy_text(stderr@) || (vstd::utf8::valid_utf8(stderr@)
            && written@ == vstd::utf8::decode_utf8(stderr@)),
    ensures
        r is None <==> success,
        r is Some ==> (r->0)@ == message@,
{
}

/// A shape is written as its numbers in brackets: `[]` without any, and with one
/// more number that number comes last, behind a comma where it is not the first.
pub proof fn law_shape_is_written_number_by_number(
    shape: Vec<usize>,
    init: Vec<usize>,
    r: String,
    q: String,
    n: String,
)
    requires
        call_ensures(describe_shape, (&shape,), r),
        call_ensures(describe_shape, (&init,), q),
        shape@.len() > 0 ==> init@ == shape@.drop_last() && call_ensures(
            decimal,
            (shape@.last(),),
            n,
        ),
    ensures
        shape@.len() == 0 ==> r@ == "[]"@,
        shape@.len() == 1 ==> r@ == "["@ + n@ + "]"@,
        shape@.len() > 1 ==> r@ == q@.drop_last() + ", "@ + n@ + "]"@,
{
    reveal_strlit("[");
    reveal_strlit("]");
    reveal_strlit("[]");
    let write = |n: usize| crate::text::decimal_of(n as int);
    let numbers = shape@.map_values(write);
    if shape@.len() == 0 {
        assert(r@ =~= "[]"@);
    } else {
        assert(numbers.drop_last() =~= init@.map_values(write));
        assert(numbers.last() == n@);
        if shape@.len() == 1 {
            assert(numbers[0] == n@);
        } else {
            assert(q@.drop_last() =~= "["@ + crate::text::joined(numbers.drop_last(), ", "@));
            assert(r@ =~= q@.drop_last() + ", "@ + n@ + "]"@);
        }
    }
}

/// What a run returned is two slices exactly where its shape has three numbers
/// and the first is 2. The first slice is the first height times width values and
/// the second the rest; any other shape is an error that names it.
pub proof fn law_result_is_split_after_the_first_slice<P>(
    shape: Vec<usize>,
    values: Vec<P>,
    r: Result<(usize, usize, Vec<P>, Vec<P>), String>,
    shown: String,
    count: String,
)
    requires
        call_ensures(split_slices::<P>, (&shape, values), r),
        call_ensures(describe_shape, (&shape,), shown),
        shape@.len() > 0 ==> call_ensures(decimal, (shape@[0],), count),
    ensures
        r is Ok <==> shape@.len() == 3 && shape@[0] == 2,
        r is Ok ==> {
            let (height, width, top, bottom) = r->Ok_0;
            &&& height == shape@[1] && width == shape@[2]
            &&& top@ == values@.take(shape@[1] * shape@[2])
            &&& bottom@ == values@.skip(shape@[1] * shape@[2])
        },
        shape@.len() != 3 ==> (r->Err_0)@ == "astra returned shape "@ + shown@ + ", expected 3-D"@,
        shape@.len() == 3 && shape@[0] != 2 ==> (r->Err_0)@ == "astra returned "@ + count@
            + " slices, expected 2"@,
{
    if let Ok((height, width, top, bottom)) = r {
        let stated = seq![2usize, height, width];
        assert(shape@ =~= stated);
        assert(stated[0] == 2 && stated[1] == height && stated[2] == width);
    } else {
        assert(shape@.len() == 3 ==> shape[0] == shape@[0]);
    }
}

/// The message for a step of a run says what could not be done, to what, and why.
pub proof fn law_run_error_names_subject_and_cause(
    step: RunStep,
    subject: &str,
    error: &str,
    r: String,
)
    requires
        call_ensures(run_error, (step, subject, error), r),
    ensures
        step is CreateDirectory ==> r@ == "create "@ + subject@ + ": "@ + error@,
        step is WriteFile ==> r@ == "write "@ + subject@ + ": "@ + error@,
        step is Launch ==> r@ == "cannot launch "@ + subject@ + ": "@ + error@,
{
}

/// Two scratch directories are tried, both named after the process: a hidden one
/// beside the checkpoint (among the temporary files where the checkpoint has no
/// directory), then one among the temporary files.
pub proof fn law_scratch_directory_is_named_after_the_process(
    has_directory: bool,
    pid: u32,
    failed: usize,
    r: Option<(ScratchPlace, String)>,
    number: String,
)
    requires
        call_ensures(scratch_try, (has_directory, pid, failed), r),
        call_ensures(decimal, (pid as usize,), number),
    ensures
        r is Some <==> failed < 2,
        failed == 0 ==> (r->0).1@ == ".astra_optimizer_"@ + number@,
        failed == 1 ==> (r->0).1@ == "astra_optimizer_"@ + number@,
        failed == 0 ==> ((r->0).0 is BesideCheckpoint <==> has_directory),
        failed == 1 ==> (r->0).0 is Temporary,
{
}

} // verus!
