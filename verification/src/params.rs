//! The reconstruction parameters: their defaults, their saved JSON form and
//! their one-line description.
//!
//! The mask ratio and the center of rotation are carried as a number type `F`
//! that nothing here looks into; what only the number type can do (become a
//! JSON number, be read from one, be written with two decimals) is handed in.
use crate::json::{
    get, integer_value, null_value, object_value, parse, text_value, value_text, JsonView,
};
use crate::method::AstraMethod;
use crate::stack::{find_record, LoadedStack};
use crate::text::{same_text, signed_decimal};
use serde_json::Value;
use vstd::prelude::*;

verus! {

/// The name of the config saved into `/metadata`, matching the main
/// application's `<algorithm key>_config` convention.
pub const CONFIG_NAME: &'static str = "astra_fbp_config";

/// The FBP filters listed by algotom.
pub const FILTERS: [&'static str; 6] = [
    "ram-lak",
    "hamming",
    "hann",
    "lanczos",
    "kaiser",
    "parzen",
];

/// The ASTRA parameters used by the notebook's `test_reconstruction`
/// (algotom `astra_reconstruction`).
#[derive(Clone, Copy, Debug, PartialEq)]
pub struct AstraParams<F> {
    /// Reconstruction algorithm (notebook default: SIRT).
    pub method: AstraMethod,
    /// Use the `_CUDA` variant (the notebook's `SIRT_CUDA`).
    pub gpu: bool,
    /// Iterations for the iterative methods (notebook: 300).
    pub num_iter: i64,
    /// FBP filter (notebook: hann); index into `FILTERS`.
    pub filter: usize,
    /// Radius ratio of the circle mask applied to the reconstruction (1.0).
    pub ratio: F,
    /// FFT edge padding in pixels; negative = let algotom choose.
    pub pad: i64,
    /// Center of rotation in pixels (column of the sinogram).
    pub center: F,
}

/// `x` is the small integer `n` in the number type `F`.
pub open spec fn is_number<F: From<u8>>(x: F, n: u8) -> bool {
    call_ensures(F::from, (n,), x)
}

impl<F: From<u8>> Default for AstraParams<F> {
    /// The notebook's defaults, with the center at the left edge.
    fn default() -> (r: Self)
        ensures
            r.method == AstraMethod::Sirt,
            r.gpu,
            r.num_iter == 300,
            r.filter == 2,
            is_number(r.ratio, 1),
            r.pad == -1,
            is_number(r.center, 0),
    {
        AstraParams {
            method: AstraMethod::Sirt,
            gpu: true,
            num_iter: 300,
            filter: 2,  // hann
            ratio: F::from(1),
            pad: -1,
            center: F::from(0),
        }
    }
}

/// The filter with the given name, as an index into `FILTERS`.
pub open spec fn filter_named(name: Seq<char>) -> Option<usize> {
    if name == "ram-lak"@ {
        Some(0)
    } else if name == "hamming"@ {
        Some(1)
    } else if name == "hann"@ {
        Some(2)
    } else if name == "lanczos"@ {
        Some(3)
    } else if name == "kaiser"@ {
        Some(4)
    } else if name == "parzen"@ {
        Some(5)
    } else {
        None
    }
}

/// The name of a filter; an index past the last one names the last one.
pub open spec fn filter_text(filter: usize) -> Seq<char> {
    if filter == 0 {
        "ram-lak"@
    } else if filter == 1 {
        "hamming"@
    } else if filter == 2 {
        "hann"@
    } else if filter == 3 {
        "lanczos"@
    } else if filter == 4 {
        "kaiser"@
    } else {
        "parzen"@
    }
}

/// The position in `FILTERS` of the filter with the given name.
pub fn filter_index(name: &str) -> (r: Option<usize>)
    ensures
        r == filter_named(name@),
{
    let mut i: usize = 0;
    while i < 6
        invariant
            i <= 6,
            forall|k: int| 0 <= k < i ==> name@ != (#[trigger] FILTERS@[k])@,
        decreases 6 - i,
    {
        if same_text(FILTERS[i], name) {
            proof {
                assert(i > 0 ==> name@ != FILTERS@[0]@);
                assert(i > 1 ==> name@ != FILTERS@[1]@);
                assert(i > 2 ==> name@ != FILTERS@[2]@);
                assert(i > 3 ==> name@ != FILTERS@[3]@);
                assert(i > 4 ==> name@ != FILTERS@[4]@);
            }
            return Some(i);
        }
        i = i + 1;
    }
    proof {
        assert(name@ != FILTERS@[0]@);
        assert(name@ != FILTERS@[1]@);
        assert(name@ != FILTERS@[2]@);
        assert(name@ != FILTERS@[3]@);
        assert(name@ != FILTERS@[4]@);
        assert(name@ != FILTERS@[5]@);
    }
    None
}

/// Every filter's name is read back as that filter.
pub proof fn law_filter_name_reads_back(filter: usize)
    ensures
        filter_named(filter_text(filter)) == Some(
            if filter < 6 {
                filter
            } else {
                5
            },
        ),
{
    reveal_strlit("ram-lak");
    reveal_strlit("hamming");
    reveal_strlit("hann");
    reveal_strlit("lanczos");
    reveal_strlit("kaiser");
    reveal_strlit("parzen");
    assert("ram-lak"@.len() == 7 && "hamming"@.len() == 7 && "hann"@.len() == 4);
    assert("lanczos"@.len() == 7 && "kaiser"@.len() == 6 && "parzen"@.len() == 6);
    assert("ram-lak"@[0] == 'r' && "hamming"@[0] == 'h' && "lanczos"@[0] == 'l');
    assert("kaiser"@[0] == 'k' && "parzen"@[0] == 'p');
}

/// The text of the string that `doc` has under `key`.
pub open spec fn text_member(doc: JsonView, key: Seq<char>) -> Option<Seq<char>> {
    match crate::json::member(doc, key) {
        Some(JsonView::Text(text)) => Some(text),
        _ => None,
    }
}

/// The integer that `doc` has under `key`, where it fits an `i64`.
pub open spec fn integer_member(doc: JsonView, key: Seq<char>) -> Option<i64> {
    match crate::json::member(doc, key) {
        Some(JsonView::Number(n)) => crate::json::integer_in(n),
        _ => None,
    }
}

/// `x` is the number that `read` finds in the value that `doc` has under `key`.
pub open spec fn number_member<F, R: Fn(&Value) -> Option<F>>(
    doc: JsonView,
    key: Seq<char>,
    read: R,
    x: Option<F>,
) -> bool {
    match crate::json::member(doc, key) {
        Some(json) => exists|value: Value|
            crate::json::json_of(value) == json && #[trigger] call_ensures(read, (&value,), x),
        None => x is None,
    }
}

/// `x` is the number `given`, or the small integer `n` where none is given.
pub open spec fn number_or<F: From<u8>>(x: F, given: Option<F>, n: u8) -> bool {
    match given {
        Some(number) => x == number,
        None => is_number(x, n),
    }
}

/// `p` is what the given fields of a saved config amount to: each field that
/// is missing, or that names no algorithm or filter, has its default.
pub open spec fn made_of<F: From<u8>>(
    p: AstraParams<F>,
    method: Option<Seq<char>>,
    num_iter: Option<i64>,
    filter_name: Option<Seq<char>>,
    ratio: Option<F>,
    pad: Option<i64>,
    center: Option<F>,
) -> bool {
    &&& (p.method, p.gpu) == (match method {
        Some(name) => match crate::method::method_named(name) {
            Some(named) => named,
            None => (AstraMethod::Sirt, true),
        },
        None => (AstraMethod::Sirt, true),
    })
    &&& p.num_iter == (match num_iter {
        Some(n) => n,
        None => 300,
    })
    &&& p.filter == (match filter_name {
        Some(name) => match filter_named(name) {
            Some(filter) => filter,
            None => 2,
        },
        None => 2,
    })
    &&& number_or(p.ratio, ratio, 1)
    &&& p.pad == (match pad {
        Some(n) => n as int,
        None => -1,
    })
    &&& number_or(p.center, center, 0)
}

/// `p` is what the JSON value `doc` holds as a saved config, its numbers read
/// by `read`.
pub open spec fn read_from<F: From<u8>, R: Fn(&Value) -> Option<F>>(
    p: AstraParams<F>,
    doc: JsonView,
    read: R,
) -> bool {
    exists|ratio: Option<F>, center: Option<F>|
        {
            &&& #[trigger] number_member(doc, "ratio"@, read, ratio)
            &&& #[trigger] number_member(doc, "center"@, read, center)
            &&& made_of(
                p,
                text_member(doc, "method"@),
                integer_member(doc, "num_iter"@),
                text_member(doc, "filter_name"@),
                ratio,
                integer_member(doc, "pad"@),
                center,
            )
        }
}

/// The saved form of the parameters: the method carries the `_CUDA` suffix and
/// `pad` is null for "auto".
pub open spec fn config_json<F>(p: AstraParams<F>, ratio: JsonView, center: JsonView) -> JsonView {
    JsonView::Object(
        map![
            "method"@ => JsonView::Text(crate::method::astra_text(p.method, p.gpu)),
            "num_iter"@ => crate::json::integer_json(p.num_iter),
            "filter_name"@ => JsonView::Text(filter_text(p.filter)),
            "ratio"@ => ratio,
            "pad"@ => if p.pad < 0 { JsonView::Null } else { crate::json::integer_json(p.pad) },
            "center"@ => center
        ],
    )
}

/// `json` is the saved form of the parameters, their numbers turned into JSON
/// values by `number`.
pub open spec fn saved_form<F, W: Fn(F) -> Value>(
    p: AstraParams<F>,
    number: W,
    json: JsonView,
) -> bool {
    exists|ratio: Value, center: Value|
        {
            &&& #[trigger] call_ensures(number, (p.ratio,), ratio)
            &&& #[trigger] call_ensures(number, (p.center,), center)
            &&& json == config_json(p, crate::json::json_of(ratio), crate::json::json_of(center))
        }
}

/// `text` is the saved form of the parameters as compact JSON, and is read back
/// as that form where the numbers in it hold no other values.
pub open spec fn saved_as<F, W: Fn(F) -> Value>(
    p: AstraParams<F>,
    number: W,
    text: Seq<char>,
) -> bool {
    exists|json: JsonView|
        {
            &&& #[trigger] saved_form(p, number, json)
            &&& text == crate::json::json_text(json)
            &&& crate::json::flat_object(json) ==> crate::json::parsed_json(text) == Some(json)
        }
}

impl<F: From<u8>> AstraParams<F> {
    /// The parameters that the fields of a saved config amount to: a field
    /// that is missing, or that names no algorithm or filter, has its default.
    pub fn from_fields(
        method: Option<&str>,
        num_iter: Option<i64>,
        filter_name: Option<&str>,
        ratio: Option<F>,
        pad: Option<i64>,
        center: Option<F>,
    ) -> (r: Self)
        ensures
            made_of(
                r,
                match method {
                    Some(name) => Some(name@),
                    None => None,
                },
                num_iter,
                match filter_name {
                    Some(name) => Some(name@),
                    None => None,
                },
                ratio,
                pad,
                center,
            ),
    {
        let mut params = Self::default();
        if let Some(name) = method {
            if let Some((named, gpu)) = AstraMethod::from_astra_name(name) {
                params.method = named;
                params.gpu = gpu;
            }
        }
        if let Some(n) = num_iter {
            params.num_iter = n;
        }
        if let Some(name) = filter_name {
            if let Some(i) = filter_index(name) {
                params.filter = i;
            }
        }
        if let Some(number) = ratio {
            params.ratio = number;
        }
        if let Some(n) = pad {
            params.pad = n;
        }
        if let Some(number) = center {
            params.center = number;
        }
        params
    }

    /// The parameters saved in `text`; `None` where `text` is not JSON. Each
    /// field that is missing or of another kind has its default.
    pub fn from_json<R: Fn(&Value) -> Option<F>>(text: &str, read: &R) -> (r: Option<Self>)
        requires
            forall|value: &Value| call_requires(*read, (value,)),
        ensures
            match r {
                Some(p) => crate::json::parsed_json(text@) is Some && read_from(
                    p,
                    crate::json::parsed_json(text@)->0,
                    *read,
                ),
                None => crate::json::parsed_json(text@) is None,
            },
    {
        let doc = match parse(text) {
            Some(doc) => doc,
            None => return None,
        };
        let method = text_field(&doc, "method");
        let num_iter = integer_field(&doc, "num_iter");
        let filter_name = text_field(&doc, "filter_name");
        let ratio = number_field(&doc, "ratio", read);
        let pad = integer_field(&doc, "pad");
        let center = number_field(&doc, "center", read);
        Some(Self::from_fields(method, num_iter, filter_name, ratio, pad, center))
    }
}

fn text_field<'a>(doc: &'a Value, key: &str) -> (r: Option<&'a str>)
    ensures
        text_member(crate::json::json_of(*doc), key@) == (match r {
            Some(text) => Some(text@),
            None => None,
        }),
{
    match get(doc, key) {
        Some(value) => value.as_str(),
        None => None,
    }
}

fn integer_field(doc: &Value, key: &str) -> (r: Option<i64>)
    ensures
        r == integer_member(crate::json::json_of(*doc), key@),
{
    match get(doc, key) {
        Some(value) => value.as_i64(),
        None => None,
    }
}

fn number_field<F, R: Fn(&Value) -> Option<F>>(doc: &Value, key: &str, read: &R) -> (r: Option<F>)
    requires
        forall|value: &Value| call_requires(*read, (value,)),
    ensures
        number_member(crate::json::json_of(*doc), key@, *read, r),
{
    match get(doc, key) {
        Some(value) => read(value),
        None => None,
    }
}

/// The keys of the saved form differ from one another.
proof fn lemma_config_keys()
    ensures
        "method"@ != "num_iter"@,
        "method"@ != "filter_name"@,
        "method"@ != "ratio"@,
        "method"@ != "pad"@,
        "method"@ != "center"@,
        "num_iter"@ != "filter_name"@,
        "num_iter"@ != "ratio"@,
        "num_iter"@ != "pad"@,
        "num_iter"@ != "center"@,
        "filter_name"@ != "ratio"@,
        "filter_name"@ != "pad"@,
        "filter_name"@ != "center"@,
        "ratio"@ != "pad"@,
        "ratio"@ != "center"@,
        "pad"@ != "center"@,
{
    reveal_strlit("method");
    reveal_strlit("num_iter");
    reveal_strlit("filter_name");
    reveal_strlit("ratio");
    reveal_strlit("pad");
    reveal_strlit("center");
    assert("method"@.len() == 6 && "num_iter"@.len() == 8 && "filter_name"@.len() == 11);
    assert("ratio"@.len() == 5 && "pad"@.len() == 3 && "center"@.len() == 6);
    assert("method"@[0] == 'm' && "center"@[0] == 'c');
}

impl<F: Copy> AstraParams<F> {
    /// The name of the filter; an index past the last filter names the last.
    pub fn filter_name(&self) -> (r: &'static str)
        ensures
            r@ == filter_text(self.filter),
    {
        let i: usize = if self.filter < 6 {
            self.filter
        } else {
            5
        };
        FILTERS[i]
    }

    /// The saved form as a JSON value.
    pub(crate) fn to_value<W: Fn(F) -> Value>(&self, number: &W) -> (r: Value)
        requires
            call_requires(*number, (self.ratio,)),
            call_requires(*number, (self.center,)),
        ensures
            saved_form(*self, *number, crate::json::json_of(r)),
    {
        let ratio = number(self.ratio);
        let center = number(self.center);
        let ghost form = config_json(
            *self,
            crate::json::json_of(ratio),
            crate::json::json_of(center),
        );
        let pad = if self.pad < 0 {
            null_value()
        } else {
            integer_value(self.pad)
        };
        let mut members: Vec<(String, Value)> = Vec::new();
        members.push(("method".to_owned(), text_value(self.method.astra_name(self.gpu))));
        members.push(("num_iter".to_owned(), integer_value(self.num_iter)));
        members.push(("filter_name".to_owned(), text_value(self.filter_name().to_owned())));
        members.push(("ratio".to_owned(), ratio));
        members.push(("pad".to_owned(), pad));
        members.push(("center".to_owned(), center));
        proof {
            lemma_config_keys();
            assert(members@.len() == 6);
            reveal_with_fuel(crate::json::object_of, 7);
            assert(crate::json::object_of(members@) =~= form->Object_0);
        }
        object_value(members)
    }

    /// The saved form matches the notebook's `astra_reconstruction` call:
    /// the method carries the `_CUDA` suffix and `pad` is null for "auto".
    pub fn to_json<W: Fn(F) -> Value>(&self, number: &W) -> (r: String)
        requires
            call_requires(*number, (self.ratio,)),
            call_requires(*number, (self.center,)),
        ensures
            saved_as(*self, *number, r@),
    {
        let doc = self.to_value(number);
        value_text(&doc)
    }

    /// The parameters in one line, e.g.
    /// `SIRT_CUDA, 300 iter, ratio 1.00, center 251.75`.
    pub fn describe<D: Fn(F) -> String>(&self, two_decimals: &D) -> (r: String)
        requires
            call_requires(*two_decimals, (self.ratio,)),
            call_requires(*two_decimals, (self.center,)),
        ensures
            crate::description::described_as(*self, *two_decimals, r@),
    {
        let mut text = self.method.astra_name(self.gpu);
        text.append(", ");
        if self.method.is_iterative() {
            text.append(signed_decimal(self.num_iter).as_str());
            text.append(" iter");
        } else {
            text.append(self.filter_name());
            text.append(" filter");
        }
        let ratio = two_decimals(self.ratio);
        text.append(", ratio ");
        text.append(ratio.as_str());
        if self.pad >= 0 {
            text.append(", pad ");
            text.append(signed_decimal(self.pad).as_str());
        }
        let center = two_decimals(self.center);
        text.append(", center ");
        text.append(center.as_str());
        assert(text@ =~= crate::description::description(*self, ratio@, center@));
        text
    }
}

/// `p` has the notebook's defaults everywhere but in its center.
pub open spec fn default_but_center<F: From<u8>>(p: AstraParams<F>) -> bool {
    &&& p.method == AstraMethod::Sirt
    &&& p.gpu
    &&& p.num_iter == 300
    &&& p.filter == 2
    &&& is_number(p.ratio, 1)
    &&& p.pad == -1
}

/// The JSON value of the config that the stack's metadata carries, where it
/// carries one that is JSON.
pub open spec fn saved_config<F, P>(stack: LoadedStack<F, P>) -> Option<JsonView> {
    match crate::stack::record_named(stack.metadata@, "astra_fbp_config"@) {
        Some(text) => crate::json::parsed_json(text),
        None => None,
    }
}

/// `p` is seeded from the stack: the saved config where the stack carries one;
/// otherwise the defaults, centered at the stack's center of rotation or, where
/// it has none, at what `middle` gives for the width of its projections (a
/// stack that has neither keeps the default center).
pub open spec fn seeded_from<
    F: From<u8>,
    P,
    R: Fn(&Value) -> Option<F>,
    M: Fn(usize) -> F,
>(p: AstraParams<F>, stack: LoadedStack<F, P>, read: R, middle: M) -> bool {
    match saved_config(stack) {
        Some(config) => read_from(p, config, read),
        None => default_but_center(p) && (match stack.center_of_rotation {
            Some(center) => p.center == center,
            None => if stack.sample.len() == 0 {
                is_number(p.center, 0)
            } else {
                call_ensures(middle, (stack.sample[0].width,), p.center)
            },
        }),
    }
}

impl<F: From<u8> + Copy> AstraParams<F> {
    /// Defaults seeded from the stack: the saved `astra_fbp_config` when the
    /// checkpoint carries one, otherwise the stack's center of rotation
    /// (falling back to the middle of the detector).
    pub fn from_stack<P, R: Fn(&Value) -> Option<F>, M: Fn(usize) -> F>(
        stack: &LoadedStack<F, P>,
        read: &R,
        middle: &M,
    ) -> (r: Self)
        requires
            forall|value: &Value| call_requires(*read, (value,)),
            forall|width: usize| call_requires(*middle, (width,)),
        ensures
            seeded_from(r, *stack, *read, *middle),
    {
        if let Some(text) = find_record(stack.metadata, CONFIG_NAME) {
            if let Some(params) = Self::from_json(text, read) {
                return params;
            }
        }
        let mut params = Self::default();
        match stack.center_of_rotation {
            Some(center) => {
                params.center = center;
            },
            None => {
                if stack.sample.len() > 0 {
                    params.center = middle(stack.sample[0].width);
                }
            },
        }
        params
    }
}

/// `number` writes `x` as a JSON number, and `read` finds `x` in any JSON value
/// that holds the same.
pub open spec fn comes_back<F, W: Fn(F) -> Value, R: Fn(&Value) -> Option<F>>(
    number: W,
    read: R,
    x: F,
) -> bool {
    &&& forall|written: Value| #[trigger]
        call_ensures(number, (x,), written) ==> crate::json::json_of(written) is Number
    &&& forall|written: Value, found: Value, back: Option<F>|
        #[trigger] call_ensures(number, (x,), written) && #[trigger] call_ensures(
            read,
            (&found,),
            back,
        ) && crate::json::json_of(written) == crate::json::json_of(found) ==> back == Some(x)
}

/// The parameters as their saved form keeps them: an index past the last filter
/// becomes the last filter, and every negative padding becomes -1.
pub open spec fn as_saved<F>(p: AstraParams<F>) -> AstraParams<F> {
    AstraParams {
        filter: if p.filter < 6 {
            p.filter
        } else {
            5
        },
        pad: if p.pad < 0 {
            (-1) as i64
        } else {
            p.pad
        },
        ..p
    }
}

/// The saved text is read back as the saved form where the numbers in it hold no
/// other values, and each key of it holds what was put there.
proof fn lemma_saved_object<F, W: Fn(F) -> Value>(p: AstraParams<F>, number: W, text: Seq<char>)
    requires
        saved_as(p, number, text),
        forall|written: Value| #[trigger]
            call_ensures(number, (p.ratio,), written) ==> crate::json::scalar(
                crate::json::json_of(written),
            ),
        forall|written: Value| #[trigger]
            call_ensures(number, (p.center,), written) ==> crate::json::scalar(
                crate::json::json_of(written),
            ),
    ensures
        crate::json::parsed_json(text) is Some,
        saved_form(p, number, crate::json::parsed_json(text)->0),
        ({
            let doc = crate::json::parsed_json(text)->0;
            &&& text_member(doc, "method"@) == Some(crate::method::astra_text(p.method, p.gpu))
            &&& integer_member(doc, "num_iter"@) == Some(p.num_iter)
            &&& text_member(doc, "filter_name"@) == Some(filter_text(p.filter))
            &&& integer_member(doc, "pad"@) == (if p.pad < 0 {
                None
            } else {
                Some(p.pad)
            })
            &&& exists|ratio: Value, center: Value|
                {
                    &&& #[trigger] call_ensures(number, (p.ratio,), ratio)
                    &&& #[trigger] call_ensures(number, (p.center,), center)
                    &&& crate::json::member(doc, "ratio"@) == Some(crate::json::json_of(ratio))
                    &&& crate::json::member(doc, "center"@) == Some(crate::json::json_of(center))
                }
        }),
{
    lemma_config_keys();
    let json = choose|json: JsonView|
        {
            &&& #[trigger] saved_form(p, number, json)
            &&& text == crate::json::json_text(json)
            &&& crate::json::flat_object(json) ==> crate::json::parsed_json(text) == Some(json)
        };
    let (ratio, center) = choose|ratio: Value, center: Value|
        {
            &&& #[trigger] call_ensures(number, (p.ratio,), ratio)
            &&& #[trigger] call_ensures(number, (p.center,), center)
            &&& json == config_json(p, crate::json::json_of(ratio), crate::json::json_of(center))
        };
    assert(crate::json::flat_object(json));
}

/// Saved parameters are read back as they were: the text that `to_json` gives
/// is JSON, and what `from_json` makes of it is the same parameters, but that
/// an index past the last filter comes back as the last filter and that every
/// negative padding comes back as -1.
pub proof fn law_saved_params_read_back<
    F: From<u8>,
    W: Fn(F) -> Value,
    R: Fn(&Value) -> Option<F>,
>(p: AstraParams<F>, number: W, read: R, text: Seq<char>, back: AstraParams<F>)
    requires
        saved_as(p, number, text),
        comes_back(number, read, p.ratio),
        comes_back(number, read, p.center),
        crate::json::parsed_json(text) is Some ==> read_from(
            back,
            crate::json::parsed_json(text)->0,
            read,
        ),
    ensures
        crate::json::parsed_json(text) is Some,
        back == as_saved(p),
        p.filter < 6 && p.pad >= -1 ==> back == p,
{
    lemma_saved_object(p, number, text);
    crate::method::law_method_name_reads_back(p.method, p.gpu);
    law_filter_name_reads_back(p.filter);
}

/// A number that is written as null comes back as its default, where `read`
/// finds no number in null; everything else of the parameters comes back as it
/// is saved.
pub proof fn law_number_without_json_reads_as_default<
    F: From<u8>,
    W: Fn(F) -> Value,
    R: Fn(&Value) -> Option<F>,
>(p: AstraParams<F>, number: W, read: R, text: Seq<char>, back: AstraParams<F>)
    requires
        saved_as(p, number, text),
        forall|written: Value| #[trigger]
            call_ensures(number, (p.ratio,), written) ==> crate::json::scalar(
                crate::json::json_of(written),
            ),
        forall|written: Value| #[trigger]
            call_ensures(number, (p.center,), written) ==> crate::json::scalar(
                crate::json::json_of(written),
            ),
        forall|found: Value, x: Option<F>| #[trigger]
            call_ensures(read, (&found,), x) && crate::json::json_of(found) is Null ==> x is None,
        crate::json::parsed_json(text) is Some ==> read_from(
            back,
            crate::json::parsed_json(text)->0,
            read,
        ),
    ensures
        (forall|written: Value| #[trigger]
            call_ensures(number, (p.ratio,), written) ==> crate::json::json_of(written) is Null)
            ==> is_number(back.ratio, 1),
        (forall|written: Value| #[trigger]
            call_ensures(number, (p.center,), written) ==> crate::json::json_of(written) is Null)
            ==> is_number(back.center, 0),
        back == (AstraParams { ratio: back.ratio, center: back.center, ..as_saved(p) }),
{
    lemma_saved_object(p, number, text);
    crate::method::law_method_name_reads_back(p.method, p.gpu);
    law_filter_name_reads_back(p.filter);
}

/// A checkpoint that carries saved parameters gives them back: a stack whose
/// metadata holds the text that `to_json` gave is seeded with those parameters.
pub proof fn law_stack_restores_saved_params<
    F: From<u8>,
    P,
    W: Fn(F) -> Value,
    R: Fn(&Value) -> Option<F>,
    M: Fn(usize) -> F,
>(
    p: AstraParams<F>,
    stack: LoadedStack<F, P>,
    number: W,
    read: R,
    middle: M,
    text: Seq<char>,
    back: AstraParams<F>,
)
    requires
        saved_as(p, number, text),
        comes_back(number, read, p.ratio),
        comes_back(number, read, p.center),
        crate::stack::record_named(stack.metadata@, "astra_fbp_config"@) == Some(text),
        seeded_from(back, stack, read, middle),
    ensures
        back == as_saved(p),
{
    law_saved_params_read_back(p, number, read, text, back);
}

/// `read` finds the same number in any two JSON values that hold the same.
pub open spec fn reads_repeatably<F, R: Fn(&Value) -> Option<F>>(read: R) -> bool {
    forall|a: Value, b: Value, x: Option<F>, y: Option<F>|
        #[trigger] call_ensures(read, (&a,), x) && #[trigger] call_ensures(read, (&b,), y)
            && crate::json::json_of(a) == crate::json::json_of(b) ==> x == y
}

/// A small integer is one number of the type `F`, every time it is made.
pub open spec fn makes_repeatably<F: From<u8>>() -> bool {
    forall|x: F, y: F, n: u8| #[trigger] is_number(x, n) && #[trigger] is_number(y, n) ==> x == y
}

/// `number` writes a number as the same JSON every time.
pub open spec fn writes_repeatably<F, W: Fn(F) -> Value>(number: W) -> bool {
    forall|x: F, a: Value, b: Value|
        #[trigger] call_ensures(number, (x,), a) && #[trigger] call_ensures(number, (x,), b)
            ==> crate::json::json_of(a) == crate::json::json_of(b)
}

/// One document is read as one set of parameters, where reading a number and
/// making a default one are repeatable.
pub proof fn law_config_is_read_as_one<F: From<u8>, R: Fn(&Value) -> Option<F>>(
    doc: JsonView,
    read: R,
    a: AstraParams<F>,
    b: AstraParams<F>,
)
    requires
        reads_repeatably(read),
        makes_repeatably::<F>(),
        read_from(a, doc, read),
        read_from(b, doc, read),
    ensures
        a == b,
{
}

/// The saved config wins as a whole: a stack that carries one is seeded with
/// what `from_json` reads out of its text and with nothing else, whatever its
/// projections and its center of rotation are. Where reading a number and making
/// a default one are repeatable, it is seeded with the very parameters that a
/// separate reading of the text gives.
pub proof fn law_saved_config_wins<
    F: From<u8>,
    P,
    R: Fn(&Value) -> Option<F>,
    M: Fn(usize) -> F,
>(
    stack: LoadedStack<F, P>,
    read: R,
    middle: M,
    text: Seq<char>,
    saved: AstraParams<F>,
    seeded: AstraParams<F>,
)
    requires
        crate::stack::record_named(stack.metadata@, "astra_fbp_config"@) == Some(text),
        crate::json::parsed_json(text) is Some,
    ensures
        seeded_from(seeded, stack, read, middle) <==> read_from(
            seeded,
            crate::json::parsed_json(text)->0,
            read,
        ),
        reads_repeatably(read) && makes_repeatably::<F>() && read_from(
            saved,
            crate::json::parsed_json(text)->0,
            read,
        ) && seeded_from(seeded, stack, read, middle) ==> seeded == saved,
{
    let doc = crate::json::parsed_json(text)->0;
    if reads_repeatably(read) && makes_repeatably::<F>() && read_from(saved, doc, read)
        && read_from(seeded, doc, read) {
        law_config_is_read_as_one(doc, read, saved, seeded);
    }
}

/// Parameters and their saved form are saved as the same texts.
proof fn lemma_saved_form_is_saved_alike<F, W: Fn(F) -> Value>(
    p: AstraParams<F>,
    number: W,
    text: Seq<char>,
)
    ensures
        saved_as(as_saved(p), number, text) <==> saved_as(p, number, text),
{
    let q = as_saved(p);
    assert forall|ratio: JsonView, center: JsonView| #[trigger]
        config_json(q, ratio, center) == config_json(p, ratio, center) by {}
    assert forall|json: JsonView| #[trigger] saved_form(p, number, json) implies saved_form(
        q,
        number,
        json,
    ) by {
        let (ratio, center) = choose|ratio: Value, center: Value|
            {
                &&& #[trigger] call_ensures(number, (p.ratio,), ratio)
                &&& #[trigger] call_ensures(number, (p.center,), center)
                &&& json == config_json(
                    p,
                    crate::json::json_of(ratio),
                    crate::json::json_of(center),
                )
            };
        assert(call_ensures(number, (q.ratio,), ratio));
        assert(call_ensures(number, (q.center,), center));
        assert(json == config_json(q, crate::json::json_of(ratio), crate::json::json_of(center)));
    }
    assert forall|json: JsonView| #[trigger] saved_form(q, number, json) implies saved_form(
        p,
        number,
        json,
    ) by {
        let (ratio, center) = choose|ratio: Value, center: Value|
            {
                &&& #[trigger] call_ensures(number, (q.ratio,), ratio)
                &&& #[trigger] call_ensures(number, (q.center,), center)
                &&& json == config_json(
                    q,
                    crate::json::json_of(ratio),
                    crate::json::json_of(center),
                )
            };
        assert(call_ensures(number, (p.ratio,), ratio));
        assert(call_ensures(number, (p.center,), center));
        assert(json == config_json(p, crate::json::json_of(ratio), crate::json::json_of(center)));
    }
}

/// Saving what was read back saves what was saved: the text that was read is
/// again a text of the parameters that were read out of it, these have no other
/// texts than the parameters that were saved, and where writing a number is
/// repeatable there is one text.
pub proof fn law_saving_what_was_read_back_gives_the_same_text<
    F: From<u8>,
    W: Fn(F) -> Value,
    R: Fn(&Value) -> Option<F>,
>(
    p: AstraParams<F>,
    number: W,
    read: R,
    text: Seq<char>,
    back: AstraParams<F>,
    again: Seq<char>,
)
    requires
        saved_as(p, number, text),
        comes_back(number, read, p.ratio),
        comes_back(number, read, p.center),
        crate::json::parsed_json(text) is Some ==> read_from(
            back,
            crate::json::parsed_json(text)->0,
            read,
        ),
    ensures
        saved_as(back, number, text),
        saved_as(back, number, again) <==> saved_as(p, number, again),
        writes_repeatably(number) && saved_as(back, number, again) ==> again == text,
{
    law_saved_params_read_back(p, number, read, text, back);
    lemma_saved_form_is_saved_alike(p, number, text);
    lemma_saved_form_is_saved_alike(p, number, again);
    if writes_repeatably(number) && saved_as(p, number, again) {
        let json = choose|json: JsonView|
            #[trigger] saved_form(p, number, json) && text == crate::json::json_text(json);
        let json_again = choose|json: JsonView|
            #[trigger] saved_form(p, number, json) && again == crate::json::json_text(json);
        assert(json == json_again);
    }
}

/// The filters are the ones that algotom lists, in its order.
pub proof fn law_filters_are_those_of_algotom()
    ensures
        FILTERS@.len() == 6,
        FILTERS@[0]@ == "ram-lak"@,
        FILTERS@[1]@ == "hamming"@,
        FILTERS@[2]@ == "hann"@,
        FILTERS@[3]@ == "lanczos"@,
        FILTERS@[4]@ == "kaiser"@,
        FILTERS@[5]@ == "parzen"@,
{
}

/// The name of a filter stands at its index in the list, the last one's for an
/// index past the list, and a name is found at an index exactly where it stands
/// there.
pub proof fn law_filter_and_index_belong_together<F: Copy>(
    p: AstraParams<F>,
    own: &'static str,
    name: &str,
    found: Option<usize>,
    i: usize,
)
    requires
        call_ensures(AstraParams::<F>::filter_name, (&p,), own),
        call_ensures(filter_index, (name,), found),
        i < 6,
    ensures
        p.filter < 6 ==> own@ == FILTERS@[p.filter as int]@,
        p.filter >= 6 ==> own@ == FILTERS@[5]@,
        own@ == filter_text(p.filter),
        found == Some(i) <==> name@ == FILTERS@[i as int]@,
        found matches Some(k) ==> k < 6,
{
    law_filter_name_reads_back(i);
    assert(FILTERS@[0]@ == filter_text(0) && FILTERS@[1]@ == filter_text(1));
    assert(FILTERS@[2]@ == filter_text(2) && FILTERS@[3]@ == filter_text(3));
    assert(FILTERS@[4]@ == filter_text(4) && FILTERS@[5]@ == filter_text(5));
}

/// The defaults are those of the notebook: `SIRT_CUDA` with 300 iterations, the
/// filter `hann`, the ratio one and automatic padding.
pub proof fn law_defaults_are_those_of_the_notebook<F: From<u8> + Copy>(
    p: AstraParams<F>,
    name: String,
    filter: &'static str,
)
    requires
        call_ensures(<AstraParams<F> as Default>::default, (), p),
        call_ensures(AstraMethod::astra_name, (p.method, p.gpu), name),
        call_ensures(AstraParams::<F>::filter_name, (&p,), filter),
    ensures
        name@ == "SIRT_CUDA"@,
        p.method is Sirt && p.gpu,
        p.num_iter == 300,
        filter@ == "hann"@,
        p.filter == 2,
        call_ensures(F::from, (1u8,), p.ratio),
        p.pad == -1,
        call_ensures(F::from, (0u8,), p.center),
{
    reveal_strlit("SIRT");
    reveal_strlit("_CUDA");
    reveal_strlit("SIRT_CUDA");
    assert(name@ =~= "SIRT_CUDA"@);
}

/// Every field that is given is taken and changes no other: a name that an
/// algorithm's variant has stands for that one and a filter's name for its index,
/// and each field that is missing, or that is no such name, has its default.
pub proof fn law_given_fields_are_taken<F: From<u8>>(
    method: Option<&str>,
    num_iter: Option<i64>,
    filter_name: Option<&str>,
    ratio: Option<F>,
    pad: Option<i64>,
    center: Option<F>,
    r: AstraParams<F>,
    named: AstraMethod,
    gpu: bool,
    filter: usize,
)
    requires
        call_ensures(
            AstraParams::<F>::from_fields,
            (method, num_iter, filter_name, ratio, pad, center),
            r,
        ),
    ensures
        method is Some && (method->0)@ == crate::method::astra_text(named, gpu) ==> r.method
            == named && r.gpu == gpu,
        (method is Some ==> forall|m: AstraMethod, g: bool|
            (method->0)@ != #[trigger] crate::method::astra_text(m, g)) ==> r.method is Sirt
            && r.gpu,
        num_iter is Some ==> r.num_iter == num_iter->0,
        num_iter is None ==> r.num_iter == 300,
        filter_name is Some && filter < 6 && (filter_name->0)@ == FILTERS@[filter as int]@
            ==> r.filter == filter,
        (filter_name is Some ==> forall|k: int|
            0 <= k < 6 ==> (filter_name->0)@ != (#[trigger] FILTERS@[k])@) ==> r.filter == 2,
        ratio is Some ==> r.ratio == ratio->0,
        ratio is None ==> call_ensures(F::from, (1u8,), r.ratio),
        pad is Some ==> r.pad == pad->0,
        pad is None ==> r.pad == -1,
        center is Some ==> r.center == center->0,
        center is None ==> call_ensures(F::from, (0u8,), r.center),
{
    crate::method::law_method_name_reads_back(named, gpu);
    if let Some(name) = method {
        lemma_named_method(name@);
    }
    law_filter_name_reads_back(filter);
    lemma_filters();
    if let Some(name) = filter_name {
        lemma_named_filter(name@);
    }
}

/// The list of filters holds the name of each.
proof fn lemma_filters()
    ensures
        forall|k: int| 0 <= k < 6 ==> (#[trigger] FILTERS@[k])@ == filter_text(k as usize),
{
    assert(FILTERS@[0]@ == filter_text(0) && FILTERS@[1]@ == filter_text(1));
    assert(FILTERS@[2]@ == filter_text(2) && FILTERS@[3]@ == filter_text(3));
    assert(FILTERS@[4]@ == filter_text(4) && FILTERS@[5]@ == filter_text(5));
}

/// A name that is read as a filter is the one in the list.
proof fn lemma_named_filter(name: Seq<char>)
    ensures
        filter_named(name) matches Some(k) ==> k < 6 && name == FILTERS@[k as int]@,
{
    lemma_filters();
}

/// A name that is read as an algorithm is that algorithm's.
proof fn lemma_named_method(name: Seq<char>)
    ensures
        crate::method::method_named(name) matches Some(named) ==> name == crate::method::astra_text(
            named.0,
            named.1,
        ),
{
    if let Some(base) = crate::text::stripped(name, "_CUDA"@) {
        assert(name =~= base + "_CUDA"@);
    }
}

/// `x` is the number that `read` finds in `found`, or the small integer `n` where
/// it finds none or there is nothing to read.
pub open spec fn read_or<F: From<u8>, R: Fn(&Value) -> Option<F>>(
    x: F,
    found: Option<JsonView>,
    read: R,
    n: u8,
) -> bool {
    match found {
        Some(json) => exists|value: Value, given: Option<F>|
            {
                &&& crate::json::json_of(value) == json
                &&& #[trigger] call_ensures(read, (&value,), given)
                &&& given is Some ==> x == given->0
                &&& given is None ==> call_ensures(F::from, (n,), x)
            },
        None => call_ensures(F::from, (n,), x),
    }
}

/// Nothing is found, or something that is no integer of 64 bits with a sign.
pub open spec fn holds_no_integer(found: Option<JsonView>) -> bool {
    match found {
        Some(JsonView::Number(crate::json::NumberView::Unsigned(u))) => u > 0x7fff_ffff_ffff_ffff,
        Some(JsonView::Number(crate::json::NumberView::Negative(_))) => false,
        _ => true,
    }
}

/// A text is read as parameters exactly where it is JSON, each field from the
/// member of its own name: a member of the right kind is taken, and where there
/// is none the field has its default.
pub proof fn law_config_is_read_member_by_member<F: From<u8>, R: Fn(&Value) -> Option<F>>(
    text: &str,
    read: R,
    r: Option<AstraParams<F>>,
    doc: JsonView,
    named: AstraMethod,
    gpu: bool,
    filter: usize,
    n: i64,
)
    requires
        call_ensures(AstraParams::<F>::from_json::<R>, (text, &read), r),
    ensures
        r is Some <==> crate::json::parsed_json(text@) is Some,
        crate::json::parsed_json(text@) == Some(doc) ==> {
            let p = r->0;
            let method = crate::json::member(doc, "method"@);
            let num_iter = crate::json::member(doc, "num_iter"@);
            let filter_name = crate::json::member(doc, "filter_name"@);
            let pad = crate::json::member(doc, "pad"@);
            &&& method == Some(JsonView::Text(crate::method::astra_text(named, gpu))) ==> p.method
                == named && p.gpu == gpu
            &&& (forall|m: AstraMethod, g: bool|
                method != Some(JsonView::Text(#[trigger] crate::method::astra_text(m, g))))
                ==> p.method is Sirt && p.gpu
            &&& num_iter == Some(crate::json::integer_json(n)) ==> p.num_iter == n
            &&& holds_no_integer(num_iter) ==> p.num_iter == 300
            &&& filter < 6 && filter_name == Some(JsonView::Text(FILTERS@[filter as int]@))
                ==> p.filter == filter
            &&& (forall|k: int|
                0 <= k < 6 ==> filter_name != Some(JsonView::Text((#[trigger] FILTERS@[k])@)))
                ==> p.filter == 2
            &&& pad == Some(crate::json::integer_json(n)) ==> p.pad == n
            &&& holds_no_integer(pad) ==> p.pad == -1
            &&& read_or(p.ratio, crate::json::member(doc, "ratio"@), read, 1)
            &&& read_or(p.center, crate::json::member(doc, "center"@), read, 0)
        },
{
    crate::method::law_method_name_reads_back(named, gpu);
    law_filter_name_reads_back(filter);
    lemma_filters();
    if crate::json::parsed_json(text@) == Some(doc) {
        if let Some(name) = text_member(doc, "method"@) {
            lemma_named_method(name);
        }
        if let Some(name) = text_member(doc, "filter_name"@) {
            lemma_named_filter(name);
        }
    }
}

/// `json` has the members of the saved form and no others: the algorithm's name,
/// the iterations, the filter's name and the padding of `p`, which is null where
/// it is negative, and what `number` writes for its ratio and its center.
pub open spec fn has_members_of<F, W: Fn(F) -> Value>(
    json: JsonView,
    p: AstraParams<F>,
    number: W,
) -> bool {
    &&& json is Object
    &&& json->Object_0.dom() =~= set![
        "method"@,
        "num_iter"@,
        "filter_name"@,
        "ratio"@,
        "pad"@,
        "center"@,
    ]
    &&& crate::json::member(json, "method"@) == Some(
        JsonView::Text(crate::method::astra_text(p.method, p.gpu)),
    )
    &&& crate::json::member(json, "num_iter"@) == Some(crate::json::integer_json(p.num_iter))
    &&& crate::json::member(json, "filter_name"@) == Some(
        JsonView::Text(FILTERS@[if p.filter < 6 { p.filter as int } else { 5 }]@),
    )
    &&& p.pad < 0 ==> crate::json::member(json, "pad"@) == Some(JsonView::Null)
    &&& p.pad >= 0 ==> crate::json::member(json, "pad"@) == Some(crate::json::integer_json(p.pad))
    &&& exists|ratio: Value| #[trigger]
        call_ensures(number, (p.ratio,), ratio) && crate::json::member(json, "ratio"@) == Some(
            crate::json::json_of(ratio),
        )
    &&& exists|center: Value| #[trigger]
        call_ensures(number, (p.center,), center) && crate::json::member(json, "center"@) == Some(
            crate::json::json_of(center),
        )
}

/// The saved form of parameters has the members of a saved form.
pub proof fn lemma_saved_form_has_its_members<F, W: Fn(F) -> Value>(
    p: AstraParams<F>,
    number: W,
    json: JsonView,
)
    requires
        saved_form(p, number, json),
    ensures
        has_members_of(json, p, number),
{
    lemma_config_keys();
    lemma_filters();
    let (ratio, center) = choose|ratio: Value, center: Value|
        {
            &&& #[trigger] call_ensures(number, (p.ratio,), ratio)
            &&& #[trigger] call_ensures(number, (p.center,), center)
            &&& json == config_json(p, crate::json::json_of(ratio), crate::json::json_of(center))
        };
    assert(crate::json::member(json, "ratio"@) == Some(crate::json::json_of(ratio)));
    assert(crate::json::member(json, "center"@) == Some(crate::json::json_of(center)));
    assert(FILTERS@[if p.filter < 6 { p.filter as int } else { 5 }]@ == filter_text(p.filter));
}

/// What is saved is the text of an object with one member for every parameter:
/// the name of the algorithm's variant, the name of the filter, null for automatic
/// padding.
pub proof fn law_saved_text_holds_every_parameter<F: Copy, W: Fn(F) -> Value>(
    p: AstraParams<F>,
    number: W,
    text: String,
)
    requires
        call_ensures(AstraParams::<F>::to_json::<W>, (&p, &number), text),
    ensures
        exists|json: JsonView| #[trigger]
            has_members_of(json, p, number) && text@ == crate::json::json_text(json),
{
    let json = choose|json: JsonView|
        #[trigger] saved_form(p, number, json) && text@ == crate::json::json_text(json);
    lemma_saved_form_has_its_members(p, number, json);
}

/// What was saved is read back field by field: every field is as it was, but that
/// an index past the last filter is read as the last filter, and every negative
/// padding as -1.
pub proof fn law_what_was_saved_is_read<
    F: From<u8> + Copy,
    W: Fn(F) -> Value,
    R: Fn(&Value) -> Option<F>,
>(p: AstraParams<F>, number: W, read: R, text: String, found: &str, r: Option<AstraParams<F>>)
    requires
        call_ensures(AstraParams::<F>::to_json::<W>, (&p, &number), text),
        found@ == text@,
        call_ensures(AstraParams::<F>::from_json::<R>, (found, &read), r),
        comes_back(number, read, p.ratio),
        comes_back(number, read, p.center),
    ensures
        r is Some,
        (r->0).method == p.method,
        (r->0).gpu == p.gpu,
        (r->0).num_iter == p.num_iter,
        p.filter < 6 ==> (r->0).filter == p.filter,
        p.filter >= 6 ==> (r->0).filter == 5,
        (r->0).ratio == p.ratio,
        p.pad >= 0 ==> (r->0).pad == p.pad,
        p.pad < 0 ==> (r->0).pad == -1,
        (r->0).center == p.center,
{
    law_saved_params_read_back(p, number, read, text@, r->0);
}

/// The config in a stack's metadata decides alone, where the first entry of its
/// name is JSON: the stack is seeded with what is read out of that text.
pub proof fn law_stack_with_a_config_is_seeded_from_it<
    F: From<u8> + Copy,
    P,
    R: Fn(&Value) -> Option<F>,
    M: Fn(usize) -> F,
>(stack: &LoadedStack<F, P>, read: R, middle: M, r: AstraParams<F>, k: int, doc: JsonView)
    requires
        call_ensures(AstraParams::<F>::from_stack::<P, R, M>, (stack, &read, &middle), r),
        0 <= k < stack.metadata@.len(),
        forall|j: int|
            0 <= j < k ==> (#[trigger] stack.metadata@[j]).0@ != "astra_fbp_config"@,
        stack.metadata@[k].0@ == "astra_fbp_config"@,
        crate::json::parsed_json(stack.metadata@[k].1@) == Some(doc),
    ensures
        read_from(r, doc, read),
        crate::json::member(doc, "num_iter"@) is None ==> r.num_iter == 300,
        read_or(r.ratio, crate::json::member(doc, "ratio"@), read, 1),
        read_or(r.center, crate::json::member(doc, "center"@), read, 0),
{
    crate::stack::lemma_record_named(stack.metadata@, "astra_fbp_config"@, k);
}

/// Without a config that is JSON a stack is seeded with the defaults and its own
/// center of rotation, however many projections it has. Only where it has no
/// center of rotation is the center what `middle` gives for the width of its
/// first projection, and only where it has no projections either is it zero.
pub proof fn law_stack_without_a_config_is_seeded_with_its_center<
    F: From<u8> + Copy,
    P,
    R: Fn(&Value) -> Option<F>,
    M: Fn(usize) -> F,
>(stack: &LoadedStack<F, P>, read: R, middle: M, r: AstraParams<F>, k: int)
    requires
        call_ensures(AstraParams::<F>::from_stack::<P, R, M>, (stack, &read, &middle), r),
        0 <= k <= stack.metadata@.len(),
        forall|j: int|
            0 <= j < k ==> (#[trigger] stack.metadata@[j]).0@ != "astra_fbp_config"@,
        k < stack.metadata@.len() ==> stack.metadata@[k].0@ == "astra_fbp_config"@
            && crate::json::parsed_json(stack.metadata@[k].1@) is None,
    ensures
        stack.center_of_rotation matches Some(center) ==> r.center == center,
        stack.center_of_rotation is None && stack.sample@.len() > 0 ==> call_ensures(
            middle,
            (stack.sample@[0].width,),
            r.center,
        ),
        stack.center_of_rotation is None && stack.sample@.len() == 0 ==> call_ensures(
            F::from,
            (0u8,),
            r.center,
        ),
        r.method is Sirt && r.gpu,
        r.num_iter == 300,
        r.filter == 2,
        call_ensures(F::from, (1u8,), r.ratio),
        r.pad == -1,
{
    crate::stack::lemma_record_named(stack.metadata@, "astra_fbp_config"@, k);
}

} // verus!
