//! The algorithms, the parameters and their saved form.
use astra_optimizer::method::AstraMethod;
use astra_optimizer::params::{filter_index, AstraParams, CONFIG_NAME, FILTERS};
use astra_optimizer::stack::{LoadedStack, Projection};
use serde_json::Value;

/// A number as a JSON value.
fn number(x: f64) -> Value {
    Value::from(x)
}

fn to_json(params: &AstraParams<f64>) -> String {
    params.to_json(&number)
}

fn from_json(text: &str) -> Option<AstraParams<f64>> {
    AstraParams::from_json(text, &Value::as_f64)
}

fn describe(params: &AstraParams<f64>) -> String {
    params.describe(&|x: f64| format!("{:.2}", x))
}

#[test]
fn params_json_roundtrip() {
    let params = AstraParams {
        method: AstraMethod::Fbp,
        gpu: false,
        num_iter: 42,
        filter: 4,
        ratio: 0.8,
        pad: 120,
        center: 251.75,
    };
    let back = from_json(&to_json(&params)).unwrap();
    assert_eq!(back, params);
    // The saved form carries the astra method string and a null pad
    // when it is automatic, like the notebook.
    let doc: Value = serde_json::from_str(&to_json(&params)).unwrap();
    assert_eq!(doc["method"], "FBP");
    assert_eq!(doc["filter_name"], "kaiser");
    let auto = AstraParams { pad: -1, gpu: true, ..params };
    let doc: Value = serde_json::from_str(&to_json(&auto)).unwrap();
    assert!(doc["pad"].is_null());
    assert_eq!(doc["method"], "FBP_CUDA");
    assert_eq!(from_json(&to_json(&auto)).unwrap().pad, -1);
    assert!(from_json("nope").is_none());
}

#[test]
fn saved_form_is_compact_json_with_sorted_keys() {
    let params = AstraParams {
        method: AstraMethod::Sirt,
        gpu: true,
        num_iter: 300,
        filter: 2,
        ratio: 1.0,
        pad: -7,
        center: 979.96,
    };
    assert_eq!(
        to_json(&params),
        "{\"center\":979.96,\"filter_name\":\"hann\",\"method\":\"SIRT_CUDA\",\"num_iter\":300,\
         \"pad\":null,\"ratio\":1.0}"
    );
    let padded = AstraParams { pad: 0, num_iter: -3, filter: 99, ..params };
    assert_eq!(
        to_json(&padded),
        "{\"center\":979.96,\"filter_name\":\"parzen\",\"method\":\"SIRT_CUDA\",\"num_iter\":-3,\
         \"pad\":0,\"ratio\":1.0}"
    );
}

#[test]
fn every_method_and_filter_comes_back() {
    for method in AstraMethod::ALL {
        for gpu in [false, true] {
            for filter in 0..FILTERS.len() {
                let params = AstraParams {
                    method,
                    gpu,
                    num_iter: i64::MIN,
                    filter,
                    ratio: 0.1 + 0.2,
                    pad: i64::MAX,
                    center: -0.0,
                };
                assert_eq!(from_json(&to_json(&params)).unwrap(), params);
            }
        }
    }
}

#[test]
fn numbers_come_back_to_the_last_bit() {
    for bits in [
        0x3FE9_9999_9999_999Au64,
        0x0000_0000_0000_0001,
        0x7FEF_FFFF_FFFF_FFFF,
        0x8000_0000_0000_0000,
        0x4341_C379_37E0_8001,
        0x3F91_2345_6789_ABCD,
    ] {
        let params = AstraParams { ratio: f64::from_bits(bits), ..AstraParams::<f64>::default() };
        let back = from_json(&to_json(&params)).unwrap();
        assert_eq!(back.ratio.to_bits(), bits);
    }
}

#[test]
fn saving_what_was_read_back_gives_the_same_text() {
    let params = AstraParams {
        method: AstraMethod::Cgls,
        gpu: false,
        num_iter: 12,
        filter: 31,
        ratio: 0.95,
        pad: -4,
        center: 100.125,
    };
    let text = to_json(&params);
    assert_eq!(to_json(&from_json(&text).unwrap()), text);
}

#[test]
fn what_the_description_leaves_out() {
    for method in AstraMethod::ALL {
        let params = AstraParams { method, ..AstraParams::<f64>::default() };
        let ignored = if method.is_iterative() {
            AstraParams { filter: 4, ..params }
        } else {
            AstraParams { num_iter: 7, ..params }
        };
        assert_eq!(describe(&params), describe(&ignored));
        assert_eq!(describe(&params), describe(&AstraParams { pad: -99, ..params }));
        for filter in 0..FILTERS.len() {
            assert!(!describe(&AstraParams { filter, ..params }).contains(", pad "));
        }
        for pad in [0, 8, i64::MAX] {
            let text = describe(&AstraParams { pad, ..params });
            assert!(text.contains(&format!(", pad {}, center ", pad)));
            assert_eq!(text.matches(", pad ").count(), 1);
        }
    }
}

#[test]
fn what_the_saved_form_does_not_keep() {
    let params = AstraParams { filter: 17, pad: -20, ..AstraParams::<f64>::default() };
    let back = from_json(&to_json(&params)).unwrap();
    assert_eq!(back.filter, 5);
    assert_eq!(back.pad, -1);
    let odd = AstraParams { ratio: f64::NAN, center: f64::INFINITY, ..params };
    let doc: Value = serde_json::from_str(&to_json(&odd)).unwrap();
    assert!(doc["ratio"].is_null());
    let back = from_json(&to_json(&odd)).unwrap();
    assert_eq!(back.ratio, 1.0);
    assert_eq!(back.center, 0.0);
}

#[test]
fn defaults_follow_the_notebook() {
    let params = AstraParams::<f64>::default();
    assert_eq!(params.method.astra_name(params.gpu), "SIRT_CUDA");
    assert_eq!(params.num_iter, 300);
    assert_eq!(FILTERS[params.filter], "hann");
    assert_eq!(params.ratio, 1.0);
    assert_eq!(params.pad, -1);
    assert_eq!(params.center, 0.0);
}

#[test]
fn fields_of_another_kind_have_their_defaults() {
    let defaults = AstraParams::<f64>::default();
    assert_eq!(from_json("{}").unwrap(), defaults);
    assert_eq!(from_json("3").unwrap(), defaults);
    assert_eq!(from_json("[\"method\"]").unwrap(), defaults);
    let odd = "{\"method\":\"GRIDREC\",\"num_iter\":2.5,\"filter_name\":7,\"ratio\":\"1\",\
               \"pad\":\"4\",\"center\":true}";
    assert_eq!(from_json(odd).unwrap(), defaults);
    // An integer is a number too, and one past the range of i64 is no i64.
    let params = from_json("{\"ratio\":2,\"num_iter\":9223372036854775808,\"pad\":-5}").unwrap();
    assert_eq!(params.ratio, 2.0);
    assert_eq!(params.num_iter, 300);
    assert_eq!(params.pad, -5);
    assert!(from_json("").is_none());
    assert!(from_json("{\"method\":\"FBP\"").is_none());
}

#[test]
fn plain_fields_make_parameters() {
    let params =
        AstraParams::from_fields(Some("CGLS_CUDA"), Some(7), Some("parzen"), None, Some(3), Some(2.5));
    assert_eq!(
        params,
        AstraParams {
            method: AstraMethod::Cgls,
            gpu: true,
            num_iter: 7,
            filter: 5,
            ratio: 1.0,
            pad: 3,
            center: 2.5
        }
    );
}

#[test]
fn method_names() {
    assert_eq!(AstraMethod::Sart.astra_name(false), "SART");
    assert_eq!(AstraMethod::Sart.astra_name(true), "SART_CUDA");
    assert_eq!(AstraMethod::Bp.label(), "BP — plain back projection");
    assert_eq!(AstraMethod::Fbp.label(), "FBP — filtered back projection");
    assert_eq!(AstraMethod::from_astra_name("BP"), Some((AstraMethod::Bp, false)));
    assert_eq!(AstraMethod::from_astra_name("FBP_CUDA"), Some((AstraMethod::Fbp, true)));
    for odd in ["", "_CUDA", "fbp", "FBP_CUDA_CUDA", "SIRT ", "XFBP"] {
        assert_eq!(AstraMethod::from_astra_name(odd), None);
    }
    for a in AstraMethod::ALL {
        assert!(a.label().starts_with(a.base_name()));
        assert_eq!(a.is_iterative(), a != AstraMethod::Fbp && a != AstraMethod::Bp);
        assert_eq!(AstraMethod::from_astra_name(&a.astra_name(true)), Some((a, true)));
        assert_eq!(AstraMethod::from_astra_name(&a.astra_name(false)), Some((a, false)));
    }
}

#[test]
fn filter_names() {
    for (i, name) in FILTERS.iter().enumerate() {
        assert_eq!(filter_index(name), Some(i));
    }
    assert_eq!(filter_index("Hann"), None);
}

#[test]
fn description_in_one_line() {
    let params = AstraParams {
        method: AstraMethod::Sirt,
        gpu: true,
        num_iter: 300,
        filter: 2,
        ratio: 1.0,
        pad: -1,
        center: 251.756,
    };
    assert_eq!(describe(&params), "SIRT_CUDA, 300 iter, ratio 1.00, center 251.76");
    let filtered = AstraParams { method: AstraMethod::Fbp, gpu: false, pad: 12, ..params };
    assert_eq!(describe(&filtered), "FBP, hann filter, ratio 1.00, pad 12, center 251.76");
    let clamped = AstraParams { filter: 40, pad: 0, ..filtered };
    assert_eq!(describe(&clamped), "FBP, parzen filter, ratio 1.00, pad 0, center 251.76");
}

fn seeded(
    metadata: &[(String, String)],
    sample: Vec<Projection<f64, f32>>,
    center: Option<f64>,
) -> AstraParams<f64> {
    let stack = LoadedStack { sample, metadata, center_of_rotation: center };
    AstraParams::from_stack(&stack, &Value::as_f64, &|width: usize| width as f64 / 2.0)
}

#[test]
fn stack_seeds_the_parameters() {
    let defaults = AstraParams::<f64>::default();
    let one = || vec![Projection { angle_deg: None, height: 2, width: 5, mean: &[0.0f32; 10] }];
    assert_eq!(seeded(&[], Vec::new(), Some(3.0)), AstraParams { center: 3.0, ..defaults });
    assert_eq!(seeded(&[], Vec::new(), None), defaults);
    assert_eq!(seeded(&[], one(), Some(3.0)), AstraParams { center: 3.0, ..defaults });
    assert_eq!(seeded(&[], one(), None), AstraParams { center: 2.5, ..defaults });
    let saved = AstraParams { method: AstraMethod::Bp, center: 17.25, ..defaults };
    let metadata = vec![
        ("other".to_owned(), "{}".to_owned()),
        (CONFIG_NAME.to_owned(), to_json(&saved)),
    ];
    assert_eq!(seeded(&metadata, one(), Some(3.0)), saved);
    assert_eq!(seeded(&metadata, Vec::new(), None), from_json(&metadata[1].1).unwrap());
    // A record that is not JSON counts as none.
    let broken = vec![(CONFIG_NAME.to_owned(), "{".to_owned())];
    assert_eq!(seeded(&broken, one(), Some(3.0)), AstraParams { center: 3.0, ..defaults });
}
