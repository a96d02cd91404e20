//! The plan, the specification file and the result of a run; the scratch
//! directory; the steps of saving.
use astra_optimizer::checkpoint::{next_save_step, save_error, SaveStep};
use astra_optimizer::method::AstraMethod;
use astra_optimizer::params::{AstraParams, CONFIG_NAME};
use astra_optimizer::recon::{
    describe_shape, failure_message, plan_recon, recon_spec, scratch_try, split_slices,
    run_error, run_failure, ReconPlan, RunStep, ScratchPlace,
};
use astra_optimizer::stack::{LoadedStack, Projection};
use serde_json::Value;

/// A number as a JSON value.
fn number(x: f64) -> Value {
    Value::from(x)
}

fn stack(angles: &[Option<f64>], height: usize) -> LoadedStack<'static, f64, f32> {
    LoadedStack {
        sample: angles
            .iter()
            .map(|a| Projection { angle_deg: *a, height, width: 4, mean: &[] })
            .collect(),
        metadata: &[],
        center_of_rotation: None,
    }
}

/// The plan for a test run with the default parameters, centered at 9.5.
fn plan(
    stack: &LoadedStack<f64, f32>,
    lines: (usize, usize),
    test_rebin: usize,
) -> Result<ReconPlan<f64>, String> {
    let params = AstraParams { center: 9.5, ..AstraParams::default() };
    let onto_grid = |center: f64, n: usize| (center + 0.5) / n as f64 - 0.5;
    plan_recon(stack, lines.0, lines.1, params, test_rebin, &f64::to_radians, &onto_grid)
}

#[test]
fn plan_needs_projections_with_angles() {
    let error = plan(&stack(&[], 8), (0, 0), 1).err();
    assert_eq!(error.as_deref(), Some("no projections in the stack"));
    let error = plan(&stack(&[Some(0.0), None], 8), (0, 0), 1).err();
    assert_eq!(
        error.as_deref(),
        Some("some projections carry no angle — the reconstruction needs all of them")
    );
}

#[test]
fn plan_clamps_lines_and_rebin() {
    let planned = plan(&stack(&[Some(0.0), Some(90.0)], 2048), (100, 5000), 2).ok().unwrap();
    assert_eq!(planned.angles_rad, vec![0.0, 90.0f64.to_radians()]);
    assert_eq!(planned.rebin, 2);
    assert_eq!(planned.bands, [(99, 101), (2046, 2048)]);
    let planned = plan(&stack(&[Some(0.0)], 5), (0, 4), 6).ok().unwrap();
    assert_eq!((planned.rebin, planned.bands), (4, [(0, 4), (1, 5)]));
    let planned = plan(&stack(&[Some(0.0)], 5), (3, 4), 0).ok().unwrap();
    assert_eq!((planned.rebin, planned.bands), (1, [(3, 4), (4, 5)]));
}

#[test]
fn a_run_and_its_clamped_form_have_one_plan() {
    let stack = stack(&[Some(10.0), Some(20.0)], 5);
    let asked = plan(&stack, (17, usize::MAX), 100).ok().unwrap();
    let clamped = plan(&stack, (4, 4), 4).ok().unwrap();
    assert_eq!(asked.angles_rad, clamped.angles_rad);
    assert_eq!((asked.rebin, asked.bands), (clamped.rebin, clamped.bands));
    assert_eq!(asked.params, clamped.params);
    assert_eq!(
        recon_spec(&asked.angles_rad, &asked.params, &number),
        recon_spec(&clamped.angles_rad, &clamped.params, &number)
    );
}

#[test]
fn run_errors() {
    assert_eq!(run_error(RunStep::CreateDirectory, "/tmp/x", "full"), "create /tmp/x: full");
    assert_eq!(run_error(RunStep::WriteFile, "spec.json", "full"), "write spec.json: full");
    assert_eq!(run_error(RunStep::Launch, "python", "gone"), "cannot launch python: gone");
}

#[test]
fn only_the_center_follows_the_test_resolution() {
    let saved = AstraParams { center: 9.5, ..AstraParams::default() };
    let planned = plan(&stack(&[Some(0.0)], 8), (0, 4), 2).ok().unwrap();
    assert_eq!(planned.params, AstraParams { center: 4.5, ..saved });
    let planned = plan(&stack(&[Some(0.0)], 8), (0, 4), 1).ok().unwrap();
    assert_eq!(planned.params, saved);
}

#[test]
fn specification_file() {
    let params = AstraParams {
        method: AstraMethod::Sart,
        gpu: false,
        num_iter: 9,
        filter: 0,
        ratio: 0.5,
        pad: 3,
        center: 12.25,
    };
    let text = recon_spec(&vec![0.0, 1.5, f64::NAN], &params, &number);
    assert_eq!(
        text,
        "{\"angles_rad\":[0.0,1.5,null],\"params\":{\"center\":12.25,\"filter_name\":\"ram-lak\",\
         \"method\":\"SART\",\"num_iter\":9,\"pad\":3,\"ratio\":0.5},\"rows\":[0,1]}"
    );
    let doc: Value = serde_json::from_str(&text).unwrap();
    let saved: Value = serde_json::from_str(&params.to_json(&number)).unwrap();
    assert_eq!(doc["params"], saved);
}

#[test]
fn failure_shows_the_last_four_lines() {
    let stderr = "\n one\ntwo\r\nthree\nfour\nfive  \n\n";
    assert_eq!(
        failure_message("exit status: 1", stderr),
        "astra failed (exit status: 1): two | three | four | five"
    );
    assert_eq!(failure_message("signal: 9", "  only\n"), "astra failed (signal: 9): only");
    assert_eq!(failure_message("signal: 9", " \n"), "astra failed (signal: 9): ");
}

#[test]
fn a_run_fails_by_its_exit_status() {
    assert_eq!(run_failure(true, "exit status: 0", b"a warning"), None);
    assert_eq!(
        run_failure(false, "exit status: 2", "größe\nfehlt\n".as_bytes()),
        Some("astra failed (exit status: 2): größe | fehlt".to_owned())
    );
    assert_eq!(
        run_failure(false, "signal: 9", b"no \xff memory"),
        Some("astra failed (signal: 9): no \u{fffd} memory".to_owned())
    );
    assert_eq!(run_failure(false, "signal: 9", &[]), Some("astra failed (signal: 9): ".to_owned()));
}

#[test]
fn result_is_two_slices() {
    let values = vec![1.0f32, 2.0, 3.0, 4.0, 5.0, 6.0, 7.0, 8.0, 9.0, 10.0, 11.0, 12.0];
    let (h, w, top, bottom) = split_slices(&vec![2, 2, 3], values.clone()).unwrap();
    assert_eq!((h, w), (2, 3));
    assert_eq!(top, values[..6]);
    assert_eq!(bottom, values[6..]);
    assert_eq!(
        split_slices(&vec![4, 3], values.clone()).unwrap_err(),
        "astra returned shape [4, 3], expected 3-D"
    );
    assert_eq!(
        split_slices(&Vec::new(), values.clone()).unwrap_err(),
        "astra returned shape [], expected 3-D"
    );
    assert_eq!(
        split_slices(&vec![3, 2, 2], values).unwrap_err(),
        "astra returned 3 slices, expected 2"
    );
    assert_eq!(describe_shape(&vec![10, 0]), format!("{:?}", vec![10, 0]));
}

#[test]
fn scratch_directories() {
    let hidden = ".astra_optimizer_4711".to_owned();
    let plain = "astra_optimizer_4711".to_owned();
    assert_eq!(scratch_try(true, 4711, 0), Some((ScratchPlace::BesideCheckpoint, hidden.clone())));
    assert_eq!(scratch_try(false, 4711, 0), Some((ScratchPlace::Temporary, hidden)));
    assert_eq!(scratch_try(true, 4711, 1), Some((ScratchPlace::Temporary, plain)));
    assert_eq!(scratch_try(true, 4711, 2), None);
}

/// The steps taken on a checkpoint with or without a group and a config.
fn steps(has_group: bool, has_config: bool) -> Vec<SaveStep> {
    let mut taken = vec![SaveStep::OpenFile];
    loop {
        let step = *taken.last().unwrap();
        let ok = match step {
            SaveStep::OpenGroup => has_group,
            SaveStep::FindConfig => has_config,
            _ => true,
        };
        if step == SaveStep::Saved || step == SaveStep::Failed {
            return taken;
        }
        taken.push(next_save_step(step, ok));
    }
}

#[test]
fn saving_writes_or_replaces() {
    assert_eq!(
        steps(true, true),
        [
            SaveStep::OpenFile,
            SaveStep::OpenGroup,
            SaveStep::FindConfig,
            SaveStep::RemoveConfig,
            SaveStep::WriteConfig,
            SaveStep::Saved
        ]
    );
    assert_eq!(
        steps(true, false),
        [
            SaveStep::OpenFile,
            SaveStep::OpenGroup,
            SaveStep::FindConfig,
            SaveStep::WriteConfig,
            SaveStep::Saved
        ]
    );
    assert_eq!(
        steps(false, false),
        [
            SaveStep::OpenFile,
            SaveStep::OpenGroup,
            SaveStep::CreateGroup,
            SaveStep::FindConfig,
            SaveStep::WriteConfig,
            SaveStep::Saved
        ]
    );
}

#[test]
fn saving_fails_with_a_message() {
    let message = |step: SaveStep| save_error(step, "/data/c.h5", "no");
    assert_eq!(
        message(SaveStep::OpenFile).as_deref(),
        Some("cannot open /data/c.h5 for writing: no")
    );
    assert_eq!(message(SaveStep::CreateGroup).as_deref(), Some("create metadata group: no"));
    assert_eq!(message(SaveStep::RemoveConfig).as_deref(), Some("replace astra_fbp_config: no"));
    assert_eq!(message(SaveStep::WriteConfig).as_deref(), Some("write astra_fbp_config: no"));
    for step in [SaveStep::OpenGroup, SaveStep::FindConfig, SaveStep::Saved, SaveStep::Failed] {
        assert_eq!(message(step), None);
    }
    for step in [
        SaveStep::OpenFile,
        SaveStep::CreateGroup,
        SaveStep::RemoveConfig,
        SaveStep::WriteConfig,
        SaveStep::Failed,
    ] {
        assert_eq!(next_save_step(step, false), SaveStep::Failed);
    }
}

/// The entries that saving leaves where the step `broken` fails whatever it is
/// done on, and the step that saving ends in.
fn save(
    entries: &[(&str, &str)],
    broken: SaveStep,
) -> (SaveStep, std::collections::BTreeMap<String, String>) {
    let mut left: std::collections::BTreeMap<String, String> =
        entries.iter().map(|(k, v)| ((*k).to_owned(), (*v).to_owned())).collect();
    let mut step = SaveStep::OpenFile;
    while step != SaveStep::Saved && step != SaveStep::Failed {
        let ok = step != broken
            && match step {
                SaveStep::CreateGroup => false,
                SaveStep::FindConfig => left.contains_key(CONFIG_NAME),
                SaveStep::RemoveConfig => left.remove(CONFIG_NAME).is_some(),
                SaveStep::WriteConfig => {
                    let free = !left.contains_key(CONFIG_NAME);
                    if free {
                        left.insert(CONFIG_NAME.to_owned(), "new".to_owned());
                    }
                    free
                }
                _ => true,
            };
        step = next_save_step(step, ok);
    }
    (step, left)
}

#[test]
fn saving_keeps_the_other_entries_whatever_fails() {
    let entries = [("tilt", "1"), (CONFIG_NAME, "old"), ("crop", "2")];
    let after = |config: Option<&str>| {
        let mut left = std::collections::BTreeMap::new();
        left.insert("tilt".to_owned(), "1".to_owned());
        left.insert("crop".to_owned(), "2".to_owned());
        if let Some(text) = config {
            left.insert(CONFIG_NAME.to_owned(), text.to_owned());
        }
        left
    };
    assert_eq!(save(&entries, SaveStep::Saved), (SaveStep::Saved, after(Some("new"))));
    assert_eq!(save(&entries, SaveStep::OpenFile), (SaveStep::Failed, after(Some("old"))));
    assert_eq!(save(&entries, SaveStep::OpenGroup), (SaveStep::Failed, after(Some("old"))));
    assert_eq!(save(&entries, SaveStep::FindConfig), (SaveStep::Failed, after(Some("old"))));
    assert_eq!(save(&entries, SaveStep::RemoveConfig), (SaveStep::Failed, after(Some("old"))));
    assert_eq!(save(&entries, SaveStep::WriteConfig), (SaveStep::Failed, after(None)));
}
