//! The checkpoint file's side: the steps that save the parameters into it, and
//! the geometry read out of it.
use crate::stack::record_lines;
use vstd::prelude::*;

verus! {

/// The steps that write (or replace) the saved parameters in the checkpoint's
/// `/metadata` group.
#[derive(Clone, Copy, Debug, PartialEq, Eq, Structural)]
pub enum SaveStep {
    /// Open the checkpoint for writing.
    OpenFile,
    /// Open its metadata group.
    OpenGroup,
    /// Create the metadata group.
    CreateGroup,
    /// Look for parameters saved earlier.
    FindConfig,
    /// Remove the parameters saved earlier.
    RemoveConfig,
    /// Write the parameters.
    WriteConfig,
    /// The parameters are saved.
    Saved,
    /// A step failed that has no other way.
    Failed,
}

/// The step after `step`, by whether that one succeeded.
pub open spec fn save_next(step: SaveStep, ok: bool) -> SaveStep {
    match step {
        SaveStep::OpenFile => if ok {
            SaveStep::OpenGroup
        } else {
            SaveStep::Failed
        },
        SaveStep::OpenGroup => if ok {
            SaveStep::FindConfig
        } else {
            SaveStep::CreateGroup
        },
        SaveStep::CreateGroup => if ok {
            SaveStep::FindConfig
        } else {
            SaveStep::Failed
        },
        SaveStep::FindConfig => if ok {
            SaveStep::RemoveConfig
        } else {
            SaveStep::WriteConfig
        },
        SaveStep::RemoveConfig => if ok {
            SaveStep::WriteConfig
        } else {
            SaveStep::Failed
        },
        SaveStep::WriteConfig => if ok {
            SaveStep::Saved
        } else {
            SaveStep::Failed
        },
        SaveStep::Saved => SaveStep::Saved,
        SaveStep::Failed => SaveStep::Failed,
    }
}

/// The step after `step`, by whether that one succeeded.
pub fn next_save_step(step: SaveStep, ok: bool) -> (r: SaveStep)
    ensures
        r == save_next(step, ok),
{
    match step {
        SaveStep::OpenFile => if ok {
            SaveStep::OpenGroup
        } else {
            SaveStep::Failed
        },
        SaveStep::OpenGroup => if ok {
            SaveStep::FindConfig
        } else {
            SaveStep::CreateGroup
        },
        SaveStep::CreateGroup => if ok {
            SaveStep::FindConfig
        } else {
            SaveStep::Failed
        },
        SaveStep::FindConfig => if ok {
            SaveStep::RemoveConfig
        } else {
            SaveStep::WriteConfig
        },
        SaveStep::RemoveConfig => if ok {
            SaveStep::WriteConfig
        } else {
            SaveStep::Failed
        },
        SaveStep::WriteConfig => if ok {
            SaveStep::Saved
        } else {
            SaveStep::Failed
        },
        SaveStep::Saved => SaveStep::Saved,
        SaveStep::Failed => SaveStep::Failed,
    }
}

/// The message for a step that failed on the checkpoint `path`; `None` for a
/// step whose failure ends nothing.
pub fn save_error(step: SaveStep, path: &str, error: &str) -> (r: Option<String>)
    ensures
        match r {
            Some(message) => match step {
                SaveStep::OpenFile => message@ == "cannot open "@ + path@ + " for writing: "@
                    + error@,
                SaveStep::CreateGroup => message@ == "create metadata group: "@ + error@,
                SaveStep::RemoveConfig => message@ == "replace "@ + "astra_fbp_config"@ + ": "@
                    + error@,
                SaveStep::WriteConfig => message@ == "write "@ + "astra_fbp_config"@ + ": "@
                    + error@,
                _ => false,
            },
            None => step is Saved || step is Failed || !(save_next(step, false) is Failed),
        },
{
    let mut message = match step {
        SaveStep::OpenFile => {
            let mut start = "cannot open ".to_owned();
            start.append(path);
            start.append(" for writing");
            start
        },
        SaveStep::CreateGroup => "create metadata group".to_owned(),
        SaveStep::RemoveConfig => {
            let mut start = "replace ".to_owned();
            start.append(crate::params::CONFIG_NAME);
            start
        },
        SaveStep::WriteConfig => {
            let mut start = "write ".to_owned();
            start.append(crate::params::CONFIG_NAME);
            start
        },
        _ => return None,
    };
    let ghost start = message@;
    message.append(": ");
    message.append(error);
    proof {
        reveal_strlit(" for writing: ");
        reveal_strlit(" for writing");
        reveal_strlit("create metadata group: ");
        reveal_strlit("create metadata group");
        reveal_strlit(": ");
        assert(" for writing: "@ =~= " for writing"@ + ": "@);
        assert("create metadata group: "@ =~= "create metadata group"@ + ": "@);
        assert(step is OpenFile ==> message@ =~= "cannot open "@ + path@ + " for writing: "@
            + error@);
    }
    Some(message)
}

/// How many steps can still follow `step`.
pub open spec fn steps_left(step: SaveStep) -> nat {
    match step {
        SaveStep::OpenFile => 6,
        SaveStep::OpenGroup => 5,
        SaveStep::CreateGroup => 4,
        SaveStep::FindConfig => 3,
        SaveStep::RemoveConfig => 2,
        SaveStep::WriteConfig => 1,
        SaveStep::Saved => 0,
        SaveStep::Failed => 0,
    }
}

/// Saving comes to an end, whatever succeeds and fails on the way.
pub proof fn law_saving_ends(step: SaveStep, ok: bool)
    ensures
        steps_left(step) > 0 ==> steps_left(save_next(step, ok)) < steps_left(step),
        steps_left(step) == 0 <==> step is Saved || step is Failed,
{
}

/// What saving can change of a checkpoint: the entries of its metadata group,
/// name by name; `None` where it has no such group.
pub struct SavedState {
    pub entries: Option<Map<Seq<char>, Seq<char>>>,
}

/// The entries of a checkpoint's metadata group, where an absent group has none.
pub open spec fn entries_of(state: SavedState) -> Map<Seq<char>, Seq<char>> {
    match state.entries {
        Some(entries) => entries,
        None => Map::empty(),
    }
}

/// The entries are the same in both, but for the one with the given name.
pub open spec fn alike_but(
    a: Map<Seq<char>, Seq<char>>,
    b: Map<Seq<char>, Seq<char>>,
    name: Seq<char>,
) -> bool {
    forall|other: Seq<char>|
        other != name ==> (#[trigger] a.dom().contains(other) <==> b.dom().contains(other)) && (
        a.dom().contains(other) ==> a[other] == b[other])
}

/// Whether a step succeeds on an intact checkpoint, and what it leaves there:
/// an absent group cannot be opened, an absent entry is neither found nor
/// removed, and an entry is only written where none has its name.
pub open spec fn performed(step: SaveStep, state: SavedState, text: Seq<char>) -> (
    bool,
    SavedState,
) {
    let name = "astra_fbp_config"@;
    match step {
        SaveStep::OpenGroup => (state.entries is Some, state),
        SaveStep::CreateGroup => if state.entries is None {
            (true, SavedState { entries: Some(Map::empty()) })
        } else {
            (false, state)
        },
        SaveStep::FindConfig => (entries_of(state).dom().contains(name), state),
        SaveStep::RemoveConfig => if entries_of(state).dom().contains(name) {
            (true, SavedState { entries: Some(entries_of(state).remove(name)) })
        } else {
            (false, state)
        },
        SaveStep::WriteConfig => if state.entries is Some && !entries_of(state).dom().contains(
            name,
        ) {
            (true, SavedState { entries: Some(entries_of(state).insert(name, text)) })
        } else {
            (false, state)
        },
        _ => (true, state),
    }
}

/// How saving ends, step by step.
pub open spec fn save_run(step: SaveStep, state: SavedState, text: Seq<char>) -> (
    SaveStep,
    SavedState,
)
    decreases steps_left(step),
{
    if steps_left(step) == 0 {
        (step, state)
    } else {
        let (ok, after) = performed(step, state, text);
        save_run(save_next(step, ok), after, text)
    }
}

/// Saving to an intact checkpoint writes the parameters, or replaces the ones
/// saved earlier, and leaves every other entry as it was.
pub proof fn law_saving_replaces_the_config(state: SavedState, text: Seq<char>)
    ensures
        save_run(SaveStep::OpenFile, state, text).0 is Saved,
        save_run(SaveStep::OpenFile, state, text).1.entries == Some(
            entries_of(state).insert("astra_fbp_config"@, text),
        ),
        alike_but(
            entries_of(state),
            entries_of(save_run(SaveStep::OpenFile, state, text).1),
            "astra_fbp_config"@,
        ),
{
    reveal_with_fuel(save_run, 7);
    let name = "astra_fbp_config"@;
    assert(entries_of(state).remove(name).insert(name, text) =~= entries_of(state).insert(
        name,
        text,
    ));
}

/// What a step leaves of a checkpoint that was in the state `before`, by whether
/// it succeeded: a step that succeeded was one that can succeed there and did
/// what it does, and one that failed, for whatever reason, changed nothing.
pub open spec fn step_leaves(
    step: SaveStep,
    before: SavedState,
    text: Seq<char>,
    ok: bool,
    after: SavedState,
) -> bool {
    if ok {
        performed(step, before, text) == (true, after)
    } else {
        after == before
    }
}

/// A course of saving, from opening the checkpoint on: `oks` says which steps
/// succeeded, and `steps` and `states` are the step and the checkpoint at the
/// start and after each of them.
pub open spec fn save_course(
    steps: Seq<SaveStep>,
    states: Seq<SavedState>,
    oks: Seq<bool>,
    text: Seq<char>,
) -> bool {
    &&& steps.len() == oks.len() + 1
    &&& states.len() == oks.len() + 1
    &&& steps[0] is OpenFile
    &&& forall|i: int|
        #![trigger oks[i]]
        0 <= i < oks.len() ==> steps[i + 1] == save_next(steps[i], oks[i]) && step_leaves(
            steps[i],
            states[i],
            text,
            oks[i],
            states[i + 1],
        )
}

/// What is known of the checkpoint when saving has come to `step`.
spec fn saved_so_far(
    step: SaveStep,
    start: SavedState,
    state: SavedState,
    text: Seq<char>,
) -> bool {
    let name = "astra_fbp_config"@;
    match step {
        SaveStep::OpenFile | SaveStep::OpenGroup | SaveStep::CreateGroup => state == start,
        SaveStep::FindConfig | SaveStep::RemoveConfig => state.entries == Some(entries_of(start)),
        SaveStep::WriteConfig => {
            ||| state.entries == Some(entries_of(start))
            ||| state.entries == Some(entries_of(start).remove(name))
        },
        SaveStep::Saved => state.entries == Some(entries_of(start).insert(name, text)),
        SaveStep::Failed => {
            ||| entries_of(state) == entries_of(start)
            ||| entries_of(state) == entries_of(start).remove(name)
        },
    }
}

proof fn lemma_saved_so_far(
    steps: Seq<SaveStep>,
    states: Seq<SavedState>,
    oks: Seq<bool>,
    text: Seq<char>,
    i: int,
)
    requires
        save_course(steps, states, oks, text),
        0 <= i <= oks.len(),
    ensures
        saved_so_far(steps[i], states[0], states[i], text),
    decreases i,
{
    if i > 0 {
        lemma_saved_so_far(steps, states, oks, text, i - 1);
        let name = "astra_fbp_config"@;
        let ok = oks[i - 1];
        let entries = entries_of(states[0]);
        assert(entries.remove(name).insert(name, text) =~= entries.insert(name, text));
        assert(steps[i] == save_next(steps[i - 1], ok));
        assert(step_leaves(steps[i - 1], states[i - 1], text, ok, states[i]));
    }
}

/// Whatever fails on the way, saving leaves every other entry as it was, at every
/// step of its course. Where it ends in `Saved` the entries are the old ones with
/// the parameters among them; where it ends in `Failed` they are the old ones,
/// or the old ones without the parameters saved earlier.
pub proof fn law_saving_keeps_the_other_entries(
    steps: Seq<SaveStep>,
    states: Seq<SavedState>,
    oks: Seq<bool>,
    text: Seq<char>,
    i: int,
)
    requires
        save_course(steps, states, oks, text),
        0 <= i <= oks.len(),
    ensures
        alike_but(entries_of(states[0]), entries_of(states[i]), "astra_fbp_config"@),
        steps[i] is Saved ==> states[i].entries == Some(
            entries_of(states[0]).insert("astra_fbp_config"@, text),
        ),
        steps[i] is Failed ==> entries_of(states[i]) == entries_of(states[0]) || entries_of(
            states[i],
        ) == entries_of(states[0]).remove("astra_fbp_config"@),
{
    lemma_saved_so_far(steps, states, oks, text, i);
}

/// Saving twice leaves what saving once leaves, and of two saved texts the last
/// one stays.
pub proof fn law_last_saved_config_stays(state: SavedState, first: Seq<char>, last: Seq<char>)
    ensures
        save_run(
            SaveStep::OpenFile,
            save_run(SaveStep::OpenFile, state, first).1,
            last,
        ) == save_run(SaveStep::OpenFile, state, last),
{
    let name = "astra_fbp_config"@;
    law_saving_replaces_the_config(state, first);
    law_saving_replaces_the_config(state, last);
    law_saving_replaces_the_config(save_run(SaveStep::OpenFile, state, first).1, last);
    assert(entries_of(state).insert(name, first).insert(name, last) =~= entries_of(state).insert(
        name,
        last,
    ));
}

/// The checkpoint's geometry without loading the projections: its
/// `/center_of_rotation` and the tilt tool's correction records, for what was
/// read of the two or why the file could not be opened. Used to tell whether
/// the tool changed the file before reloading gigabytes.
pub fn checkpoint_geometry<F>(
    path: &str,
    read: Result<(Option<F>, Option<String>), String>,
) -> (r: Result<(Option<F>, Vec<String>), String>)
    ensures
        match (read, r) {
            (Ok((center_of_rotation, records)), Ok((center, lines))) => {
                &&& center == center_of_rotation
                &&& crate::text::texts(lines@) == crate::stack::records_in_some(
                    match records {
                        Some(text) => Some(text@),
                        None => None,
                    },
                )
            },
            (Err(error), Err(message)) => message@ == "cannot open "@ + path@ + ": "@ + error@,
            _ => false,
        },
{
    match read {
        Ok((center_of_rotation, Some(text))) => Ok(
            (center_of_rotation, record_lines(text.as_str())),
        ),
        Ok((center_of_rotation, None)) => {
            let none: Vec<String> = Vec::new();
            assert(crate::text::texts(none@) =~= seq![]);
            Ok((center_of_rotation, none))
        },
        Err(error) => {
            let mut message = "cannot open ".to_owned();
            message.append(path);
            message.append(": ");
            message.append(error.as_str());
            Err(message)
        },
    }
}

/// A checkpoint's geometry has the records that its loaded metadata has: the
/// text found under the tilt tool's name gives the same records in either, and
/// so does a list with that one text.
pub proof fn law_geometry_has_the_records_of_the_metadata(metadata: Seq<(String, String)>)
    ensures
        crate::stack::tilt_records(metadata) == crate::stack::records_in_some(
            crate::stack::record_named(metadata, "tilt_center_of_rotation"@),
        ),
        metadata.len() == 1 && metadata[0].0@ == "tilt_center_of_rotation"@
            ==> crate::stack::tilt_records(metadata) == crate::stack::records_in_some(
            Some(metadata[0].1@),
        ),
        metadata.len() == 0 ==> crate::stack::tilt_records(metadata)
            == crate::stack::records_in_some(None),
{
}

/// Saving opens the checkpoint, opens its metadata group or else creates it,
/// removes the parameters saved earlier where there are any, and writes the new
/// ones. Only a group that is not there and a config that is not there let it go
/// on after a failure.
pub proof fn law_saving_goes_from_step_to_step(step: SaveStep, done: SaveStep, failed: SaveStep)
    requires
        call_ensures(next_save_step, (step, true), done),
        call_ensures(next_save_step, (step, false), failed),
    ensures
        step is OpenFile ==> done is OpenGroup && failed is Failed,
        step is OpenGroup ==> done is FindConfig && failed is CreateGroup,
        step is CreateGroup ==> done is FindConfig && failed is Failed,
        step is FindConfig ==> done is RemoveConfig && failed is WriteConfig,
        step is RemoveConfig ==> done is WriteConfig && failed is Failed,
        step is WriteConfig ==> done is Saved && failed is Failed,
        step is Saved || step is Failed ==> done == step && failed == step,
        done == save_next(step, true),
        failed == save_next(step, false),
{
}

/// A failure is reported exactly where it ends the saving, and the message says
/// what could not be done, to what, and why.
pub proof fn law_failure_that_ends_saving_is_reported(
    step: SaveStep,
    path: &str,
    error: &str,
    r: Option<String>,
    next: SaveStep,
)
    requires
        call_ensures(save_error, (step, path, error), r),
        call_ensures(next_save_step, (step, false), next),
    ensures
        r is Some <==> next is Failed && !(step is Failed),
        step is OpenFile ==> (r->0)@ == "cannot open "@ + path@ + " for writing: "@ + error@,
        step is CreateGroup ==> (r->0)@ == "create metadata group: "@ + error@,
        step is RemoveConfig ==> (r->0)@ == "replace astra_fbp_config: "@ + error@,
        step is WriteConfig ==> (r->0)@ == "write astra_fbp_config: "@ + error@,
{
    reveal_strlit("replace ");
    reveal_strlit("write ");
    reveal_strlit("astra_fbp_config");
    reveal_strlit(": ");
    reveal_strlit("replace astra_fbp_config: ");
    reveal_strlit("write astra_fbp_config: ");
    assert("replace "@ + "astra_fbp_config"@ + ": "@ =~= "replace astra_fbp_config: "@);
    assert("write "@ + "astra_fbp_config"@ + ": "@ =~= "write astra_fbp_config: "@);
}

/// A checkpoint that was read has the center that was read and the records in the
/// text that was read, or none; one that could not be opened is an error that
/// names it.
pub proof fn law_geometry_is_what_was_read<F>(
    path: &str,
    read: Result<(Option<F>, Option<String>), String>,
    r: Result<(Option<F>, Vec<String>), String>,
    text: &str,
    records: Vec<String>,
)
    requires
        call_ensures(checkpoint_geometry::<F>, (path, read), r),
        call_ensures(record_lines, (text,), records),
    ensures
        r is Ok <==> read is Ok,
        read is Ok ==> (r->Ok_0).0 == (read->Ok_0).0,
        read is Ok && (read->Ok_0).1 is Some && ((read->Ok_0).1->0)@ == text@
            ==> crate::text::texts((r->Ok_0).1@) == crate::text::texts(records@),
        read is Ok && (read->Ok_0).1 is None ==> (r->Ok_0).1@.len() == 0,
        read is Err ==> (r->Err_0)@ == "cannot open "@ + path@ + ": "@ + (read->Err_0)@,
{
    if let Ok((center, lines)) = r {
        assert(crate::text::texts(lines@).len() == lines@.len());
    }
}

} // verus!
