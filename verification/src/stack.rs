//! What the optimizer reads of a loaded stack: its projections, and the named
//! records of its metadata.
use crate::text::{is_blank, lines, same_text};
use vstd::prelude::*;

verus! {

/// One projection: `height` rows of `width` pixels, row by row. Pixels are of
/// the type `P`, angles of the type `F`.
pub struct Projection<'a, F, P> {
    /// The angle the projection was taken at, in degrees.
    pub angle_deg: Option<F>,
    pub height: usize,
    pub width: usize,
    /// The pixel values.
    pub mean: &'a [P],
}

/// A loaded checkpoint: its sample projections, its metadata records (name and
/// value) and its center of rotation.
pub struct LoadedStack<'a, F, P> {
    pub sample: Vec<Projection<'a, F, P>>,
    pub metadata: &'a [(String, String)],
    pub center_of_rotation: Option<F>,
}

/// The name under which the tilt & center-of-rotation tool records its
/// corrections.
pub const TILT_RECORDS_NAME: &'static str = "tilt_center_of_rotation";

/// The value of the first record with the given name.
pub open spec fn record_named(metadata: Seq<(String, String)>, name: Seq<char>) -> Option<Seq<char>>
    decreases metadata.len(),
{
    if metadata.len() == 0 {
        None
    } else if metadata.first().0@ == name {
        Some(metadata.first().1@)
    } else {
        record_named(metadata.skip(1), name)
    }
}

/// The value of the first record with the given name.
pub fn find_record<'a>(metadata: &'a [(String, String)], name: &str) -> (r: Option<&'a str>)
    ensures
        record_named(metadata@, name@) == (match r {
            Some(value) => Some(value@),
            None => None,
        }),
{
    let mut i: usize = 0;
    assert(metadata@.skip(0) =~= metadata@);
    while i < metadata.len()
        invariant
            i <= metadata.len(),
            record_named(metadata@, name@) == record_named(metadata@.skip(i as int), name@),
        decreases metadata.len() - i,
    {
        assert(metadata@.skip(i as int).first() == metadata@[i as int]);
        if same_text(metadata[i].0.as_str(), name) {
            return Some(metadata[i].1.as_str());
        }
        assert(metadata@.skip(i as int).skip(1) =~= metadata@.skip(i + 1));
        i = i + 1;
    }
    None
}

/// The records in a text of one record per line: its lines, without the blank
/// ones.
pub open spec fn records_in(text: Seq<char>) -> Seq<Seq<char>> {
    crate::text::lines_of(text).filter(|line: Seq<char>| !crate::text::blank(line))
}

/// The records in a text of one record per line: its lines, without the blank
/// ones.
pub fn record_lines(text: &str) -> (r: Vec<String>)
    ensures
        crate::text::texts(r@) == records_in(text@),
{
    let all = lines(text);
    let ghost keep = |line: Seq<char>| !crate::text::blank(line);
    let ghost lines_seen = crate::text::texts(all@);
    let mut r: Vec<String> = Vec::new();
    let mut i: usize = 0;
    proof {
        reveal(Seq::filter);
        assert(lines_seen.take(0) =~= seq![]);
    }
    while i < all.len()
        invariant
            i <= all.len(),
            lines_seen == crate::text::texts(all@),
            keep == (|line: Seq<char>| !crate::text::blank(line)),
            crate::text::texts(r@) =~= lines_seen.take(i as int).filter(keep),
        decreases all.len() - i,
    {
        let ghost before = crate::text::texts(r@);
        proof {
            reveal(Seq::filter);
            assert(lines_seen.take(i + 1).drop_last() =~= lines_seen.take(i as int));
            assert(lines_seen.take(i + 1).last() == all@[i as int]@);
        }
        if !is_blank(all[i].as_str()) {
            r.push(all[i].clone());
            assert(crate::text::texts(r@) =~= before.push(all@[i as int]@));
        }
        i = i + 1;
    }
    assert(lines_seen.take(i as int) =~= lines_seen);
    r
}

/// What a filter keeps was there before.
proof fn lemma_filtered_was_there<A>(s: Seq<A>, keep: spec_fn(A) -> bool, i: int)
    requires
        0 <= i < s.filter(keep).len(),
    ensures
        s.contains(s.filter(keep)[i]),
    decreases s.len(),
{
    reveal(Seq::filter);
    if s.len() > 0 {
        if i < s.drop_last().filter(keep).len() {
            lemma_filtered_was_there(s.drop_last(), keep, i);
            let k = choose|k: int|
                0 <= k < s.drop_last().len() && s.drop_last()[k] == s.drop_last().filter(keep)[i];
            assert(s[k] == s.filter(keep)[i]);
        } else {
            assert(s[s.len() - 1] == s.filter(keep)[i]);
        }
    }
}

/// A record is one line, and never blank.
pub proof fn law_record_is_one_line(text: Seq<char>, i: int)
    requires
        0 <= i < records_in(text).len(),
    ensures
        !crate::text::blank(records_in(text)[i]),
        !records_in(text)[i].contains('\n'),
        crate::text::lines_of(text).contains(records_in(text)[i]),
{
    let all = crate::text::lines_of(text);
    let keep = |line: Seq<char>| !crate::text::blank(line);
    all.lemma_filter_pred(keep, i);
    lemma_filtered_was_there(all, keep, i);
    let k = choose|k: int| 0 <= k < all.len() && all[k] == records_in(text)[i];
    crate::text::law_lines_hold_no_newline(text, k);
}

/// A record written on a line of its own behind the others is read as the
/// last record, and the others are read as before.
pub proof fn law_appended_record_is_last(text: Seq<char>, record: Seq<char>)
    requires
        text.len() > 0 ==> text.last() == '\n',
        !crate::text::blank(record),
        !record.contains('\n'),
    ensures
        records_in(text + record) == records_in(text).push(record),
        record.last() != '\r' ==> records_in(text + record.push('\n')) == records_in(text).push(
            record,
        ),
{
    let keep = |line: Seq<char>| !crate::text::blank(line);
    reveal(Seq::filter);
    crate::text::law_lines_of_appended_text(text, record);
    crate::text::law_lines_of_appended_text(text, record.push('\n'));
    crate::text::lemma_lines_of_one_line(record);
    Seq::filter_distributes_over_add(crate::text::lines_of(text), seq![record], keep);
    assert(seq![record].drop_last() =~= seq![]);
    assert(seq![record].filter(keep) =~= seq![record]);
    assert(records_in(text) + seq![record] =~= records_in(text).push(record));
}

/// The records in a text, or none where there is no text.
pub open spec fn records_in_some(text: Option<Seq<char>>) -> Seq<Seq<char>> {
    match text {
        Some(text) => records_in(text),
        None => seq![],
    }
}

/// The tilt tool's correction records in a list of metadata records.
pub open spec fn tilt_records(metadata: Seq<(String, String)>) -> Seq<Seq<char>> {
    records_in_some(record_named(metadata, "tilt_center_of_rotation"@))
}

/// The standalone tilt & center-of-rotation tool's correction records in a
/// stack's metadata: one JSON object per applied correction, oldest first.
pub fn tilt_tool_records(metadata: &[(String, String)]) -> (r: Vec<String>)
    ensures
        crate::text::texts(r@) == tilt_records(metadata@),
{
    match find_record(metadata, TILT_RECORDS_NAME) {
        Some(text) => record_lines(text),
        None => {
            let none: Vec<String> = Vec::new();
            assert(crate::text::texts(none@) =~= seq![]);
            none
        },
    }
}

/// A record is named by the first entry that bears the name, and by none where
/// no entry does.
pub proof fn lemma_record_named(metadata: Seq<(String, String)>, name: Seq<char>, k: int)
    requires
        0 <= k <= metadata.len(),
        forall|j: int| 0 <= j < k ==> (#[trigger] metadata[j]).0@ != name,
        k < metadata.len() ==> metadata[k].0@ == name,
    ensures
        record_named(metadata, name) == (if k < metadata.len() {
            Some(metadata[k].1@)
        } else {
            None
        }),
    decreases metadata.len(),
{
    if metadata.len() > 0 {
        assert(metadata.first() == metadata[0]);
        if k > 0 {
            let rest = metadata.skip(1);
            assert forall|j: int| 0 <= j < k - 1 implies (#[trigger] rest[j]).0@ != name by {
                assert(rest[j] == metadata[j + 1]);
            }
            assert(k < metadata.len() ==> rest[k - 1] == metadata[k]);
            lemma_record_named(rest, name, k - 1);
        }
    }
}

/// Of the entries with a name the first one is found, and nothing where no entry
/// has it.
pub proof fn law_first_record_of_the_name_is_found(
    metadata: &[(String, String)],
    name: &str,
    r: Option<&str>,
    k: int,
)
    requires
        call_ensures(find_record, (metadata, name), r),
        0 <= k <= metadata@.len(),
        forall|j: int| 0 <= j < k ==> (#[trigger] metadata@[j]).0@ != name@,
        k < metadata@.len() ==> metadata@[k].0@ == name@,
    ensures
        k < metadata@.len() ==> r is Some && (r->0)@ == metadata@[k].1@,
        k == metadata@.len() ==> r is None,
{
    lemma_record_named(metadata@, name@, k);
}

/// The lines that are not blank are the records, in their order: no text has no
/// records, a text behind a line ending adds its records to those before it, and
/// a text without a newline is one record, or none where it is blank.
pub proof fn law_records_are_the_lines_that_are_not_blank(
    text: &str,
    more: &str,
    both: &str,
    r: Vec<String>,
    q: Vec<String>,
    all: Vec<String>,
)
    requires
        call_ensures(record_lines, (text,), r),
        call_ensures(record_lines, (more,), q),
        call_ensures(record_lines, (both,), all),
        both@ == text@ + more@,
    ensures
        text@.len() == 0 ==> r@.len() == 0,
        text@.len() > 0 && text@.last() == '\n' ==> crate::text::texts(all@) == crate::text::texts(
            r@,
        ) + crate::text::texts(q@),
        !text@.contains('\n') && !crate::text::blank(text@) ==> crate::text::texts(r@) == seq![
            text@,
        ],
        !text@.contains('\n') && !crate::text::blank(text@) && more@ == "\n"@ && text@.last()
            != '\r' ==> crate::text::texts(all@) == seq![text@],
        !text@.contains('\n') && crate::text::blank(text@) ==> r@.len() == 0,
{
    let keep = |line: Seq<char>| !crate::text::blank(line);
    reveal(Seq::filter);
    reveal_strlit("\n");
    if text@.len() > 0 && text@.last() == '\n' {
        crate::text::law_lines_of_appended_text(text@, more@);
        Seq::filter_distributes_over_add(
            crate::text::lines_of(text@),
            crate::text::lines_of(more@),
            keep,
        );
    }
    assert(crate::text::texts(r@).len() == r@.len());
    let none = seq![];
    if !text@.contains('\n') && text@.len() > 0 {
        crate::text::lemma_lines_of_one_line(text@);
        assert(seq![text@].drop_last() =~= seq![]);
        if crate::text::blank(text@) {
            assert(!keep(seq![text@].last()));
            assert(Seq::<Seq<char>>::empty().filter(keep) =~= seq![]);
            assert(seq![text@].filter(keep) =~= seq![]);
        } else {
            law_appended_record_is_last(none, text@);
            assert(none + text@ =~= text@);
            assert(crate::text::lines_of(none) =~= seq![]);
            assert(records_in(none) =~= seq![]);
            assert(records_in(none).push(text@) =~= seq![text@]);
            assert(none + text@.push('\n') =~= text@.push('\n'));
            if more@ == "\n"@ {
                assert(both@ =~= text@.push('\n'));
            }
        }
    }
}

/// The tilt tool's records are those in the first metadata entry with the tool's
/// name, and there are none where no entry has it.
pub proof fn law_tilt_records_are_read_from_their_entry(
    metadata: &[(String, String)],
    r: Vec<String>,
    k: int,
    text: &str,
    records: Vec<String>,
)
    requires
        call_ensures(tilt_tool_records, (metadata,), r),
        0 <= k <= metadata@.len(),
        forall|j: int|
            0 <= j < k ==> (#[trigger] metadata@[j]).0@ != "tilt_center_of_rotation"@,
        k < metadata@.len() ==> metadata@[k].0@ == "tilt_center_of_rotation"@ && metadata@[k].1@
            == text@,
        call_ensures(record_lines, (text,), records),
    ensures
        k < metadata@.len() ==> crate::text::texts(r@) == crate::text::texts(records@),
        k == metadata@.len() ==> r@.len() == 0,
{
    lemma_record_named(metadata@, "tilt_center_of_rotation"@, k);
    assert(crate::text::texts(r@).len() == r@.len());
}

/// The records of a text are what `lines` gives for it, in that order, without
/// the lines that hold nothing but white space.
pub proof fn law_records_are_taken_from_the_lines(text: &str, r: Vec<String>, all: Vec<String>)
    requires
        call_ensures(record_lines, (text,), r),
        call_ensures(lines, (text,), all),
    ensures
        crate::text::texts(r@) == crate::text::texts(all@).filter(
            |line: Seq<char>|
                exists|i: int| 0 <= i < line.len() && !crate::text::white_space(#[trigger] line[i]),
        ),
{
    let keep = |line: Seq<char>| !crate::text::blank(line);
    let shown = |line: Seq<char>|
        exists|i: int| 0 <= i < line.len() && !crate::text::white_space(#[trigger] line[i]);
    assert(keep =~= shown);
}

} // verus!
