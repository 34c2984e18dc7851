//! What small values and small questions come to.
use vstd::prelude::*;

use crate::commit_run::{DeleteCandidate, PutMetadata};
use crate::commit_state::{segment_after_slash, version_hint, CommitRun};
use crate::error::{execution_error, internal_error, not_implemented, plan_error, EngineError};
use crate::error_laws::stands_in;
use crate::location::{object_path_of, url_joined};
use crate::plan_builder::{
    add_projection_node, add_repartition_node, add_sort_node, CatalogPartitionField, InputPlan,
    SortKey,
};
use crate::plan_laws::{has_column, lemma_has_column};
use crate::property_laws::{lemma_letters, same_letters};
use crate::table::{FormatVersion, SnapshotUpdateKind};
use crate::table_writer::{find_text, IcebergTableWriter, Slice, WriterSettings};
use crate::text::{
    copy_strings, equal_ignoring_case, has_prefix_ignoring_case, is_blank, is_untrimmed,
    is_white_space, texts, u64_text,
};

verus! {

/// Versions are numbered as they are named. The larger of two is one of them, and neither has a
/// larger number.
pub proof fn versions_are_ordered_by_number(
    a: FormatVersion,
    b: FormatVersion,
    max: FormatVersion,
    x: u8,
    y: u8,
    z: u8,
)
    requires
        call_ensures(FormatVersion::max, (a, b), max),
        call_ensures(FormatVersion::number, (a,), x),
        call_ensures(FormatVersion::number, (b,), y),
        call_ensures(FormatVersion::number, (max,), z),
    ensures
        max == a || max == b,
        z >= x && z >= y,
        1 <= x <= 3,
        a is V1 <==> x == 1,
        a is V2 <==> x == 2,
        a is V3 <==> x == 3,
{
}

/// Files are replaced one by one exactly by the two kinds of update that are named so.
pub proof fn only_copies_replace_single_files(kind: SnapshotUpdateKind, r: bool)
    requires
        call_ensures(SnapshotUpdateKind::is_copy_on_write, (kind,), r),
    ensures
        !r <==> kind is FastAppend || kind is FullOverwrite,
{
}

/// A writer keeps to its settings, but may have one partition open and keeps one row back in any
/// case.
pub proof fn settings_are_at_least_one(settings: &WriterSettings, open: usize, kept: usize)
    requires
        call_ensures(WriterSettings::max_open, (settings,), open),
        call_ensures(WriterSettings::rows_kept_back, (settings,), kept),
    ensures
        open >= 1,
        open == settings.max_open_writers || settings.max_open_writers == 0 && open == 1,
        kept >= 1,
        kept == settings.inference_buffer_size || settings.inference_buffer_size == 0 && kept == 1,
{
}

/// The code of a character that shows as space.
pub open spec fn space_code(n: int) -> bool {
    ||| 9 <= n <= 13
    ||| n == 32
    ||| n == 133
    ||| n == 160
    ||| n == 5760
    ||| 8192 <= n <= 8202
    ||| n == 8232
    ||| n == 8233
    ||| n == 8239
    ||| n == 8287
    ||| n == 12288
}

/// Which characters are white space goes by their codes. A text is blank unless some character of it
/// is none, and trimming changes it exactly where the first or the last character is one.
pub proof fn white_space_goes_by_code(
    c: char,
    r: bool,
    chars: &Vec<char>,
    blank: bool,
    untrimmed: bool,
)
    requires
        call_ensures(is_white_space, (c,), r),
        call_ensures(is_blank, (chars,), blank),
        call_ensures(is_untrimmed, (chars,), untrimmed),
    ensures
        r <==> space_code(c as int),
        !blank <==> exists|i: int|
            0 <= i < chars@.len() && !space_code((#[trigger] chars@[i]) as int),
        untrimmed <==> chars@.len() > 0 && (space_code(chars@[0] as int) || space_code(
            chars@[chars@.len() - 1] as int,
        )),
{
    if !blank {
        let i = choose|i: int|
            0 <= i < chars@.len() && !crate::text::white_space(#[trigger] chars@[i]);
        assert(!space_code(chars@[i] as int));
    }
}

/// Where case is ignored, a text begins with another if its first characters are the same letters,
/// and is the same as another if all of them are.
pub proof fn case_is_ignored_letter_by_letter(
    a: &Vec<char>,
    b: &Vec<char>,
    begins: bool,
    same: bool,
)
    requires
        call_ensures(has_prefix_ignoring_case, (a, b), begins),
        call_ensures(equal_ignoring_case, (a, b), same),
    ensures
        begins <==> a@.len() >= b@.len() && same_letters(a@.take(b@.len() as int), b@),
        same <==> same_letters(a@, b@),
{
    lemma_letters(a@, b@);
    if a@.len() >= b@.len() {
        lemma_letters(a@.take(b@.len() as int), b@);
        assert(a@.take(b@.len() as int) =~= a@.subrange(0, b@.len() as int));
    }
}

/// A copy of texts holds the same texts.
pub proof fn copied_texts_are_the_same(strings: &Vec<String>, r: Vec<String>, i: int)
    requires
        call_ensures(copy_strings, (strings,), r),
        0 <= i < strings@.len(),
    ensures
        r@.len() == strings@.len(),
        r@[i]@ == strings@[i]@,
{
}

/// The place of a text in a list is the first that holds it, and there is none exactly where no
/// place does.
pub proof fn texts_are_found_at_their_first_place(
    names: &Vec<String>,
    name: &str,
    r: Option<usize>,
    j: int,
)
    requires
        call_ensures(find_text, (names, name), r),
        0 <= j < names@.len(),
        names@[j]@ == name@,
    ensures
        r is Some,
        r->0 <= j,
        names@[r->0 as int]@ == name@,
{
    assert(texts(names@)[j] == name@);
}

/// Nothing is found that is not there.
pub proof fn only_held_texts_are_found(names: &Vec<String>, name: &str, r: Option<usize>)
    requires
        call_ensures(find_text, (names, name), r),
        r is Some,
    ensures
        r->0 < names@.len(),
        names@[r->0 as int]@ == name@,
{
    assert(texts(names@)[r->0 as int] == name@);
}

/// Each maker of errors makes the kind that it is named after, with the text as it is.
pub proof fn errors_are_what_they_are_made_as(
    text: &str,
    a: EngineError,
    b: EngineError,
    c: EngineError,
    d: EngineError,
)
    requires
        call_ensures(plan_error, (text,), a),
        call_ensures(execution_error, (text,), b),
        call_ensures(internal_error, (text,), c),
        call_ensures(not_implemented, (text,), d),
    ensures
        a is Plan && a->Plan_0@ == text@,
        b is Execution && b->Execution_0@ == text@,
        c is Internal && c->Internal_0@ == text@,
        d is NotImplemented && d->NotImplemented_0@ == text@,
{
}

/// A catalog has a part in a commit only where the table is in one and the mode says so.
pub proof fn catalogs_take_part_as_the_mode_says(
    run: &CommitRun,
    says: bool,
    commits: bool,
    points: bool,
    records: bool,
)
    requires
        call_ensures(CommitRun::has_catalog_metadata, (run,), says),
        call_ensures(CommitRun::has_catalog_commit, (run,), commits),
        call_ensures(CommitRun::has_pointer, (run,), points),
        call_ensures(CommitRun::is_registered, (run,), records),
    ensures
        run.plan.info.lakehouse_table is None ==> !says && !commits && !points && !records,
        run.plan.info.lakehouse_table is Some ==> {
            &&& says == run.mode.uses_catalog_metadata
            &&& commits == run.mode.uses_catalog_commit
            &&& points == run.mode.uses_metadata_location_update
            &&& records == run.mode.is_filesystem
        },
{
}

/// A hint is the name of a unique file, and else the number of the version.
pub proof fn hints_are_names_or_numbers(
    file: &str,
    version: u64,
    unique: String,
    numbered: String,
    name: String,
    number: String,
)
    requires
        call_ensures(version_hint, (true, file, version), unique),
        call_ensures(version_hint, (false, file, version), numbered),
        call_ensures(segment_after_slash, (file,), name),
        call_ensures(u64_text, (version,), number),
    ensures
        unique@ == name@,
        numbered@ == number@,
{
}

/// A metadata file is put to, and deleted from, the path in the store that its own name stands for.
pub proof fn metadata_files_are_put_where_they_are_deleted(
    put: &PutMetadata,
    delete: &DeleteCandidate,
    a: String,
    b: String,
)
    requires
        call_ensures(PutMetadata::object_path, (put,), a),
        call_ensures(DeleteCandidate::object_path, (delete,), b),
    ensures
        a@ == object_path_of(put.encoded.file@),
        b@ == object_path_of(delete.file@),
        put.encoded.file@ == delete.file@ ==> a@ == b@,
{
}

/// A file is where its path leads from the directory of the table's files, as a path that begins
/// there.
pub proof fn files_are_below_their_directory<W, B>(
    table: &IcebergTableWriter<W, B>,
    relative: &str,
    r: Result<String, String>,
    reference: Seq<char>,
)
    requires
        call_ensures(IcebergTableWriter::<W, B>::file_location, (table, relative), r),
        reference.len() == relative@.len() + 2,
        reference[0] == '.',
        reference[1] == '/',
        reference.skip(2) == relative@,
    ensures
        match url_joined(table.data_url@, reference) {
            Ok(location) => r is Ok && r->Ok_0@ == location,
            Err(error) => r is Err && r->Err_0@ == error,
        },
{
    reveal_strlit("./");
    assert("./"@.len() == 2 && "./"@[0] == '.' && "./"@[1] == '/');
    assert(reference =~= "./"@ + relative@) by {
        assert forall|i: int| 0 <= i < reference.len() implies reference[i] == ("./"@
            + relative@)[i] by {
            if i >= 2 {
                assert(reference.skip(2)[i - 2] == reference[i]);
            }
        }
    }
}

/// Rows are taken out of the batch that waits first.
pub proof fn first_batch_is_taken_from<W, B>(slice: &Slice<W, B>, batch: &B)
    requires
        slice.wf(),
        call_ensures(Slice::<W, B>::batch, (slice,), batch),
    ensures
        *batch == slice.table.queue@[0].batch,
{
}

/// Rows are spread only over more partitions than there are, over as many as are wanted, and over
/// one where none are.
pub proof fn rows_are_only_spread_further(there: usize, wanted: usize, r: Option<usize>)
    requires
        call_ensures(add_repartition_node, (there, wanted), r),
    ensures
        r is Some ==> r->0 > there && r->0 >= 1 && (r->0 == wanted || wanted == 0 && r->0 == 1),
        r is None ==> there >= wanted && there >= 1,
{
}

/// Partition fields are refused exactly where one of them comes from no column. The first such field
/// is named: by its expression where rows are chosen, and by its column where they are sorted.
pub proof fn fields_without_a_column_are_named<P, S>(
    input: &InputPlan<P>,
    fields: &Vec<CatalogPartitionField>,
    order: Option<Vec<S>>,
    chosen: Result<(), EngineError>,
    sorted: Result<Vec<SortKey<S>>, EngineError>,
    i: int,
)
    requires
        call_ensures(add_projection_node::<P>, (input, fields), chosen),
        call_ensures(add_sort_node::<P, S>, (input, fields, order), sorted),
        0 <= i < fields@.len(),
        !has_column(*input, fields@[i].column@),
        forall|j: int| 0 <= j < i ==> has_column(*input, (#[trigger] fields@[j]).column@),
    ensures
        chosen is Err,
        chosen->Err_0 is Plan,
        stands_in(fields@[i].expression@, chosen->Err_0->Plan_0@),
        sorted is Err,
        sorted->Err_0 is Plan,
        stands_in(fields@[i].column@, sorted->Err_0->Plan_0@),
{
    let columns = texts(input.columns@);
    lemma_has_column(*input, fields@[i].column@);
    assert(!columns.contains(fields@[i].column@));
    assert forall|j: int| 0 <= j < i implies columns.contains((#[trigger] fields@[j]).column@) by {
        lemma_has_column(*input, fields@[j].column@);
    }
    let after = "' not found in schema"@;
    let a = choose|k: int|
        0 <= k < fields@.len() && !columns.contains((#[trigger] fields@[k]).column@)
            && chosen->Err_0@ == crate::error::EngineErrorView::Plan(
            "Partition column '"@ + fields@[k].expression@ + after,
        ) && forall|j: int| 0 <= j < k ==> columns.contains((#[trigger] fields@[j]).column@);
    assert(a == i);
    assert(chosen->Err_0->Plan_0@ == "Partition column '"@ + fields@[i].expression@ + after);
    let b = choose|k: int|
        0 <= k < fields@.len() && !columns.contains((#[trigger] fields@[k]).column@)
            && sorted->Err_0@ == crate::error::EngineErrorView::Plan(
            "Partition column '"@ + fields@[k].column@ + after,
        ) && forall|j: int| 0 <= j < k ==> columns.contains((#[trigger] fields@[j]).column@);
    assert(b == i);
    assert(sorted->Err_0->Plan_0@ == "Partition column '"@ + fields@[i].column@ + after);
}

/// Where every partition field comes from a column, none is refused.
pub proof fn fields_with_columns_are_taken<P, S>(
    input: &InputPlan<P>,
    fields: &Vec<CatalogPartitionField>,
    order: Option<Vec<S>>,
    chosen: Result<(), EngineError>,
    sorted: Result<Vec<SortKey<S>>, EngineError>,
)
    requires
        call_ensures(add_projection_node::<P>, (input, fields), chosen),
        call_ensures(add_sort_node::<P, S>, (input, fields, order), sorted),
        forall|j: int|
            0 <= j < fields@.len() ==> has_column(*input, (#[trigger] fields@[j]).column@),
    ensures
        chosen is Ok,
        sorted is Ok,
{
    assert forall|j: int| 0 <= j < fields@.len() implies texts(input.columns@).contains(
        (#[trigger] fields@[j]).column@,
    ) by {
        lemma_has_column(*input, fields@[j].column@);
    }
}

} // verus!
