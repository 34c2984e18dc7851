//! Where rows go, from the batch that brings them to the file that holds them.
use vstd::prelude::*;

use crate::content_laws::{lemma_partition, same_in_every_field};
use crate::table::{partition_values, DataFile, Literal, PrimitiveLiteralView};
use crate::table_writer::{
    align_batch_with_table_schema, closes, distinct_keys, finishes, goes_on, has_key, key_at,
    key_of, no_rows_are_passed_over, resumes, settles, untaken, with_open, with_queue, writes,
    writes_on, writes_to, Alignment, ColumnSource, Finishing, IcebergTableWriter, OpenFile,
    PartitionBatch, PartitionWriter, PartitionWriterState, Purpose, RowBatch, Slice, WriteBatch,
    WriteStep, Written,
};
use crate::text::texts;

verus! {

/// The directory of a partition.
pub type Directories = spec_fn(Seq<Option<PrimitiveLiteralView>>) -> Seq<char>;

/// All partitions with unfinished files, and all rows that are still to be written, have the
/// directories of their partitions.
pub open spec fn in_own_directories<W, B>(
    table: IcebergTableWriter<W, B>,
    dir_of: Directories,
) -> bool {
    &&& forall|i: int|
        0 <= i < table.open@.len() ==> (#[trigger] table.open@[i]).partition_dir@ == dir_of(
            partition_values(table.open@[i].key@),
        )
    &&& rows_in_own_directories(table.queue@, dir_of)
}

/// All rows have the directories of their partitions.
pub open spec fn rows_in_own_directories<B>(
    parts: Seq<PartitionBatch<B>>,
    dir_of: Directories,
) -> bool {
    forall|i: int|
        0 <= i < parts.len() ==> (#[trigger] parts[i]).partition_dir@ == dir_of(
            partition_values(parts[i].key@),
        )
}

/// So have all files that a step is about.
pub open spec fn step_in_own_directories<W, B>(step: WriteStep<W, B>, dir_of: Directories) -> bool {
    match step {
        WriteStep::Idle(table) => in_own_directories(table, dir_of),
        WriteStep::Slice(s) => in_own_directories(s.table, dir_of),
        WriteStep::OpenFile(s) => in_own_directories(s.target.table, dir_of)
            && s.target.partition_dir@ == dir_of(partition_values(s.target.key@)),
        WriteStep::WriteBatch(s) => in_own_directories(s.target.table, dir_of)
            && s.target.partition_dir@ == dir_of(partition_values(s.target.key@)),
        WriteStep::CloseFile(s) => in_own_directories(s.rest.table, dir_of),
        WriteStep::Closed(_) => true,
        WriteStep::Failed { table, .. } => in_own_directories(table, dir_of),
    }
}

proof fn lemma_resumes<W, B>(
    next: WriteStep<W, B>,
    table: IcebergTableWriter<W, B>,
    dir_of: Directories,
)
    requires
        resumes(next, table),
        in_own_directories(table, dir_of),
    ensures
        step_in_own_directories(next, dir_of),
{
    no_rows_are_passed_over(table.queue@);
    let queue = table.queue@;
    let n = choose|n: int|
        0 <= n <= queue.len() && untaken(queue) == #[trigger] queue.skip(n) && forall|i: int|
            0 <= i < n ==> (#[trigger] queue[i]).offset >= queue[i].rows;
    assert forall|i: int| 0 <= i < untaken(queue).len() implies (
    #[trigger] untaken(queue)[i]).partition_dir@ == dir_of(
        partition_values(untaken(queue)[i].key@),
    ) by {
        assert(untaken(queue)[i] == queue[n + i]);
    }
}

proof fn lemma_finishes<W, B>(
    next: WriteStep<W, B>,
    table: IcebergTableWriter<W, B>,
    partition: PartitionWriter<W, B>,
    closing: bool,
    dir_of: Directories,
)
    requires
        finishes(next, table, partition, closing),
        in_own_directories(table, dir_of),
        partition.partition_dir@ == dir_of(partition_values(partition.key@)),
    ensures
        step_in_own_directories(next, dir_of),
{
}

proof fn lemma_settles<W, B>(
    next: WriteStep<W, B>,
    table: IcebergTableWriter<W, B>,
    entry: PartitionWriter<W, B>,
    dir_of: Directories,
)
    requires
        settles(next, table, entry),
        in_own_directories(table, dir_of),
        entry.partition_dir@ == dir_of(partition_values(entry.key@)),
    ensures
        step_in_own_directories(next, dir_of),
{
    let open = table.open@.push(entry);
    assert forall|i: int| 0 <= i < open.len() implies (#[trigger] open[i]).partition_dir@ == dir_of(
        partition_values(open[i].key@),
    ) by {
        if i < table.open@.len() {
            assert(open[i] == table.open@[i]);
        }
    }
    if open.len() > crate::table_writer::at_least_one(table.settings.max_open_writers) {
        let rest = choose|rest: IcebergTableWriter<W, B>|
            with_open(rest, table, open.skip(1)) && #[trigger] finishes(next, rest, open[0], false);
        assert forall|i: int| 0 <= i < rest.open@.len() implies (
        #[trigger] rest.open@[i]).partition_dir@ == dir_of(
            partition_values(rest.open@[i].key@),
        ) by {
            assert(rest.open@[i] == open[i + 1]);
        }
        lemma_finishes(next, rest, open[0], false, dir_of);
    } else {
        let after = choose|after: IcebergTableWriter<W, B>|
            with_open(after, table, open) && #[trigger] resumes(next, after);
        lemma_resumes(next, after, dir_of);
    }
}

proof fn lemma_closes<W, B>(
    next: WriteStep<W, B>,
    table: IcebergTableWriter<W, B>,
    dir_of: Directories,
)
    requires
        closes(next, table),
        in_own_directories(table, dir_of),
    ensures
        step_in_own_directories(next, dir_of),
{
    if table.open@.len() > 0 {
        let rest = choose|rest: IcebergTableWriter<W, B>|
            with_open(rest, table, table.open@.drop_last()) && #[trigger] finishes(
                next,
                rest,
                table.open@.last(),
                true,
            );
        assert forall|i: int| 0 <= i < rest.open@.len() implies (
        #[trigger] rest.open@[i]).partition_dir@ == dir_of(
            partition_values(rest.open@[i].key@),
        ) by {
            assert(rest.open@[i] == table.open@[i]);
        }
        let last = table.open@.len() - 1;
        assert(table.open@[last].partition_dir@ == dir_of(
            partition_values(table.open@[last].key@),
        ));
        lemma_finishes(next, rest, table.open@.last(), true, dir_of);
    }
}

proof fn lemma_writes_on<W, B>(
    next: WriteStep<W, B>,
    target: crate::table_writer::FileTarget<W, B>,
    writer: W,
    size: u64,
    batches: Seq<RowBatch<B>>,
    dir_of: Directories,
)
    requires
        writes_on(next, target, writer, size, batches),
        in_own_directories(target.table, dir_of),
        target.partition_dir@ == dir_of(partition_values(target.key@)),
    ensures
        step_in_own_directories(next, dir_of),
{
    if batches.len() == 0 && target.purpose == Purpose::KeepOpen && size
        < target.table.settings.target_file_size_bytes {
        lemma_settles(
            next,
            target.table,
            PartitionWriter {
                key: target.key,
                partition_dir: target.partition_dir,
                state: PartitionWriterState::Open { writer, rows: target.rows },
            },
            dir_of,
        );
    }
}

proof fn lemma_writes_to<W, B>(
    next: WriteStep<W, B>,
    table: IcebergTableWriter<W, B>,
    key: Vec<Option<Literal>>,
    partition_dir: String,
    state: PartitionWriterState<W, B>,
    batch: RowBatch<B>,
    dir_of: Directories,
)
    requires
        writes_to(next, table, key, partition_dir, state, batch),
        in_own_directories(table, dir_of),
        partition_dir@ == dir_of(partition_values(key@)),
    ensures
        step_in_own_directories(next, dir_of),
{
    match state {
        PartitionWriterState::Pending { batches, num_rows } => {
            if num_rows + batch.rows < crate::table_writer::at_least_one(
                table.settings.inference_buffer_size,
            ) {
                let kept = choose|kept: Vec<RowBatch<B>>|
                    kept@ == batches@.push(batch) && #[trigger] settles(
                        next,
                        table,
                        PartitionWriter {
                            key,
                            partition_dir,
                            state: PartitionWriterState::Pending {
                                batches: kept,
                                num_rows: (num_rows + batch.rows) as usize,
                            },
                        },
                    );
                lemma_settles(
                    next,
                    table,
                    PartitionWriter {
                        key,
                        partition_dir,
                        state: PartitionWriterState::Pending {
                            batches: kept,
                            num_rows: (num_rows + batch.rows) as usize,
                        },
                    },
                    dir_of,
                );
            }
        },
        _ => {},
    }
}

/// Rows that are handed in with the directories of their partitions are never asked for a file in
/// another one. This is how it begins.
pub proof fn directories_hold_when_rows_are_handed_in<W, B>(
    table: IcebergTableWriter<W, B>,
    parts: Vec<PartitionBatch<B>>,
    next: WriteStep<W, B>,
    dir_of: Directories,
)
    requires
        call_ensures(IcebergTableWriter::<W, B>::write, (table, parts), next),
        in_own_directories(table, dir_of),
        rows_in_own_directories(parts@, dir_of),
    ensures
        step_in_own_directories(next, dir_of),
{
    lemma_resumes(next, crate::table_writer::handed_rows(table, parts), dir_of);
}

/// Taking rows out of a batch keeps every file in the directory of its own partition: the file that
/// is opened for them is in theirs.
pub proof fn directories_hold_when_rows_are_taken<W, B>(
    slice: Slice<W, B>,
    rows: B,
    next: WriteStep<W, B>,
    dir_of: Directories,
)
    requires
        slice.wf(),
        call_ensures(Slice::<W, B>::sliced, (slice, rows), next),
        in_own_directories(slice.table, dir_of),
    ensures
        step_in_own_directories(next, dir_of),
{
    let part = slice.table.queue@[0];
    let batch = RowBatch { batch: rows, rows: slice.chunk.rows };
    let (table, key) = choose|table: IcebergTableWriter<W, B>, key: Vec<Option<Literal>>|
        {
            &&& with_queue(
                table,
                slice.table,
                slice.table.queue@.update(
                    0,
                    PartitionBatch { offset: (part.offset + slice.chunk.rows) as usize, ..part },
                ),
            )
            &&& partition_values(key@) == partition_values(part.key@)
            &&& #[trigger] writes(next, table, key, part.partition_dir, batch)
        };
    assert forall|i: int| 0 <= i < table.queue@.len() implies (
    #[trigger] table.queue@[i]).partition_dir@ == dir_of(
        partition_values(table.queue@[i].key@),
    ) by {
        assert(slice.table.queue@[i].partition_dir@ == dir_of(
            partition_values(slice.table.queue@[i].key@),
        ));
    }
    assert(in_own_directories(table, dir_of));
    if has_key(table.open@, partition_values(key@)) {
        let (i, rest) = choose|i: int, rest: IcebergTableWriter<W, B>|
            {
                &&& #[trigger] key_at(table.open@, partition_values(key@), i)
                &&& with_open(rest, table, table.open@.remove(i))
                &&& #[trigger] writes_to(
                    next,
                    rest,
                    key,
                    part.partition_dir,
                    table.open@[i].state,
                    batch,
                )
            };
        assert forall|k: int| 0 <= k < rest.open@.len() implies (
        #[trigger] rest.open@[k]).partition_dir@ == dir_of(
            partition_values(rest.open@[k].key@),
        ) by {
            assert(rest.open@[k] == table.open@[if k < i {
                k
            } else {
                k + 1
            }]);
        }
        lemma_writes_to(
            next,
            rest,
            key,
            part.partition_dir,
            table.open@[i].state,
            batch,
            dir_of,
        );
    } else if table.settings.shredding_enabled {
        let none = choose|none: Vec<RowBatch<B>>|
            none@ == Seq::<RowBatch<B>>::empty() && #[trigger] writes_to(
                next,
                crate::table_writer::with_file_begun(table),
                key,
                part.partition_dir,
                PartitionWriterState::Pending { batches: none, num_rows: 0 },
                batch,
            );
        lemma_writes_to(
            next,
            crate::table_writer::with_file_begun(table),
            key,
            part.partition_dir,
            PartitionWriterState::Pending { batches: none, num_rows: 0 },
            batch,
            dir_of,
        );
    }
}

/// Opening a file keeps every file in the directory of its own partition.
pub proof fn directories_hold_when_a_file_is_opened<W, B>(
    step: OpenFile<W, B>,
    reply: Result<W, String>,
    next: WriteStep<W, B>,
    dir_of: Directories,
)
    requires
        call_ensures(OpenFile::<W, B>::opened, (step, reply), next),
        step_in_own_directories(WriteStep::OpenFile(step), dir_of),
    ensures
        step_in_own_directories(next, dir_of),
{
    match reply {
        Ok(writer) => {
            lemma_writes_on(next, step.target, writer, 0, step.batches@, dir_of);
        },
        Err(_) => {},
    }
}

/// Writing rows keeps every file in the directory of its own partition.
pub proof fn directories_hold_when_rows_are_written<W, B>(
    step: WriteBatch<W, B>,
    taken: (W, B, Written<W, B>),
    reply: Result<(W, u64), String>,
    next: WriteStep<W, B>,
    dir_of: Directories,
)
    requires
        call_ensures(WriteBatch::<W, B>::take, (step,), taken),
        call_ensures(Written::<W, B>::written, (taken.2, reply), next),
        step_in_own_directories(WriteStep::WriteBatch(step), dir_of),
    ensures
        step_in_own_directories(next, dir_of),
{
    match reply {
        Ok((writer, size)) => {
            let s = taken.2;
            lemma_writes_on(
                next,
                crate::table_writer::FileTarget {
                    rows: Ghost(s.target.rows@ + s.rows@),
                    ..s.target
                },
                writer,
                size,
                s.later@,
                dir_of,
            );
        },
        Err(_) => {},
    }
}

/// Finishing a file keeps every other file in the directory of its own partition.
pub proof fn directories_hold_when_a_file_is_finished<W, B>(
    step: Finishing<W, B>,
    reply: Result<DataFile, String>,
    next: WriteStep<W, B>,
    dir_of: Directories,
)
    requires
        call_ensures(Finishing::<W, B>::finished, (step, reply), next),
        in_own_directories(step.table, dir_of),
    ensures
        step_in_own_directories(next, dir_of),
{
    match reply {
        Ok(file) => {
            let after = choose|after: IcebergTableWriter<W, B>|
                {
                    &&& after.written@ == step.table.written@.push(
                        DataFile { sort_order_id: step.table.settings.sort_order_id, ..file },
                    )
                    &&& after == (IcebergTableWriter {
                        written: after.written,
                        account: Ghost(
                            crate::table_writer::RowAccount {
                                finished: step.table.account@.finished.push(step.file@),
                                ..step.table.account@
                            },
                        ),
                        ..step.table
                    })
                    &&& #[trigger] goes_on(next, after, step.closing)
                };
            if step.closing {
                lemma_closes(next, after, dir_of);
            } else {
                lemma_resumes(next, after, dir_of);
            }
        },
        Err(_) => {},
    }
}

/// Closing keeps every file in the directory of its own partition.
pub proof fn directories_hold_when_the_task_ends<W, B>(
    table: IcebergTableWriter<W, B>,
    next: WriteStep<W, B>,
    dir_of: Directories,
)
    requires
        call_ensures(IcebergTableWriter::<W, B>::close, (table,), next),
        in_own_directories(table, dir_of),
    ensures
        step_in_own_directories(next, dir_of),
{
    lemma_closes(next, table, dir_of);
}

/// The partition that was written to last has these rows kept back after the earlier ones.
pub open spec fn kept_back_last<W, B>(
    open: Seq<PartitionWriter<W, B>>,
    key: Vec<Option<Literal>>,
    earlier: Seq<RowBatch<B>>,
    batch: RowBatch<B>,
) -> bool {
    &&& open.len() > 0
    &&& same_in_every_field(open.last().key@, key@)
    &&& open.last().state matches PartitionWriterState::Pending { batches, .. } && batches@
        == earlier.push(batch)
}

/// The unfinished files of a step.
pub open spec fn open_in<W, B>(step: WriteStep<W, B>) -> Seq<PartitionWriter<W, B>> {
    match step {
        WriteStep::Idle(table) => table.open@,
        WriteStep::Slice(s) => s.table.open@,
        WriteStep::OpenFile(s) => s.target.table.open@,
        WriteStep::WriteBatch(s) => s.target.table.open@,
        WriteStep::CloseFile(s) => s.rest.table.open@,
        WriteStep::Closed(_) => seq![],
        WriteStep::Failed { table, .. } => table.open@,
    }
}

/// Rows go to a file of their own partition that is opened for them, after the earlier ones.
pub open spec fn opened_for<W, B>(
    step: WriteStep<W, B>,
    key: Vec<Option<Literal>>,
    earlier: Seq<RowBatch<B>>,
    batch: RowBatch<B>,
    kept_back: bool,
) -> bool {
    &&& step is OpenFile
    &&& same_in_every_field(step->OpenFile_0.target.key@, key@)
    &&& step->OpenFile_0.batches@ == earlier.push(batch)
    &&& step->OpenFile_0.kept_back == kept_back
    &&& step->OpenFile_0.target.purpose is KeepOpen
}

/// Rows that are taken out of a batch go to a file of their own partition, as they are. Where it has
/// an open file they are written to that one. Where rows of it are kept back, they come after those:
/// they are kept back too while these are fewer than are to be, and else a file is opened for all
/// of them. Where there is neither, they are the first rows.
pub proof fn rows_join_the_file_of_their_partition<W, B>(
    slice: Slice<W, B>,
    rows: B,
    next: WriteStep<W, B>,
)
    requires
        slice.wf(),
        call_ensures(Slice::<W, B>::sliced, (slice, rows), next),
    ensures
        ({
            let part = slice.table.queue@[0];
            let open = slice.table.open@;
            let settings = slice.table.settings;
            let batch = RowBatch { batch: rows, rows: slice.chunk.rows };
            &&& forall|i: int|
                0 <= i < open.len() && same_in_every_field((#[trigger] open[i]).key@, part.key@)
                    ==> match open[i].state {
                    PartitionWriterState::Open { writer, .. } => next is WriteBatch
                        && next->WriteBatch_0.writer == writer && next->WriteBatch_0.batch == batch
                        && next->WriteBatch_0.later@.len() == 0 && same_in_every_field(
                        next->WriteBatch_0.target.key@,
                        part.key@,
                    ) && open_in(next) == open.remove(i),
                    PartitionWriterState::Pending { batches, num_rows } => if num_rows + batch.rows
                        < settings.inference_buffer_size {
                        kept_back_last(open_in(next), part.key, batches@, batch)
                    } else {
                        opened_for(next, part.key, batches@, batch, true) && open_in(next)
                            == open.remove(i)
                    },
                }
            &&& (forall|i: int|
                0 <= i < open.len() ==> !same_in_every_field((#[trigger] open[i]).key@, part.key@))
                ==> if !settings.shredding_enabled {
                opened_for(next, part.key, seq![], batch, false) && open_in(next) == open
            } else if batch.rows < settings.inference_buffer_size {
                kept_back_last(open_in(next), part.key, seq![], batch)
            } else {
                opened_for(next, part.key, seq![], batch, true) && open_in(next) == open
            }
        }),
{
    let part = slice.table.queue@[0];
    let open = slice.table.open@;
    let settings = slice.table.settings;
    let batch = RowBatch { batch: rows, rows: slice.chunk.rows };
    let (table, key) = choose|table: IcebergTableWriter<W, B>, key: Vec<Option<Literal>>|
        {
            &&& with_queue(
                table,
                slice.table,
                slice.table.queue@.update(
                    0,
                    PartitionBatch { offset: (part.offset + slice.chunk.rows) as usize, ..part },
                ),
            )
            &&& partition_values(key@) == partition_values(part.key@)
            &&& #[trigger] writes(next, table, key, part.partition_dir, batch)
        };
    lemma_partition(key@, part.key@);
    assert forall|i: int| 0 <= i < open.len() implies (same_in_every_field(
        (#[trigger] open[i]).key@,
        part.key@,
    ) <==> key_at(open, partition_values(key@), i)) by {
        lemma_partition(open[i].key@, part.key@);
    }
    if has_key(open, partition_values(key@)) {
        let (i, rest) = choose|i: int, rest: IcebergTableWriter<W, B>|
            {
                &&& #[trigger] key_at(table.open@, partition_values(key@), i)
                &&& with_open(rest, table, table.open@.remove(i))
                &&& #[trigger] writes_to(
                    next,
                    rest,
                    key,
                    part.partition_dir,
                    table.open@[i].state,
                    batch,
                )
            };
        assert forall|k: int| 0 <= k < open.len() && same_in_every_field(
            (#[trigger] open[k]).key@,
            part.key@,
        ) implies k == i by {
            assert(distinct_keys(open));
            assert(key_at(open, partition_values(key@), k));
            assert(key_of(open[k]) == key_of(open[i]));
        }
        match open[i].state {
            PartitionWriterState::Pending { batches, num_rows } => {
                lemma_kept_back(
                    next,
                    rest,
                    key,
                    part.partition_dir,
                    batches,
                    num_rows,
                    batch,
                    part.key,
                );
            },
            _ => {},
        }
        assert(same_in_every_field(open[i].key@, part.key@));
    } else {
        assert forall|i: int| 0 <= i < open.len() implies !same_in_every_field(
            (#[trigger] open[i]).key@,
            part.key@,
        ) by {
            assert(!key_at(open, partition_values(key@), i));
        }
        if settings.shredding_enabled {
            let none = choose|none: Vec<RowBatch<B>>|
                none@ == Seq::<RowBatch<B>>::empty() && #[trigger] writes_to(
                    next,
                    crate::table_writer::with_file_begun(table),
                    key,
                    part.partition_dir,
                    PartitionWriterState::Pending { batches: none, num_rows: 0 },
                    batch,
                );
            lemma_kept_back(
                next,
                crate::table_writer::with_file_begun(table),
                key,
                part.partition_dir,
                none,
                0,
                batch,
                part.key,
            );
        } else {
            assert(Seq::<RowBatch<B>>::empty().push(batch) =~= seq![batch]);
        }
    }
}

proof fn lemma_kept_back<W, B>(
    next: WriteStep<W, B>,
    table: IcebergTableWriter<W, B>,
    key: Vec<Option<Literal>>,
    partition_dir: String,
    batches: Vec<RowBatch<B>>,
    num_rows: usize,
    batch: RowBatch<B>,
    own: Vec<Option<Literal>>,
)
    requires
        writes_to(
            next,
            table,
            key,
            partition_dir,
            PartitionWriterState::Pending { batches, num_rows },
            batch,
        ),
        batch.rows > 0,
        same_in_every_field(key@, own@),
    ensures
        if num_rows + batch.rows < table.settings.inference_buffer_size {
            kept_back_last(open_in(next), own, batches@, batch)
        } else {
            opened_for(next, own, batches@, batch, true) && open_in(next) == table.open@
        },
{
    if num_rows + batch.rows < table.settings.inference_buffer_size {
        let kept = choose|kept: Vec<RowBatch<B>>|
            kept@ == batches@.push(batch) && #[trigger] settles(
                next,
                table,
                PartitionWriter {
                    key,
                    partition_dir,
                    state: PartitionWriterState::Pending {
                        batches: kept,
                        num_rows: (num_rows + batch.rows) as usize,
                    },
                },
            );
        let entry = PartitionWriter {
            key,
            partition_dir,
            state: PartitionWriterState::<W, B>::Pending {
                batches: kept,
                num_rows: (num_rows + batch.rows) as usize,
            },
        };
        lemma_settled(next, table, entry);
    }
}

/// A partition that was written to is open last. The others are open before it in their order, but
/// for the first one where there are more than may be.
proof fn lemma_settled<W, B>(
    next: WriteStep<W, B>,
    table: IcebergTableWriter<W, B>,
    entry: PartitionWriter<W, B>,
)
    requires
        settles(next, table, entry),
    ensures
        if table.open@.len() + 1 <= table.settings.max_open_writers || table.open@.len() == 0 {
            open_in(next) == table.open@.push(entry) && (next is Idle || next is Slice)
        } else {
            &&& open_in(next) == table.open@.skip(1).push(entry)
            &&& match table.open@[0].state {
                PartitionWriterState::Open { writer, .. } => next is CloseFile
                    && next->CloseFile_0.writer == writer && next->CloseFile_0.key
                    == table.open@[0].key && !next->CloseFile_0.rest.closing,
                PartitionWriterState::Pending { batches, .. } => next is OpenFile
                    && next->OpenFile_0.batches == batches && next->OpenFile_0.target.key
                    == table.open@[0].key && next->OpenFile_0.target.partition_dir
                    == table.open@[0].partition_dir && next->OpenFile_0.kept_back
                    && next->OpenFile_0.target.purpose == (Purpose::Finish { closing: false }),
            }
        },
        open_in(next).len() > 0,
        open_in(next).last() == entry,
{
    let open = table.open@.push(entry);
    if open.len() > crate::table_writer::at_least_one(table.settings.max_open_writers) {
        let rest = choose|rest: IcebergTableWriter<W, B>|
            with_open(rest, table, open.skip(1)) && #[trigger] finishes(next, rest, open[0], false);
        assert(open.len() >= 2);
        assert(open.skip(1) =~= table.open@.skip(1).push(entry));
        assert(open[0] == table.open@[0]);
    } else {
        let after = choose|after: IcebergTableWriter<W, B>|
            with_open(after, table, open) && #[trigger] resumes(next, after);
        assert(open_in(next) == open);
    }
}

/// A file that has taken its rows and is large enough is closed. One that is not stays open, as the
/// most recently written one. Where more would be open than may be, the least recently written
/// partition is finished: its file is closed, or opened for the rows that are kept back. All others
/// stay open in their order.
pub proof fn files_roll_by_size_and_are_evicted_by_age<W, B>(
    step: Written<W, B>,
    writer: W,
    size: u64,
    next: WriteStep<W, B>,
)
    requires
        step.wf(),
        call_ensures(Written::<W, B>::written, (step, Ok((writer, size))), next),
        step.later@.len() == 0,
        step.target.purpose is KeepOpen,
    ensures
        ({
            let table = step.target.table;
            let open = table.open@;
            if size >= table.settings.target_file_size_bytes {
                &&& next is CloseFile
                &&& next->CloseFile_0.writer == writer
                &&& next->CloseFile_0.key == step.target.key
                &&& !next->CloseFile_0.rest.closing
                &&& open_in(next) == open
            } else {
                let now = open_in(next);
                &&& now.len() > 0
                &&& now.last().key == step.target.key
                &&& now.last().partition_dir == step.target.partition_dir
                &&& now.last().state matches PartitionWriterState::Open { writer: w, .. } && w
                    == writer
                &&& if open.len() + 1 <= table.settings.max_open_writers || open.len() == 0 {
                    &&& now.drop_last() == open
                    &&& next is Idle || next is Slice
                } else {
                    &&& now.drop_last() == open.skip(1)
                    &&& match open[0].state {
                        PartitionWriterState::Open { writer: w, .. } => next is CloseFile
                            && next->CloseFile_0.writer == w && next->CloseFile_0.key
                            == open[0].key,
                        PartitionWriterState::Pending { batches, .. } => next is OpenFile
                            && next->OpenFile_0.batches == batches && next->OpenFile_0.target.key
                            == open[0].key,
                    }
                }
            }
        }),
{
    let table = step.target.table;
    let target = crate::table_writer::FileTarget {
        rows: Ghost(step.target.rows@ + step.rows@),
        ..step.target
    };
    if size < table.settings.target_file_size_bytes {
        let entry = PartitionWriter {
            key: target.key,
            partition_dir: target.partition_dir,
            state: PartitionWriterState::<W, B>::Open { writer, rows: target.rows },
        };
        lemma_settled(next, table, entry);
        assert(table.open@.push(entry).drop_last() =~= table.open@);
        assert(table.open@.skip(1).push(entry).drop_last() =~= table.open@.skip(1));
    }
}

/// Between two writes at most one partition is open, or as many as may be, and no rows wait.
pub proof fn between_writes_the_bound_holds<W, B>(
    step: Written<W, B>,
    reply: Result<(W, u64), String>,
    next: WriteStep<W, B>,
)
    requires
        step.wf(),
        call_ensures(Written::<W, B>::written, (step, reply), next),
    ensures
        next matches WriteStep::Idle(table) ==> table.queue@.len() == 0 && (table.open@.len() <= 1
            || table.open@.len() <= table.settings.max_open_writers),
{
}

/// Rows that a file is opened for are written to it one batch after the other, in their order.
pub proof fn batches_are_written_in_order<W, B>(
    open: OpenFile<W, B>,
    writer: W,
    first: WriteStep<W, B>,
    step: Written<W, B>,
    size: u64,
    next: WriteStep<W, B>,
)
    requires
        open.wf(),
        call_ensures(OpenFile::<W, B>::opened, (open, Ok(writer)), first),
        step.wf(),
        call_ensures(Written::<W, B>::written, (step, Ok((writer, size))), next),
    ensures
        open.batches@.len() > 0 ==> first is WriteBatch && first->WriteBatch_0.writer == writer
            && first->WriteBatch_0.batch == open.batches@[0] && first->WriteBatch_0.later@
            == open.batches@.skip(1) && first->WriteBatch_0.target.key == open.target.key
            && first->WriteBatch_0.target.purpose == open.target.purpose,
        step.later@.len() > 0 ==> next is WriteBatch && next->WriteBatch_0.writer == writer
            && next->WriteBatch_0.batch == step.later@[0] && next->WriteBatch_0.later@
            == step.later@.skip(1) && next->WriteBatch_0.target.key == step.target.key
            && next->WriteBatch_0.target.purpose == step.target.purpose,
        step.later@.len() == 0 && step.target.purpose is Finish ==> next is CloseFile
            && next->CloseFile_0.writer == writer && next->CloseFile_0.key == step.target.key
            && next->CloseFile_0.rest.closing == step.target.purpose->closing,
{
}

/// What is handed out for writing is the file and the rows of the step.
pub proof fn what_is_taken_is_what_was_set<W, B>(
    step: WriteBatch<W, B>,
    taken: (W, B, Written<W, B>),
)
    requires
        call_ensures(WriteBatch::<W, B>::take, (step,), taken),
    ensures
        taken.0 == step.writer,
        taken.1 == step.batch.batch,
        taken.2.target == step.target,
        taken.2.later == step.later,
        taken.2.rows@ == step.batch.rows,
{
}

/// Of a finished file all is kept that was recorded, but for the order of its rows, which is that of
/// the table. All files that were finished before stay in their places.
pub proof fn finished_files_are_kept<W, B>(
    step: Finishing<W, B>,
    file: DataFile,
    next: WriteStep<W, B>,
)
    requires
        step.wf(),
        call_ensures(Finishing::<W, B>::finished, (step, Ok(file)), next),
    ensures
        ({
            let before = step.table.written@;
            let after = written_in(next);
            &&& after.len() == before.len() + 1
            &&& forall|i: int| 0 <= i < before.len() ==> #[trigger] after[i] == before[i]
            &&& after.last().content == file.content
            &&& after.last().file_path == file.file_path
            &&& after.last().partition_spec_id == file.partition_spec_id
            &&& after.last().partition == file.partition
            &&& after.last().record_count == file.record_count
            &&& after.last().file_size_in_bytes == file.file_size_in_bytes
            &&& after.last().details == file.details
            &&& after.last().sort_order_id == step.table.settings.sort_order_id
        }),
        !step.closing ==> open_in(next) == step.table.open@,
        step.closing && step.table.open@.len() > 0 ==> open_in(next) == step.table.open@.drop_last(),
        step.closing && step.table.open@.len() == 0 ==> next is Closed,
{
    let after = choose|after: IcebergTableWriter<W, B>|
        {
            &&& after.written@ == step.table.written@.push(
                DataFile { sort_order_id: step.table.settings.sort_order_id, ..file },
            )
            &&& after == (IcebergTableWriter {
                written: after.written,
                account: Ghost(
                    crate::table_writer::RowAccount {
                        finished: step.table.account@.finished.push(step.file@),
                        ..step.table.account@
                    },
                ),
                ..step.table
            })
            &&& #[trigger] goes_on(next, after, step.closing)
        };
    assert(written_in(next) == after.written@);
}

/// The finished files of a step.
pub open spec fn written_in<W, B>(step: WriteStep<W, B>) -> Seq<DataFile> {
    match step {
        WriteStep::Idle(table) => table.written@,
        WriteStep::Slice(s) => s.table.written@,
        WriteStep::OpenFile(s) => s.target.table.written@,
        WriteStep::WriteBatch(s) => s.target.table.written@,
        WriteStep::CloseFile(s) => s.rest.table.written@,
        WriteStep::Closed(closed) => closed.files@,
        WriteStep::Failed { table, .. } => table.written@,
    }
}

/// After a failure the error is reported as it is. The finished and the other unfinished files
/// stay, and no more rows are written.
pub proof fn failures_are_reported_and_keep_the_rest<W, B>(
    open: OpenFile<W, B>,
    written: Written<W, B>,
    finishing: Finishing<W, B>,
    error: String,
    a: WriteStep<W, B>,
    b: WriteStep<W, B>,
    c: WriteStep<W, B>,
)
    requires
        open.wf(),
        written.wf(),
        finishing.wf(),
        call_ensures(OpenFile::<W, B>::opened, (open, Err(error)), a),
        call_ensures(Written::<W, B>::written, (written, Err(error)), b),
        call_ensures(Finishing::<W, B>::finished, (finishing, Err(error)), c),
    ensures
        failed_with(a, open.target.table, error),
        failed_with(b, written.target.table, error),
        failed_with(c, finishing.table, error),
{
}

/// The step is a failure with this error.
pub open spec fn failed_with<W, B>(
    step: WriteStep<W, B>,
    table: IcebergTableWriter<W, B>,
    error: String,
) -> bool {
    &&& step is Failed
    &&& step->error == error
    &&& step->table.open == table.open
    &&& step->table.written == table.written
    &&& step->table.queue@.len() == 0
    &&& step->table.settings == table.settings
    &&& step->table.partition_spec_id == table.partition_spec_id
    &&& step->table.data_url == table.data_url
}

/// Rows are taken from the first batch that still has some, from where the last ones ended, at most
/// a thousand at a time, and fewer only where the batch ends.
pub proof fn rows_are_taken_in_turn<W, B>(
    table: IcebergTableWriter<W, B>,
    parts: Vec<PartitionBatch<B>>,
    next: WriteStep<W, B>,
)
    requires
        table.wf(),
        call_ensures(IcebergTableWriter::<W, B>::write, (table, parts), next),
    ensures
        next is Idle || next is Slice,
        open_in(next) == table.open@,
        written_in(next) == table.written@,
        next is Idle ==> forall|i: int|
            0 <= i < parts@.len() ==> (#[trigger] parts@[i]).offset >= parts@[i].rows,
        next matches WriteStep::Slice(slice) ==> exists|n: int|
            {
                &&& 0 <= n < parts@.len()
                &&& slice.table.queue@ == #[trigger] parts@.skip(n)
                &&& forall|i: int| 0 <= i < n ==> (#[trigger] parts@[i]).offset >= parts@[i].rows
                &&& parts@[n].offset < parts@[n].rows
                &&& slice.chunk.offset == parts@[n].offset
                &&& 0 < slice.chunk.rows <= 1000
                &&& slice.chunk.offset + slice.chunk.rows <= parts@[n].rows
                &&& slice.chunk.rows < 1000 ==> slice.chunk.offset + slice.chunk.rows
                    == parts@[n].rows
            },
{
    no_rows_are_passed_over(parts@);
    let n = choose|n: int|
        0 <= n <= parts@.len() && untaken(parts@) == #[trigger] parts@.skip(n) && forall|i: int|
            0 <= i < n ==> (#[trigger] parts@[i]).offset >= parts@[i].rows;
    if next is Idle {
        assert(parts@.skip(n).len() == 0);
    } else {
        assert(parts@.skip(n)[0] == parts@[n]);
    }
}

/// Once rows are taken, the batch goes on where they ended. All later batches wait in their order,
/// unless the rows were the last of theirs.
pub proof fn taken_rows_are_not_taken_again<W, B>(slice: Slice<W, B>, rows: B, next: WriteStep<W, B>)
    requires
        slice.wf(),
        call_ensures(Slice::<W, B>::sliced, (slice, rows), next),
        next is OpenFile || next is WriteBatch,
    ensures
        ({
            let queue = match next {
                WriteStep::OpenFile(s) => s.target.table.queue@,
                WriteStep::WriteBatch(s) => s.target.table.queue@,
                _ => seq![],
            };
            let before = slice.table.queue@;
            &&& queue.len() == before.len()
            &&& queue[0].offset == before[0].offset + slice.chunk.rows
            &&& queue[0].rows == before[0].rows
            &&& queue[0].batch == before[0].batch
            &&& same_in_every_field(queue[0].key@, before[0].key@)
            &&& forall|i: int| 1 <= i < before.len() ==> #[trigger] queue[i] == before[i]
        }),
{
    let part = slice.table.queue@[0];
    let batch = RowBatch { batch: rows, rows: slice.chunk.rows };
    let (table, key) = choose|table: IcebergTableWriter<W, B>, key: Vec<Option<Literal>>|
        {
            &&& with_queue(
                table,
                slice.table,
                slice.table.queue@.update(
                    0,
                    PartitionBatch { offset: (part.offset + slice.chunk.rows) as usize, ..part },
                ),
            )
            &&& partition_values(key@) == partition_values(part.key@)
            &&& #[trigger] writes(next, table, key, part.partition_dir, batch)
        };
    lemma_queue_stays(next, table, key, part.partition_dir, batch);
    lemma_partition(table.queue@[0].key@, part.key@);
}

proof fn lemma_queue_stays<W, B>(
    next: WriteStep<W, B>,
    table: IcebergTableWriter<W, B>,
    key: Vec<Option<Literal>>,
    partition_dir: String,
    batch: RowBatch<B>,
)
    requires
        writes(next, table, key, partition_dir, batch),
    ensures
        next matches WriteStep::OpenFile(s) ==> s.target.table.queue == table.queue,
        next matches WriteStep::WriteBatch(s) ==> s.target.table.queue == table.queue,
{
    if has_key(table.open@, partition_values(key@)) {
        let (i, rest) = choose|i: int, rest: IcebergTableWriter<W, B>|
            {
                &&& #[trigger] key_at(table.open@, partition_values(key@), i)
                &&& with_open(rest, table, table.open@.remove(i))
                &&& #[trigger] writes_to(
                    next,
                    rest,
                    key,
                    partition_dir,
                    table.open@[i].state,
                    batch,
                )
            };
        lemma_queue_stays_to(next, rest, key, partition_dir, table.open@[i].state, batch);
    } else if table.settings.shredding_enabled {
        let none = choose|none: Vec<RowBatch<B>>|
            none@ == Seq::<RowBatch<B>>::empty() && #[trigger] writes_to(
                next,
                crate::table_writer::with_file_begun(table),
                key,
                partition_dir,
                PartitionWriterState::Pending { batches: none, num_rows: 0 },
                batch,
            );
        lemma_queue_stays_to(
            next,
            crate::table_writer::with_file_begun(table),
            key,
            partition_dir,
            PartitionWriterState::Pending { batches: none, num_rows: 0 },
            batch,
        );
    }
}

proof fn lemma_queue_stays_to<W, B>(
    next: WriteStep<W, B>,
    table: IcebergTableWriter<W, B>,
    key: Vec<Option<Literal>>,
    partition_dir: String,
    state: PartitionWriterState<W, B>,
    batch: RowBatch<B>,
)
    requires
        writes_to(next, table, key, partition_dir, state, batch),
    ensures
        next matches WriteStep::OpenFile(s) ==> s.target.table.queue == table.queue,
        next matches WriteStep::WriteBatch(s) ==> s.target.table.queue == table.queue,
{
    match state {
        PartitionWriterState::Pending { batches, num_rows } => {
            if num_rows + batch.rows < crate::table_writer::at_least_one(
                table.settings.inference_buffer_size,
            ) {
                let kept = choose|kept: Vec<RowBatch<B>>|
                    kept@ == batches@.push(batch) && #[trigger] settles(
                        next,
                        table,
                        PartitionWriter {
                            key,
                            partition_dir,
                            state: PartitionWriterState::Pending {
                                batches: kept,
                                num_rows: (num_rows + batch.rows) as usize,
                            },
                        },
                    );
                let entry = PartitionWriter {
                    key,
                    partition_dir,
                    state: PartitionWriterState::<W, B>::Pending {
                        batches: kept,
                        num_rows: (num_rows + batch.rows) as usize,
                    },
                };
                let open = table.open@.push(entry);
                if open.len() > crate::table_writer::at_least_one(table.settings.max_open_writers) {
                    let rest = choose|rest: IcebergTableWriter<W, B>|
                        with_open(rest, table, open.skip(1)) && #[trigger] finishes(
                            next,
                            rest,
                            open[0],
                            false,
                        );
                    assert(rest.queue == table.queue);
                }
            }
        },
        _ => {},
    }
}

/// A task that ends finishes the file of every partition that is open: the last one first, and is
/// over only where none is open.
pub proof fn ending_finishes_what_is_open<W, B>(
    table: IcebergTableWriter<W, B>,
    next: WriteStep<W, B>,
)
    requires
        table.wf(),
        call_ensures(IcebergTableWriter::<W, B>::close, (table,), next),
    ensures
        table.open@.len() == 0 ==> next is Closed && next->Closed_0.files == table.written,
        table.open@.len() > 0 ==> open_in(next) == table.open@.drop_last() && match table.open@.last().state {
            PartitionWriterState::Open { writer, .. } => next is CloseFile
                && next->CloseFile_0.writer == writer && next->CloseFile_0.key
                == table.open@.last().key && next->CloseFile_0.rest.closing,
            PartitionWriterState::Pending { batches, .. } => next is OpenFile
                && next->OpenFile_0.batches == batches && next->OpenFile_0.target.key
                == table.open@.last().key && next->OpenFile_0.target.purpose == (Purpose::Finish {
                closing: true,
            }),
        },
{
}

/// A column of a table comes from the first column of the batch that has its name. Only where the
/// batch has none does it come from the first field of the table's schema that has it, and where
/// there is neither, that is the error.
pub proof fn columns_come_from_their_own_name(
    columns: &Vec<String>,
    batch_columns: &Vec<String>,
    table_fields: &Vec<String>,
    r: Alignment,
    i: int,
)
    requires
        call_ensures(align_batch_with_table_schema, (columns, batch_columns, table_fields), r),
        0 <= i < r.sources@.len(),
    ensures
        r.error is None ==> r.sources@.len() == columns@.len(),
        r.error is Some ==> r.sources@.len() < columns@.len() && (forall|k: int|
            0 <= k < batch_columns@.len() ==> (#[trigger] batch_columns@[k])@
                != columns@[r.sources@.len() as int]@) && (forall|k: int|
            0 <= k < table_fields@.len() ==> (#[trigger] table_fields@[k])@
                != columns@[r.sources@.len() as int]@),
        match r.sources@[i] {
            ColumnSource::Batch(k) => k < batch_columns@.len() && batch_columns@[k as int]@
                == columns@[i]@ && forall|j: int|
                0 <= j < k ==> (#[trigger] batch_columns@[j])@ != columns@[i]@,
            ColumnSource::Missing(k) => k < table_fields@.len() && table_fields@[k as int]@
                == columns@[i]@ && (forall|j: int|
                0 <= j < k ==> (#[trigger] table_fields@[j])@ != columns@[i]@) && (forall|j: int|
                0 <= j < batch_columns@.len() ==> (#[trigger] batch_columns@[j])@ != columns@[i]@),
        },
{
    let (b, t) = (texts(batch_columns@), texts(table_fields@));
    assert forall|k: int| 0 <= k < batch_columns@.len() implies (#[trigger] batch_columns@[k])@
        == b[k] by {}
    assert forall|k: int| 0 <= k < table_fields@.len() implies (#[trigger] table_fields@[k])@
        == t[k] by {}
    assert(crate::table_writer::comes_from(columns@[i]@, r.sources@[i], b, t));
    if r.error is Some {
        let column = columns@[r.sources@.len() as int]@;
        assert forall|k: int| 0 <= k < batch_columns@.len() implies (#[trigger] batch_columns@[k])@
            != column by {
            if batch_columns@[k]@ == column {
                assert(b[k] == column);
                assert(b.contains(column));
            }
        }
        assert forall|k: int| 0 <= k < table_fields@.len() implies (#[trigger] table_fields@[k])@
            != column by {
            if table_fields@[k]@ == column {
                assert(t[k] == column);
                assert(t.contains(column));
            }
        }
    }
    match r.sources@[i] {
        ColumnSource::Batch(k) => {
            assert forall|j: int| 0 <= j < k implies (#[trigger] batch_columns@[j])@
                != columns@[i]@ by {
                assert(b[j] != columns@[i]@);
            }
        },
        ColumnSource::Missing(k) => {
            assert forall|j: int| 0 <= j < k implies (#[trigger] table_fields@[j])@
                != columns@[i]@ by {
                assert(t[j] != columns@[i]@);
            }
            assert forall|j: int| 0 <= j < batch_columns@.len() implies (
            #[trigger] batch_columns@[j])@ != columns@[i]@ by {
                if batch_columns@[j]@ == columns@[i]@ {
                    assert(b[j] == columns@[i]@);
                    assert(b.contains(columns@[i]@));
                }
            }
        },
    }
}

} // verus!
