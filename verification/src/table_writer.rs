//! The files that a task writes, one after the other for each partition.
use vstd::prelude::*;
use vstd::string::*;

use crate::error::{EngineError, EngineErrorView};
use crate::location::{join_url, url_joined};
use crate::table::{
    copy_partition, partition_values, same_partition, DataFile, Literal, PrimitiveLiteralView,
};
use crate::text::{text_equal, texts};

verus! {

/// What governs the files that a task writes.
#[derive(Debug, Clone, Copy, PartialEq, Eq, Structural)]
pub struct WriterSettings {
    /// The size from which on a file is finished.
    pub target_file_size_bytes: u64,
    /// The order that the rows of the files are in.
    pub sort_order_id: Option<i32>,
    /// The first rows of a partition are kept back, for the layout of its files to be found.
    pub shredding_enabled: bool,
    /// How many rows are kept back.
    pub inference_buffer_size: usize,
    /// How many partitions may have a file open at a time.
    pub max_open_writers: usize,
}

/// At least one.
pub open spec fn at_least_one(n: usize) -> usize {
    if n == 0 {
        1
    } else {
        n
    }
}

impl WriterSettings {
    /// How many partitions may be open at a time: one in any case.
    pub fn max_open(&self) -> (r: usize)
        ensures
            r == at_least_one(self.max_open_writers),
    {
        if self.max_open_writers == 0 {
            1
        } else {
            self.max_open_writers
        }
    }

    /// How many rows of a partition are kept back: one in any case.
    pub fn rows_kept_back(&self) -> (r: usize)
        ensures
            r == at_least_one(self.inference_buffer_size),
    {
        if self.inference_buffer_size == 0 {
            1
        } else {
            self.inference_buffer_size
        }
    }
}

/// A batch of rows, and how many they are.
pub struct RowBatch<B> {
    pub batch: B,
    pub rows: usize,
}

/// How many rows batches hold in all.
pub open spec fn batch_rows<B>(batches: Seq<RowBatch<B>>) -> nat
    decreases batches.len(),
{
    if batches.len() == 0 {
        0
    } else {
        batch_rows(batches.drop_last()) + batches.last().rows as nat
    }
}

/// How far the current file of a partition is.
pub enum PartitionWriterState<W, B> {
    /// Its first rows are kept back.
    Pending { batches: Vec<RowBatch<B>>, num_rows: usize },
    /// It is being written, and holds this many rows.
    Open { writer: W, rows: Ghost<nat> },
}

/// How many rows were given to the current file of a partition, or are kept back for it.
pub open spec fn file_rows<W, B>(state: PartitionWriterState<W, B>) -> nat {
    match state {
        PartitionWriterState::Pending { batches, .. } => batch_rows(batches@),
        PartitionWriterState::Open { rows, .. } => rows@,
    }
}

/// A partition whose current file is not finished.
pub struct PartitionWriter<W, B> {
    pub key: Vec<Option<Literal>>,
    pub partition_dir: String,
    pub state: PartitionWriterState<W, B>,
}

/// The values of the partition.
pub open spec fn key_of<W, B>(writer: PartitionWriter<W, B>) -> Seq<Option<PrimitiveLiteralView>> {
    partition_values(writer.key@)
}

/// The partition is at this place.
pub open spec fn key_at<W, B>(
    open: Seq<PartitionWriter<W, B>>,
    key: Seq<Option<PrimitiveLiteralView>>,
    i: int,
) -> bool {
    0 <= i < open.len() && key_of(open[i]) == key
}

/// The partition has an unfinished file.
pub open spec fn has_key<W, B>(
    open: Seq<PartitionWriter<W, B>>,
    key: Seq<Option<PrimitiveLiteralView>>,
) -> bool {
    exists|i: int| #[trigger] key_at(open, key, i)
}

/// No partition occurs twice.
pub open spec fn distinct_keys<W, B>(open: Seq<PartitionWriter<W, B>>) -> bool {
    forall|i: int, j: int|
        0 <= i < open.len() && 0 <= j < open.len() && i != j ==> key_of(#[trigger] open[i])
            != key_of(#[trigger] open[j])
}

/// A number of rows of a partition.
pub struct RowCount {
    pub key: Seq<Option<PrimitiveLiteralView>>,
    pub rows: nat,
}

/// How many rows are counted of a partition, or of all where none is named.
pub open spec fn counted(entry: RowCount, of: Option<Seq<Option<PrimitiveLiteralView>>>) -> nat {
    if of is None || of == Some(entry.key) {
        entry.rows
    } else {
        0
    }
}

/// How many rows a list counts of a partition, or of all where none is named.
pub open spec fn row_count(
    log: Seq<RowCount>,
    of: Option<Seq<Option<PrimitiveLiteralView>>>,
) -> nat
    decreases log.len(),
{
    if log.len() == 0 {
        0
    } else {
        row_count(log.drop_last(), of) + counted(log.last(), of)
    }
}

/// The rows of the unfinished files.
pub open spec fn open_rows<W, B>(open: Seq<PartitionWriter<W, B>>) -> Seq<RowCount> {
    Seq::new(
        open.len(),
        |i: int| RowCount { key: key_of(open[i]), rows: file_rows(open[i].state) },
    )
}

/// Rows of one partition that are to be written.
pub struct PartitionBatch<B> {
    pub key: Vec<Option<Literal>>,
    pub partition_dir: String,
    pub batch: B,
    pub rows: usize,
    /// How many of the rows are taken already.
    pub offset: usize,
}

impl<B> PartitionBatch<B> {
    pub fn new(key: Vec<Option<Literal>>, partition_dir: String, batch: B, rows: usize) -> (r: Self)
        ensures
            r == (PartitionBatch { key, partition_dir, batch, rows, offset: 0 }),
    {
        PartitionBatch { key, partition_dir, batch, rows, offset: 0 }
    }
}

/// The rows of a batch that are not taken yet.
pub open spec fn rows_left<B>(part: PartitionBatch<B>) -> RowCount {
    RowCount {
        key: partition_values(part.key@),
        rows: if part.offset < part.rows {
            (part.rows - part.offset) as nat
        } else {
            0
        },
    }
}

/// The rows that are still to be written.
pub open spec fn queued_rows<B>(queue: Seq<PartitionBatch<B>>) -> Seq<RowCount> {
    Seq::new(queue.len(), |i: int| rows_left(queue[i]))
}

/// Rows of a batch: where they begin, and how many they are.
#[derive(Debug, Clone, Copy, PartialEq, Eq, Structural)]
pub struct Chunk {
    pub offset: usize,
    pub rows: usize,
}

/// How many rows are written before the size of a file is looked at.
pub const ROWS_PER_CHUNK: usize = 1000;

/// The rows of a batch that are written next: a full chunk, or what is left.
pub open spec fn next_chunk<B>(part: PartitionBatch<B>) -> Chunk {
    Chunk {
        offset: part.offset,
        rows: if part.rows - part.offset < ROWS_PER_CHUNK {
            (part.rows - part.offset) as usize
        } else {
            ROWS_PER_CHUNK
        },
    }
}

/// The batches without those at their beginning of which all rows are taken.
pub open spec fn untaken<B>(queue: Seq<PartitionBatch<B>>) -> Seq<PartitionBatch<B>>
    decreases queue.len(),
{
    if queue.len() > 0 && queue[0].offset >= queue[0].rows {
        untaken(queue.skip(1))
    } else {
        queue
    }
}

proof fn lemma_count_push(
    log: Seq<RowCount>,
    entry: RowCount,
    of: Option<Seq<Option<PrimitiveLiteralView>>>,
)
    ensures
        row_count(log.push(entry), of) == row_count(log, of) + counted(entry, of),
{
    assert(log.push(entry).drop_last() =~= log);
}

proof fn lemma_count_concat(
    a: Seq<RowCount>,
    b: Seq<RowCount>,
    of: Option<Seq<Option<PrimitiveLiteralView>>>,
)
    ensures
        row_count(a + b, of) == row_count(a, of) + row_count(b, of),
    decreases b.len(),
{
    if b.len() == 0 {
        assert(a + b =~= a);
    } else {
        lemma_count_concat(a, b.drop_last(), of);
        assert((a + b).drop_last() =~= a + b.drop_last());
    }
}

proof fn lemma_count_remove(
    log: Seq<RowCount>,
    i: int,
    of: Option<Seq<Option<PrimitiveLiteralView>>>,
)
    requires
        0 <= i < log.len(),
    ensures
        row_count(log, of) == row_count(log.remove(i), of) + counted(log[i], of),
    decreases log.len(),
{
    if i == log.len() - 1 {
        assert(log.remove(i) =~= log.drop_last());
    } else {
        lemma_count_remove(log.drop_last(), i, of);
        assert(log.remove(i).drop_last() =~= log.drop_last().remove(i));
        assert(log.remove(i).last() == log.last());
    }
}

proof fn lemma_count_one(entry: RowCount, of: Option<Seq<Option<PrimitiveLiteralView>>>)
    ensures
        row_count(seq![entry], of) == counted(entry, of),
        row_count(Seq::<RowCount>::empty(), of) == 0,
{
    lemma_count_push(Seq::empty(), entry, of);
    assert(Seq::<RowCount>::empty().push(entry) =~= seq![entry]);
}

proof fn lemma_untaken<B>(
    queue: Seq<PartitionBatch<B>>,
    of: Option<Seq<Option<PrimitiveLiteralView>>>,
)
    ensures
        untaken(queue).len() > 0 ==> untaken(queue)[0].offset < untaken(queue)[0].rows,
        row_count(queued_rows(untaken(queue)), of) == row_count(queued_rows(queue), of),
    decreases queue.len(),
{
    if queue.len() > 0 && queue[0].offset >= queue[0].rows {
        lemma_untaken(queue.skip(1), of);
        lemma_count_remove(queued_rows(queue), 0, of);
        assert(queued_rows(queue).remove(0) =~= queued_rows(queue.skip(1)));
    }
}

proof fn lemma_batch_push<B>(batches: Seq<RowBatch<B>>, batch: RowBatch<B>)
    ensures
        batch_rows(batches.push(batch)) == batch_rows(batches) + batch.rows,
{
    assert(batches.push(batch).drop_last() =~= batches);
}

proof fn lemma_batch_first<B>(batches: Seq<RowBatch<B>>)
    requires
        batches.len() > 0,
    ensures
        batch_rows(batches) == batches[0].rows + batch_rows(batches.skip(1)),
    decreases batches.len(),
{
    if batches.len() > 1 {
        lemma_batch_first(batches.drop_last());
        assert(batches.drop_last().skip(1) =~= batches.skip(1).drop_last());
    } else {
        assert(batches.drop_last() =~= Seq::empty());
        assert(batches.skip(1) =~= Seq::empty());
    }
}

/// What became of the rows and the files of a task.
pub struct RowAccount {
    /// The rows that the task was given.
    pub handed: Seq<RowCount>,
    /// The rows of the finished files.
    pub finished: Seq<RowCount>,
    /// The rows that were given up after a failure.
    pub given_up: Seq<RowCount>,
    /// How many files were begun.
    pub begun: nat,
    /// How many files were given up after a failure.
    pub lost: nat,
}

/// What a task has written and is writing. A file that is being written is a `W`, and a batch of
/// rows a `B`.
pub struct IcebergTableWriter<W, B> {
    pub settings: WriterSettings,
    /// The partitions whose files are not finished, the least recently written one first.
    pub open: Vec<PartitionWriter<W, B>>,
    /// The finished files.
    pub written: Vec<DataFile>,
    /// Rows that are still to be written.
    pub queue: Vec<PartitionBatch<B>>,
    pub partition_spec_id: i32,
    /// Where the files of the table are.
    pub data_url: String,
    pub account: Ghost<RowAccount>,
}

/// A table writer that differs from another only in its unfinished files.
pub open spec fn with_open<W, B>(
    table: IcebergTableWriter<W, B>,
    base: IcebergTableWriter<W, B>,
    open: Seq<PartitionWriter<W, B>>,
) -> bool {
    table.open@ == open && table == (IcebergTableWriter { open: table.open, ..base })
}

/// A table writer that differs from another only in the rows that it still has to write.
pub open spec fn with_queue<W, B>(
    table: IcebergTableWriter<W, B>,
    base: IcebergTableWriter<W, B>,
    queue: Seq<PartitionBatch<B>>,
) -> bool {
    table.queue@ == queue && table == (IcebergTableWriter { queue: table.queue, ..base })
}

/// A table writer in whose books one more file is begun.
pub open spec fn with_file_begun<W, B>(table: IcebergTableWriter<W, B>) -> IcebergTableWriter<W, B> {
    IcebergTableWriter {
        account: Ghost(RowAccount { begun: table.account@.begun + 1, ..table.account@ }),
        ..table
    }
}

impl<W, B> IcebergTableWriter<W, B> {
    /// Every file that was begun is unfinished, finished, given up or elsewhere.
    pub open spec fn files_balance(&self, files_elsewhere: nat) -> bool {
        self.account@.begun == self.open@.len() + self.written@.len() + self.account@.lost
            + files_elsewhere
    }

    /// Every row that was handed in is still to be written, in an unfinished or a finished file,
    /// given up or elsewhere: all rows together, and those of each partition.
    pub open spec fn rows_balance(&self, elsewhere: Seq<RowCount>) -> bool {
        forall|of: Option<Seq<Option<PrimitiveLiteralView>>>| #[trigger]
            row_count(self.account@.handed, of) == row_count(queued_rows(self.queue@), of)
                + row_count(open_rows(self.open@), of) + row_count(self.account@.finished, of)
                + row_count(self.account@.given_up, of) + row_count(elsewhere, of)
    }

    /// No partition has two unfinished files, and no more partitions are open than may be. All
    /// files have rows, and the finished ones say in which order.
    pub open spec fn accounts(&self, files_elsewhere: nat, elsewhere: Seq<RowCount>) -> bool {
        &&& distinct_keys(self.open@)
        &&& forall|i: int|
            0 <= i < self.open@.len() ==> state_wf(
                (#[trigger] self.open@[i]).state,
                self.settings,
            ) && file_rows(self.open@[i].state) > 0
        &&& self.open@.len() <= at_least_one(self.settings.max_open_writers)
        &&& self.account@.finished.len() == self.written@.len()
        &&& forall|i: int|
            0 <= i < self.account@.finished.len() ==> (#[trigger] self.account@.finished[i]).rows
                > 0
        &&& forall|i: int|
            0 <= i < self.written@.len() ==> (#[trigger] self.written@[i]).sort_order_id
                == self.settings.sort_order_id
        &&& self.account@.lost == 0 ==> self.account@.given_up.len() == 0
        &&& self.files_balance(files_elsewhere)
        &&& self.rows_balance(elsewhere)
    }

    /// Nothing is under way.
    pub open spec fn wf(&self) -> bool {
        self.accounts(0, seq![]) && self.queue@.len() == 0
    }

    pub fn new(settings: WriterSettings, partition_spec_id: i32, data_url: String) -> (r: Self)
        ensures
            r.wf(),
            r.settings == settings,
            r.partition_spec_id == partition_spec_id,
            r.data_url == data_url,
            r.open@ == Seq::<PartitionWriter<W, B>>::empty(),
            r.written@ == Seq::<DataFile>::empty(),
            r.account@.handed == Seq::<RowCount>::empty(),
            r.account@.lost == 0,
    {
        let r = IcebergTableWriter {
            settings,
            open: Vec::new(),
            written: Vec::new(),
            queue: Vec::new(),
            partition_spec_id,
            data_url,
            account: Ghost(
                RowAccount {
                    handed: seq![],
                    finished: seq![],
                    given_up: seq![],
                    begun: 0,
                    lost: 0,
                },
            ),
        };
        assert(queued_rows(r.queue@) =~= seq![]);
        assert(open_rows(r.open@) =~= seq![]);
        r
    }

    /// Where a file is, from its path below the directory of the table's files.
    pub fn file_location(&self, relative: &str) -> (r: Result<String, String>)
        ensures
            match r {
                Ok(location) => url_joined(self.data_url@, "./"@ + relative@) == Ok::<
                    Seq<char>,
                    Seq<char>,
                >(location@),
                Err(error) => url_joined(self.data_url@, "./"@ + relative@) == Err::<
                    Seq<char>,
                    Seq<char>,
                >(error@),
            },
    {
        let reference = String::from_str("./").concat(relative);
        join_url(self.data_url.as_str(), reference.as_str())
    }

    fn find(&self, key: &Vec<Option<Literal>>) -> (r: Option<usize>)
        ensures
            match r {
                Some(i) => key_at(self.open@, partition_values(key@), i as int),
                None => !has_key(self.open@, partition_values(key@)),
            },
    {
        let mut i: usize = 0;
        while i < self.open.len()
            invariant
                i <= self.open.len(),
                forall|j: int| 0 <= j < i ==> !key_at(self.open@, partition_values(key@), j),
            decreases self.open.len() - i,
        {
            if same_partition(&self.open[i].key, key) {
                assert(key_at(self.open@, partition_values(key@), i as int));
                return Some(i);
            }
            i += 1;
        }
        None
    }

    /// Writes rows, partition by partition. What comes back is what is to be done next.
    pub fn write(self, parts: Vec<PartitionBatch<B>>) -> (next: WriteStep<W, B>)
        requires
            self.wf(),
        ensures
            next.wf(),
            resumes(next, handed_rows(self, parts)),
    {
        let mut table = self;
        let ghost before = table;
        table.queue = parts;
        table.account = Ghost(
            RowAccount {
                handed: table.account@.handed + queued_rows(parts@),
                ..table.account@
            },
        );
        proof {
            assert(queued_rows(before.queue@) =~= seq![]);
            assert forall|of: Option<Seq<Option<PrimitiveLiteralView>>>| #[trigger]
                row_count(table.account@.handed, of) == row_count(queued_rows(table.queue@), of)
                    + row_count(open_rows(table.open@), of) + row_count(
                    table.account@.finished,
                    of,
                ) + row_count(table.account@.given_up, of) + row_count(seq![], of) by {
                lemma_count_concat(before.account@.handed, queued_rows(parts@), of);
                assert(row_count(before.account@.handed, of) == row_count(
                    queued_rows(before.queue@),
                    of,
                ) + row_count(open_rows(before.open@), of) + row_count(
                    before.account@.finished,
                    of,
                ) + row_count(before.account@.given_up, of) + row_count(seq![], of));
            }
        }
        resume(table)
    }

    /// Finishes all files. What comes back is what is to be done next.
    pub fn close(self) -> (next: WriteStep<W, B>)
        requires
            self.wf(),
        ensures
            next.wf(),
            closes(next, self),
    {
        close_next(self)
    }
}

/// A table writer that was handed rows.
pub open spec fn handed_rows<W, B>(
    table: IcebergTableWriter<W, B>,
    parts: Vec<PartitionBatch<B>>,
) -> IcebergTableWriter<W, B> {
    IcebergTableWriter {
        queue: parts,
        account: Ghost(
            RowAccount {
                handed: table.account@.handed + queued_rows(parts@),
                ..table.account@
            },
        ),
        ..table
    }
}

/// A state of a partition whose rows are kept back holds fewer than are to be kept back.
pub open spec fn state_wf<W, B>(
    state: PartitionWriterState<W, B>,
    settings: WriterSettings,
) -> bool {
    match state {
        PartitionWriterState::Pending { batches, num_rows } => num_rows == batch_rows(batches@)
            && num_rows < at_least_one(settings.inference_buffer_size),
        PartitionWriterState::Open { .. } => true,
    }
}

/// A partition is taken out: its file and the rows of it are elsewhere.
proof fn lemma_take_out<W, B>(
    before: IcebergTableWriter<W, B>,
    after: IcebergTableWriter<W, B>,
    i: int,
    elsewhere: Seq<RowCount>,
)
    requires
        before.accounts(0, elsewhere),
        0 <= i < before.open@.len(),
        with_open(after, before, before.open@.remove(i)),
    ensures
        after.accounts(
            1,
            elsewhere.push(
                RowCount {
                    key: key_of(before.open@[i]),
                    rows: file_rows(before.open@[i].state),
                },
            ),
        ),
        !has_key(after.open@, key_of(before.open@[i])),
{
    let open = before.open@;
    let rest = open.remove(i);
    let taken = RowCount { key: key_of(open[i]), rows: file_rows(open[i].state) };
    let place = |k: int| if k < i { k } else { k + 1 };
    assert forall|a: int, b: int|
        0 <= a < rest.len() && 0 <= b < rest.len() && a != b implies key_of(#[trigger] rest[a])
        != key_of(#[trigger] rest[b]) by {
        assert(rest[a] == open[place(a)]);
        assert(rest[b] == open[place(b)]);
    }
    assert forall|k: int| !#[trigger] key_at(rest, key_of(open[i]), k) by {
        if 0 <= k < rest.len() {
            assert(rest[k] == open[place(k)]);
            assert(open[place(k)] != open[i]);
        }
    }
    assert forall|k: int| 0 <= k < rest.len() implies state_wf(
        (#[trigger] rest[k]).state,
        before.settings,
    ) && file_rows(rest[k].state) > 0 by {
        assert(rest[k] == open[place(k)]);
    }
    assert forall|of: Option<Seq<Option<PrimitiveLiteralView>>>| #[trigger]
        row_count(after.account@.handed, of) == row_count(queued_rows(after.queue@), of)
            + row_count(open_rows(after.open@), of) + row_count(after.account@.finished, of)
            + row_count(after.account@.given_up, of) + row_count(elsewhere.push(taken), of) by {
        lemma_count_remove(open_rows(open), i, of);
        assert(open_rows(open).remove(i) =~= open_rows(rest));
        lemma_count_push(elsewhere, taken, of);
        assert(row_count(before.account@.handed, of) == row_count(queued_rows(before.queue@), of)
            + row_count(open_rows(before.open@), of) + row_count(before.account@.finished, of)
            + row_count(before.account@.given_up, of) + row_count(elsewhere, of));
    }
}

/// What is to be done next to write rows.
pub enum WriteStep<W, B> {
    /// Nothing: all rows are written, or kept back.
    Idle(IcebergTableWriter<W, B>),
    Slice(Slice<W, B>),
    OpenFile(OpenFile<W, B>),
    WriteBatch(WriteBatch<W, B>),
    CloseFile(CloseFile<W, B>),
    /// All files are finished.
    Closed(ClosedFiles),
    /// Something failed. The file that it was about is given up, and no more rows are written.
    Failed { table: IcebergTableWriter<W, B>, error: String },
}

impl<W, B> WriteStep<W, B> {
    pub open spec fn wf(&self) -> bool {
        match self {
            WriteStep::Idle(table) => table.wf(),
            WriteStep::Slice(s) => s.wf(),
            WriteStep::OpenFile(s) => s.wf(),
            WriteStep::WriteBatch(s) => s.wf(),
            WriteStep::CloseFile(s) => s.wf(),
            WriteStep::Closed(closed) => closed.wf(),
            WriteStep::Failed { table, .. } => table.wf(),
        }
    }
}

/// The files of a task that is over.
pub struct ClosedFiles {
    pub files: Vec<DataFile>,
    pub settings: WriterSettings,
    pub account: Ghost<RowAccount>,
}

impl ClosedFiles {
    /// There is a file for each that was begun but for those that were given up. All have rows and
    /// say in which order, and all rows that were handed in are in the files or given up.
    pub open spec fn wf(&self) -> bool {
        &&& self.account@.begun == self.files@.len() + self.account@.lost
        &&& self.account@.finished.len() == self.files@.len()
        &&& forall|i: int|
            0 <= i < self.account@.finished.len() ==> (#[trigger] self.account@.finished[i]).rows
                > 0
        &&& forall|i: int|
            0 <= i < self.files@.len() ==> (#[trigger] self.files@[i]).sort_order_id
                == self.settings.sort_order_id
        &&& self.account@.lost == 0 ==> self.account@.given_up.len() == 0
        &&& forall|of: Option<Seq<Option<PrimitiveLiteralView>>>| #[trigger]
            row_count(self.account@.handed, of) == row_count(self.account@.finished, of)
                + row_count(self.account@.given_up, of)
    }
}

/// What comes next between two chunks: the next one is to be taken, if there is one.
pub open spec fn resumes<W, B>(next: WriteStep<W, B>, table: IcebergTableWriter<W, B>) -> bool {
    let queue = untaken(table.queue@);
    if queue.len() == 0 {
        next matches WriteStep::Idle(idle) && with_queue(idle, table, queue)
    } else {
        next matches WriteStep::Slice(slice) && with_queue(slice.table, table, queue)
            && slice.chunk == next_chunk(queue[0])
    }
}

fn resume<W, B>(table: IcebergTableWriter<W, B>) -> (next: WriteStep<W, B>)
    requires
        table.accounts(0, seq![]),
    ensures
        next.wf(),
        resumes(next, table),
{
    let mut table = table;
    let ghost all = untaken(table.queue@);
    let ghost base = table;
    while table.queue.len() > 0 && table.queue[0].offset >= table.queue[0].rows
        invariant
            all == untaken(table.queue@),
            table == (IcebergTableWriter { queue: table.queue, ..base }),
        decreases table.queue.len(),
    {
        let ghost before = table.queue@;
        let _done = table.queue.remove(0);
        assert(table.queue@ =~= before.skip(1));
    }
    proof {
        lemma_untaken(base.queue@, None);
        assert forall|of: Option<Seq<Option<PrimitiveLiteralView>>>| #[trigger]
            row_count(table.account@.handed, of) == row_count(queued_rows(table.queue@), of)
                + row_count(open_rows(table.open@), of) + row_count(table.account@.finished, of)
                + row_count(table.account@.given_up, of) + row_count(seq![], of) by {
            lemma_untaken(base.queue@, of);
            assert(row_count(base.account@.handed, of) == row_count(
                queued_rows(base.queue@),
                of,
            ) + row_count(open_rows(base.open@), of) + row_count(base.account@.finished, of)
                + row_count(base.account@.given_up, of) + row_count(seq![], of));
        }
    }
    if table.queue.len() == 0 {
        WriteStep::Idle(table)
    } else {
        let offset: usize = table.queue[0].offset;
        let left: usize = table.queue[0].rows - offset;
        let rows: usize = if left < ROWS_PER_CHUNK {
            left
        } else {
            ROWS_PER_CHUNK
        };
        WriteStep::Slice(Slice { table, chunk: Chunk { offset, rows } })
    }
}

/// Rows are to be taken out of the first batch that is still to be written.
pub struct Slice<W, B> {
    pub table: IcebergTableWriter<W, B>,
    pub chunk: Chunk,
}

impl<W, B> Slice<W, B> {
    pub open spec fn wf(&self) -> bool {
        &&& self.table.accounts(0, seq![])
        &&& self.table.queue@.len() > 0
        &&& self.table.queue@[0].offset < self.table.queue@[0].rows
        &&& self.chunk == next_chunk(self.table.queue@[0])
    }

    /// The batch that the rows are in.
    pub fn batch(&self) -> (r: &B)
        requires
            self.wf(),
        ensures
            *r == self.table.queue@[0].batch,
    {
        &self.table.queue[0].batch
    }

    /// The rows are written to the current file of their partition, or to a new one.
    pub fn sliced(self, rows: B) -> (next: WriteStep<W, B>)
        requires
            self.wf(),
        ensures
            next.wf(),
            writes_slice(next, self, rows),
    {
        let mut table = self.table;
        let chunk = self.chunk;
        let ghost before = table;
        let ghost queue = table.queue@;
        let mut part = table.queue.remove(0);
        let key = copy_partition(&part.key);
        let partition_dir = part.partition_dir.clone();
        part.offset = part.offset + chunk.rows;
        table.queue.insert(0, part);
        let batch = RowBatch { batch: rows, rows: chunk.rows };
        let ghost after = table;
        proof {
            assert(table.queue@ =~= queue.update(0, part));
            let taken = RowCount { key: partition_values(key@), rows: chunk.rows as nat };
            assert forall|of: Option<Seq<Option<PrimitiveLiteralView>>>| #[trigger]
                row_count(after.account@.handed, of) == row_count(queued_rows(after.queue@), of)
                    + row_count(open_rows(after.open@), of) + row_count(
                    after.account@.finished,
                    of,
                ) + row_count(after.account@.given_up, of) + row_count(seq![taken], of) by {
                lemma_count_remove(queued_rows(queue), 0, of);
                lemma_count_remove(queued_rows(after.queue@), 0, of);
                assert(queued_rows(queue).remove(0) =~= queued_rows(after.queue@).remove(0));
                lemma_count_one(taken, of);
                assert(row_count(before.account@.handed, of) == row_count(
                    queued_rows(before.queue@),
                    of,
                ) + row_count(open_rows(before.open@), of) + row_count(
                    before.account@.finished,
                    of,
                ) + row_count(before.account@.given_up, of) + row_count(seq![], of));
            }
        }
        let next = write_rows(table, key, partition_dir, batch);
        assert(writes(next, after, key, partition_dir, batch));
        next
    }
}

/// What comes next once rows are taken out of the first batch.
pub open spec fn writes_slice<W, B>(next: WriteStep<W, B>, slice: Slice<W, B>, rows: B) -> bool {
    let part = slice.table.queue@[0];
    exists|table: IcebergTableWriter<W, B>, key: Vec<Option<Literal>>|
        {
            &&& with_queue(
                table,
                slice.table,
                slice.table.queue@.update(
                    0,
                    PartitionBatch { offset: (part.offset + slice.chunk.rows) as usize, ..part },
                ),
            )
            &&& partition_values(key@) == partition_values(part.key@)
            &&& #[trigger] writes(
                next,
                table,
                key,
                part.partition_dir,
                RowBatch { batch: rows, rows: slice.chunk.rows },
            )
        }
}

/// What comes next where rows are to be written: the current file of their partition takes them, or
/// a new one.
pub open spec fn writes<W, B>(
    next: WriteStep<W, B>,
    table: IcebergTableWriter<W, B>,
    key: Vec<Option<Literal>>,
    partition_dir: String,
    batch: RowBatch<B>,
) -> bool {
    if has_key(table.open@, partition_values(key@)) {
        exists|i: int, rest: IcebergTableWriter<W, B>|
            {
                &&& #[trigger] key_at(table.open@, partition_values(key@), i)
                &&& with_open(rest, table, table.open@.remove(i))
                &&& #[trigger] writes_to(
                    next,
                    rest,
                    key,
                    partition_dir,
                    table.open@[i].state,
                    batch,
                )
            }
    } else if table.settings.shredding_enabled {
        exists|none: Vec<RowBatch<B>>|
            none@ == Seq::<RowBatch<B>>::empty() && #[trigger] writes_to(
                next,
                with_file_begun(table),
                key,
                partition_dir,
                PartitionWriterState::Pending { batches: none, num_rows: 0 },
                batch,
            )
    } else {
        next matches WriteStep::OpenFile(open) && open.batches@ == seq![batch] && open == (OpenFile {
            target: FileTarget {
                table: with_file_begun(table),
                key,
                partition_dir,
                purpose: Purpose::KeepOpen,
                rows: Ghost(0),
            },
            batches: open.batches,
            kept_back: false,
        })
    }
}

/// What comes next where rows are to be written to a file that is begun.
pub open spec fn writes_to<W, B>(
    next: WriteStep<W, B>,
    table: IcebergTableWriter<W, B>,
    key: Vec<Option<Literal>>,
    partition_dir: String,
    state: PartitionWriterState<W, B>,
    batch: RowBatch<B>,
) -> bool {
    match state {
        PartitionWriterState::Open { writer, rows } => next matches WriteStep::WriteBatch(write)
            && write.later@ == Seq::<RowBatch<B>>::empty() && write == (WriteBatch {
            target: FileTarget { table, key, partition_dir, purpose: Purpose::KeepOpen, rows },
            writer,
            batch,
            later: write.later,
        }),
        PartitionWriterState::Pending { batches, num_rows } => if num_rows + batch.rows
            >= at_least_one(table.settings.inference_buffer_size) {
            next matches WriteStep::OpenFile(open) && open.batches@ == batches@.push(batch)
                && open == (OpenFile {
                target: FileTarget {
                    table,
                    key,
                    partition_dir,
                    purpose: Purpose::KeepOpen,
                    rows: Ghost(0),
                },
                batches: open.batches,
                kept_back: true,
            })
        } else {
            exists|kept: Vec<RowBatch<B>>|
                kept@ == batches@.push(batch) && #[trigger] settles(
                    next,
                    table,
                    PartitionWriter {
                        key,
                        partition_dir,
                        state: PartitionWriterState::Pending {
                            batches: kept,
                            num_rows: (num_rows + batch.rows) as usize,
                        },
                    },
                )
        },
    }
}

/// Rows of one partition that are counted in two entries may be counted in one.
proof fn lemma_merge_elsewhere<W, B>(
    table: IcebergTableWriter<W, B>,
    files: nat,
    key: Seq<Option<PrimitiveLiteralView>>,
    a: nat,
    b: nat,
)
    requires
        table.accounts(files, seq![RowCount { key, rows: a }].push(RowCount { key, rows: b })),
    ensures
        table.accounts(files, seq![RowCount { key, rows: a + b }]),
{
    let two = seq![RowCount { key, rows: a }].push(RowCount { key, rows: b });
    let one = RowCount { key, rows: a + b };
    assert forall|of: Option<Seq<Option<PrimitiveLiteralView>>>| #[trigger]
        row_count(table.account@.handed, of) == row_count(queued_rows(table.queue@), of)
            + row_count(open_rows(table.open@), of) + row_count(table.account@.finished, of)
            + row_count(table.account@.given_up, of) + row_count(seq![one], of) by {
        lemma_count_push(seq![RowCount { key, rows: a }], RowCount { key, rows: b }, of);
        lemma_count_one(RowCount { key, rows: a }, of);
        lemma_count_one(one, of);
        assert(row_count(table.account@.handed, of) == row_count(queued_rows(table.queue@), of)
            + row_count(open_rows(table.open@), of) + row_count(table.account@.finished, of)
            + row_count(table.account@.given_up, of) + row_count(two, of));
    }
}

fn write_rows<W, B>(
    table: IcebergTableWriter<W, B>,
    key: Vec<Option<Literal>>,
    partition_dir: String,
    batch: RowBatch<B>,
) -> (next: WriteStep<W, B>)
    requires
        table.accounts(
            0,
            seq![RowCount { key: partition_values(key@), rows: batch.rows as nat }],
        ),
        batch.rows > 0,
    ensures
        next.wf(),
        writes(next, table, key, partition_dir, batch),
{
    let found = table.find(&key);
    let ghost before = table;
    let ghost values = partition_values(key@);
    let ghost in_hand = seq![RowCount { key: values, rows: batch.rows as nat }];
    let mut table = table;
    match found {
        Some(i) => {
            let current = table.open.remove(i);
            proof {
                lemma_take_out(before, table, i as int, in_hand);
                lemma_merge_elsewhere(
                    table,
                    1,
                    values,
                    batch.rows as nat,
                    file_rows(current.state),
                );
                assert(has_key(before.open@, values));
            }
            write_to(table, key, partition_dir, current.state, batch)
        },
        None => {
            table.account = Ghost(
                RowAccount { begun: table.account@.begun + 1, ..table.account@ },
            );
            assert(table.accounts(1, in_hand));
            if table.settings.shredding_enabled {
                let state = PartitionWriterState::Pending { batches: Vec::new(), num_rows: 0 };
                write_to(table, key, partition_dir, state, batch)
            } else {
                let mut batches: Vec<RowBatch<B>> = Vec::new();
                batches.push(batch);
                assert(batches@ =~= seq![batch]);
                proof {
                    lemma_batch_push(Seq::<RowBatch<B>>::empty(), batch);
                    assert(Seq::<RowBatch<B>>::empty().push(batch) =~= seq![batch]);
                }
                let target = FileTarget {
                    table,
                    key,
                    partition_dir,
                    purpose: Purpose::KeepOpen,
                    rows: Ghost(0),
                };
                WriteStep::OpenFile(OpenFile { target, batches, kept_back: false })
            }
        },
    }
}

fn write_to<W, B>(
    table: IcebergTableWriter<W, B>,
    key: Vec<Option<Literal>>,
    partition_dir: String,
    state: PartitionWriterState<W, B>,
    batch: RowBatch<B>,
) -> (next: WriteStep<W, B>)
    requires
        table.accounts(
            1,
            seq![
                RowCount {
                    key: partition_values(key@),
                    rows: batch.rows as nat + file_rows(state),
                },
            ],
        ),
        batch.rows > 0,
        !has_key(table.open@, partition_values(key@)),
        state_wf(state, table.settings),
    ensures
        next.wf(),
        writes_to(next, table, key, partition_dir, state, batch),
{
    match state {
        PartitionWriterState::Open { writer, rows } => {
            let target = FileTarget {
                table,
                key,
                partition_dir,
                purpose: Purpose::KeepOpen,
                rows,
            };
            WriteStep::WriteBatch(WriteBatch { target, writer, batch, later: Vec::new() })
        },
        PartitionWriterState::Pending { batches, num_rows } => {
            let mut batches = batches;
            let limit: usize = table.settings.rows_kept_back();
            let rows: usize = batch.rows;
            proof {
                lemma_batch_push(batches@, batch);
            }
            batches.push(batch);
            if rows >= limit - num_rows {
                let target = FileTarget {
                    table,
                    key,
                    partition_dir,
                    purpose: Purpose::KeepOpen,
                    rows: Ghost(0),
                };
                WriteStep::OpenFile(OpenFile { target, batches, kept_back: true })
            } else {
                let state = PartitionWriterState::Pending { batches, num_rows: num_rows + rows };
                settle(table, PartitionWriter { key, partition_dir, state })
            }
        },
    }
}

/// What comes next once a partition was written to: it is the most recently written one, and the
/// least recently written one is finished where there are more than may be.
pub open spec fn settles<W, B>(
    next: WriteStep<W, B>,
    table: IcebergTableWriter<W, B>,
    entry: PartitionWriter<W, B>,
) -> bool {
    let open = table.open@.push(entry);
    if open.len() > at_least_one(table.settings.max_open_writers) {
        exists|rest: IcebergTableWriter<W, B>|
            with_open(rest, table, open.skip(1)) && #[trigger] finishes(next, rest, open[0], false)
    } else {
        exists|after: IcebergTableWriter<W, B>|
            with_open(after, table, open) && #[trigger] resumes(next, after)
    }
}

/// A partition is put back as the most recently written one, and the least recently written one
/// taken out where there are more than may be.
proof fn lemma_put_back<W, B>(
    before: IcebergTableWriter<W, B>,
    after: IcebergTableWriter<W, B>,
    entry: PartitionWriter<W, B>,
)
    requires
        before.accounts(
            1,
            seq![RowCount { key: key_of(entry), rows: file_rows(entry.state) }],
        ),
        !has_key(before.open@, key_of(entry)),
        state_wf(entry.state, before.settings),
        file_rows(entry.state) > 0,
        with_open(after, before, before.open@.push(entry)),
        before.open@.len() < at_least_one(before.settings.max_open_writers),
    ensures
        after.accounts(0, seq![]),
{
    lemma_put_back_open(before.open@, entry, before.settings);
    lemma_put_back_rows(before, after, entry);
}

proof fn lemma_put_back_open<W, B>(
    before: Seq<PartitionWriter<W, B>>,
    entry: PartitionWriter<W, B>,
    settings: WriterSettings,
)
    requires
        distinct_keys(before),
        forall|i: int|
            0 <= i < before.len() ==> state_wf((#[trigger] before[i]).state, settings) && file_rows(
                before[i].state,
            ) > 0,
        !has_key(before, key_of(entry)),
        state_wf(entry.state, settings),
        file_rows(entry.state) > 0,
    ensures
        distinct_keys(before.push(entry)),
        forall|i: int|
            0 <= i < before.push(entry).len() ==> state_wf(
                (#[trigger] before.push(entry)[i]).state,
                settings,
            ) && file_rows(before.push(entry)[i].state) > 0,
{
    let open = before.push(entry);
    assert forall|i: int, j: int|
        0 <= i < open.len() && 0 <= j < open.len() && i != j implies key_of(#[trigger] open[i])
        != key_of(#[trigger] open[j]) by {
        if i == before.len() {
            assert(!key_at(before, key_of(entry), j));
        } else if j == before.len() {
            assert(!key_at(before, key_of(entry), i));
        } else {
            assert(open[i] == before[i] && open[j] == before[j]);
        }
    }
    assert forall|i: int| 0 <= i < open.len() implies state_wf((#[trigger] open[i]).state, settings)
        && file_rows(open[i].state) > 0 by {
        if i < before.len() {
            assert(open[i] == before[i]);
        }
    }
}

proof fn lemma_put_back_rows<W, B>(
    before: IcebergTableWriter<W, B>,
    after: IcebergTableWriter<W, B>,
    entry: PartitionWriter<W, B>,
)
    requires
        before.rows_balance(
            seq![RowCount { key: key_of(entry), rows: file_rows(entry.state) }],
        ),
        with_open(after, before, before.open@.push(entry)),
    ensures
        after.rows_balance(seq![]),
{
    let held = RowCount { key: key_of(entry), rows: file_rows(entry.state) };
    assert forall|of: Option<Seq<Option<PrimitiveLiteralView>>>| #[trigger]
        row_count(after.account@.handed, of) == row_count(queued_rows(after.queue@), of)
            + row_count(open_rows(after.open@), of) + row_count(after.account@.finished, of)
            + row_count(after.account@.given_up, of) + row_count(seq![], of) by {
        lemma_count_push(open_rows(before.open@), held, of);
        assert(open_rows(after.open@) =~= open_rows(before.open@).push(held));
        lemma_count_one(held, of);
        assert(row_count(before.account@.handed, of) == row_count(queued_rows(before.queue@), of)
            + row_count(open_rows(before.open@), of) + row_count(before.account@.finished, of)
            + row_count(before.account@.given_up, of) + row_count(seq![held], of));
    }
}

/// A partition is put back as the most recently written one, and the least recently written one is
/// taken out in its place.
proof fn lemma_exchange<W, B>(
    before: IcebergTableWriter<W, B>,
    after: IcebergTableWriter<W, B>,
    entry: PartitionWriter<W, B>,
)
    requires
        before.accounts(
            1,
            seq![RowCount { key: key_of(entry), rows: file_rows(entry.state) }],
        ),
        !has_key(before.open@, key_of(entry)),
        state_wf(entry.state, before.settings),
        file_rows(entry.state) > 0,
        with_open(after, before, before.open@.push(entry).skip(1)),
    ensures
        ({
            let evicted = before.open@.push(entry)[0];
            &&& after.accounts(
                1,
                seq![RowCount { key: key_of(evicted), rows: file_rows(evicted.state) }],
            )
            &&& !has_key(after.open@, key_of(evicted))
        }),
{
    let open = before.open@.push(entry);
    let evicted = open[0];
    let out = RowCount { key: key_of(evicted), rows: file_rows(evicted.state) };
    let held = RowCount { key: key_of(entry), rows: file_rows(entry.state) };
    lemma_put_back_open(before.open@, entry, before.settings);
    assert forall|a: int, b: int|
        0 <= a < after.open@.len() && 0 <= b < after.open@.len() && a != b implies key_of(
        #[trigger] after.open@[a],
    ) != key_of(#[trigger] after.open@[b]) by {
        assert(after.open@[a] == open[a + 1] && after.open@[b] == open[b + 1]);
    }
    assert forall|k: int| !#[trigger] key_at(after.open@, key_of(evicted), k) by {
        if 0 <= k < after.open@.len() {
            assert(after.open@[k] == open[k + 1]);
            assert(key_of(open[k + 1]) != key_of(open[0]));
        }
    }
    assert forall|k: int| 0 <= k < after.open@.len() implies state_wf(
        (#[trigger] after.open@[k]).state,
        before.settings,
    ) && file_rows(after.open@[k].state) > 0 by {
        assert(after.open@[k] == open[k + 1]);
    }
    assert forall|of: Option<Seq<Option<PrimitiveLiteralView>>>| #[trigger]
        row_count(after.account@.handed, of) == row_count(queued_rows(after.queue@), of)
            + row_count(open_rows(after.open@), of) + row_count(after.account@.finished, of)
            + row_count(after.account@.given_up, of) + row_count(seq![out], of) by {
        lemma_count_push(open_rows(before.open@), held, of);
        assert(open_rows(open) =~= open_rows(before.open@).push(held));
        lemma_count_remove(open_rows(open), 0, of);
        assert(open_rows(open).remove(0) =~= open_rows(after.open@));
        lemma_count_one(held, of);
        lemma_count_one(out, of);
        assert(row_count(before.account@.handed, of) == row_count(queued_rows(before.queue@), of)
            + row_count(open_rows(before.open@), of) + row_count(before.account@.finished, of)
            + row_count(before.account@.given_up, of) + row_count(seq![held], of));
    }
}

fn settle<W, B>(table: IcebergTableWriter<W, B>, entry: PartitionWriter<W, B>) -> (next: WriteStep<
    W,
    B,
>)
    requires
        table.accounts(
            1,
            seq![RowCount { key: key_of(entry), rows: file_rows(entry.state) }],
        ),
        !has_key(table.open@, key_of(entry)),
        state_wf(entry.state, table.settings),
        file_rows(entry.state) > 0,
    ensures
        next.wf(),
        settles(next, table, entry),
{
    let ghost before = table;
    let mut table = table;
    table.open.push(entry);
    let ghost open = table.open@;
    if table.open.len() > table.settings.max_open() {
        let partition = table.open.remove(0);
        let ghost rest = table;
        proof {
            assert(open.remove(0) =~= open.skip(1));
            lemma_exchange(before, rest, entry);
        }
        let next = finish(table, partition, false);
        assert(finishes(next, rest, partition, false));
        next
    } else {
        let ghost after = table;
        proof {
            lemma_put_back(before, after, entry);
        }
        let next = resume(table);
        assert(resumes(next, after));
        next
    }
}

/// What comes next where the current file of a partition is to be finished: rows that are kept back
/// are written first.
pub open spec fn finishes<W, B>(
    next: WriteStep<W, B>,
    table: IcebergTableWriter<W, B>,
    partition: PartitionWriter<W, B>,
    closing: bool,
) -> bool {
    match partition.state {
        PartitionWriterState::Open { writer, rows } => next == WriteStep::CloseFile(
            CloseFile {
                writer,
                key: partition.key,
                rest: Finishing {
                    table,
                    closing,
                    file: Ghost(RowCount { key: key_of(partition), rows: rows@ }),
                },
            },
        ),
        PartitionWriterState::Pending { batches, .. } => next == WriteStep::OpenFile(
            OpenFile {
                target: FileTarget {
                    table,
                    key: partition.key,
                    partition_dir: partition.partition_dir,
                    purpose: Purpose::Finish { closing },
                    rows: Ghost(0),
                },
                batches,
                kept_back: true,
            },
        ),
    }
}

fn finish<W, B>(
    table: IcebergTableWriter<W, B>,
    partition: PartitionWriter<W, B>,
    closing: bool,
) -> (next: WriteStep<W, B>)
    requires
        table.accounts(
            1,
            seq![RowCount { key: key_of(partition), rows: file_rows(partition.state) }],
        ),
        file_rows(partition.state) > 0,
        !has_key(table.open@, key_of(partition)),
        closing ==> table.queue@.len() == 0,
    ensures
        next.wf(),
        finishes(next, table, partition, closing),
{
    match partition.state {
        PartitionWriterState::Open { writer, rows } => {
            let file = Ghost(RowCount { key: partition_values(partition.key@), rows: rows@ });
            WriteStep::CloseFile(
                CloseFile { writer, key: partition.key, rest: Finishing { table, closing, file } },
            )
        },
        PartitionWriterState::Pending { batches, .. } => WriteStep::OpenFile(
            OpenFile {
                target: FileTarget {
                    table,
                    key: partition.key,
                    partition_dir: partition.partition_dir,
                    purpose: Purpose::Finish { closing },
                    rows: Ghost(0),
                },
                batches,
                kept_back: true,
            },
        ),
    }
}

/// What comes next where files are to be finished before the task ends: another one, or none.
pub open spec fn closes<W, B>(next: WriteStep<W, B>, table: IcebergTableWriter<W, B>) -> bool {
    if table.open@.len() == 0 {
        next == WriteStep::<W, B>::Closed(
            ClosedFiles {
                files: table.written,
                settings: table.settings,
                account: table.account,
            },
        )
    } else {
        exists|rest: IcebergTableWriter<W, B>|
            with_open(rest, table, table.open@.drop_last()) && #[trigger] finishes(
                next,
                rest,
                table.open@.last(),
                true,
            )
    }
}

fn close_next<W, B>(table: IcebergTableWriter<W, B>) -> (next: WriteStep<W, B>)
    requires
        table.accounts(0, seq![]),
        table.queue@.len() == 0,
    ensures
        next.wf(),
        closes(next, table),
{
    let ghost base = table;
    let ghost before = table.open@;
    let mut table = table;
    match table.open.pop() {
        None => {
            let closed = ClosedFiles {
                files: table.written,
                settings: table.settings,
                account: table.account,
            };
            proof {
                assert(queued_rows(base.queue@) =~= seq![]);
                assert(open_rows(base.open@) =~= seq![]);
                assert forall|of: Option<Seq<Option<PrimitiveLiteralView>>>| #[trigger]
                    row_count(closed.account@.handed, of) == row_count(
                        closed.account@.finished,
                        of,
                    ) + row_count(closed.account@.given_up, of) by {
                    assert(row_count(base.account@.handed, of) == row_count(
                        queued_rows(base.queue@),
                        of,
                    ) + row_count(open_rows(base.open@), of) + row_count(
                        base.account@.finished,
                        of,
                    ) + row_count(base.account@.given_up, of) + row_count(seq![], of));
                }
            }
            WriteStep::Closed(closed)
        },
        Some(partition) => {
            let ghost rest = table;
            proof {
                let last = before.len() - 1;
                assert(before.remove(last) =~= before.drop_last());
                assert(rest.open@ =~= before.drop_last());
                assert(with_open(rest, base, before.drop_last()));
                assert(partition == before.last());
                lemma_take_out(base, rest, last, seq![]);
                let out = RowCount { key: key_of(partition), rows: file_rows(partition.state) };
                assert(Seq::<RowCount>::empty().push(out) =~= seq![out]);
            }
            let next = finish(table, partition, true);
            assert(finishes(next, rest, partition, true));
            next
        },
    }
}

/// What becomes of a file once its rows are written.
#[derive(Debug, Clone, Copy, PartialEq, Eq, Structural)]
pub enum Purpose {
    /// It takes more rows, unless it is large enough.
    KeepOpen,
    /// It is finished, perhaps because the task is about to end.
    Finish { closing: bool },
}

/// The partition that rows are written to, while its file is elsewhere.
pub struct FileTarget<W, B> {
    pub table: IcebergTableWriter<W, B>,
    pub key: Vec<Option<Literal>>,
    pub partition_dir: String,
    pub purpose: Purpose,
    /// How many rows the file holds.
    pub rows: Ghost<nat>,
}

impl<W, B> FileTarget<W, B> {
    /// The file and these further rows are elsewhere.
    pub open spec fn wf(&self, further: nat) -> bool {
        &&& self.table.accounts(1, seq![self.all_rows(further)])
        &&& self.rows@ + further > 0
        &&& !has_key(self.table.open@, partition_values(self.key@))
        &&& self.purpose == (Purpose::Finish { closing: true }) ==> self.table.queue@.len() == 0
    }

    /// The rows that the file holds, and these further ones.
    pub open spec fn all_rows(&self, further: nat) -> RowCount {
        RowCount { key: partition_values(self.key@), rows: self.rows@ + further }
    }
}

/// A new file is to be opened for a partition. Where its first rows were kept back, they say how it
/// is to be laid out.
pub struct OpenFile<W, B> {
    pub target: FileTarget<W, B>,
    /// The rows that are to be written to it first.
    pub batches: Vec<RowBatch<B>>,
    pub kept_back: bool,
}

/// What comes next for an open file: the next of the batches is written to it, or they all are.
pub open spec fn writes_on<W, B>(
    next: WriteStep<W, B>,
    target: FileTarget<W, B>,
    writer: W,
    estimated_size: u64,
    batches: Seq<RowBatch<B>>,
) -> bool {
    if batches.len() > 0 {
        next matches WriteStep::WriteBatch(write) && write.later@ == batches.skip(1) && write == (
        WriteBatch { target, writer, batch: batches[0], later: write.later })
    } else {
        match target.purpose {
            Purpose::Finish { closing } => closes_file(next, target, writer, closing),
            Purpose::KeepOpen => if estimated_size >= target.table.settings.target_file_size_bytes {
                closes_file(next, target, writer, false)
            } else {
                settles(
                    next,
                    target.table,
                    PartitionWriter {
                        key: target.key,
                        partition_dir: target.partition_dir,
                        state: PartitionWriterState::Open { writer, rows: target.rows },
                    },
                )
            },
        }
    }
}

/// The file is to be closed.
pub open spec fn closes_file<W, B>(
    next: WriteStep<W, B>,
    target: FileTarget<W, B>,
    writer: W,
    closing: bool,
) -> bool {
    next == WriteStep::CloseFile(
        CloseFile {
            writer,
            key: target.key,
            rest: Finishing {
                table: target.table,
                closing,
                file: Ghost(target.all_rows(0)),
            },
        },
    )
}

fn close_file<W, B>(target: FileTarget<W, B>, writer: W, closing: bool) -> (next: WriteStep<W, B>)
    requires
        target.wf(0),
        closing ==> target.table.queue@.len() == 0,
    ensures
        next.wf(),
        closes_file(next, target, writer, closing),
{
    let file = Ghost(target.all_rows(0));
    WriteStep::CloseFile(
        CloseFile {
            writer,
            key: target.key,
            rest: Finishing { table: target.table, closing, file },
        },
    )
}

fn write_on<W, B>(
    target: FileTarget<W, B>,
    writer: W,
    estimated_size: u64,
    batches: Vec<RowBatch<B>>,
) -> (next: WriteStep<W, B>)
    requires
        target.wf(batch_rows(batches@)),
    ensures
        next.wf(),
        writes_on(next, target, writer, estimated_size, batches@),
{
    let mut batches = batches;
    if batches.len() > 0 {
        let ghost all = batches@;
        let batch = batches.remove(0);
        proof {
            assert(batches@ =~= all.skip(1));
            lemma_batch_first(all);
        }
        return WriteStep::WriteBatch(WriteBatch { target, writer, batch, later: batches });
    }
    match target.purpose {
        Purpose::Finish { closing } => close_file(target, writer, closing),
        Purpose::KeepOpen => {
            if estimated_size >= target.table.settings.target_file_size_bytes {
                close_file(target, writer, false)
            } else {
                settle(
                    target.table,
                    PartitionWriter {
                        key: target.key,
                        partition_dir: target.partition_dir,
                        state: PartitionWriterState::Open { writer, rows: target.rows },
                    },
                )
            }
        },
    }
}

/// What comes next after a failure: the file is given up with its rows, and no more rows are
/// written.
pub open spec fn gives_up<W, B>(
    next: WriteStep<W, B>,
    table: IcebergTableWriter<W, B>,
    file: RowCount,
    error: String,
) -> bool {
    next matches WriteStep::Failed { table: after, error: e } && e == error && with_queue(
        after,
        IcebergTableWriter {
            account: Ghost(
                RowAccount {
                    given_up: table.account@.given_up.push(file) + queued_rows(table.queue@),
                    lost: table.account@.lost + 1,
                    ..table.account@
                },
            ),
            ..table
        },
        seq![],
    )
}

fn give_up<W, B>(table: IcebergTableWriter<W, B>, file: Ghost<RowCount>, error: String) -> (next:
    WriteStep<W, B>)
    requires
        table.accounts(1, seq![file@]),
    ensures
        next.wf(),
        gives_up(next, table, file@, error),
{
    let ghost before = table;
    let mut table = table;
    table.account = Ghost(
        RowAccount {
            given_up: table.account@.given_up.push(file@) + queued_rows(table.queue@),
            lost: table.account@.lost + 1,
            ..table.account@
        },
    );
    table.queue = Vec::new();
    proof {
        assert(queued_rows(table.queue@) =~= seq![]);
        assert forall|of: Option<Seq<Option<PrimitiveLiteralView>>>| #[trigger]
            row_count(table.account@.handed, of) == row_count(queued_rows(table.queue@), of)
                + row_count(open_rows(table.open@), of) + row_count(table.account@.finished, of)
                + row_count(table.account@.given_up, of) + row_count(seq![], of) by {
            lemma_count_push(before.account@.given_up, file@, of);
            lemma_count_concat(
                before.account@.given_up.push(file@),
                queued_rows(before.queue@),
                of,
            );
            lemma_count_one(file@, of);
            assert(row_count(before.account@.handed, of) == row_count(
                queued_rows(before.queue@),
                of,
            ) + row_count(open_rows(before.open@), of) + row_count(before.account@.finished, of)
                + row_count(before.account@.given_up, of) + row_count(seq![file@], of));
        }
    }
    WriteStep::Failed { table, error }
}

impl<W, B> OpenFile<W, B> {
    pub open spec fn wf(&self) -> bool {
        self.target.wf(batch_rows(self.batches@)) && self.target.rows@ == 0
    }

    pub fn opened(self, reply: Result<W, String>) -> (next: WriteStep<W, B>)
        requires
            self.wf(),
        ensures
            next.wf(),
            match reply {
                Err(error) => gives_up(
                    next,
                    self.target.table,
                    self.target.all_rows(batch_rows(self.batches@)),
                    error,
                ),
                Ok(writer) => writes_on(next, self.target, writer, 0, self.batches@),
            },
    {
        match reply {
            Err(error) => {
                let file = Ghost(self.target.all_rows(batch_rows(self.batches@)));
                give_up(self.target.table, file, error)
            },
            Ok(writer) => write_on(self.target, writer, 0, self.batches),
        }
    }
}

/// Rows are to be written to an open file.
pub struct WriteBatch<W, B> {
    pub target: FileTarget<W, B>,
    pub writer: W,
    pub batch: RowBatch<B>,
    /// The rows that are to be written to it after those.
    pub later: Vec<RowBatch<B>>,
}

impl<W, B> WriteBatch<W, B> {
    pub open spec fn wf(&self) -> bool {
        self.target.wf(self.batch.rows as nat + batch_rows(self.later@))
    }

    /// The file, the rows, and what takes the reply.
    pub fn take(self) -> (r: (W, B, Written<W, B>))
        requires
            self.wf(),
        ensures
            r.0 == self.writer,
            r.1 == self.batch.batch,
            r.2 == (Written {
                target: self.target,
                later: self.later,
                rows: Ghost(self.batch.rows as nat),
            }),
            r.2.wf(),
    {
        let rows = Ghost(self.batch.rows as nat);
        (
            self.writer,
            self.batch.batch,
            Written { target: self.target, later: self.later, rows },
        )
    }
}

/// Rows are being written to an open file.
pub struct Written<W, B> {
    pub target: FileTarget<W, B>,
    pub later: Vec<RowBatch<B>>,
    /// How many rows these are.
    pub rows: Ghost<nat>,
}

impl<W, B> Written<W, B> {
    pub open spec fn wf(&self) -> bool {
        self.target.wf(self.rows@ + batch_rows(self.later@))
    }

    /// The rows are written. The reply is the file, and the size it is estimated to have.
    pub fn written(self, reply: Result<(W, u64), String>) -> (next: WriteStep<W, B>)
        requires
            self.wf(),
        ensures
            next.wf(),
            match reply {
                Err(error) => gives_up(
                    next,
                    self.target.table,
                    self.target.all_rows(self.rows@ + batch_rows(self.later@)),
                    error,
                ),
                Ok((writer, estimated_size)) => writes_on(
                    next,
                    FileTarget { rows: Ghost(self.target.rows@ + self.rows@), ..self.target },
                    writer,
                    estimated_size,
                    self.later@,
                ),
            },
    {
        match reply {
            Err(error) => {
                let file = Ghost(self.target.all_rows(self.rows@ + batch_rows(self.later@)));
                give_up(self.target.table, file, error)
            },
            Ok((writer, estimated_size)) => {
                let mut target = self.target;
                target.rows = Ghost(target.rows@ + self.rows@);
                write_on(target, writer, estimated_size, self.later)
            },
        }
    }
}

/// A file is to be closed. It belongs to this partition.
pub struct CloseFile<W, B> {
    pub writer: W,
    pub key: Vec<Option<Literal>>,
    pub rest: Finishing<W, B>,
}

impl<W, B> CloseFile<W, B> {
    pub open spec fn wf(&self) -> bool {
        self.rest.wf() && self.rest.file@.key == partition_values(self.key@)
    }
}

/// What else a task has written and is writing, while it finishes a file.
pub struct Finishing<W, B> {
    pub table: IcebergTableWriter<W, B>,
    /// The task is about to end.
    pub closing: bool,
    /// The partition of the file, and how many rows it holds.
    pub file: Ghost<RowCount>,
}

/// What comes next once a file is finished: more rows are written, or the next file is finished
/// before the task ends.
pub open spec fn keeps_file<W, B>(
    next: WriteStep<W, B>,
    table: IcebergTableWriter<W, B>,
    rows: RowCount,
    file: DataFile,
    closing: bool,
) -> bool {
    exists|after: IcebergTableWriter<W, B>|
        {
            &&& after.written@ == table.written@.push(
                DataFile { sort_order_id: table.settings.sort_order_id, ..file },
            )
            &&& after == (IcebergTableWriter {
                written: after.written,
                account: Ghost(
                    RowAccount {
                        finished: table.account@.finished.push(rows),
                        ..table.account@
                    },
                ),
                ..table
            })
            &&& #[trigger] goes_on(next, after, closing)
        }
}

/// The task goes on with its rows, or with the files that are left before it ends.
pub open spec fn goes_on<W, B>(
    next: WriteStep<W, B>,
    table: IcebergTableWriter<W, B>,
    closing: bool,
) -> bool {
    if closing {
        closes(next, table)
    } else {
        resumes(next, table)
    }
}

impl<W, B> Finishing<W, B> {
    pub open spec fn wf(&self) -> bool {
        &&& self.table.accounts(1, seq![self.file@])
        &&& self.file@.rows > 0
        &&& self.closing ==> self.table.queue@.len() == 0
    }

    /// What is recorded of the finished file. The order of its rows is added to that.
    pub fn finished(self, reply: Result<DataFile, String>) -> (next: WriteStep<W, B>)
        requires
            self.wf(),
        ensures
            next.wf(),
            match reply {
                Err(error) => gives_up(next, self.table, self.file@, error),
                Ok(file) => keeps_file(next, self.table, self.file@, file, self.closing),
            },
    {
        let file = match reply {
            Ok(file) => file,
            Err(error) => return give_up(self.table, self.file, error),
        };
        let closing: bool = self.closing;
        let ghost before = self.table;
        let ghost rows = self.file@;
        let mut table = self.table;
        let mut file = file;
        file.sort_order_id = table.settings.sort_order_id;
        table.written.push(file);
        table.account = Ghost(
            RowAccount { finished: table.account@.finished.push(rows), ..table.account@ },
        );
        let ghost after = table;
        proof {
            assert forall|i: int| 0 <= i < after.account@.finished.len() implies (
            #[trigger] after.account@.finished[i]).rows > 0 by {
                if i < before.account@.finished.len() {
                    assert(after.account@.finished[i] == before.account@.finished[i]);
                }
            }
            assert forall|i: int| 0 <= i < after.written@.len() implies (
            #[trigger] after.written@[i]).sort_order_id == after.settings.sort_order_id by {
                if i < before.written@.len() {
                    assert(after.written@[i] == before.written@[i]);
                }
            }
            assert forall|of: Option<Seq<Option<PrimitiveLiteralView>>>| #[trigger]
                row_count(after.account@.handed, of) == row_count(queued_rows(after.queue@), of)
                    + row_count(open_rows(after.open@), of) + row_count(
                    after.account@.finished,
                    of,
                ) + row_count(after.account@.given_up, of) + row_count(seq![], of) by {
                lemma_count_push(before.account@.finished, rows, of);
                lemma_count_one(rows, of);
                assert(row_count(before.account@.handed, of) == row_count(
                    queued_rows(before.queue@),
                    of,
                ) + row_count(open_rows(before.open@), of) + row_count(
                    before.account@.finished,
                    of,
                ) + row_count(before.account@.given_up, of) + row_count(seq![rows], of));
            }
        }
        let next = if closing {
            close_next(table)
        } else {
            resume(table)
        };
        assert(goes_on(next, after, closing));
        next
    }
}

/// Where a column of a file comes from.
#[derive(Debug, Clone, Copy, PartialEq, Eq, Structural)]
pub enum ColumnSource {
    /// From the column of the batch at this place.
    Batch(usize),
    /// From what the field of the table's schema at this place gives rows without a value.
    Missing(usize),
}

/// The first text that is this one stands at this place.
pub open spec fn first_text(names: Seq<Seq<char>>, name: Seq<char>, i: int) -> bool {
    0 <= i < names.len() && names[i] == name && forall|j: int|
        0 <= j < i ==> (#[trigger] names[j]) != name
}

/// The place of the first text that is this one.
pub fn find_text(names: &Vec<String>, name: &str) -> (r: Option<usize>)
    ensures
        match r {
            Some(i) => first_text(texts(names@), name@, i as int),
            None => !texts(names@).contains(name@),
        },
{
    let ghost held = texts(names@);
    let mut i: usize = 0;
    while i < names.len()
        invariant
            i <= names.len(),
            held == texts(names@),
            forall|j: int| 0 <= j < i ==> (#[trigger] held[j]) != name@,
        decreases names.len() - i,
    {
        assert(held[i as int] == names@[i as int]@);
        if text_equal(names[i].as_str(), name) {
            return Some(i);
        }
        i += 1;
    }
    None
}

/// A column of the table comes from here: from the batch where that has it, and else from what the
/// field of the table's schema gives.
pub open spec fn comes_from(
    column: Seq<char>,
    source: ColumnSource,
    batch_columns: Seq<Seq<char>>,
    table_fields: Seq<Seq<char>>,
) -> bool {
    match source {
        ColumnSource::Batch(i) => first_text(batch_columns, column, i as int),
        ColumnSource::Missing(i) => !batch_columns.contains(column) && first_text(
            table_fields,
            column,
            i as int,
        ),
    }
}

fn column_source(
    column: &str,
    batch_columns: &Vec<String>,
    table_fields: &Vec<String>,
) -> (r: Result<ColumnSource, EngineError>)
    ensures
        match r {
            Ok(source) => comes_from(column@, source, texts(batch_columns@), texts(table_fields@)),
            Err(e) => !texts(batch_columns@).contains(column@) && !texts(table_fields@).contains(
                column@,
            ) && e@ == EngineErrorView::Plan(
                "Column '"@ + column@ + "' missing from Iceberg schema during alignment"@,
            ),
        },
{
    match find_text(batch_columns, column) {
        Some(i) => Ok(ColumnSource::Batch(i)),
        None => match find_text(table_fields, column) {
            Some(i) => Ok(ColumnSource::Missing(i)),
            None => Err(
                EngineError::Plan(
                    String::from_str("Column '").concat(column).concat(
                        "' missing from Iceberg schema during alignment",
                    ),
                ),
            ),
        },
    }
}

/// Where the columns of a table come from, up to the first one that comes from nowhere.
#[derive(Debug, PartialEq, Eq)]
pub struct Alignment {
    pub sources: Vec<ColumnSource>,
    /// What is wrong with the column after those.
    pub error: Option<EngineError>,
}

/// Finds out where the columns of a table come from in a batch that may lack some of them.
pub fn align_batch_with_table_schema(
    columns: &Vec<String>,
    batch_columns: &Vec<String>,
    table_fields: &Vec<String>,
) -> (r: Alignment)
    ensures
        r.sources@.len() <= columns@.len(),
        forall|i: int|
            0 <= i < r.sources@.len() ==> comes_from(
                columns@[i]@,
                #[trigger] r.sources@[i],
                texts(batch_columns@),
                texts(table_fields@),
            ),
        match r.error {
            None => r.sources@.len() == columns@.len(),
            Some(e) => r.sources@.len() < columns@.len() && {
                let column = columns@[r.sources@.len() as int]@;
                &&& !texts(batch_columns@).contains(column)
                &&& !texts(table_fields@).contains(column)
                &&& e@ == EngineErrorView::Plan(
                    "Column '"@ + column + "' missing from Iceberg schema during alignment"@,
                )
            },
        },
{
    let mut sources: Vec<ColumnSource> = Vec::new();
    let mut i: usize = 0;
    while i < columns.len()
        invariant
            i <= columns.len(),
            sources@.len() == i,
            forall|j: int|
                0 <= j < i ==> comes_from(
                    columns@[j]@,
                    #[trigger] sources@[j],
                    texts(batch_columns@),
                    texts(table_fields@),
                ),
        decreases columns.len() - i,
    {
        match column_source(columns[i].as_str(), batch_columns, table_fields) {
            Ok(source) => sources.push(source),
            Err(error) => return Alignment { sources, error: Some(error) },
        }
        i += 1;
    }
    Alignment { sources, error: None }
}

/// Between two writes no more partitions are open than may be.
pub proof fn open_partitions_stay_within_the_bound<W, B>(step: WriteStep<W, B>)
    requires
        step.wf(),
        step is Idle,
    ensures
        step->Idle_0.open@.len() <= at_least_one(step->Idle_0.settings.max_open_writers),
{
}

/// Where a partition has to be finished to stay within the bound, it is the least recently written
/// one. The one that was just written to stays open, and so do all others.
pub proof fn eviction_takes_only_the_least_recent<W, B>(
    next: WriteStep<W, B>,
    table: IcebergTableWriter<W, B>,
    entry: PartitionWriter<W, B>,
)
    requires
        settles(next, table, entry),
        table.open@.len() >= at_least_one(table.settings.max_open_writers),
    ensures
        match next {
            WriteStep::CloseFile(close) => close.key == table.open@[0].key
                && close.rest.table.open@ == table.open@.skip(1).push(entry),
            WriteStep::OpenFile(open) => open.target.key == table.open@[0].key
                && open.target.table.open@ == table.open@.skip(1).push(entry),
            _ => false,
        },
{
    assert(table.open@.push(entry).skip(1) =~= table.open@.skip(1).push(entry));
}

/// A partition stays open while there is room, and no file is finished on its account.
pub proof fn room_means_no_eviction<W, B>(
    next: WriteStep<W, B>,
    table: IcebergTableWriter<W, B>,
    entry: PartitionWriter<W, B>,
)
    requires
        settles(next, table, entry),
        table.open@.len() < at_least_one(table.settings.max_open_writers),
    ensures
        match next {
            WriteStep::Idle(idle) => idle.open@ == table.open@.push(entry) && idle.written
                == table.written,
            WriteStep::Slice(slice) => slice.table.open@ == table.open@.push(entry)
                && slice.table.written == table.written,
            _ => false,
        },
{
}

/// Once all files are finished there is one for each that was begun, but for those that were given
/// up.
pub proof fn closing_gives_every_file(closed: ClosedFiles)
    requires
        closed.wf(),
    ensures
        closed.files@.len() + closed.account@.lost == closed.account@.begun,
{
}

/// What is recorded of a file is true: its partition, and how many rows it holds.
pub open spec fn truthful(file: DataFile, rows: RowCount) -> bool {
    partition_values(file.partition@) == rows.key && file.record_count == rows.rows
}

/// How many rows are recorded of the files of a partition, or of all where none is named.
pub open spec fn recorded_rows(
    files: Seq<DataFile>,
    of: Option<Seq<Option<PrimitiveLiteralView>>>,
) -> nat
    decreases files.len(),
{
    if files.len() == 0 {
        0
    } else {
        recorded_rows(files.drop_last(), of) + if of is None || of == Some(
            partition_values(files.last().partition@),
        ) {
            files.last().record_count as nat
        } else {
            0
        }
    }
}

proof fn lemma_recorded_rows(
    files: Seq<DataFile>,
    rows: Seq<RowCount>,
    of: Option<Seq<Option<PrimitiveLiteralView>>>,
)
    requires
        files.len() == rows.len(),
        forall|i: int| 0 <= i < files.len() ==> truthful(#[trigger] files[i], rows[i]),
    ensures
        recorded_rows(files, of) == row_count(rows, of),
    decreases files.len(),
{
    if files.len() > 0 {
        assert forall|i: int| 0 <= i < files.drop_last().len() implies truthful(
            #[trigger] files.drop_last()[i],
            rows.drop_last()[i],
        ) by {
            assert(files.drop_last()[i] == files[i]);
        }
        lemma_recorded_rows(files.drop_last(), rows.drop_last(), of);
        assert(truthful(files[files.len() - 1], rows[files.len() - 1]));
    }
}

proof fn lemma_rows_of_some_file(rows: Seq<RowCount>)
    requires
        rows.len() > 0,
        forall|i: int| 0 <= i < rows.len() ==> (#[trigger] rows[i]).rows > 0,
    ensures
        row_count(rows, None) > 0,
{
    assert(rows[rows.len() - 1].rows > 0);
}

/// All rows that a task was given are in its files once it is over, where nothing failed and what
/// is recorded of each file is true: as many rows in all, and as many in each partition. Every file
/// has a row at least and says in which order its rows are, and there is no file only where there
/// were no rows.
pub proof fn closed_files_hold_all_rows(
    closed: ClosedFiles,
    key: Seq<Option<PrimitiveLiteralView>>,
)
    requires
        closed.wf(),
        closed.account@.lost == 0,
        forall|i: int|
            0 <= i < closed.files@.len() ==> truthful(
                #[trigger] closed.files@[i],
                closed.account@.finished[i],
            ),
    ensures
        recorded_rows(closed.files@, None) == row_count(closed.account@.handed, None),
        recorded_rows(closed.files@, Some(key)) == row_count(closed.account@.handed, Some(key)),
        forall|i: int|
            0 <= i < closed.files@.len() ==> (#[trigger] closed.files@[i]).record_count >= 1
                && closed.files@[i].sort_order_id == closed.settings.sort_order_id,
        closed.files@.len() == 0 <==> row_count(closed.account@.handed, None) == 0,
{
    let account = closed.account@;
    lemma_recorded_rows(closed.files@, account.finished, None);
    lemma_recorded_rows(closed.files@, account.finished, Some(key));
    assert(account.given_up =~= seq![]);
    assert(row_count(account.handed, None) == row_count(account.finished, None) + row_count(
        account.given_up,
        None,
    ));
    assert(row_count(account.handed, Some(key)) == row_count(account.finished, Some(key))
        + row_count(account.given_up, Some(key)));
    assert forall|i: int| 0 <= i < closed.files@.len() implies (
    #[trigger] closed.files@[i]).record_count >= 1 && closed.files@[i].sort_order_id
        == closed.settings.sort_order_id by {
        assert(truthful(closed.files@[i], account.finished[i]));
        assert(account.finished[i].rows > 0);
    }
    if account.finished.len() > 0 {
        lemma_rows_of_some_file(account.finished);
    }
}

/// Between two writes every row that a task was given is kept back for an unfinished file or in
/// it, in a finished file, or was given up after a failure: all rows together, and those of each
/// partition.
pub proof fn no_row_is_forgotten<W, B>(
    table: IcebergTableWriter<W, B>,
    of: Option<Seq<Option<PrimitiveLiteralView>>>,
)
    requires
        table.wf(),
    ensures
        row_count(table.account@.handed, of) == row_count(open_rows(table.open@), of) + row_count(
            table.account@.finished,
            of,
        ) + row_count(table.account@.given_up, of),
{
    assert(queued_rows(table.queue@) =~= seq![]);
    assert(row_count(table.account@.handed, of) == row_count(queued_rows(table.queue@), of)
        + row_count(open_rows(table.open@), of) + row_count(table.account@.finished, of)
        + row_count(table.account@.given_up, of) + row_count(seq![], of));
}

/// The rows that a write hands in are added to those that the task was given before.
pub proof fn writing_hands_in_the_rows<W, B>(
    table: IcebergTableWriter<W, B>,
    parts: Vec<PartitionBatch<B>>,
    of: Option<Seq<Option<PrimitiveLiteralView>>>,
)
    ensures
        row_count(handed_rows(table, parts).account@.handed, of) == row_count(
            table.account@.handed,
            of,
        ) + row_count(queued_rows(parts@), of),
{
    lemma_count_concat(table.account@.handed, queued_rows(parts@), of);
}

/// A chunk is never empty nor larger than a full one. It begins where the rows that are taken end,
/// and only the last one of a batch is not full.
pub proof fn chunks_cover_the_rows<B>(part: PartitionBatch<B>)
    requires
        part.offset < part.rows,
    ensures
        next_chunk(part).offset == part.offset,
        0 < next_chunk(part).rows <= ROWS_PER_CHUNK,
        part.offset + next_chunk(part).rows <= part.rows,
        next_chunk(part).rows < ROWS_PER_CHUNK ==> part.offset + next_chunk(part).rows
            == part.rows,
{
}

/// Only batches of which all rows are taken are passed over.
pub proof fn no_rows_are_passed_over<B>(queue: Seq<PartitionBatch<B>>)
    ensures
        exists|n: int|
            0 <= n <= queue.len() && untaken(queue) == #[trigger] queue.skip(n) && forall|i: int|
                0 <= i < n ==> (#[trigger] queue[i]).offset >= queue[i].rows,
    decreases queue.len(),
{
    if queue.len() > 0 && queue[0].offset >= queue[0].rows {
        let rest = queue.skip(1);
        no_rows_are_passed_over(rest);
        let n = choose|n: int|
            0 <= n <= rest.len() && untaken(rest) == #[trigger] rest.skip(n) && forall|i: int|
                0 <= i < n ==> (#[trigger] rest[i]).offset >= rest[i].rows;
        assert(rest.skip(n) =~= queue.skip(n + 1));
        assert forall|i: int| 0 <= i < n + 1 implies (#[trigger] queue[i]).offset
            >= queue[i].rows by {
            if i > 0 {
                assert(rest[i - 1] == queue[i]);
            }
        }
    } else {
        assert(queue.skip(0) =~= queue);
    }
}

} // verus!
