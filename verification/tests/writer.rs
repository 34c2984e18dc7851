use sail_iceberg::error::EngineError;
use sail_iceberg::table::{DataContentType, DataFile, Literal, PrimitiveLiteral};
use sail_iceberg::table_writer::{
    align_batch_with_table_schema, Alignment, ColumnSource, IcebergTableWriter, PartitionBatch,
    PartitionWriterState, WriteStep, WriterSettings,
};

/// Large enough that nothing rolls on size, so the tests only observe the open-writer bound.
const NO_FILE_ROLLING: u64 = u64::MAX;

/// A file under way: the rows in it.
type File = Vec<u32>;
type Writer = IcebergTableWriter<File, Vec<u32>>;

fn settings(max_open_writers: usize) -> WriterSettings {
    WriterSettings {
        target_file_size_bytes: NO_FILE_ROLLING,
        sort_order_id: None,
        shredding_enabled: false,
        inference_buffer_size: 0,
        max_open_writers,
    }
}

fn writer(settings: WriterSettings) -> Writer {
    IcebergTableWriter::new(settings, 0, "memory:///t/data/".to_string())
}

fn key(part: &str) -> Vec<Option<Literal>> {
    vec![Some(Literal::Primitive(PrimitiveLiteral::String(part.to_string())))]
}

fn data_file(part: &[Option<Literal>], rows: usize) -> DataFile {
    let path = match &part[0] {
        Some(Literal::Primitive(PrimitiveLiteral::String(text))) => text.clone(),
        _ => "null".to_string(),
    };
    DataFile {
        content: DataContentType::Data,
        file_path: path,
        partition_spec_id: 0,
        partition: vec![],
        record_count: rows as u64,
        file_size_in_bytes: rows as u64,
        sort_order_id: None,
        details: String::new(),
    }
}

/// Does what the steps ask for. The size of a file is the number of its rows.
fn drive(mut step: WriteStep<File, Vec<u32>>) -> Result<Result<Writer, Vec<DataFile>>, String> {
    loop {
        step = match step {
            WriteStep::Idle(table) => return Ok(Ok(table)),
            WriteStep::Closed(closed) => return Ok(Err(closed.files)),
            WriteStep::Failed { error, .. } => return Err(error),
            WriteStep::Slice(s) => {
                let rows = s.batch()[s.chunk.offset..s.chunk.offset + s.chunk.rows].to_vec();
                s.sliced(rows)
            }
            WriteStep::OpenFile(s) => s.opened(Ok(vec![])),
            WriteStep::WriteBatch(s) => {
                let (mut file, batch, rest) = s.take();
                file.extend(batch.iter());
                let size = file.len() as u64;
                rest.written(Ok((file, size)))
            }
            WriteStep::CloseFile(s) => {
                let file = data_file(&s.key, s.writer.len());
                s.rest.finished(Ok(file))
            }
        };
    }
}

fn part(name: &str, rows: Vec<u32>) -> PartitionBatch<Vec<u32>> {
    let count = rows.len();
    PartitionBatch::new(key(name), name.to_string(), rows, count)
}

fn write_parts(table: Writer, parts: Vec<PartitionBatch<Vec<u32>>>) -> Result<Writer, String> {
    drive(table.write(parts))?.map_err(|_| "closed".to_string())
}

fn write(table: Writer, name: &str, rows: Vec<u32>) -> Result<Writer, String> {
    write_parts(table, vec![part(name, rows)])
}

fn close(table: Writer) -> Result<Vec<DataFile>, String> {
    match drive(table.close())? {
        Ok(_) => Err("still open".to_string()),
        Err(files) => Ok(files),
    }
}

#[test]
fn open_partition_writers_stay_within_the_configured_bound() -> Result<(), String> {
    const MAX_OPEN: usize = 2;
    const PARTITIONS: u32 = 6;

    let mut table = writer(settings(MAX_OPEN));
    // Each batch carries one distinct partition, so an unbounded map would hold six.
    for partition in 0..PARTITIONS {
        table = write(table, &format!("p{partition}"), vec![partition])?;
        assert!(
            table.open.len() <= MAX_OPEN,
            "held {} open writers, bound is {MAX_OPEN}",
            table.open.len()
        );
    }

    // Eviction must flush rather than drop: every partition still produces a file.
    let files = close(table)?;
    assert_eq!(files.len(), PARTITIONS as usize);
    Ok(())
}

#[test]
fn a_partition_under_the_bound_is_not_evicted_between_batches() -> Result<(), String> {
    let mut table = writer(settings(4));
    for id in 0..3 {
        table = write(table, "p0", vec![id])?;
    }
    assert_eq!(table.open.len(), 1);

    let files = close(table)?;
    assert_eq!(files.len(), 1, "three batches of one partition must not split");
    assert_eq!(files[0].record_count, 3);
    Ok(())
}

#[test]
fn least_recently_written_partition_is_finished_first() -> Result<(), String> {
    let mut table = writer(settings(2));
    for part in ["a", "b", "a", "c"] {
        table = write(table, part, vec![1])?;
    }
    let finished: Vec<&str> = table.written.iter().map(|file| file.file_path.as_str()).collect();
    assert_eq!(finished, vec!["b"]);
    assert_eq!(table.open[0].key, key("a"));
    assert_eq!(table.open[1].key, key("c"));
    Ok(())
}

#[test]
fn one_writer_is_open_even_where_none_is_allowed() -> Result<(), String> {
    let mut table = writer(settings(0));
    table = write(table, "a", vec![1])?;
    assert_eq!(table.open.len(), 1);
    table = write(table, "b", vec![1])?;
    assert_eq!(table.open.len(), 1);
    assert_eq!(table.written.len(), 1);
    Ok(())
}

#[test]
fn files_roll_at_the_target_size() -> Result<(), String> {
    let mut settings = settings(4);
    settings.target_file_size_bytes = 2000;
    settings.sort_order_id = Some(7);
    let table = write(writer(settings), "a", vec![0; 4500])?;
    assert_eq!(table.written.len(), 2);
    assert_eq!(table.open.len(), 1);
    let files = close(table)?;
    let counts: Vec<u64> = files.iter().map(|file| file.record_count).collect();
    assert_eq!(counts, vec![2000, 2000, 500]);
    assert!(files.iter().all(|file| file.sort_order_id == Some(7)));
    Ok(())
}

#[test]
fn rows_are_kept_back_until_there_are_enough() -> Result<(), String> {
    let mut settings = settings(4);
    settings.shredding_enabled = true;
    settings.inference_buffer_size = 3;
    let mut table = writer(settings);
    table = write(table, "a", vec![1, 2])?;
    match &table.open[0].state {
        PartitionWriterState::Pending { batches, num_rows } => {
            assert_eq!(batches.len(), 1);
            assert_eq!(*num_rows, 2);
        }
        PartitionWriterState::Open { .. } => return Err("opened too early".to_string()),
    }
    table = write(table, "a", vec![3])?;
    match &table.open[0].state {
        PartitionWriterState::Pending { .. } => return Err("not opened".to_string()),
        PartitionWriterState::Open { writer, .. } => assert_eq!(writer, &vec![1, 2, 3]),
    }
    table = write(table, "b", vec![4])?;
    let files = close(table)?;
    let total: u64 = files.iter().map(|file| file.record_count).sum();
    assert_eq!((files.len(), total), (2, 4));
    Ok(())
}

#[test]
fn failed_file_is_given_up_and_the_rest_kept() -> Result<(), String> {
    let table = write(writer(settings(4)), "a", vec![1])?;
    let step = match table.write(vec![part("b", vec![2]), part("c", vec![3])]) {
        WriteStep::Slice(s) => s.sliced(vec![2]),
        _ => return Err("must ask for the first rows".to_string()),
    };
    match step {
        WriteStep::OpenFile(s) => match s.opened(Err("no space".to_string())) {
            WriteStep::Failed { table, error } => {
                assert_eq!(error, "no space");
                assert!(table.queue.is_empty());
                assert_eq!(close(table)?.len(), 1);
            }
            _ => return Err("must fail".to_string()),
        },
        _ => return Err("must open a file".to_string()),
    }
    let table = write(writer(settings(4)), "a", vec![1])?;
    let step = match table.write(vec![part("a", vec![2])]) {
        WriteStep::Slice(s) => s.sliced(vec![2]),
        _ => return Err("must ask for the rows".to_string()),
    };
    match step {
        WriteStep::WriteBatch(s) => match s.take().2.written(Err("broken".to_string())) {
            WriteStep::Failed { table, .. } => assert_eq!(close(table)?.len(), 0),
            _ => return Err("must fail".to_string()),
        },
        _ => return Err("must write to the open file".to_string()),
    }
    Ok(())
}

#[test]
fn rows_are_taken_a_thousand_at_a_time() -> Result<(), String> {
    let mut table = writer(settings(4));
    let rows: Vec<u32> = (0..2500).collect();
    let mut taken = Vec::new();
    let mut step = table.write(vec![part("empty", vec![]), part("a", rows.clone())]);
    table = loop {
        step = match step {
            WriteStep::Idle(table) => break table,
            WriteStep::Slice(s) => {
                taken.push((s.chunk.offset, s.chunk.rows));
                let slice = s.batch()[s.chunk.offset..s.chunk.offset + s.chunk.rows].to_vec();
                s.sliced(slice)
            }
            WriteStep::OpenFile(s) => s.opened(Ok(vec![])),
            WriteStep::WriteBatch(s) => {
                let (mut file, batch, rest) = s.take();
                file.extend(batch.iter());
                rest.written(Ok((file, 0)))
            }
            _ => return Err("unexpected step".to_string()),
        };
    };
    assert_eq!(taken, vec![(0, 1000), (1000, 1000), (2000, 500)]);
    match &table.open[0].state {
        PartitionWriterState::Open { writer, .. } => assert_eq!(writer, &rows),
        PartitionWriterState::Pending { .. } => return Err("must be open".to_string()),
    }
    Ok(())
}

#[test]
fn parts_of_one_batch_are_written_in_turn() -> Result<(), String> {
    let parts = vec![part("a", vec![1]), part("b", vec![2, 3]), part("a", vec![4])];
    let table = write_parts(writer(settings(1)), parts)?;
    let files = close(table)?;
    let counts: Vec<(&str, u64)> =
        files.iter().map(|file| (file.file_path.as_str(), file.record_count)).collect();
    assert_eq!(counts, vec![("a", 1), ("b", 2), ("a", 1)]);
    Ok(())
}

#[test]
fn rows_kept_back_are_written_when_their_file_is_finished() -> Result<(), String> {
    let mut settings = settings(1);
    settings.shredding_enabled = true;
    settings.inference_buffer_size = 10;
    let mut table = write(writer(settings), "a", vec![1, 2])?;
    table = write(table, "a", vec![3])?;
    table = write(table, "b", vec![4])?;
    let finished: Vec<u64> = table.written.iter().map(|file| file.record_count).collect();
    assert_eq!(finished, vec![3]);
    assert_eq!(close(table)?.len(), 2);
    Ok(())
}

#[test]
fn columns_come_from_the_batch_or_from_defaults() {
    let names = |names: &[&str]| names.iter().map(|name| name.to_string()).collect::<Vec<_>>();
    let batch = names(&["id", "part", "id"]);
    let table = names(&["part", "added", "id"]);
    assert_eq!(
        align_batch_with_table_schema(&names(&["id", "added", "part"]), &batch, &table),
        Alignment {
            sources: vec![
                ColumnSource::Batch(0),
                ColumnSource::Missing(1),
                ColumnSource::Batch(1),
            ],
            error: None,
        }
    );
    assert_eq!(
        align_batch_with_table_schema(&names(&["added", "ID", "id"]), &batch, &table),
        Alignment {
            sources: vec![ColumnSource::Missing(1)],
            error: Some(EngineError::Plan(
                "Column 'ID' missing from Iceberg schema during alignment".to_string()
            )),
        }
    );
}

#[test]
fn file_locations_are_joined_as_urls() {
    let table = writer(settings(1));
    for relative in ["part=a/file.parquet", "a b/ü.parquet", "../x", "c:d"] {
        let base = url::Url::parse("memory:///t/data/").expect("base");
        let expected = base.join(&format!("./{relative}")).expect("joined").to_string();
        assert_eq!(table.file_location(relative), Ok(expected));
    }
    assert_eq!(
        table.file_location("part=a/file.parquet"),
        Ok("memory:///t/data/part=a/file.parquet".to_string())
    );
    let nowhere: Writer = IcebergTableWriter::new(settings(1), 0, "no url".to_string());
    assert_eq!(
        nowhere.file_location("x"),
        Err(url::ParseError::RelativeUrlWithoutBase.to_string())
    );
}

#[test]
fn all_rows_end_in_the_files_of_their_partition() -> Result<(), String> {
    for (shredding_enabled, max_open_writers, target_file_size_bytes) in
        [(false, 1, u64::MAX), (false, 2, 1500), (true, 2, 2000), (true, 1, u64::MAX)]
    {
        let mut settings = settings(max_open_writers);
        settings.shredding_enabled = shredding_enabled;
        settings.inference_buffer_size = 1200;
        settings.target_file_size_bytes = target_file_size_bytes;
        settings.sort_order_id = Some(3);
        let mut table = writer(settings);
        let mut expected = std::collections::BTreeMap::new();
        for round in 0..4_u32 {
            let mut parts = Vec::new();
            for (name, rows) in [("a", 700 * round), ("b", 2100), ("c", 1)] {
                *expected.entry(name.to_string()).or_insert(0) += u64::from(rows);
                parts.push(part(name, (0..rows).collect()));
            }
            table = write_parts(table, parts)?;
        }
        let files = close(table)?;
        let mut found = std::collections::BTreeMap::new();
        for file in &files {
            *found.entry(file.file_path.clone()).or_insert(0) += file.record_count;
            assert!(file.record_count >= 1);
            assert_eq!(file.sort_order_id, Some(3));
        }
        assert_eq!(found, expected);
    }
    assert!(close(write(writer(settings(1)), "a", vec![])?)?.is_empty());
    Ok(())
}
