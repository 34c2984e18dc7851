//! Which files are live, and which of them an overwrite removes.
use vstd::prelude::*;
use vstd::utf8::*;

use crate::content_laws::{lemma_partition, same_in_every_field};
use crate::error::EngineError;
use crate::live_files::{
    active, all_fit, current_live_data_files, dynamic_partition_overwrite_paths, fits_spec,
    kept_files, overwritten, touched, LiveFiles, LiveFilesStep, LoadManifest, LoadManifestList,
    ManifestEntry, ManifestFile,
};
use crate::table::{DataContentType, DataFile, PartitionSpec, Snapshot, TableMetadata};
use crate::text::texts;

verus! {

/// A file of the partition spec, by its ID and by the number of its values.
pub open spec fn of_spec(file: DataFile, spec: PartitionSpec) -> bool {
    file.partition_spec_id == spec.spec_id && file.partition@.len() == spec.fields@.len()
}

/// An overwrite of whole partitions removes exactly the live files that have, in every partition
/// field, the value of one and the same added file.
pub proof fn overwrite_removes_only_equal_partitions(
    added: &[DataFile],
    live: &[DataFile],
    spec: &PartitionSpec,
    r: Result<Vec<String>, EngineError>,
    path: Seq<char>,
)
    requires
        call_ensures(dynamic_partition_overwrite_paths, (added, live, spec), r),
        r is Ok,
    ensures
        (exists|k: int| 0 <= k < r->Ok_0@.len() && (#[trigger] r->Ok_0@[k])@ == path)
            <==> (exists|i: int, j: int|
            0 <= i < live@.len() && 0 <= j < added@.len() && (#[trigger] live@[i]).file_path@
                == path && same_in_every_field(
                (#[trigger] added@[j]).partition@,
                live@[i].partition@,
            )),
{
    let paths = r->Ok_0@;
    assert(texts(paths).contains(path) <==> overwritten(added@, live@, path));
    if exists|k: int| 0 <= k < paths.len() && (#[trigger] paths[k])@ == path {
        let k = choose|k: int| 0 <= k < paths.len() && (#[trigger] paths[k])@ == path;
        assert(texts(paths)[k] == path);
        let i = choose|i: int|
            0 <= i < live@.len() && (#[trigger] live@[i]).file_path@ == path && touched(
                added@,
                live@[i],
            );
        let j = choose|j: int|
            0 <= j < added@.len() && crate::table::partition_values(
                (#[trigger] added@[j]).partition@,
            ) == crate::table::partition_values(live@[i].partition@);
        lemma_partition(added@[j].partition@, live@[i].partition@);
        assert(live@[i].file_path@ == path && same_in_every_field(
            added@[j].partition@,
            live@[i].partition@,
        ));
    }
    if exists|i: int, j: int|
        0 <= i < live@.len() && 0 <= j < added@.len() && (#[trigger] live@[i]).file_path@ == path
            && same_in_every_field((#[trigger] added@[j]).partition@, live@[i].partition@) {
        let (i, j) = choose|i: int, j: int|
            0 <= i < live@.len() && 0 <= j < added@.len() && (#[trigger] live@[i]).file_path@
                == path && same_in_every_field(
                (#[trigger] added@[j]).partition@,
                live@[i].partition@,
            );
        lemma_partition(added@[j].partition@, live@[i].partition@);
        assert(touched(added@, live@[i]));
        assert(overwritten(added@, live@, path));
        let k = choose|k: int| 0 <= k < texts(paths).len() && texts(paths)[k] == path;
        assert(paths[k]@ == path);
    }
}

/// A live file stays if it differs from each added file in the value of some partition field, and
/// no other live file has its path.
pub proof fn overwrite_spares_other_partitions(
    added: &[DataFile],
    live: &[DataFile],
    spec: &PartitionSpec,
    r: Result<Vec<String>, EngineError>,
    i: int,
)
    requires
        call_ensures(dynamic_partition_overwrite_paths, (added, live, spec), r),
        r is Ok,
        0 <= i < live@.len(),
        forall|j: int|
            0 <= j < live@.len() && j != i ==> (#[trigger] live@[j]).file_path@
                != live@[i].file_path@,
        forall|j: int|
            0 <= j < added@.len() ==> exists|k: int|
                0 <= k < live@[i].partition@.len() && !crate::content_laws::same_field(
                    (#[trigger] added@[j]).partition@[k],
                    #[trigger] live@[i].partition@[k],
                ),
    ensures
        forall|k: int|
            0 <= k < r->Ok_0@.len() ==> (#[trigger] r->Ok_0@[k])@ != live@[i].file_path@,
{
    let path = live@[i].file_path@;
    overwrite_removes_only_equal_partitions(added, live, spec, r, path);
    if exists|k: int| 0 <= k < r->Ok_0@.len() && (#[trigger] r->Ok_0@[k])@ == path {
        let (n, j) = choose|n: int, j: int|
            0 <= n < live@.len() && 0 <= j < added@.len() && (#[trigger] live@[n]).file_path@
                == path && same_in_every_field(
                (#[trigger] added@[j]).partition@,
                live@[n].partition@,
            );
        assert(n == i);
        let k = choose|k: int|
            0 <= k < live@[i].partition@.len() && !crate::content_laws::same_field(
                added@[j].partition@[k],
                #[trigger] live@[i].partition@[k],
            );
        assert(crate::content_laws::same_field(added@[j].partition@[k], live@[i].partition@[k]));
    }
}

/// An overwrite that adds nothing removes nothing, whatever is live.
pub proof fn empty_overwrite_removes_nothing(
    added: &[DataFile],
    live: &[DataFile],
    spec: &PartitionSpec,
    r: Result<Vec<String>, EngineError>,
)
    requires
        call_ensures(dynamic_partition_overwrite_paths, (added, live, spec), r),
        added@.len() == 0,
    ensures
        r is Ok,
        r->Ok_0@.len() == 0,
{
    if r->Ok_0@.len() > 0 {
        let path = r->Ok_0@[0]@;
        overwrite_removes_only_equal_partitions(added, live, spec, r, path);
        assert(exists|k: int| 0 <= k < r->Ok_0@.len() && (#[trigger] r->Ok_0@[k])@ == path);
    }
}

/// An overwrite that adds files fails exactly where a file, added or live, is not one of the default
/// partition spec. What is wrong with the added ones comes first.
pub proof fn overwrite_fails_only_on_other_specs(
    added: &[DataFile],
    live: &[DataFile],
    spec: &PartitionSpec,
    r: Result<Vec<String>, EngineError>,
)
    requires
        call_ensures(dynamic_partition_overwrite_paths, (added, live, spec), r),
        added@.len() > 0,
    ensures
        r is Ok <==> (forall|i: int| 0 <= i < added@.len() ==> of_spec(#[trigger] added@[i], *spec))
            && (forall|i: int| 0 <= i < live@.len() ==> of_spec(#[trigger] live@[i], *spec)),
        r matches Err(e) ==> (e is Plan <==> exists|i: int|
            0 <= i < added@.len() && !of_spec(#[trigger] added@[i], *spec)) && (e is Plan || e
            is NotImplemented),
{
    assert forall|i: int| 0 <= i < added@.len() implies (fits_spec(#[trigger] added@[i], *spec)
        <==> of_spec(added@[i], *spec)) by {}
    assert forall|i: int| 0 <= i < live@.len() implies (fits_spec(#[trigger] live@[i], *spec)
        <==> of_spec(live@[i], *spec)) by {}
    if all_fit(added@, *spec) {
        assert forall|i: int| 0 <= i < added@.len() implies of_spec(#[trigger] added@[i], *spec) by {
            assert(fits_spec(added@[i], *spec));
        }
    } else {
        let i = choose|i: int| 0 <= i < added@.len() && !fits_spec(#[trigger] added@[i], *spec);
        assert(!of_spec(added@[i], *spec));
    }
    if all_fit(live@, *spec) {
        assert forall|i: int| 0 <= i < live@.len() implies of_spec(#[trigger] live@[i], *spec) by {
            assert(fits_spec(live@[i], *spec));
        }
    } else {
        let i = choose|i: int| 0 <= i < live@.len() && !fits_spec(#[trigger] live@[i], *spec);
        assert(!of_spec(live@[i], *spec));
    }
}

/// The first of two texts comes first by their bytes: at the first byte at which they differ it has
/// the smaller one, or it ends there.
pub open spec fn comes_first(a: Seq<char>, b: Seq<char>) -> bool {
    let (x, y) = (encode_utf8(a), encode_utf8(b));
    exists|n: int|
        {
            &&& 0 <= n <= x.len()
            &&& n < y.len()
            &&& #[trigger] x.take(n) == y.take(n)
            &&& n == x.len() || x[n] < y[n]
        }
}

/// The removed paths come in byte order, each once.
pub proof fn removed_paths_come_in_order(
    added: &[DataFile],
    live: &[DataFile],
    spec: &PartitionSpec,
    r: Result<Vec<String>, EngineError>,
    i: int,
    j: int,
)
    requires
        call_ensures(dynamic_partition_overwrite_paths, (added, live, spec), r),
        r is Ok,
        0 <= i < j < r->Ok_0@.len(),
    ensures
        comes_first(r->Ok_0@[i]@, r->Ok_0@[j]@),
{
    let t = texts(r->Ok_0@);
    assert(crate::text::text_less(t[i], t[j]));
    lemma_comes_first(t[i], t[j]);
}

/// The order of texts is the order of their bytes.
pub proof fn lemma_comes_first(a: Seq<char>, b: Seq<char>)
    ensures
        crate::text::text_less(a, b) <==> comes_first(a, b),
{
    let (x, y) = (encode_utf8(a), encode_utf8(b));
    if crate::text::bytes_less(x, y) {
        lemma_first_difference(x, y);
    }
    if comes_first(a, b) {
        let n = choose|n: int|
            {
                &&& 0 <= n <= x.len()
                &&& n < y.len()
                &&& #[trigger] x.take(n) == y.take(n)
                &&& n == x.len() || x[n] < y[n]
            };
        lemma_difference_decides(x, y, n);
    }
}

proof fn lemma_first_difference(x: Seq<u8>, y: Seq<u8>)
    requires
        crate::text::bytes_less(x, y),
    ensures
        exists|n: int|
            {
                &&& 0 <= n <= x.len()
                &&& n < y.len()
                &&& #[trigger] x.take(n) == y.take(n)
                &&& n == x.len() || x[n] < y[n]
            },
    decreases x.len(),
{
    if x.len() == 0 || x[0] != y[0] {
        assert(x.take(0) =~= y.take(0));
    } else {
        lemma_first_difference(x.drop_first(), y.drop_first());
        let (u, v) = (x.drop_first(), y.drop_first());
        let n = choose|n: int|
            {
                &&& 0 <= n <= u.len()
                &&& n < v.len()
                &&& #[trigger] u.take(n) == v.take(n)
                &&& n == u.len() || u[n] < v[n]
            };
        assert forall|k: int| 0 <= k < n + 1 implies #[trigger] x.take(n + 1)[k] == y.take(
            n + 1,
        )[k] by {
            if k > 0 {
                assert(u.take(n)[k - 1] == v.take(n)[k - 1]);
            }
        }
        assert(x.take(n + 1) =~= y.take(n + 1));
    }
}

proof fn lemma_difference_decides(x: Seq<u8>, y: Seq<u8>, n: int)
    requires
        0 <= n <= x.len(),
        n < y.len(),
        x.take(n) == y.take(n),
        n == x.len() || x[n] < y[n],
    ensures
        crate::text::bytes_less(x, y),
    decreases x.len(),
{
    if n > 0 {
        assert(x.take(n)[0] == y.take(n)[0]);
        assert(x.take(n)[0] == x[0]);
        assert(y.take(n)[0] == y[0]);
        let (u, v) = (x.drop_first(), y.drop_first());
        assert forall|k: int| 0 <= k < n - 1 implies #[trigger] u.take(n - 1)[k] == v.take(
            n - 1,
        )[k] by {
            assert(x.take(n)[k + 1] == y.take(n)[k + 1]);
            assert(u[k] == x[k + 1]);
            assert(v[k] == y[k + 1]);
            assert(x.take(n)[k + 1] == x[k + 1]);
            assert(y.take(n)[k + 1] == y[k + 1]);
        }
        assert(u.take(n - 1) =~= v.take(n - 1));
        lemma_difference_decides(u, v, n - 1);
    }
}

/// An entry of a manifest that is not one of a deleted file.
pub open spec fn not_deleted() -> spec_fn(ManifestEntry) -> bool {
    |entry: ManifestEntry| !(entry.status is Deleted)
}

/// The file of an entry, as one of the partition spec of its manifest.
pub open spec fn file_of(partition_spec_id: i32) -> spec_fn(ManifestEntry) -> DataFile {
    |entry: ManifestEntry| DataFile { partition_spec_id, ..entry.data_file }
}

/// The files of all entries that are not deleted, in their order.
pub open spec fn live_of(entries: Seq<ManifestEntry>, partition_spec_id: i32) -> Seq<DataFile> {
    entries.filter(not_deleted()).map_values(file_of(partition_spec_id))
}

proof fn lemma_kept(entries: Seq<ManifestEntry>, partition_spec_id: i32)
    ensures
        kept_files(entries, partition_spec_id) == live_of(entries, partition_spec_id),
    decreases entries.len(),
{
    reveal(Seq::filter);
    if entries.len() > 0 {
        lemma_kept(entries.drop_last(), partition_spec_id);
    }
    assert(kept_files(entries, partition_spec_id) =~= live_of(entries, partition_spec_id));
}

/// A manifest adds the files of all its entries but the deleted ones, in their order and as they
/// are, but for the partition spec, which is that of the manifest. It fails exactly where one of
/// those files holds deletes.
pub proof fn manifest_adds_all_that_is_not_deleted(
    live: LiveFiles,
    partition_spec_id: i32,
    entries: Vec<ManifestEntry>,
    r: Result<LiveFiles, EngineError>,
)
    requires
        call_ensures(LiveFiles::add_manifest, (live, partition_spec_id, entries), r),
    ensures
        r matches Ok(after) ==> after.files@ == live.files@ + live_of(entries@, partition_spec_id),
        r is Err <==> exists|i: int|
            0 <= i < entries@.len() && !((#[trigger] entries@[i]).status is Deleted)
                && !(entries@[i].data_file.content is Data),
{
    lemma_kept(entries@, partition_spec_id);
    if r is Err {
        let i = choose|i: int|
            0 <= i < entries@.len() && active(#[trigger] entries@[i])
                && entries@[i].data_file.content != DataContentType::Data;
        assert(!(entries@[i].status is Deleted) && !(entries@[i].data_file.content is Data));
    }
    if exists|i: int|
        0 <= i < entries@.len() && !((#[trigger] entries@[i]).status is Deleted)
            && !(entries@[i].data_file.content is Data) {
        let i = choose|i: int|
            0 <= i < entries@.len() && !((#[trigger] entries@[i]).status is Deleted)
                && !(entries@[i].data_file.content is Data);
        assert(active(entries@[i]));
    }
}

/// The live files of a table are those that the manifests of its current snapshot list: the list is
/// that of the current snapshot, and a table without one has no live files.
pub proof fn live_files_are_those_of_the_current_snapshot(
    metadata: &TableMetadata,
    snapshot: Option<&Snapshot>,
    next: LiveFilesStep,
)
    requires
        call_ensures(TableMetadata::current_snapshot, (metadata,), snapshot),
        call_ensures(current_live_data_files, (metadata,), next),
    ensures
        match snapshot {
            Some(snapshot) => next is LoadManifestList && next->LoadManifestList_0.location@
                == snapshot.manifest_list@,
            None => next is Done && next->Done_0 is Ok && next->Done_0->Ok_0@.len() == 0,
        },
{
}

/// All manifests of the list are loaded, one after the other from the first, before the live files
/// are known.
pub proof fn every_manifest_is_loaded(
    list: LoadManifestList,
    manifests: Vec<ManifestFile>,
    next: LiveFilesStep,
)
    requires
        call_ensures(LoadManifestList::loaded, (list, Ok(manifests)), next),
    ensures
        manifests@.len() > 0 ==> next is LoadManifest && next->LoadManifest_0.manifests@
            == manifests@ && next->LoadManifest_0.at == 0 && next->LoadManifest_0.live.files@
            == Seq::<DataFile>::empty(),
        manifests@.len() == 0 ==> next is Done && next->Done_0 is Ok && next->Done_0->Ok_0@.len()
            == 0,
{
}

/// Each manifest is loaded from its own path and adds its live files to those of the ones before.
pub proof fn each_manifest_adds_its_files(
    load: LoadManifest,
    path: &String,
    entries: Vec<ManifestEntry>,
    next: LiveFilesStep,
)
    requires
        load.wf(),
        call_ensures(LoadManifest::location, (&load,), path),
        call_ensures(LoadManifest::loaded, (load, Ok(entries)), next),
    ensures
        path@ == load.manifests@[load.at as int].manifest_path@,
        ({
            let files = load.live.files@ + live_of(
                entries@,
                load.manifests@[load.at as int].partition_spec_id,
            );
            match next {
                LiveFilesStep::LoadManifest(more) => more.manifests@ == load.manifests@ && more.at
                    == load.at + 1 && more.at < load.manifests@.len() && more.live.files@ == files,
                LiveFilesStep::Done(Ok(all)) => load.at + 1 == load.manifests@.len() && all@
                    == files,
                LiveFilesStep::Done(Err(_)) => exists|i: int|
                    0 <= i < entries@.len() && !((#[trigger] entries@[i]).status is Deleted)
                        && !(entries@[i].data_file.content is Data),
                _ => false,
            }
        }),
{
    let spec_id = load.manifests@[load.at as int].partition_spec_id;
    lemma_kept(entries@, spec_id);
    let longer = load.entries@.push(entries@);
    assert(longer.drop_last() =~= load.entries@);
    if !crate::live_files::only_data(entries@) {
        let i = choose|i: int|
            0 <= i < entries@.len() && active(#[trigger] entries@[i])
                && entries@[i].data_file.content != DataContentType::Data;
        assert(!(entries@[i].status is Deleted) && !(entries@[i].data_file.content is Data));
    }
}

} // verus!
