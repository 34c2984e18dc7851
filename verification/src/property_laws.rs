//! Which options name properties, which keys are usable, and what becomes of both.
use vstd::prelude::*;

use crate::error::EngineError;
use crate::overwrite_laws::{comes_first, lemma_comes_first};
use crate::snapshot_properties::{
    accepted_means_usable_and_increasing, cleaned_layer, cleaned_layers,
    extract_snapshot_properties, extraction_accepted, insert_snapshot_properties, item_properties,
    key_fault, keys, layer_views, list_accepted, named_properties, names_property, other_options,
    pair_texts, parse_expected_snapshot_id, parse_optional_expected_snapshot_id, property_accepted,
    property_key, property_options, reserved, reserved_summary_keys, strip_snapshot_property_prefix,
    validate_snapshot_properties, validate_snapshot_property_key, DataSourceError, OptionLayer,
    Summary,
};
use crate::text::{lower, same_ignoring_case, to_lower, u64_text, white_space};
use crate::text_laws::{lemma_number, lemma_read, writes_number};

verus! {

/// Two characters are the same, or one is the capital ASCII letter of the other.
pub open spec fn same_letter(a: char, b: char) -> bool {
    ||| a == b
    ||| 'A' <= a && a <= 'Z' && b as int == a as int + 32
    ||| 'A' <= b && b <= 'Z' && a as int == b as int + 32
}

/// Two texts are the same but for capital ASCII letters.
pub open spec fn same_letters(a: Seq<char>, b: Seq<char>) -> bool {
    a.len() == b.len() && forall|i: int| 0 <= i < a.len() ==> same_letter(#[trigger] a[i], b[i])
}

proof fn lemma_letter(a: char, b: char)
    ensures
        lower(a) == lower(b) <==> same_letter(a, b),
{
}

pub proof fn lemma_letters(a: Seq<char>, b: Seq<char>)
    ensures
        same_ignoring_case(a, b) <==> same_letters(a, b),
{
    assert forall|i: int| 0 <= i < a.len() && a.len() == b.len() implies (lower(#[trigger] a[i])
        == lower(b[i]) <==> same_letter(a[i], b[i])) by {
        lemma_letter(a[i], b[i]);
    }
    if same_ignoring_case(a, b) {
        assert forall|i: int| 0 <= i < a.len() implies same_letter(#[trigger] a[i], b[i]) by {
            assert(lower(a[i]) == lower(b[i]));
        }
    }
    if same_letters(a, b) {
        assert forall|i: int| 0 <= i < a.len() implies lower(#[trigger] a[i]) == lower(b[i]) by {
            assert(same_letter(a[i], b[i]));
        }
    }
}

/// Turning a letter into a small one changes capital ASCII letters only, and doing so twice changes
/// nothing more.
pub proof fn small_letters_stay_small(c: char, r: char, again: char)
    requires
        call_ensures(to_lower, (c,), r),
        call_ensures(to_lower, (r,), again),
    ensures
        same_letter(c, r),
        !('A' <= r && r <= 'Z'),
        !('A' <= c && c <= 'Z') ==> r == c,
        again == r,
{
}

/// An option names a property: it begins with the prefix, in any case.
pub open spec fn names(key: Seq<char>) -> bool {
    key.len() >= 18 && same_letters(key.take(18), "snapshot-property."@)
}

pub proof fn lemma_names(key: Seq<char>)
    ensures
        names_property(key) <==> names(key),
        names(key) ==> property_key(key) == key.skip(18),
{
    reveal_strlit("snapshot-property.");
    assert("snapshot-property."@.len() == 18);
    if key.len() >= 18 {
        assert(key.subrange(0, 18) =~= key.take(18));
        lemma_letters(key.take(18), "snapshot-property."@);
        assert(key.subrange(18, key.len() as int) =~= key.skip(18));
    }
}

/// An option names a property exactly where it begins with the prefix, in any case. The key is what
/// follows it, as it is.
pub proof fn options_name_what_follows_the_prefix(key: &str, r: Option<&str>)
    requires
        call_ensures(strip_snapshot_property_prefix, (key,), r),
    ensures
        r is Some <==> names(key@),
        r is Some ==> key@.len() == 18 + r->0@.len() && r->0@ == key@.skip(18),
{
    lemma_names(key@);
}

/// The keys of a summary that only the engine writes.
pub open spec fn written_by_the_engine(key: Seq<char>) -> bool {
    ||| same_letters(key, "operation"@)
    ||| same_letters(key, "added-data-files"@)
    ||| same_letters(key, "deleted-data-files"@)
    ||| same_letters(key, "total-data-files"@)
    ||| same_letters(key, "added-delete-files"@)
    ||| same_letters(key, "added-equality-delete-files"@)
    ||| same_letters(key, "removed-equality-delete-files"@)
    ||| same_letters(key, "added-position-delete-files"@)
    ||| same_letters(key, "removed-position-delete-files"@)
    ||| same_letters(key, "added-dvs"@)
    ||| same_letters(key, "removed-dvs"@)
    ||| same_letters(key, "removed-delete-files"@)
    ||| same_letters(key, "total-delete-files"@)
    ||| same_letters(key, "added-records"@)
    ||| same_letters(key, "deleted-records"@)
    ||| same_letters(key, "total-records"@)
    ||| same_letters(key, "added-files-size"@)
    ||| same_letters(key, "removed-files-size"@)
    ||| same_letters(key, "total-files-size"@)
    ||| same_letters(key, "added-position-deletes"@)
    ||| same_letters(key, "removed-position-deletes"@)
    ||| same_letters(key, "total-position-deletes"@)
    ||| same_letters(key, "added-equality-deletes"@)
    ||| same_letters(key, "removed-equality-deletes"@)
    ||| same_letters(key, "total-equality-deletes"@)
    ||| same_letters(key, "deleted-duplicate-files"@)
    ||| same_letters(key, "changed-partition-count"@)
    ||| same_letters(key, "partition-summaries-included"@)
    ||| same_letters(key, "wap.id"@)
    ||| same_letters(key, "published-wap-id"@)
    ||| same_letters(key, "source-snapshot-id"@)
    ||| same_letters(key, "replace-partitions"@)
    ||| same_letters(key, "manifests-created"@)
    ||| same_letters(key, "manifests-replaced"@)
    ||| same_letters(key, "manifests-kept"@)
    ||| same_letters(key, "entries-processed"@)
    ||| same_letters(key, "engine-name"@)
    ||| same_letters(key, "engine-version"@)
    ||| same_letters(key, "app-id"@)
    ||| same_letters(key, "iceberg-version"@)
    ||| key.len() >= 11 && same_letters(key.take(11), "partitions."@)
}

proof fn lemma_reserved(key: Seq<char>)
    ensures
        reserved(key) <==> written_by_the_engine(key),
{
    let all = reserved_summary_keys();
    assert forall|i: int| 0 <= i < all.len() implies (same_ignoring_case(key, #[trigger] all[i])
        <==> same_letters(key, all[i])) by {
        lemma_letters(key, all[i]);
    }
    reveal_strlit("partitions.");
    assert("partitions."@.len() == 11);
    if key.len() >= 11 {
        assert(key.subrange(0, 11) =~= key.take(11));
        lemma_letters(key.take(11), "partitions."@);
    }
    assert(all.len() == 40);
    if written_by_the_engine(key) && !(key.len() >= 11 && same_letters(
        key.take(11),
        "partitions."@,
    )) {
        assert(exists|i: int| 0 <= i < 40 && same_letters(key, #[trigger] all[i])) by {
            assert(all[0] == "operation"@ && all[1] == "added-data-files"@ && all[2]
                == "deleted-data-files"@ && all[3] == "total-data-files"@ && all[4]
                == "added-delete-files"@ && all[5] == "added-equality-delete-files"@ && all[6]
                == "removed-equality-delete-files"@ && all[7] == "added-position-delete-files"@
                && all[8] == "removed-position-delete-files"@ && all[9] == "added-dvs"@);
            assert(all[10] == "removed-dvs"@ && all[11] == "removed-delete-files"@ && all[12]
                == "total-delete-files"@ && all[13] == "added-records"@ && all[14]
                == "deleted-records"@ && all[15] == "total-records"@ && all[16]
                == "added-files-size"@ && all[17] == "removed-files-size"@ && all[18]
                == "total-files-size"@ && all[19] == "added-position-deletes"@);
            assert(all[20] == "removed-position-deletes"@ && all[21] == "total-position-deletes"@
                && all[22] == "added-equality-deletes"@ && all[23] == "removed-equality-deletes"@
                && all[24] == "total-equality-deletes"@ && all[25] == "deleted-duplicate-files"@
                && all[26] == "changed-partition-count"@ && all[27]
                == "partition-summaries-included"@ && all[28] == "wap.id"@ && all[29]
                == "published-wap-id"@);
            assert(all[30] == "source-snapshot-id"@ && all[31] == "replace-partitions"@ && all[32]
                == "manifests-created"@ && all[33] == "manifests-replaced"@ && all[34]
                == "manifests-kept"@ && all[35] == "entries-processed"@ && all[36]
                == "engine-name"@ && all[37] == "engine-version"@ && all[38] == "app-id"@ && all[39]
                == "iceberg-version"@);
        }
    }
}

/// A key is usable: it has something before and after which there is no white space, and is none
/// that the engine writes.
pub open spec fn usable(key: Seq<char>) -> bool {
    &&& key.len() > 0
    &&& !white_space(key[0])
    &&& !white_space(key.last())
    &&& !written_by_the_engine(key)
}

pub proof fn lemma_usable(key: Seq<char>)
    ensures
        key_fault(key) is None <==> usable(key),
{
    lemma_reserved(key);
    if key.len() > 0 && crate::text::blank(key) {
        assert(white_space(key[0]));
    }
}

/// A key is accepted exactly where it is usable, and else is an error of planning.
pub proof fn only_usable_keys_are_accepted(key: &str, r: Result<(), EngineError>)
    requires
        call_ensures(validate_snapshot_property_key, (key,), r),
    ensures
        r is Ok <==> usable(key@),
        r is Err ==> r->Err_0 is Plan,
{
    lemma_usable(key@);
}

/// A list of properties is accepted exactly where all keys are usable and each comes before the next
/// by its bytes.
pub proof fn only_ordered_lists_are_accepted(
    properties: &[(String, String)],
    r: Result<(), EngineError>,
)
    requires
        call_ensures(validate_snapshot_properties, (properties,), r),
    ensures
        r is Ok <==> (forall|i: int|
            0 <= i < properties@.len() ==> usable((#[trigger] properties@[i]).0@)) && (forall|
            i: int,
            j: int,
        |
            0 <= i < j < properties@.len() ==> comes_first(
                (#[trigger] properties@[i]).0@,
                (#[trigger] properties@[j]).0@,
            )),
        r is Err ==> r->Err_0 is Plan,
{
    lemma_list(properties@);
}

proof fn lemma_list(properties: Seq<(String, String)>)
    ensures
        list_accepted(keys(pair_texts(properties))) <==> (forall|i: int|
            0 <= i < properties.len() ==> usable((#[trigger] properties[i]).0@)) && (forall|
            i: int,
            j: int,
        |
            0 <= i < j < properties.len() ==> comes_first(
                (#[trigger] properties[i]).0@,
                (#[trigger] properties[j]).0@,
            )),
{
    let k = keys(pair_texts(properties));
    accepted_means_usable_and_increasing(k);
    assert forall|i: int| 0 <= i < properties.len() implies (#[trigger] properties[i]).0@
        == k[i] by {}
    assert forall|i: int| 0 <= i < properties.len() implies (key_fault(#[trigger] k[i]) is None
        <==> usable(properties[i].0@)) by {
        lemma_usable(k[i]);
    }
    assert forall|i: int, j: int| 0 <= i < j < properties.len() implies (crate::text::text_less(
        #[trigger] k[i],
        #[trigger] k[j],
    ) <==> comes_first(properties[i].0@, properties[j].0@)) by {
        lemma_comes_first(k[i], k[j]);
    }
    if list_accepted(k) {
        assert forall|i: int| 0 <= i < properties.len() implies usable(
            (#[trigger] properties[i]).0@,
        ) by {
            assert(key_fault(k[i]) is None);
        }
        assert forall|i: int, j: int| 0 <= i < j < properties.len() implies comes_first(
            (#[trigger] properties[i]).0@,
            (#[trigger] properties[j]).0@,
        ) by {
            assert(crate::text::text_less(k[i], k[j]));
        }
    }
    if (forall|i: int| 0 <= i < properties.len() ==> usable((#[trigger] properties[i]).0@)) && (
    forall|i: int, j: int|
        0 <= i < j < properties.len() ==> comes_first(
            (#[trigger] properties[i]).0@,
            (#[trigger] properties[j]).0@,
        )) {
        assert forall|i: int| 0 <= i < k.len() implies key_fault(#[trigger] k[i]) is None by {
            assert(usable(properties[i].0@));
        }
        assert forall|i: int, j: int| 0 <= i < j < k.len() implies crate::text::text_less(
            #[trigger] k[i],
            #[trigger] k[j],
        ) by {
            assert(comes_first(properties[i].0@, properties[j].0@));
        }
    }
}

/// An option of the write itself names this property with this value.
pub open spec fn named_in(
    options: Seq<OptionLayer>,
    l: int,
    i: int,
    key: Seq<char>,
    value: Seq<char>,
) -> bool {
    &&& 0 <= l < options.len()
    &&& options[l] is OptionList
    &&& 0 <= i < options[l]->OptionList_items@.len()
    &&& names(options[l]->OptionList_items@[i].0@)
    &&& options[l]->OptionList_items@[i].0@.skip(18) == key
    &&& options[l]->OptionList_items@[i].1@ == value
}

proof fn lemma_items(items: Seq<(Seq<char>, Seq<char>)>, pair: (Seq<char>, Seq<char>))
    ensures
        item_properties(items).contains(pair) <==> exists|i: int|
            0 <= i < items.len() && names((#[trigger] items[i]).0) && (
                items[i].0.skip(18),
                items[i].1,
            ) == pair,
    decreases items.len(),
{
    reveal(Seq::filter);
    if items.len() == 0 {
        assert(item_properties(items) =~= seq![]);
    } else {
        let shorter = items.drop_last();
        let last = items.last();
        lemma_items(shorter, pair);
        lemma_names(last.0);
        let before = item_properties(shorter);
        let own = (property_key(last.0), last.1);
        if names(last.0) {
            assert(item_properties(items) =~= before.push(own));
        } else {
            assert(item_properties(items) =~= before);
        }
        if item_properties(items).contains(pair) {
            if before.contains(pair) {
                let i = choose|i: int|
                    0 <= i < shorter.len() && names((#[trigger] shorter[i]).0) && (
                        shorter[i].0.skip(18),
                        shorter[i].1,
                    ) == pair;
                assert(items[i] == shorter[i]);
            } else {
                assert(names(last.0) && own == pair) by {
                    let k = choose|k: int|
                        0 <= k < item_properties(items).len() && item_properties(items)[k] == pair;
                    if k < before.len() {
                        assert(before[k] == pair);
                    }
                }
                assert(items[items.len() - 1] == last);
            }
        }
        if exists|i: int|
            0 <= i < items.len() && names((#[trigger] items[i]).0) && (
                items[i].0.skip(18),
                items[i].1,
            ) == pair {
            let i = choose|i: int|
                0 <= i < items.len() && names((#[trigger] items[i]).0) && (
                    items[i].0.skip(18),
                    items[i].1,
                ) == pair;
            if i < shorter.len() {
                assert(shorter[i] == items[i]);
                assert(before.contains(pair));
                let k = choose|k: int| 0 <= k < before.len() && before[k] == pair;
                assert(item_properties(items)[k] == pair);
            } else {
                assert(item_properties(items)[before.len() as int] == pair);
            }
        }
    }
}

proof fn lemma_named(options: Seq<OptionLayer>, pair: (Seq<char>, Seq<char>))
    ensures
        named_properties(layer_views(options)).contains(pair) <==> exists|l: int, i: int| #[trigger]
            named_in(options, l, i, pair.0, pair.1),
    decreases options.len(),
{
    let layers = layer_views(options);
    let all = named_properties(layers);
    if options.len() > 0 {
        let shorter = options.drop_last();
        lemma_named(shorter, pair);
        assert(layers.drop_last() =~= layer_views(shorter));
        assert(layers.last() == options.last()@);
        let before = named_properties(layer_views(shorter));
        let own = crate::snapshot_properties::layer_properties(layers.last());
        assert(all == before + own);
        let n = options.len() - 1;
        if options.last() is OptionList {
            let items = options.last()->OptionList_items@;
            lemma_items(pair_texts(items), pair);
            assert(own == item_properties(pair_texts(items)));
            if own.contains(pair) {
                let i = choose|i: int|
                    0 <= i < pair_texts(items).len() && names((#[trigger] pair_texts(items)[i]).0)
                        && (pair_texts(items)[i].0.skip(18), pair_texts(items)[i].1) == pair;
                assert(named_in(options, n, i, pair.0, pair.1));
            }
        }
        if all.contains(pair) {
            let k = choose|k: int| 0 <= k < all.len() && all[k] == pair;
            if k < before.len() {
                assert(before[k] == pair);
                let (l, i) = choose|l: int, i: int| #[trigger]
                    named_in(shorter, l, i, pair.0, pair.1);
                assert(named_in(options, l, i, pair.0, pair.1));
            } else {
                assert(own[k - before.len()] == pair);
                assert(own.contains(pair));
            }
        }
        if exists|l: int, i: int| #[trigger] named_in(options, l, i, pair.0, pair.1) {
            let (l, i) = choose|l: int, i: int| #[trigger] named_in(options, l, i, pair.0, pair.1);
            if l < n {
                assert(named_in(shorter, l, i, pair.0, pair.1));
                let k = choose|k: int| 0 <= k < before.len() && before[k] == pair;
                assert(all[k] == pair);
            } else {
                let items = options.last()->OptionList_items@;
                assert(pair_texts(items)[i] == (items[i].0@, items[i].1@));
                assert(own.contains(pair));
                let k = choose|k: int| 0 <= k < own.len() && own[k] == pair;
                assert(all[before.len() + k] == pair);
            }
        }
    }
}

/// The properties that are taken out are exactly those that options of the write itself name, with
/// their values, in the order of their keys. All keys are usable.
pub proof fn extraction_takes_what_is_named(
    options: Vec<OptionLayer>,
    r: Result<(Vec<OptionLayer>, Vec<(String, String)>), EngineError>,
    key: Seq<char>,
    value: Seq<char>,
    a: int,
    b: int,
)
    requires
        call_ensures(extract_snapshot_properties, (options,), r),
        r is Ok,
    ensures
        (exists|k: int|
            0 <= k < r->Ok_0.1@.len() && (#[trigger] r->Ok_0.1@[k]).0@ == key && r->Ok_0.1@[k].1@
                == value) <==> (exists|l: int, i: int| #[trigger]
            named_in(options@, l, i, key, value)),
        0 <= a < r->Ok_0.1@.len() ==> usable(r->Ok_0.1@[a].0@),
        0 <= a < b < r->Ok_0.1@.len() ==> comes_first(r->Ok_0.1@[a].0@, r->Ok_0.1@[b].0@),
{
    let properties = r->Ok_0.1@;
    let texts = pair_texts(properties);
    let named = named_properties(layer_views(options@));
    lemma_named(options@, (key, value));
    assert(texts.contains((key, value)) <==> named.contains((key, value)));
    if exists|k: int|
        0 <= k < properties.len() && (#[trigger] properties[k]).0@ == key && properties[k].1@
            == value {
        let k = choose|k: int|
            0 <= k < properties.len() && (#[trigger] properties[k]).0@ == key && properties[k].1@
                == value;
        assert(texts[k] == (key, value));
        assert(texts.contains(texts[k]));
        let (l, i) = choose|l: int, i: int| #[trigger]
            named_in(options@, l, i, (key, value).0, (key, value).1);
        assert(named_in(options@, l, i, key, value));
    }
    if exists|l: int, i: int| #[trigger] named_in(options@, l, i, key, value) {
        let (l, i) = choose|l: int, i: int| #[trigger] named_in(options@, l, i, key, value);
        assert(named_in(options@, l, i, (key, value).0, (key, value).1));
        assert(texts.contains((key, value)));
    }
    if texts.contains((key, value)) {
        let k = choose|k: int| 0 <= k < texts.len() && texts[k] == (key, value);
        assert(properties[k].0@ == key && properties[k].1@ == value);
    }
    crate::snapshot_properties::extracted_properties_are_accepted(named, texts);
    lemma_list(properties);
}

/// What is left of an option list is what names no property, in its order. Any other layer stays as
/// it is.
pub proof fn extraction_leaves_the_rest(
    options: Vec<OptionLayer>,
    r: Result<(Vec<OptionLayer>, Vec<(String, String)>), EngineError>,
    l: int,
)
    requires
        call_ensures(extract_snapshot_properties, (options,), r),
        r is Ok,
        0 <= l < options@.len(),
    ensures
        r->Ok_0.0@.len() == options@.len(),
        match options@[l] {
            OptionLayer::OptionList { items } => r->Ok_0.0@[l] is OptionList && pair_texts(
                r->Ok_0.0@[l]->OptionList_items@,
            ) == pair_texts(items@).filter(
                |item: (Seq<char>, Seq<char>)| !names(item.0),
            ),
            OptionLayer::TablePropertyList { items } => r->Ok_0.0@[l] is TablePropertyList
                && pair_texts(r->Ok_0.0@[l]->TablePropertyList_items@) == pair_texts(items@),
            OptionLayer::Other(text) => r->Ok_0.0@[l] is Other && r->Ok_0.0@[l]->Other_0@
                == text@,
        },
{
    let clean = r->Ok_0.0@;
    let layers = layer_views(options@);
    assert(layer_views(clean).len() == clean.len());
    assert(layer_views(clean)[l] == clean[l]@);
    assert(cleaned_layers(layers)[l] == cleaned_layer(options@[l]@));
    match options@[l] {
        OptionLayer::OptionList { items } => {
            lemma_others(pair_texts(items@));
        },
        _ => {},
    }
}

proof fn lemma_others(items: Seq<(Seq<char>, Seq<char>)>)
    ensures
        items.filter(other_options()) == items.filter(
            |item: (Seq<char>, Seq<char>)| !names(item.0),
        ),
    decreases items.len(),
{
    reveal(Seq::filter);
    if items.len() > 0 {
        lemma_others(items.drop_last());
        lemma_names(items.last().0);
    }
}

/// One more option leads to an error exactly where it names a property that cannot be used or was
/// named before, or where there was an error before.
pub proof fn one_more_option_fails_only_by_itself(
    options: Vec<OptionLayer>,
    r: Result<(Vec<OptionLayer>, Vec<(String, String)>), EngineError>,
    more: Vec<OptionLayer>,
    item: (String, String),
    s: Result<(Vec<OptionLayer>, Vec<(String, String)>), EngineError>,
)
    requires
        call_ensures(extract_snapshot_properties, (options,), r),
        call_ensures(extract_snapshot_properties, (more,), s),
        more@.len() == options@.len() + 1,
        more@.drop_last() == options@,
        more@.last() is OptionList,
        more@.last()->OptionList_items@ == seq![item],
    ensures
        s is Err <==> (r is Err || names(item.0@) && (!usable(item.0@.skip(18)) || exists|k: int|
            0 <= k < r->Ok_0.1@.len() && (#[trigger] r->Ok_0.1@[k]).0@ == item.0@.skip(18))),
        s is Err ==> s->Err_0 is Plan,
{
    let before = named_properties(layer_views(options@));
    let after = named_properties(layer_views(more@));
    let layers = layer_views(more@);
    assert(layers.drop_last() =~= layer_views(options@));
    assert(layers.last() == more@.last()@);
    let items = pair_texts(seq![item]);
    assert(items =~= seq![(item.0@, item.1@)]);
    let own = item_properties(items);
    assert(after == before + own);
    reveal(Seq::filter);
    lemma_names(item.0@);
    assert(items.drop_last() =~= seq![]);
    assert(items.drop_last().filter(property_options()) =~= seq![]);
    assert(items.last() == (item.0@, item.1@));
    let pair = (property_key(item.0@), item.1@);
    if names(item.0@) {
        assert(own =~= seq![pair]);
        assert(after =~= before.push(pair));
    } else {
        assert(own =~= seq![]);
        assert(after =~= before);
    }
    lemma_usable(pair.0);
    let n = before.len() as int;
    if extraction_accepted(after) {
        assert forall|k: int| 0 <= k < before.len() implies #[trigger] property_accepted(
            before,
            k,
        ) by {
            assert(property_accepted(after, k));
            assert(after[k] == before[k]);
            assert forall|j: int| 0 <= j < k implies (#[trigger] before[j]).0 != before[k].0 by {
                assert(after[j] == before[j]);
            }
        }
        if names(item.0@) {
            assert(property_accepted(after, n));
        }
    }
    if r is Ok {
        let texts = pair_texts(r->Ok_0.1@);
        let taken = exists|k: int|
            0 <= k < r->Ok_0.1@.len() && (#[trigger] r->Ok_0.1@[k]).0@ == item.0@.skip(18);
        if names(item.0@) {
            if taken {
                let k = choose|k: int|
                    0 <= k < r->Ok_0.1@.len() && (#[trigger] r->Ok_0.1@[k]).0@ == item.0@.skip(18);
                assert(texts.contains(texts[k]));
                assert(before.contains(texts[k]));
                let j = choose|j: int| 0 <= j < before.len() && before[j] == texts[k];
                assert(after[j].0 == after[n].0);
                assert(!property_accepted(after, n));
            }
            if !usable(pair.0) {
                assert(!property_accepted(after, n));
            }
            if usable(pair.0) && !taken {
                assert forall|k: int| 0 <= k < after.len() implies #[trigger] property_accepted(
                    after,
                    k,
                ) by {
                    if k < n {
                        assert(property_accepted(before, k));
                        assert forall|j: int| 0 <= j < k implies (#[trigger] after[j]).0
                            != after[k].0 by {
                            assert(before[j].0 != before[k].0);
                        }
                    } else {
                        assert forall|j: int| 0 <= j < k implies (#[trigger] after[j]).0
                            != after[k].0 by {
                            assert(before.contains(before[j]));
                            assert(texts.contains(before[j]));
                            let m = choose|m: int|
                                0 <= m < texts.len() && texts[m] == before[j];
                            assert(r->Ok_0.1@[m].0@ == before[j].0);
                        }
                    }
                }
            }
        }
    }
}

/// Adding properties to a summary adds each with its value and changes no other entry. It is refused
/// exactly where the list is, or a key is there already, and then nothing changes.
pub proof fn insertion_adds_and_never_replaces(
    summary: &mut Summary,
    properties: &[(String, String)],
    r: Result<(), EngineError>,
    checked: Result<(), EngineError>,
    key: Seq<char>,
    k: int,
)
    requires
        call_ensures(insert_snapshot_properties, (summary, properties), r),
        call_ensures(validate_snapshot_properties, (properties,), checked),
    ensures
        ({
            let before = old(summary).additional_properties@;
            let after = final(summary).additional_properties@;
            &&& final(summary).operation == old(summary).operation
            &&& r is Ok <==> checked is Ok && forall|i: int|
                0 <= i < properties@.len() ==> !before.contains_key(
                    (#[trigger] properties@[i]).0@,
                )
            &&& r is Err ==> after == before && r->Err_0 is Plan
            &&& r is Ok ==> {
                &&& after.contains_key(key) <==> before.contains_key(key) || exists|i: int|
                    0 <= i < properties@.len() && (#[trigger] properties@[i]).0@ == key
                &&& before.contains_key(key) ==> after[key]@ == before[key]@
                &&& 0 <= k < properties@.len() ==> after[properties@[k].0@]@ == properties@[k].1@
            }
        }),
{
    let before = summary.additional_properties@;
    let after = final(summary).additional_properties@;
    let tb = summary.text_properties();
    let ta = final(summary).text_properties();
    let pairs = pair_texts(properties@);
    assert forall|name: Seq<char>| #[trigger] tb.contains_key(name) <==> before.contains_key(
        name,
    ) by {}
    assert forall|i: int| 0 <= i < properties@.len() implies (#[trigger] properties@[i]).0@
        == pairs[i].0 by {}
    assert((forall|i: int|
        0 <= i < properties@.len() ==> !before.contains_key((#[trigger] properties@[i]).0@)) <==> (
    forall|i: int|
        0 <= i < properties@.len() ==> !tb.contains_key((#[trigger] pairs[i]).0))) by {
        if forall|i: int|
            0 <= i < properties@.len() ==> !before.contains_key((#[trigger] properties@[i]).0@) {
            assert forall|i: int| 0 <= i < properties@.len() implies !tb.contains_key(
                (#[trigger] pairs[i]).0,
            ) by {
                assert(!before.contains_key(properties@[i].0@));
            }
        }
        if forall|i: int|
            0 <= i < properties@.len() ==> !tb.contains_key((#[trigger] pairs[i]).0) {
            assert forall|i: int| 0 <= i < properties@.len() implies !before.contains_key(
                (#[trigger] properties@[i]).0@,
            ) by {
                assert(!tb.contains_key(pairs[i].0));
            }
        }
    }
    if r is Ok {
        assert(ta.contains_key(key) <==> after.contains_key(key));
        assert(keys(pairs).contains(key) <==> exists|i: int|
            0 <= i < properties@.len() && (#[trigger] properties@[i]).0@ == key) by {
            if keys(pairs).contains(key) {
                let i = choose|i: int| 0 <= i < keys(pairs).len() && keys(pairs)[i] == key;
                assert(properties@[i].0@ == key);
            }
            if exists|i: int|
                0 <= i < properties@.len() && (#[trigger] properties@[i]).0@ == key {
                let i = choose|i: int|
                    0 <= i < properties@.len() && (#[trigger] properties@[i]).0@ == key;
                assert(keys(pairs)[i] == key);
            }
        }
        if before.contains_key(key) {
            assert(tb.contains_key(key));
            assert(ta[key] == tb[key]);
            assert(ta.contains_key(key));
            assert(ta[key] == after[key]@);
        }
        if 0 <= k < properties@.len() {
            let name = pairs[k].0;
            assert(keys(pairs)[k] == name);
            assert(keys(pairs).contains(name));
            assert(ta.contains_key(name));
            assert(ta[name] == pairs[k].1);
            assert(after.contains_key(name));
            assert(ta[name] == after[name]@);
        }
    }
}

/// What is read as a snapshot ID is a positive number in digits that fits, and is that number. Every
/// such number is read as itself where it is written out. All else is refused with the option and
/// its value.
pub proof fn snapshot_ids_are_read_as_written(
    key: &str,
    value: &str,
    r: Result<Option<i64>, DataSourceError>,
    optional: Result<Option<i64>, DataSourceError>,
    n: u64,
    written: String,
)
    requires
        call_ensures(parse_expected_snapshot_id, (key, value), r),
        call_ensures(parse_optional_expected_snapshot_id, (key, value), optional),
        call_ensures(u64_text, (n,), written),
    ensures
        r matches Ok(id) ==> id is Some && id->0 > 0 && writes_number(value@, id->0 as nat),
        r is Err ==> forall|m: nat| 0 < m <= i64::MAX ==> !#[trigger] writes_number(value@, m),
        r matches Err(DataSourceError::InvalidOption { key: k, value: v, cause }) ==> k@ == key@
            && v@ == value@ && cause is None,
        value@ == written@ && 0 < n <= 0x7fff_ffff_ffff_ffff ==> r == Ok::<
            Option<i64>,
            DataSourceError,
        >(Some(n as i64)),
        value@.len() == 0 ==> optional == Ok::<Option<i64>, DataSourceError>(None),
        value@.len() > 0 ==> (optional is Ok <==> r is Ok) && (r matches Ok(id) ==> optional
            == Ok::<Option<i64>, DataSourceError>(id)),
{
    lemma_read(value@);
    lemma_number(n as nat);
    if r is Err {
        assert forall|m: nat| 0 < m <= i64::MAX implies !#[trigger] writes_number(
            value@,
            m,
        ) by {
            if writes_number(value@, m) {
                assert(crate::text::ascii_digits(value@));
            }
        }
    }
    if r is Ok {
        if value@.len() == 0 {
            assert(crate::text::decimal_value(value@) == 0);
        }
    }
}

} // verus!
