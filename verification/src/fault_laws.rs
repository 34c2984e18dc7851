//! Which fault of properties is reported where there are several.
use vstd::prelude::*;

use crate::error::{EngineError, EngineErrorView};
use crate::message_laws::stand_in_order;
use crate::overwrite_laws::{comes_first, lemma_comes_first};
use crate::property_laws::{lemma_names, lemma_usable, names, written_by_the_engine};
use crate::snapshot_properties::{
    extract_snapshot_properties, extraction_accepted, extraction_refused,
    insert_snapshot_properties, insertion_refused, item_properties, key_fault, keys, layer_views,
    list_accepted, list_fault, list_refused, named_properties, pair_texts, property_accepted,
    property_key, property_options, property_refused, validate_snapshot_properties,
    validate_snapshot_property_key, OptionLayer, SnapshotPropertyErrorView, Summary,
};
use crate::value_laws::space_code;

verus! {

/// All characters show as space.
pub open spec fn all_space(text: Seq<char>) -> bool {
    forall|i: int| 0 <= i < text.len() ==> space_code((#[trigger] text[i]) as int)
}

/// A key that cannot be used is reported as empty where it is all space, else as having space around
/// it where it has, and else as reserved.
pub proof fn worst_fault_of_a_key_is_reported(key: &str, r: Result<(), EngineError>)
    requires
        call_ensures(validate_snapshot_property_key, (key,), r),
        r is Err,
    ensures
        r->Err_0 is Plan,
        ({
            let text = r->Err_0->Plan_0@;
            if all_space(key@) {
                text == "Iceberg snapshot property key cannot be empty"@
            } else if space_code(key@[0] as int) || space_code(key@[key@.len() - 1] as int) {
                text == "Iceberg snapshot property key `"@ + key@
                    + "` cannot have leading or trailing whitespace"@
            } else {
                &&& written_by_the_engine(key@)
                &&& text == "Iceberg snapshot property key `"@ + key@ + "` is reserved"@
            }
        }),
{
    lemma_usable(key@);
    if all_space(key@) {
        assert forall|i: int| 0 <= i < key@.len() implies crate::text::white_space(
            #[trigger] key@[i],
        ) by {
            assert(space_code(key@[i] as int));
        }
    } else {
        let i = choose|i: int| 0 <= i < key@.len() && !space_code((#[trigger] key@[i]) as int);
        assert(!crate::text::white_space(key@[i]));
        assert(!crate::text::blank(key@));
    }
}

proof fn lemma_fault_at(names: Seq<Seq<char>>, shorter: Seq<Seq<char>>, i: int)
    requires
        0 <= i < shorter.len() <= names.len(),
        shorter == names.take(shorter.len() as int),
    ensures
        list_fault(names, i) == list_fault(shorter, i),
{
    assert(names[i] == shorter[i]);
    if i > 0 {
        assert(names[i - 1] == shorter[i - 1]);
    }
}

proof fn lemma_one_list_fault(
    names: Seq<Seq<char>>,
    i: int,
    fault: SnapshotPropertyErrorView,
    error: EngineErrorView,
)
    requires
        0 <= i < names.len(),
        list_fault(names, i) == Some(fault),
        forall|j: int| 0 <= j < i ==> #[trigger] list_fault(names, j) is None,
        crate::snapshot_properties::list_refused_with(names, error),
    ensures
        error == EngineErrorView::Plan(fault.text()),
{
    let other = choose|other: SnapshotPropertyErrorView| #[trigger]
        list_refused(names, other) && error == EngineErrorView::Plan(other.text());
    let k = choose|k: int|
        0 <= k < names.len() && #[trigger] list_fault(names, k) == Some(other) && forall|j: int|
            0 <= j < k ==> #[trigger] list_fault(names, j) is None;
    if k < i {
        assert(list_fault(names, k) is None);
    }
    if i < k {
        assert(list_fault(names, i) is None);
    }
}

/// What is wrong with the beginning of a list is what is wrong with the list.
pub proof fn first_fault_of_a_list_is_reported(
    shorter: &[(String, String)],
    a: Result<(), EngineError>,
    properties: &[(String, String)],
    b: Result<(), EngineError>,
)
    requires
        shorter@.len() <= properties@.len(),
        shorter@ == properties@.take(shorter@.len() as int),
        call_ensures(validate_snapshot_properties, (shorter,), a),
        call_ensures(validate_snapshot_properties, (properties,), b),
        a is Err,
    ensures
        b is Err,
        b->Err_0@ == a->Err_0@,
{
    let x = keys(pair_texts(shorter@));
    let y = keys(pair_texts(properties@));
    assert(x =~= y.take(x.len() as int));
    let fault = choose|fault: SnapshotPropertyErrorView| #[trigger]
        list_refused(x, fault) && a->Err_0@ == EngineErrorView::Plan(fault.text());
    let i = choose|i: int|
        0 <= i < x.len() && #[trigger] list_fault(x, i) == Some(fault) && forall|j: int|
            0 <= j < i ==> #[trigger] list_fault(x, j) is None;
    lemma_fault_at(y, x, i);
    assert(list_fault(y, i) is Some);
    assert forall|j: int| 0 <= j < i implies #[trigger] list_fault(y, j) is None by {
        lemma_fault_at(y, x, j);
        assert(list_fault(x, j) is None);
    }
    lemma_one_list_fault(y, i, fault, b->Err_0@);
}

/// One more property at the end of a list without a fault is refused as its key would be, else as a
/// second one of its key, else as out of order, and else taken.
pub proof fn one_more_property_is_refused_by_itself(
    shorter: &[(String, String)],
    a: Result<(), EngineError>,
    properties: &[(String, String)],
    b: Result<(), EngineError>,
    key: &str,
    c: Result<(), EngineError>,
)
    requires
        shorter@.len() + 1 == properties@.len(),
        shorter@ == properties@.drop_last(),
        key@ == properties@.last().0@,
        call_ensures(validate_snapshot_properties, (shorter,), a),
        call_ensures(validate_snapshot_properties, (properties,), b),
        call_ensures(validate_snapshot_property_key, (key,), c),
        a is Ok,
    ensures
        if c is Err {
            b is Err && b->Err_0@ == c->Err_0@
        } else if shorter@.len() > 0 && shorter@.last().0@ == key@ {
            b is Err && b->Err_0@ == EngineErrorView::Plan(
                "duplicate Iceberg snapshot property key `"@ + key@ + "`"@,
            )
        } else if shorter@.len() > 0 && comes_first(key@, shorter@.last().0@) {
            b is Err && b->Err_0@ == EngineErrorView::Plan(
                "Iceberg snapshot properties are not in canonical key order"@,
            )
        } else {
            b is Ok
        },
{
    let x = keys(pair_texts(shorter@));
    let y = keys(pair_texts(properties@));
    let n = shorter@.len() as int;
    assert(x =~= y.take(x.len() as int));
    assert(y[n] == key@);
    assert forall|j: int| 0 <= j < n implies #[trigger] list_fault(y, j) is None by {
        lemma_fault_at(y, x, j);
        assert(list_fault(x, j) is None);
    }
    if n > 0 {
        assert(y[n - 1] == shorter@.last().0@);
        lemma_comes_first(key@, y[n - 1]);
    }
    if list_fault(y, n) is Some {
        assert(!list_accepted(y));
        lemma_one_list_fault(y, n, list_fault(y, n)->0, b->Err_0@);
    } else {
        assert(list_accepted(y));
    }
}

proof fn lemma_one_extraction_fault(
    named: Seq<(Seq<char>, Seq<char>)>,
    k: int,
    error: EngineErrorView,
) -> (fault: SnapshotPropertyErrorView)
    requires
        0 <= k < named.len(),
        !property_accepted(named, k),
        forall|j: int| 0 <= j < k ==> #[trigger] property_accepted(named, j),
        exists|fault: SnapshotPropertyErrorView| #[trigger]
            extraction_refused(named, fault) && error == EngineErrorView::Plan(fault.text()),
    ensures
        property_refused(named, k, fault),
        error == EngineErrorView::Plan(fault.text()),
{
    let fault = choose|fault: SnapshotPropertyErrorView| #[trigger]
        extraction_refused(named, fault) && error == EngineErrorView::Plan(fault.text());
    let i = choose|i: int|
        0 <= i < named.len() && #[trigger] property_refused(named, i, fault) && forall|j: int|
            0 <= j < i ==> #[trigger] property_accepted(named, j);
    if k < i {
        assert(property_accepted(named, k));
    }
    if i < k {
        assert(property_accepted(named, i));
        if key_fault(named[i].0) is None {
            let j = choose|j: int| 0 <= j < i && (#[trigger] named[j]).0 == named[i].0;
            assert(named[j].0 != named[i].0);
        }
    }
    fault
}

/// One more option that names a property is refused as its key would be, or else, where its key was
/// named before, with the value that was named before and then its own.
pub proof fn conflicting_options_are_told_with_both_values(
    options: Vec<OptionLayer>,
    r: Result<(Vec<OptionLayer>, Vec<(String, String)>), EngineError>,
    more: Vec<OptionLayer>,
    item: (String, String),
    s: Result<(Vec<OptionLayer>, Vec<(String, String)>), EngineError>,
    key: &str,
    checked: Result<(), EngineError>,
    at: int,
)
    requires
        call_ensures(extract_snapshot_properties, (options,), r),
        call_ensures(extract_snapshot_properties, (more,), s),
        more@.len() == options@.len() + 1,
        more@.drop_last() == options@,
        more@.last() is OptionList,
        more@.last()->OptionList_items@ == seq![item],
        r is Ok,
        names(item.0@),
        key@ == item.0@.skip(18),
        call_ensures(validate_snapshot_property_key, (key,), checked),
    ensures
        checked is Err ==> s is Err && s->Err_0@ == checked->Err_0@,
        checked is Ok && 0 <= at < r->Ok_0.1@.len() && r->Ok_0.1@[at].0@ == key@ ==> {
            &&& s is Err
            &&& s->Err_0 is Plan
            &&& stand_in_order(key@, r->Ok_0.1@[at].1@, s->Err_0->Plan_0@)
            &&& stand_in_order(r->Ok_0.1@[at].1@, item.1@, s->Err_0->Plan_0@)
        },
{
    let before = named_properties(layer_views(options@));
    let after = named_properties(layer_views(more@));
    let layers = layer_views(more@);
    assert(layers.drop_last() =~= layer_views(options@));
    assert(layers.last() == more@.last()@);
    let items = pair_texts(seq![item]);
    assert(items =~= seq![(item.0@, item.1@)]);
    let own = item_properties(items);
    assert(after == before + own);
    reveal(Seq::filter);
    lemma_names(item.0@);
    assert(items.drop_last() =~= seq![]);
    assert(items.drop_last().filter(property_options()) =~= seq![]);
    assert(items.last() == (item.0@, item.1@));
    let pair = (property_key(item.0@), item.1@);
    assert(own =~= seq![pair]);
    assert(after =~= before.push(pair));
    reveal_strlit("snapshot-property.");
    assert(pair.0 =~= key@);
    let n = before.len() as int;
    assert forall|k: int| 0 <= k < n implies #[trigger] property_accepted(after, k) by {
        assert(property_accepted(before, k));
        assert forall|j: int| 0 <= j < k implies (#[trigger] after[j]).0 != after[k].0 by {
            assert(before[j].0 != before[k].0);
        }
    }
    assert(after[n] == pair);
    if checked is Err {
        assert(!property_accepted(after, n));
        assert(!extraction_accepted(after));
        let fault = lemma_one_extraction_fault(after, n, s->Err_0@);
    } else if 0 <= at < r->Ok_0.1@.len() && r->Ok_0.1@[at].0@ == key@ {
        let texts = pair_texts(r->Ok_0.1@);
        let held = r->Ok_0.1@[at].1@;
        assert(texts[at] == (key@, held));
        assert(texts.contains(texts[at]));
        assert(before.contains(texts[at]));
        let m = choose|m: int| 0 <= m < before.len() && before[m] == texts[at];
        assert(after[m].0 == after[n].0);
        assert(!property_accepted(after, n));
        assert(!extraction_accepted(after));
        let fault = lemma_one_extraction_fault(after, n, s->Err_0@);
        let j = choose|j: int|
            0 <= j < n && (#[trigger] after[j]).0 == after[n].0 && fault == (
            SnapshotPropertyErrorView::ConflictingValues {
                key: after[n].0,
                previous_value: after[j].1,
                value: after[n].1,
            });
        if j < m {
            assert(property_accepted(before, m));
            assert(before[j].0 != before[m].0);
        }
        if m < j {
            assert(property_accepted(before, j));
            assert(before[m].0 != before[j].0);
        }
        assert(after[j].1 == held);
        let text = s->Err_0->Plan_0@;
        let a = "duplicate Iceberg snapshot property key `"@;
        let b = "` has conflicting values `"@;
        let c = "` and `"@;
        let d = "`"@;
        assert(text =~= a + key@ + b + held + (c + item.1@ + d));
        assert(text =~= (a + key@ + b) + held + c + item.1@ + d);
    }
}

/// What is wrong with earlier options is what is wrong with all.
pub proof fn first_fault_of_options_is_reported(
    options: Vec<OptionLayer>,
    r: Result<(Vec<OptionLayer>, Vec<(String, String)>), EngineError>,
    more: Vec<OptionLayer>,
    s: Result<(Vec<OptionLayer>, Vec<(String, String)>), EngineError>,
)
    requires
        call_ensures(extract_snapshot_properties, (options,), r),
        call_ensures(extract_snapshot_properties, (more,), s),
        more@.len() == options@.len() + 1,
        more@.drop_last() == options@,
        r is Err,
    ensures
        s is Err,
        s->Err_0@ == r->Err_0@,
{
    let before = named_properties(layer_views(options@));
    let after = named_properties(layer_views(more@));
    let layers = layer_views(more@);
    assert(layers.drop_last() =~= layer_views(options@));
    let own = crate::snapshot_properties::layer_properties(layers.last());
    assert(after == before + own);
    let fault = choose|fault: SnapshotPropertyErrorView| #[trigger]
        extraction_refused(before, fault) && r->Err_0@ == EngineErrorView::Plan(fault.text());
    let k = choose|k: int|
        0 <= k < before.len() && #[trigger] property_refused(before, k, fault) && forall|j: int|
            0 <= j < k ==> #[trigger] property_accepted(before, j);
    assert(after[k] == before[k]);
    assert(!property_accepted(after, k)) by {
        if key_fault(before[k].0) is None {
            let j = choose|j: int| 0 <= j < k && (#[trigger] before[j]).0 == before[k].0;
            assert(after[j].0 == after[k].0);
        }
    }
    assert(!extraction_accepted(after));
    assert forall|i: int| 0 <= i < k implies #[trigger] property_accepted(after, i) by {
        assert(property_accepted(before, i));
        assert forall|j: int| 0 <= j < i implies (#[trigger] after[j]).0 != after[i].0 by {
            assert(before[j].0 != before[i].0);
        }
    }
    let other = lemma_one_extraction_fault(after, k, s->Err_0@);
    if key_fault(before[k].0) is None {
        let i = choose|i: int|
            0 <= i < k && (#[trigger] before[i]).0 == before[k].0 && fault == (
            SnapshotPropertyErrorView::ConflictingValues {
                key: before[k].0,
                previous_value: before[i].1,
                value: before[k].1,
            });
        let j = choose|j: int|
            0 <= j < k && (#[trigger] after[j]).0 == after[k].0 && other == (
            SnapshotPropertyErrorView::ConflictingValues {
                key: after[k].0,
                previous_value: after[j].1,
                value: after[k].1,
            });
        assert(after[j] == before[j]);
        if i < j {
            assert(property_accepted(before, j));
            assert(before[i].0 != before[j].0);
        }
        if j < i {
            assert(property_accepted(before, i));
            assert(before[j].0 != before[i].0);
        }
    }
}

/// Where properties cannot be added to a summary, a fault of the list is reported as it is, and else
/// the first key that is there already, with the value that is there and then its own.
pub proof fn first_collision_is_told_with_both_values(
    summary: &mut Summary,
    properties: &[(String, String)],
    r: Result<(), EngineError>,
    checked: Result<(), EngineError>,
    k: int,
)
    requires
        call_ensures(insert_snapshot_properties, (summary, properties), r),
        call_ensures(validate_snapshot_properties, (properties,), checked),
        r is Err,
    ensures
        checked is Err ==> r->Err_0@ == checked->Err_0@,
        checked is Ok && 0 <= k < properties@.len()
            && old(summary).additional_properties@.contains_key(properties@[k].0@) && (forall|
            j: int,
        |
            0 <= j < k ==> !old(summary).additional_properties@.contains_key(
                (#[trigger] properties@[j]).0@,
            )) ==> {
            let held = old(summary).additional_properties@[properties@[k].0@]@;
            &&& r->Err_0 is Plan
            &&& stand_in_order(properties@[k].0@, held, r->Err_0->Plan_0@)
            &&& stand_in_order(held, properties@[k].1@, r->Err_0->Plan_0@)
        },
{
    let names = keys(pair_texts(properties@));
    if checked is Err {
        let fault = choose|fault: SnapshotPropertyErrorView| #[trigger]
            list_refused(names, fault) && checked->Err_0@ == EngineErrorView::Plan(fault.text());
        let i = choose|i: int|
            0 <= i < names.len() && #[trigger] list_fault(names, i) == Some(fault) && forall|
                j: int,
            |
                0 <= j < i ==> #[trigger] list_fault(names, j) is None;
        lemma_one_list_fault(names, i, fault, r->Err_0@);
    } else {
        let there = summary.additional_properties@;
        let texts = summary.text_properties();
        let pairs = pair_texts(properties@);
        let fault = choose|fault: SnapshotPropertyErrorView| #[trigger]
            insertion_refused(texts, pairs, fault) && r->Err_0@ == EngineErrorView::Plan(
                fault.text(),
            );
        let i = choose|i: int|
            0 <= i < pairs.len() && texts.contains_key((#[trigger] pairs[i]).0) && fault == (
            SnapshotPropertyErrorView::EngineCollision {
                key: pairs[i].0,
                engine_value: texts[pairs[i].0],
                value: pairs[i].1,
            }) && forall|j: int| 0 <= j < i ==> !texts.contains_key((#[trigger] pairs[j]).0);
        if 0 <= k < properties@.len() && there.contains_key(properties@[k].0@) && (forall|j: int|
            0 <= j < k ==> !there.contains_key((#[trigger] properties@[j]).0@)) {
            assert(pairs[k].0 == properties@[k].0@);
            assert(texts.contains_key(pairs[k].0));
            if i < k {
                assert(!there.contains_key(properties@[i].0@));
            }
            if k < i {
                assert(!texts.contains_key(pairs[k].0));
            }
            let key = pairs[k].0;
            let held = texts[key];
            assert(held == there[key]@);
            let value = pairs[k].1;
            let text = r->Err_0->Plan_0@;
            let a = "Iceberg snapshot property key `"@;
            let b = "` collides with engine summary value `"@;
            let c = "` instead of caller value `"@;
            let d = "`"@;
            assert(text =~= a + key + b + held + (c + value + d));
            assert(text =~= (a + key + b) + held + c + value + d);
        }
    }
}

} // verus!
