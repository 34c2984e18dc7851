//! Properties that a caller attaches to the summary of the snapshot it commits, and the snapshot
//! that it expects the table to be at.
use vstd::prelude::*;
use vstd::string::*;

use crate::error::{EngineError, EngineErrorView};
use crate::ordered::{increasing, lemma_insert_keeps_increasing};
use crate::text::{
    ascii_digits, blank, chars_of, decimal_value, equal_ignoring_case, has_prefix_ignoring_case,
    is_blank, is_untrimmed, lemma_text_order, same_ignoring_case, starts_with_ignoring_case,
    text_before, text_equal, text_less, untrimmed,
};
use crate::text_map::TextMap;

verus! {

/// One layer of the options that a write was given.
#[derive(Debug, PartialEq, Eq)]
pub enum OptionLayer {
    /// Options of the write itself.
    OptionList { items: Vec<(String, String)> },
    /// Options inherited from the table.
    TablePropertyList { items: Vec<(String, String)> },
    /// Anything else that the write was given, as text.
    Other(String),
}

#[verifier::ext_equal]
pub enum OptionLayerView {
    OptionList { items: Seq<(Seq<char>, Seq<char>)> },
    TablePropertyList { items: Seq<(Seq<char>, Seq<char>)> },
    Other(Seq<char>),
}

/// Keys and values as texts.
pub open spec fn pair_texts(items: Seq<(String, String)>) -> Seq<(Seq<char>, Seq<char>)> {
    items.map_values(|item: (String, String)| (item.0@, item.1@))
}

/// The keys of the items.
pub open spec fn keys(items: Seq<(Seq<char>, Seq<char>)>) -> Seq<Seq<char>> {
    items.map_values(|item: (Seq<char>, Seq<char>)| item.0)
}

impl View for OptionLayer {
    type V = OptionLayerView;

    open spec fn view(&self) -> OptionLayerView {
        match self {
            OptionLayer::OptionList { items } => OptionLayerView::OptionList {
                items: pair_texts(items@),
            },
            OptionLayer::TablePropertyList { items } => OptionLayerView::TablePropertyList {
                items: pair_texts(items@),
            },
            OptionLayer::Other(text) => OptionLayerView::Other(text@),
        }
    }
}

pub open spec fn layer_views(layers: Seq<OptionLayer>) -> Seq<OptionLayerView> {
    layers.map_values(|layer: OptionLayer| layer@)
}

/// The operation that a snapshot records.
#[derive(Debug, Clone, Copy, PartialEq, Eq, Structural)]
pub enum Operation {
    Append,
    Replace,
    Overwrite,
    Delete,
}

/// The summary of a snapshot: its operation, and what else is recorded of it.
#[derive(Debug)]
pub struct Summary {
    pub operation: Operation,
    pub additional_properties: TextMap<String>,
}

impl Summary {
    /// The properties as text.
    pub open spec fn text_properties(&self) -> Map<Seq<char>, Seq<char>> {
        self.additional_properties@.map_values(|value: String| value@)
    }

    pub fn new(operation: Operation) -> (summary: Self)
        ensures
            summary.operation == operation,
            summary.additional_properties@ == Map::<Seq<char>, String>::empty(),
    {
        Summary { operation, additional_properties: TextMap::new() }
    }
}

/// What is wrong with an option of a data source.
#[derive(Debug, PartialEq, Eq)]
pub enum DataSourceError {
    /// An option has a value that it cannot have, for a cause where one is known.
    InvalidOption { key: String, value: String, cause: Option<String> },
}

/// What makes a property key unusable.
#[derive(Debug, Clone, Copy, PartialEq, Eq, Structural)]
pub enum KeyFault {
    /// Nothing but white space.
    Empty,
    /// White space before or after the key.
    SurroundingWhitespace,
    /// A key that the engine writes itself.
    Reserved,
}

/// What is wrong with the properties of a snapshot.
#[derive(Debug, PartialEq, Eq)]
pub enum SnapshotPropertyError {
    Key { fault: KeyFault, key: String },
    DuplicateKey { key: String },
    NotCanonical,
    ConflictingValues { key: String, previous_value: String, value: String },
    EngineCollision { key: String, engine_value: String, value: String },
}

#[verifier::ext_equal]
pub enum SnapshotPropertyErrorView {
    Key { fault: KeyFault, key: Seq<char> },
    DuplicateKey { key: Seq<char> },
    NotCanonical,
    ConflictingValues { key: Seq<char>, previous_value: Seq<char>, value: Seq<char> },
    EngineCollision { key: Seq<char>, engine_value: Seq<char>, value: Seq<char> },
}

impl View for SnapshotPropertyError {
    type V = SnapshotPropertyErrorView;

    open spec fn view(&self) -> SnapshotPropertyErrorView {
        match self {
            SnapshotPropertyError::Key { fault, key } => SnapshotPropertyErrorView::Key {
                fault: *fault,
                key: key@,
            },
            SnapshotPropertyError::DuplicateKey { key } => SnapshotPropertyErrorView::DuplicateKey {
                key: key@,
            },
            SnapshotPropertyError::NotCanonical => SnapshotPropertyErrorView::NotCanonical,
            SnapshotPropertyError::ConflictingValues {
                key,
                previous_value,
                value,
            } => SnapshotPropertyErrorView::ConflictingValues {
                key: key@,
                previous_value: previous_value@,
                value: value@,
            },
            SnapshotPropertyError::EngineCollision {
                key,
                engine_value,
                value,
            } => SnapshotPropertyErrorView::EngineCollision {
                key: key@,
                engine_value: engine_value@,
                value: value@,
            },
        }
    }
}

impl SnapshotPropertyErrorView {
    /// The message for a user.
    pub open spec fn text(self) -> Seq<char> {
        match self {
            SnapshotPropertyErrorView::Key { fault: KeyFault::Empty, .. } =>
                "Iceberg snapshot property key cannot be empty"@,
            SnapshotPropertyErrorView::Key { fault: KeyFault::SurroundingWhitespace, key } =>
                "Iceberg snapshot property key `"@ + key
                    + "` cannot have leading or trailing whitespace"@,
            SnapshotPropertyErrorView::Key { fault: KeyFault::Reserved, key } =>
                "Iceberg snapshot property key `"@ + key + "` is reserved"@,
            SnapshotPropertyErrorView::DuplicateKey { key } =>
                "duplicate Iceberg snapshot property key `"@ + key + "`"@,
            SnapshotPropertyErrorView::NotCanonical =>
                "Iceberg snapshot properties are not in canonical key order"@,
            SnapshotPropertyErrorView::ConflictingValues { key, previous_value, value } =>
                "duplicate Iceberg snapshot property key `"@ + key + "` has conflicting values `"@
                    + previous_value + "` and `"@ + value + "`"@,
            SnapshotPropertyErrorView::EngineCollision { key, engine_value, value } =>
                "Iceberg snapshot property key `"@ + key + "` collides with engine summary value `"@
                    + engine_value + "` instead of caller value `"@ + value + "`"@,
        }
    }
}

impl SnapshotPropertyError {
    /// The message for a user.
    pub fn message(&self) -> (message: String)
        ensures
            message@ == self@.text(),
    {
        match self {
            SnapshotPropertyError::Key { fault, key } => match fault {
                KeyFault::Empty => String::from_str(
                    "Iceberg snapshot property key cannot be empty",
                ),
                KeyFault::SurroundingWhitespace => String::from_str(
                    "Iceberg snapshot property key `",
                ).concat(key.as_str()).concat("` cannot have leading or trailing whitespace"),
                KeyFault::Reserved => String::from_str("Iceberg snapshot property key `").concat(
                    key.as_str(),
                ).concat("` is reserved"),
            },
            SnapshotPropertyError::DuplicateKey { key } => String::from_str(
                "duplicate Iceberg snapshot property key `",
            ).concat(key.as_str()).concat("`"),
            SnapshotPropertyError::NotCanonical => String::from_str(
                "Iceberg snapshot properties are not in canonical key order",
            ),
            SnapshotPropertyError::ConflictingValues { key, previous_value, value } =>
                String::from_str("duplicate Iceberg snapshot property key `").concat(
                key.as_str(),
            ).concat("` has conflicting values `").concat(previous_value.as_str()).concat(
                "` and `",
            ).concat(value.as_str()).concat("`"),
            SnapshotPropertyError::EngineCollision { key, engine_value, value } =>
                String::from_str("Iceberg snapshot property key `").concat(key.as_str()).concat(
                "` collides with engine summary value `",
            ).concat(engine_value.as_str()).concat("` instead of caller value `").concat(
                value.as_str(),
            ).concat("`"),
        }
    }
}

impl SnapshotPropertyError {
    /// The error of planning that this is reported as.
    pub fn plan_error(&self) -> (e: EngineError)
        ensures
            e@ == EngineErrorView::Plan(self@.text()),
    {
        EngineError::Plan(self.message())
    }
}

/// A snapshot ID is written as ASCII digits whose value is positive and fits in 64 bits.
pub open spec fn snapshot_id_text(text: Seq<char>) -> bool {
    ascii_digits(text) && 0 < decimal_value(text) <= i64::MAX
}

/// Reads the snapshot ID that a caller expects; an empty value stands for none.
pub fn parse_optional_expected_snapshot_id(key: &str, value: &str) -> (r: Result<
    Option<i64>,
    DataSourceError,
>)
    ensures
        value@.len() == 0 ==> r == Ok::<Option<i64>, DataSourceError>(None),
        value@.len() > 0 ==> (r is Ok <==> snapshot_id_text(value@)),
        value@.len() > 0 ==> (r matches Ok(id) ==> id is Some && id->0 == decimal_value(value@)),
        r matches Err(DataSourceError::InvalidOption { key: k, value: v, cause }) ==> k@ == key@
            && v@ == value@ && cause is None,
{
    if value.is_empty() {
        Ok(None)
    } else {
        parse_expected_snapshot_id(key, value)
    }
}

proof fn lemma_decimal_value_grows(digits: Seq<char>, k: int)
    requires
        0 <= k <= digits.len(),
    ensures
        decimal_value(digits.take(k)) <= decimal_value(digits),
    decreases digits.len(),
{
    if k == digits.len() {
        assert(digits.take(k) =~= digits);
    } else {
        lemma_decimal_value_grows(digits.drop_last(), k);
        assert(digits.drop_last().take(k) =~= digits.take(k));
    }
}

fn invalid_option(key: &str, value: &str) -> (e: DataSourceError)
    ensures
        e matches DataSourceError::InvalidOption { key: k, value: v, cause } && k@ == key@ && v@
            == value@ && cause is None,
{
    DataSourceError::InvalidOption { key: key.to_owned(), value: value.to_owned(), cause: None }
}

/// Reads the snapshot ID that a caller expects.
pub fn parse_expected_snapshot_id(key: &str, value: &str) -> (r: Result<
    Option<i64>,
    DataSourceError,
>)
    ensures
        r is Ok <==> snapshot_id_text(value@),
        r matches Ok(id) ==> id is Some && id->0 == decimal_value(value@),
        r matches Err(DataSourceError::InvalidOption { key: k, value: v, cause }) ==> k@ == key@
            && v@ == value@ && cause is None,
{
    let chars = chars_of(value);
    let mut number: i64 = 0;
    let mut i: usize = 0;
    while i < chars.len()
        invariant
            i <= chars.len(),
            chars@ == value@,
            forall|j: int| 0 <= j < i ==> '0' <= #[trigger] chars@[j] && chars@[j] <= '9',
            number == decimal_value(chars@.take(i as int)),
            0 <= number,
        decreases chars.len() - i,
    {
        let c = chars[i];
        if c < '0' || c > '9' {
            return Err(invalid_option(key, value));
        }
        let digit: i64 = (c as u32 - '0' as u32) as i64;
        proof {
            assert(chars@.take(i + 1).drop_last() =~= chars@.take(i as int));
            lemma_decimal_value_grows(chars@, i + 1);
        }
        if number > (i64::MAX - digit) / 10 {
            return Err(invalid_option(key, value));
        }
        number = number * 10 + digit;
        i += 1;
    }
    assert(chars@.take(chars@.len() as int) =~= chars@);
    if number > 0 {
        Ok(Some(number))
    } else {
        Err(invalid_option(key, value))
    }
}

/// The prefix by which an option names a snapshot property.
pub open spec fn property_prefix() -> Seq<char> {
    "snapshot-property."@
}

/// The option names a snapshot property; its prefix may be written in any case.
pub open spec fn names_property(key: Seq<char>) -> bool {
    starts_with_ignoring_case(key, property_prefix())
}

/// The property key that an option names: what follows the prefix, as it is written.
pub open spec fn property_key(key: Seq<char>) -> Seq<char> {
    key.subrange(property_prefix().len() as int, key.len() as int)
}

/// The property key that an option names, if it names one.
pub fn strip_snapshot_property_prefix(key: &str) -> (r: Option<&str>)
    ensures
        r is Some <==> names_property(key@),
        r matches Some(stripped) ==> stripped@ == property_key(key@),
{
    let chars = chars_of(key);
    let prefix = chars_of("snapshot-property.");
    if has_prefix_ignoring_case(&chars, &prefix) {
        Some(key.substring_char(prefix.len(), chars.len()))
    } else {
        None
    }
}

/// Keys of a snapshot summary that the engine writes.
pub open spec fn reserved_summary_keys() -> Seq<Seq<char>> {
    seq![
        "operation"@,
        "added-data-files"@,
        "deleted-data-files"@,
        "total-data-files"@,
        "added-delete-files"@,
        "added-equality-delete-files"@,
        "removed-equality-delete-files"@,
        "added-position-delete-files"@,
        "removed-position-delete-files"@,
        "added-dvs"@,
        "removed-dvs"@,
        "removed-delete-files"@,
        "total-delete-files"@,
        "added-records"@,
        "deleted-records"@,
        "total-records"@,
        "added-files-size"@,
        "removed-files-size"@,
        "total-files-size"@,
        "added-position-deletes"@,
        "removed-position-deletes"@,
        "total-position-deletes"@,
        "added-equality-deletes"@,
        "removed-equality-deletes"@,
        "total-equality-deletes"@,
        "deleted-duplicate-files"@,
        "changed-partition-count"@,
        "partition-summaries-included"@,
        "wap.id"@,
        "published-wap-id"@,
        "source-snapshot-id"@,
        "replace-partitions"@,
        "manifests-created"@,
        "manifests-replaced"@,
        "manifests-kept"@,
        "entries-processed"@,
        "engine-name"@,
        "engine-version"@,
        "app-id"@,
        "iceberg-version"@,
    ]
}

fn reserved_keys() -> (r: Vec<&'static str>)
    ensures
        r@.map_values(|key: &'static str| key@) == reserved_summary_keys(),
{
    let r: Vec<&'static str> = vec![
        "operation",
        "added-data-files",
        "deleted-data-files",
        "total-data-files",
        "added-delete-files",
        "added-equality-delete-files",
        "removed-equality-delete-files",
        "added-position-delete-files",
        "removed-position-delete-files",
        "added-dvs",
        "removed-dvs",
        "removed-delete-files",
        "total-delete-files",
        "added-records",
        "deleted-records",
        "total-records",
        "added-files-size",
        "removed-files-size",
        "total-files-size",
        "added-position-deletes",
        "removed-position-deletes",
        "total-position-deletes",
        "added-equality-deletes",
        "removed-equality-deletes",
        "total-equality-deletes",
        "deleted-duplicate-files",
        "changed-partition-count",
        "partition-summaries-included",
        "wap.id",
        "published-wap-id",
        "source-snapshot-id",
        "replace-partitions",
        "manifests-created",
        "manifests-replaced",
        "manifests-kept",
        "entries-processed",
        "engine-name",
        "engine-version",
        "app-id",
        "iceberg-version",
    ];
    assert(r@.map_values(|key: &'static str| key@) =~= reserved_summary_keys());
    r
}

/// A key that the engine writes itself, in any case, or one of a partition summary.
pub open spec fn reserved(key: Seq<char>) -> bool {
    ||| exists|i: int|
        0 <= i < reserved_summary_keys().len() && same_ignoring_case(
            key,
            #[trigger] reserved_summary_keys()[i],
        )
    ||| starts_with_ignoring_case(key, "partitions."@)
}

/// What makes a key unusable, if anything does.
pub open spec fn key_fault(key: Seq<char>) -> Option<KeyFault> {
    if blank(key) {
        Some(KeyFault::Empty)
    } else if untrimmed(key) {
        Some(KeyFault::SurroundingWhitespace)
    } else if reserved(key) {
        Some(KeyFault::Reserved)
    } else {
        None
    }
}

fn is_reserved(key: &Vec<char>) -> (r: bool)
    ensures
        r == reserved(key@),
{
    let names = reserved_keys();
    let ghost model = names@.map_values(|key: &'static str| key@);
    let mut i: usize = 0;
    while i < names.len()
        invariant
            i <= names.len(),
            model == names@.map_values(|key: &'static str| key@),
            model == reserved_summary_keys(),
            forall|j: int|
                0 <= j < i ==> !same_ignoring_case(key@, #[trigger] reserved_summary_keys()[j]),
        decreases names.len() - i,
    {
        let name = chars_of(names[i]);
        assert(name@ == model[i as int]);
        if equal_ignoring_case(key, &name) {
            assert(same_ignoring_case(key@, reserved_summary_keys()[i as int]));
            return true;
        }
        i += 1;
    }
    has_prefix_ignoring_case(key, &chars_of("partitions."))
}

/// Checks one property key. A key that cannot be used is an error of planning.
pub fn validate_snapshot_property_key(key: &str) -> (r: Result<(), EngineError>)
    ensures
        match key_fault(key@) {
            None => r is Ok,
            Some(fault) => r matches Err(e) && e@ == EngineErrorView::Plan(
                SnapshotPropertyErrorView::Key { fault, key: key@ }.text(),
            ),
        },
{
    match check_key(key) {
        Ok(()) => Ok(()),
        Err(error) => Err(error.plan_error()),
    }
}

fn check_key(key: &str) -> (r: Result<(), SnapshotPropertyError>)
    ensures
        match key_fault(key@) {
            None => r is Ok,
            Some(fault) => r is Err && r->Err_0@ == (SnapshotPropertyErrorView::Key {
                fault,
                key: key@,
            }),
        },
{
    let chars = chars_of(key);
    let fault = if is_blank(&chars) {
        KeyFault::Empty
    } else if is_untrimmed(&chars) {
        KeyFault::SurroundingWhitespace
    } else if is_reserved(&chars) {
        KeyFault::Reserved
    } else {
        return Ok(());
    };
    Err(SnapshotPropertyError::Key { fault, key: key.to_owned() })
}

/// What is wrong with the key at one place of a property list, if anything is.
pub open spec fn list_fault(keys: Seq<Seq<char>>, i: int) -> Option<SnapshotPropertyErrorView> {
    if key_fault(keys[i]) is Some {
        Some(SnapshotPropertyErrorView::Key { fault: key_fault(keys[i])->0, key: keys[i] })
    } else if i > 0 && keys[i - 1] == keys[i] {
        Some(SnapshotPropertyErrorView::DuplicateKey { key: keys[i] })
    } else if i > 0 && text_less(keys[i], keys[i - 1]) {
        Some(SnapshotPropertyErrorView::NotCanonical)
    } else {
        None
    }
}

/// The list is refused with this error: that of the first place where something is wrong.
pub open spec fn list_refused(keys: Seq<Seq<char>>, error: SnapshotPropertyErrorView) -> bool {
    exists|i: int|
        0 <= i < keys.len() && #[trigger] list_fault(keys, i) == Some(error) && forall|j: int|
            0 <= j < i ==> #[trigger] list_fault(keys, j) is None
}

/// The list is accepted.
pub open spec fn list_accepted(keys: Seq<Seq<char>>) -> bool {
    forall|i: int| 0 <= i < keys.len() ==> #[trigger] list_fault(keys, i) is None
}

/// The properties are accepted exactly where every key is usable and the keys increase in byte
/// order. So no key occurs twice, and there is one accepted order of any set of properties.
pub proof fn accepted_means_usable_and_increasing(keys: Seq<Seq<char>>)
    ensures
        list_accepted(keys) <==> increasing(keys) && forall|i: int|
            0 <= i < keys.len() ==> key_fault(#[trigger] keys[i]) is None,
{
    if list_accepted(keys) {
        assert forall|i: int| 0 <= i < keys.len() implies key_fault(#[trigger] keys[i]) is None by {
            assert(list_fault(keys, i) is None);
        }
        assert forall|i: int, j: int| 0 <= i < j < keys.len() implies text_less(
            #[trigger] keys[i],
            #[trigger] keys[j],
        ) by {
            lemma_accepted_increases(keys, i, j);
        }
    }
    if increasing(keys) && forall|i: int|
        0 <= i < keys.len() ==> key_fault(#[trigger] keys[i]) is None {
        assert forall|i: int| 0 <= i < keys.len() implies #[trigger] list_fault(
            keys,
            i,
        ) is None by {
            if i > 0 {
                lemma_text_order(keys[i - 1], keys[i], keys[i]);
                assert(text_less(keys[i - 1], keys[i]));
            }
        }
    }
}

proof fn lemma_accepted_increases(keys: Seq<Seq<char>>, i: int, j: int)
    requires
        list_accepted(keys),
        0 <= i < j < keys.len(),
    ensures
        text_less(keys[i], keys[j]),
    decreases j - i,
{
    assert(list_fault(keys, j) is None);
    lemma_text_order(keys[j - 1], keys[j], keys[j]);
    if i < j - 1 {
        lemma_accepted_increases(keys, i, j - 1);
        lemma_text_order(keys[i], keys[j - 1], keys[j]);
    }
}

/// An error of planning that reports what is wrong with a property list.
pub open spec fn list_refused_with(keys: Seq<Seq<char>>, error: EngineErrorView) -> bool {
    exists|fault: SnapshotPropertyErrorView| #[trigger]
        list_refused(keys, fault) && error == EngineErrorView::Plan(fault.text())
}

/// Checks a list of properties: every key usable, the keys in byte order, none twice. Anything else
/// is an error of planning.
pub fn validate_snapshot_properties(properties: &[(String, String)]) -> (r: Result<
    (),
    EngineError,
>)
    ensures
        r is Ok <==> list_accepted(keys(pair_texts(properties@))),
        r matches Err(e) ==> list_refused_with(keys(pair_texts(properties@)), e@),
{
    match check_list(properties) {
        Ok(()) => Ok(()),
        Err(error) => {
            assert(list_refused(keys(pair_texts(properties@)), error@));
            Err(error.plan_error())
        },
    }
}

fn check_list(properties: &[(String, String)]) -> (r: Result<
    (),
    SnapshotPropertyError,
>)
    ensures
        r is Ok <==> list_accepted(keys(pair_texts(properties@))),
        r matches Err(e) ==> list_refused(keys(pair_texts(properties@)), e@),
{
    let ghost names = keys(pair_texts(properties@));
    let mut i: usize = 0;
    while i < properties.len()
        invariant
            i <= properties.len(),
            names == keys(pair_texts(properties@)),
            forall|j: int| 0 <= j < i ==> #[trigger] list_fault(names, j) is None,
        decreases properties.len() - i,
    {
        let key = properties[i].0.as_str();
        assert(names[i as int] == key@);
        match check_key(key) {
            Ok(()) => {},
            Err(error) => {
                assert(list_fault(names, i as int) == Some(error@));
                return Err(error);
            },
        }
        if i > 0 {
            let previous = properties[i - 1].0.as_str();
            assert(names[i - 1] == previous@);
            if text_equal(previous, key) {
                let error = SnapshotPropertyError::DuplicateKey { key: key.to_owned() };
                assert(list_fault(names, i as int) == Some(error@));
                return Err(error);
            }
            if text_before(key, previous) {
                assert(list_fault(names, i as int) == Some(
                    SnapshotPropertyErrorView::NotCanonical,
                ));
                return Err(SnapshotPropertyError::NotCanonical);
            }
        }
        assert(list_fault(names, i as int) is None);
        i += 1;
    }
    Ok(())
}

/// Picks the options that name a property.
pub open spec fn property_options() -> spec_fn((Seq<char>, Seq<char>)) -> bool {
    |item: (Seq<char>, Seq<char>)| names_property(item.0)
}

/// Picks the options that name no property.
pub open spec fn other_options() -> spec_fn((Seq<char>, Seq<char>)) -> bool {
    |item: (Seq<char>, Seq<char>)| !names_property(item.0)
}

/// The property that an option names.
pub open spec fn option_property() -> spec_fn((Seq<char>, Seq<char>)) -> (Seq<char>, Seq<char>) {
    |item: (Seq<char>, Seq<char>)| (property_key(item.0), item.1)
}

/// The properties that a list of options names, in their order.
pub open spec fn item_properties(items: Seq<(Seq<char>, Seq<char>)>) -> Seq<
    (Seq<char>, Seq<char>),
> {
    items.filter(property_options()).map_values(option_property())
}

/// The properties that the options of one layer name, in their order.
pub open spec fn layer_properties(layer: OptionLayerView) -> Seq<(Seq<char>, Seq<char>)> {
    match layer {
        OptionLayerView::OptionList { items } => item_properties(items),
        _ => seq![],
    }
}

/// The properties that the options of all layers name, in their order.
pub open spec fn named_properties(layers: Seq<OptionLayerView>) -> Seq<(Seq<char>, Seq<char>)>
    decreases layers.len(),
{
    if layers.len() == 0 {
        seq![]
    } else {
        named_properties(layers.drop_last()) + layer_properties(layers.last())
    }
}

/// A layer without the options that name properties. Any other layer stays as it is.
pub open spec fn cleaned_layer(layer: OptionLayerView) -> OptionLayerView {
    match layer {
        OptionLayerView::OptionList { items } => OptionLayerView::OptionList {
            items: items.filter(other_options()),
        },
        _ => layer,
    }
}

/// All layers without the options that name properties.
pub open spec fn cleaned_layers(layers: Seq<OptionLayerView>) -> Seq<OptionLayerView> {
    Seq::new(layers.len(), |i: int| cleaned_layer(layers[i]))
}

/// The property at one place is usable, and no earlier one has its key.
pub open spec fn property_accepted(named: Seq<(Seq<char>, Seq<char>)>, k: int) -> bool {
    &&& key_fault(named[k].0) is None
    &&& forall|j: int| 0 <= j < k ==> (#[trigger] named[j]).0 != named[k].0
}

/// The property at one place is refused with this error.
pub open spec fn property_refused(
    named: Seq<(Seq<char>, Seq<char>)>,
    k: int,
    error: SnapshotPropertyErrorView,
) -> bool {
    match key_fault(named[k].0) {
        Some(fault) => error == (SnapshotPropertyErrorView::Key { fault, key: named[k].0 }),
        None => exists|j: int|
            0 <= j < k && (#[trigger] named[j]).0 == named[k].0 && error == (
            SnapshotPropertyErrorView::ConflictingValues {
                key: named[k].0,
                previous_value: named[j].1,
                value: named[k].1,
            }),
    }
}

/// All named properties are accepted.
pub open spec fn extraction_accepted(named: Seq<(Seq<char>, Seq<char>)>) -> bool {
    forall|k: int| 0 <= k < named.len() ==> #[trigger] property_accepted(named, k)
}

/// The extraction ends in this error: that of the first property that is not accepted.
pub open spec fn extraction_refused(
    named: Seq<(Seq<char>, Seq<char>)>,
    error: SnapshotPropertyErrorView,
) -> bool {
    exists|k: int|
        0 <= k < named.len() && #[trigger] property_refused(named, k, error) && forall|j: int|
            0 <= j < k ==> #[trigger] property_accepted(named, j)
}

/// Adds a property to a list in key order. Where its key is there already, the list stays as it is
/// and the value that it holds comes back.
fn insert_property(properties: &mut Vec<(String, String)>, key: &str, value: &String) -> (r: Option<
    String,
>)
    requires
        increasing(keys(pair_texts(old(properties)@))),
    ensures
        increasing(keys(pair_texts(final(properties)@))),
        match r {
            Some(previous) => final(properties)@ == old(properties)@ && pair_texts(
                old(properties)@,
            ).contains((key@, previous@)),
            None => {
                &&& forall|i: int|
                    0 <= i < old(properties)@.len() ==> (#[trigger] pair_texts(
                        old(properties)@,
                    )[i]).0 != key@
                &&& forall|pair: (Seq<char>, Seq<char>)| #[trigger]
                    pair_texts(final(properties)@).contains(pair) <==> pair_texts(
                        old(properties)@,
                    ).contains(pair) || pair == (key@, value@)
            },
        },
{
    let ghost before = pair_texts(properties@);
    let ghost names = keys(before);
    let mut at: usize = 0;
    while at < properties.len() && text_before(properties[at].0.as_str(), key)
        invariant
            at <= properties.len(),
            before == pair_texts(properties@),
            names == keys(before),
            forall|k: int| 0 <= k < at ==> text_less(#[trigger] names[k], key@),
        decreases properties.len() - at,
    {
        assert(names[at as int] == properties@[at as int].0@);
        at += 1;
    }
    if at < properties.len() && text_equal(properties[at].0.as_str(), key) {
        assert(before[at as int] == (key@, properties@[at as int].1@));
        return Some(properties[at].1.clone());
    }
    proof {
        assert forall|i: int| 0 <= i < before.len() implies (#[trigger] before[i]).0 != key@ by {
            assert(names[i] == before[i].0);
            lemma_text_order(names[i], key@, key@);
            if i >= at {
                lemma_text_order(names[at as int], key@, key@);
                lemma_text_order(key@, names[at as int], names[i]);
                assert(names[at as int] == properties@[at as int].0@);
            }
        }
        if at < properties.len() {
            lemma_text_order(names[at as int], key@, key@);
            assert(names[at as int] == properties@[at as int].0@);
        }
        lemma_insert_keeps_increasing(names, at as int, key@);
    }
    properties.insert(at, (key.to_owned(), value.clone()));
    proof {
        let after = pair_texts(properties@);
        assert(after =~= before.insert(at as int, (key@, value@)));
        assert(keys(after) =~= names.insert(at as int, key@));
        assert forall|pair: (Seq<char>, Seq<char>)| #[trigger]
            after.contains(pair) <==> before.contains(pair) || pair == (key@, value@) by {
            if before.contains(pair) {
                let k = choose|k: int| 0 <= k < before.len() && before[k] == pair;
                assert(after[if k < at { k } else { k + 1 }] == pair);
            }
            if pair == (key@, value@) {
                assert(after[at as int] == pair);
            }
            if after.contains(pair) {
                let k = choose|k: int| 0 <= k < after.len() && after[k] == pair;
                if k < at {
                    assert(before[k] == pair);
                } else if k > at {
                    assert(before[k - 1] == pair);
                }
            }
        }
    }
    None
}

/// The state of an extraction over the properties named so far.
spec fn extracted_so_far(
    properties: Seq<(String, String)>,
    named: Seq<(Seq<char>, Seq<char>)>,
) -> bool {
    &&& increasing(keys(pair_texts(properties)))
    &&& extraction_accepted(named)
    &&& forall|pair: (Seq<char>, Seq<char>)| #[trigger]
        pair_texts(properties).contains(pair) <==> named.contains(pair)
}

proof fn lemma_accept_next(
    before: Seq<(Seq<char>, Seq<char>)>,
    named: Seq<(Seq<char>, Seq<char>)>,
    pair: (Seq<char>, Seq<char>),
)
    requires
        extraction_accepted(named),
        forall|p: (Seq<char>, Seq<char>)| #[trigger] before.contains(p) <==> named.contains(p),
        key_fault(pair.0) is None,
        forall|i: int| 0 <= i < before.len() ==> (#[trigger] before[i]).0 != pair.0,
    ensures
        extraction_accepted(named.push(pair)),
        forall|p: (Seq<char>, Seq<char>)|
            named.push(pair).contains(p) <==> named.contains(p) || p == pair,
{
    let longer = named.push(pair);
    assert forall|k: int| 0 <= k < longer.len() implies #[trigger] property_accepted(longer, k) by {
        if k < named.len() {
            assert(property_accepted(named, k));
            assert forall|j: int| 0 <= j < k implies (#[trigger] longer[j]).0 != longer[k].0 by {
                assert(named[j].0 != named[k].0);
            }
        } else {
            assert forall|j: int| 0 <= j < k implies (#[trigger] longer[j]).0 != pair.0 by {
                assert(named.contains(named[j]));
                assert(before.contains(named[j]));
                let i = choose|i: int| 0 <= i < before.len() && before[i] == named[j];
                assert(before[i].0 != pair.0);
            }
        }
    }
    assert forall|p: (Seq<char>, Seq<char>)|
        longer.contains(p) <==> named.contains(p) || p == pair by {
        if named.contains(p) {
            let k = choose|k: int| 0 <= k < named.len() && named[k] == p;
            assert(longer[k] == p);
        }
        if p == pair {
            assert(longer[named.len() as int] == p);
        }
    }
}

proof fn lemma_refuse_next(
    named: Seq<(Seq<char>, Seq<char>)>,
    rest: Seq<(Seq<char>, Seq<char>)>,
    pair: (Seq<char>, Seq<char>),
    error: SnapshotPropertyErrorView,
)
    requires
        extraction_accepted(named),
        property_refused(named.push(pair), named.len() as int, error),
    ensures
        extraction_refused(named.push(pair) + rest, error),
        !extraction_accepted(named.push(pair) + rest),
{
    let all = named.push(pair) + rest;
    let n = named.len() as int;
    assert forall|j: int| 0 <= j < n implies #[trigger] property_accepted(all, j) by {
        assert(property_accepted(named, j));
        assert forall|i: int| 0 <= i < j implies (#[trigger] all[i]).0 != all[j].0 by {
            assert(named[i].0 != named[j].0);
        }
    }
    if key_fault(pair.0) is None {
        let j = choose|j: int|
            0 <= j < n && (#[trigger] named.push(pair)[j]).0 == pair.0 && error == (
            SnapshotPropertyErrorView::ConflictingValues {
                key: pair.0,
                previous_value: named.push(pair)[j].1,
                value: pair.1,
            });
        assert(all[j].0 == all[n].0);
    }
    assert(property_refused(all, n, error));
    assert(!property_accepted(all, n));
}

proof fn lemma_named_prefix(layers: Seq<OptionLayerView>, i: int)
    requires
        0 <= i <= layers.len(),
    ensures
        exists|rest: Seq<(Seq<char>, Seq<char>)>|
            named_properties(layers) == #[trigger] (named_properties(layers.take(i)) + rest),
    decreases layers.len() - i,
{
    if i == layers.len() {
        assert(layers.take(i) =~= layers);
        assert(named_properties(layers) =~= named_properties(layers.take(i)) + Seq::empty());
    } else {
        lemma_named_prefix(layers, i + 1);
        let rest = choose|rest: Seq<(Seq<char>, Seq<char>)>|
            named_properties(layers) == #[trigger] (named_properties(layers.take(i + 1)) + rest);
        assert(layers.take(i + 1).drop_last() =~= layers.take(i));
        assert(layers.take(i + 1).last() == layers[i]);
        assert(named_properties(layers) =~= named_properties(layers.take(i)) + (layer_properties(
            layers[i],
        ) + rest));
    }
}

proof fn lemma_next_option(items: Seq<(Seq<char>, Seq<char>)>, k: int)
    requires
        0 <= k <= items.len(),
    ensures
        item_properties(items.take(0)) == Seq::<(Seq<char>, Seq<char>)>::empty(),
        items.take(0).filter(other_options()) == Seq::<(Seq<char>, Seq<char>)>::empty(),
        k < items.len() ==> {
            &&& item_properties(items.take(k + 1)) == if names_property(items[k].0) {
                item_properties(items.take(k)).push(option_property()(items[k]))
            } else {
                item_properties(items.take(k))
            }
            &&& items.take(k + 1).filter(other_options()) == if names_property(items[k].0) {
                items.take(k).filter(other_options())
            } else {
                items.take(k).filter(other_options()).push(items[k])
            }
        },
{
    reveal(Seq::filter);
    assert(item_properties(items.take(0)) =~= Seq::<(Seq<char>, Seq<char>)>::empty());
    assert(items.take(0).filter(other_options()) =~= Seq::<(Seq<char>, Seq<char>)>::empty());
    if k < items.len() {
        assert(items.take(k + 1).drop_last() =~= items.take(k));
        assert(items.take(k + 1).last() == items[k]);
        if names_property(items[k].0) {
            assert(item_properties(items.take(k + 1)) =~= item_properties(items.take(k)).push(
                option_property()(items[k]),
            ));
        }
    }
}

proof fn lemma_refuse_within(
    layers: Seq<OptionLayerView>,
    i: int,
    items: Seq<(Seq<char>, Seq<char>)>,
    k: int,
    error: SnapshotPropertyErrorView,
)
    requires
        0 <= i < layers.len(),
        layers[i] == (OptionLayerView::OptionList { items }),
        0 <= k < items.len(),
        names_property(items[k].0),
        ({
            let so_far = named_properties(layers.take(i)) + item_properties(items.take(k));
            &&& extraction_accepted(so_far)
            &&& property_refused(
                so_far.push(option_property()(items[k])),
                so_far.len() as int,
                error,
            )
        }),
    ensures
        extraction_refused(named_properties(layers), error),
        !extraction_accepted(named_properties(layers)),
{
    let so_far = named_properties(layers.take(i)) + item_properties(items.take(k));
    let pair = option_property()(items[k]);
    lemma_named_prefix(layers, i + 1);
    lemma_next_option(items, k);
    let later = choose|rest: Seq<(Seq<char>, Seq<char>)>|
        named_properties(layers) == #[trigger] (named_properties(layers.take(i + 1)) + rest);
    assert(layers.take(i + 1).drop_last() =~= layers.take(i));
    assert(layers.take(i + 1).last() == layers[i]);
    let tail = items.skip(k + 1);
    assert(items.take(k + 1) + tail =~= items);
    Seq::filter_distributes_over_add(items.take(k + 1), tail, property_options());
    assert(item_properties(items) =~= item_properties(items.take(k + 1)) + item_properties(tail));
    let rest = item_properties(tail) + later;
    assert(named_properties(layers) =~= so_far.push(pair) + rest);
    lemma_refuse_next(so_far, rest, pair, error);
}

/// Takes the snapshot properties out of the options of a write.
///
/// Only options of the write itself name properties. What is left of the options keeps its order,
/// and the properties come in key order. Properties that cannot be used, or that are named twice,
/// are an error of planning.
pub fn extract_snapshot_properties(options: Vec<OptionLayer>) -> (r: Result<
    (Vec<OptionLayer>, Vec<(String, String)>),
    EngineError,
>)
    ensures
        r is Ok <==> extraction_accepted(named_properties(layer_views(options@))),
        r matches Ok((clean, properties)) ==> {
            &&& layer_views(clean@) == cleaned_layers(layer_views(options@))
            &&& increasing(keys(pair_texts(properties@)))
            &&& forall|pair: (Seq<char>, Seq<char>)| #[trigger]
                pair_texts(properties@).contains(pair) <==> named_properties(
                    layer_views(options@),
                ).contains(pair)
        },
        r matches Err(e) ==> exists|fault: SnapshotPropertyErrorView| #[trigger]
            extraction_refused(named_properties(layer_views(options@)), fault) && e@
                == EngineErrorView::Plan(fault.text()),
{
    let ghost named = named_properties(layer_views(options@));
    match take_properties(options) {
        Ok(taken) => Ok(taken),
        Err(error) => {
            assert(extraction_refused(named, error@));
            Err(error.plan_error())
        },
    }
}

fn take_properties(options: Vec<OptionLayer>) -> (r: Result<
    (Vec<OptionLayer>, Vec<(String, String)>),
    SnapshotPropertyError,
>)
    ensures
        r is Ok <==> extraction_accepted(named_properties(layer_views(options@))),
        r matches Ok((clean, properties)) ==> {
            &&& layer_views(clean@) == cleaned_layers(layer_views(options@))
            &&& increasing(keys(pair_texts(properties@)))
            &&& forall|pair: (Seq<char>, Seq<char>)| #[trigger]
                pair_texts(properties@).contains(pair) <==> named_properties(
                    layer_views(options@),
                ).contains(pair)
        },
        r matches Err(e) ==> extraction_refused(named_properties(layer_views(options@)), e@),
{
    let ghost layers = layer_views(options@);
    let mut properties: Vec<(String, String)> = Vec::new();
    let mut clean_options: Vec<OptionLayer> = Vec::new();
    let mut i: usize = 0;
    while i < options.len()
        invariant
            i <= options.len(),
            layers == layer_views(options@),
            extracted_so_far(properties@, named_properties(layers.take(i as int))),
            layer_views(clean_options@) == cleaned_layers(layers.take(i as int)),
        decreases options.len() - i,
    {
        let ghost earlier = named_properties(layers.take(i as int));
        proof {
            assert(layers.take(i + 1).drop_last() =~= layers.take(i as int));
            assert(layers.take(i + 1).last() == options@[i as int]@);
        }
        let clean_layer = match &options[i] {
            OptionLayer::OptionList { items } => {
                let ghost pairs = pair_texts(items@);
                let mut clean_items: Vec<(String, String)> = Vec::new();
                let mut k: usize = 0;
                proof {
                    lemma_next_option(pairs, 0);
                    assert(earlier + item_properties(pairs.take(0)) =~= earlier);
                    assert(pair_texts(clean_items@) =~= pairs.take(0).filter(other_options()));
                }
                while k < items.len()
                    invariant
                        k <= items.len(),
                        i < options.len(),
                        layers == layer_views(options@),
                        options@[i as int]@ == (OptionLayerView::OptionList { items: pairs }),
                        earlier == named_properties(layers.take(i as int)),
                        pairs == pair_texts(items@),
                        extracted_so_far(
                            properties@,
                            earlier + item_properties(pairs.take(k as int)),
                        ),
                        pair_texts(clean_items@) == pairs.take(k as int).filter(other_options()),
                    decreases items.len() - k,
                {
                    let ghost so_far = earlier + item_properties(pairs.take(k as int));
                    let key = items[k].0.as_str();
                    let ghost item = pairs[k as int];
                    proof {
                        assert(item == (key@, items@[k as int].1@));
                        lemma_next_option(pairs, k as int);
                        if names_property(item.0) {
                            assert(earlier + item_properties(pairs.take(k + 1)) =~= so_far.push(
                                option_property()(item),
                            ));
                        }
                    }
                    match strip_snapshot_property_prefix(key) {
                        None => {
                            clean_items.push((items[k].0.clone(), items[k].1.clone()));
                            assert(pair_texts(clean_items@) =~= pairs.take(k + 1).filter(other_options()));
                        },
                        Some(property) => {
                            let ghost pair = option_property()(item);
                            match check_key(property) {
                                Ok(()) => {},
                                Err(error) => {
                                    proof {
                                        assert(property_refused(
                                            so_far.push(pair),
                                            so_far.len() as int,
                                            error@,
                                        ));
                                        lemma_refuse_within(
                                            layers,
                                            i as int,
                                            pairs,
                                            k as int,
                                            error@,
                                        );
                                    }
                                    return Err(error);
                                },
                            }
                            let ghost before = pair_texts(properties@);
                            match insert_property(&mut properties, property, &items[k].1) {
                                Some(previous_value) => {
                                    let error = SnapshotPropertyError::ConflictingValues {
                                        key: property.to_owned(),
                                        previous_value,
                                        value: items[k].1.clone(),
                                    };
                                    proof {
                                        assert(before.contains((property@, previous_value@)));
                                        assert(so_far.contains((property@, previous_value@)));
                                        let j = choose|j: int|
                                            0 <= j < so_far.len() && so_far[j] == (
                                                property@,
                                                previous_value@,
                                            );
                                        assert(so_far.push(pair)[j].0 == pair.0);
                                        assert(property_refused(
                                            so_far.push(pair),
                                            so_far.len() as int,
                                            error@,
                                        ));
                                        lemma_refuse_within(
                                            layers,
                                            i as int,
                                            pairs,
                                            k as int,
                                            error@,
                                        );
                                    }
                                    return Err(error);
                                },
                                None => {
                                    proof {
                                        lemma_accept_next(before, so_far, pair);
                                    }
                                },
                            }
                        },
                    }
                    k += 1;
                }
                assert(pairs.take(items@.len() as int) =~= pairs);
                OptionLayer::OptionList { items: clean_items }
            },
            OptionLayer::TablePropertyList { items } => {
                assert(earlier + seq![] =~= earlier);
                OptionLayer::TablePropertyList { items: copy_pairs(items) }
            },
            OptionLayer::Other(text) => {
                assert(earlier + seq![] =~= earlier);
                OptionLayer::Other(text.clone())
            },
        };
        let ghost done = clean_options@;
        assert(clean_layer@ == cleaned_layer(layers[i as int]));
        clean_options.push(clean_layer);
        assert(layer_views(done).len() == i);
        assert(clean_options@ == done.push(clean_layer));
        assert forall|n: int| 0 <= n < i implies #[trigger] layer_views(clean_options@)[n]
            == cleaned_layers(layers.take(i + 1))[n] by {
            assert(layer_views(done)[n] == cleaned_layers(layers.take(i as int))[n]);
        }
        assert(layer_views(clean_options@) =~= cleaned_layers(layers.take(i + 1)));
        i += 1;
    }
    assert(layers.take(layers.len() as int) =~= layers);
    Ok((clean_options, properties))
}

fn copy_pairs(items: &Vec<(String, String)>) -> (r: Vec<(String, String)>)
    ensures
        r@ == items@,
{
    let mut r: Vec<(String, String)> = Vec::new();
    let mut i: usize = 0;
    while i < items.len()
        invariant
            i <= items.len(),
            r@ == items@.take(i as int),
        decreases items.len() - i,
    {
        r.push((items[i].0.clone(), items[i].1.clone()));
        i += 1;
    }
    r
}

/// The first property whose key the summary already holds, and the error that it gives.
pub open spec fn insertion_refused(
    summary: Map<Seq<char>, Seq<char>>,
    pairs: Seq<(Seq<char>, Seq<char>)>,
    error: SnapshotPropertyErrorView,
) -> bool {
    exists|k: int|
        0 <= k < pairs.len() && summary.contains_key((#[trigger] pairs[k]).0) && error == (
        SnapshotPropertyErrorView::EngineCollision {
            key: pairs[k].0,
            engine_value: summary[pairs[k].0],
            value: pairs[k].1,
        }) && forall|j: int| 0 <= j < k ==> !summary.contains_key((#[trigger] pairs[j]).0)
}

/// The summary's map with the properties added to it.
pub open spec fn extends_by(
    after: Map<Seq<char>, Seq<char>>,
    before: Map<Seq<char>, Seq<char>>,
    pairs: Seq<(Seq<char>, Seq<char>)>,
) -> bool {
    &&& forall|key: Seq<char>| #[trigger]
        after.contains_key(key) <==> before.contains_key(key) || keys(pairs).contains(key)
    &&& forall|key: Seq<char>| #[trigger] before.contains_key(key) ==> after[key] == before[key]
    &&& forall|k: int| 0 <= k < pairs.len() ==> after[(#[trigger] pairs[k]).0] == pairs[k].1
}

/// Adds the properties of a caller to the summary of a snapshot.
///
/// No value of the engine is ever replaced: where a key is there already, nothing is added, and that
/// is an error of planning.
pub fn insert_snapshot_properties(summary: &mut Summary, properties: &[(String, String)]) -> (r:
    Result<(), EngineError>)
    ensures
        r is Ok <==> list_accepted(keys(pair_texts(properties@))) && forall|k: int|
            0 <= k < properties@.len() ==> !old(summary).text_properties().contains_key(
                (#[trigger] pair_texts(properties@)[k]).0,
            ),
        r is Ok ==> final(summary).operation == old(summary).operation && extends_by(
            final(summary).text_properties(),
            old(summary).text_properties(),
            pair_texts(properties@),
        ),
        r matches Err(e) ==> *final(summary) == *old(summary) && if list_accepted(
            keys(pair_texts(properties@)),
        ) {
            exists|fault: SnapshotPropertyErrorView| #[trigger]
                insertion_refused(
                    old(summary).text_properties(),
                    pair_texts(properties@),
                    fault,
                ) && e@ == EngineErrorView::Plan(fault.text())
        } else {
            list_refused_with(keys(pair_texts(properties@)), e@)
        },
{
    match add_properties(summary, properties) {
        Ok(()) => Ok(()),
        Err(error) => {
            proof {
                let names = keys(pair_texts(properties@));
                if list_accepted(names) {
                    assert(insertion_refused(
                        old(summary).text_properties(),
                        pair_texts(properties@),
                        error@,
                    ));
                } else {
                    assert(list_refused(names, error@));
                }
            }
            Err(error.plan_error())
        },
    }
}

fn add_properties(summary: &mut Summary, properties: &[(String, String)]) -> (r:
    Result<(), SnapshotPropertyError>)
    ensures
        r is Ok <==> list_accepted(keys(pair_texts(properties@))) && forall|k: int|
            0 <= k < properties@.len() ==> !old(summary).text_properties().contains_key(
                (#[trigger] pair_texts(properties@)[k]).0,
            ),
        r is Ok ==> final(summary).operation == old(summary).operation && extends_by(
            final(summary).text_properties(),
            old(summary).text_properties(),
            pair_texts(properties@),
        ),
        r matches Err(e) ==> *final(summary) == *old(summary) && if list_accepted(
            keys(pair_texts(properties@)),
        ) {
            insertion_refused(old(summary).text_properties(), pair_texts(properties@), e@)
        } else {
            list_refused(keys(pair_texts(properties@)), e@)
        },
{
    let ghost pairs = pair_texts(properties@);
    let ghost before = summary.text_properties();
    match check_list(properties) {
        Ok(()) => {},
        Err(error) => return Err(error),
    }
    let mut i: usize = 0;
    while i < properties.len()
        invariant
            i <= properties.len(),
            pairs == pair_texts(properties@),
            before == summary.text_properties(),
            *summary == *old(summary),
            list_accepted(keys(pairs)),
            forall|j: int| 0 <= j < i ==> !before.contains_key((#[trigger] pairs[j]).0),
        decreases properties.len() - i,
    {
        assert(pairs[i as int] == (properties@[i as int].0@, properties@[i as int].1@));
        match summary.additional_properties.get(properties[i].0.as_str()) {
            Some(engine_value) => {
                let error = SnapshotPropertyError::EngineCollision {
                    key: properties[i].0.clone(),
                    engine_value: engine_value.clone(),
                    value: properties[i].1.clone(),
                };
                assert(before.contains_key(pairs[i as int].0));
                assert(before[pairs[i as int].0] == engine_value@);
                assert(insertion_refused(before, pairs, error@));
                return Err(error);
            },
            None => {},
        }
        i += 1;
    }
    proof {
        accepted_means_usable_and_increasing(keys(pairs));
        crate::ordered::increasing_has_no_duplicates(keys(pairs));
        assert(keys(pairs.take(0)) =~= seq![]);
    }
    let mut n: usize = 0;
    while n < properties.len()
        invariant
            n <= properties.len(),
            pairs == pair_texts(properties@),
            keys(pairs).no_duplicates(),
            summary.operation == old(summary).operation,
            extends_by(summary.text_properties(), before, pairs.take(n as int)),
            forall|j: int| 0 <= j < pairs.len() ==> !before.contains_key((#[trigger] pairs[j]).0),
        decreases properties.len() - n,
    {
        let ghost held = summary.text_properties();
        summary.additional_properties.insert(properties[n].0.clone(), properties[n].1.clone());
        proof {
            let now = summary.text_properties();
            let (key, value) = pairs[n as int];
            assert(now =~= held.insert(key, value));
            assert(keys(pairs.take(n + 1)) =~= keys(pairs.take(n as int)).push(key));
            assert forall|name: Seq<char>| #[trigger]
                now.contains_key(name) <==> before.contains_key(name) || keys(
                    pairs.take(n + 1),
                ).contains(name) by {
                assert(now.contains_key(name) <==> held.contains_key(name) || name == key);
                let names = keys(pairs.take(n as int));
                if names.contains(name) {
                    let k = choose|k: int| 0 <= k < names.len() && names[k] == name;
                    assert(names.push(key)[k] == name);
                }
                assert(names.push(key)[n as int] == key);
            }
            assert forall|k: int| 0 <= k < n + 1 implies now[(#[trigger] pairs.take(n + 1)[k]).0]
                == pairs.take(n + 1)[k].1 by {
                if k < n {
                    assert(pairs.take(n as int)[k] == pairs[k]);
                    assert(keys(pairs)[k] != keys(pairs)[n as int]);
                }
            }
        }
        n += 1;
    }
    assert(pairs.take(pairs.len() as int) =~= pairs);
    Ok(())
}

/// A property that a write named is in the summary after it was extracted and inserted.
pub proof fn extracted_properties_reach_the_summary(
    layers: Seq<OptionLayerView>,
    properties: Seq<(Seq<char>, Seq<char>)>,
    before: Map<Seq<char>, Seq<char>>,
    after: Map<Seq<char>, Seq<char>>,
    pair: (Seq<char>, Seq<char>),
)
    requires
        forall|p: (Seq<char>, Seq<char>)| #[trigger]
            properties.contains(p) <==> named_properties(layers).contains(p),
        extends_by(after, before, properties),
        named_properties(layers).contains(pair),
    ensures
        after.contains_key(pair.0),
        after[pair.0] == pair.1,
{
    assert(properties.contains(pair));
    let k = choose|k: int| 0 <= k < properties.len() && properties[k] == pair;
    assert(keys(properties)[k] == pair.0);
}

/// What an extraction accepts, in key order, passes the check of a property list.
pub proof fn extracted_properties_are_accepted(
    named: Seq<(Seq<char>, Seq<char>)>,
    properties: Seq<(Seq<char>, Seq<char>)>,
)
    requires
        extraction_accepted(named),
        increasing(keys(properties)),
        forall|p: (Seq<char>, Seq<char>)| #[trigger]
            properties.contains(p) <==> named.contains(p),
    ensures
        list_accepted(keys(properties)),
{
    assert forall|i: int| 0 <= i < properties.len() implies key_fault(
        (#[trigger] keys(properties)[i]),
    ) is None by {
        assert(properties.contains(properties[i]));
        assert(named.contains(properties[i]));
        let k = choose|k: int| 0 <= k < named.len() && named[k] == properties[i];
        assert(property_accepted(named, k));
    }
    accepted_means_usable_and_increasing(keys(properties));
}

} // verus!
