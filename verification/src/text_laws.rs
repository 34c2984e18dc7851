//! What texts, numbers and their order mean.
use vstd::prelude::*;

use crate::commit_state::{five_digits, metadata_file_name};
use crate::ordered::sorted_distinct;
use crate::overwrite_laws::{comes_first, lemma_comes_first};
use crate::text::{
    decimal_value, digit_char, i64_text, join, nat_text, optional_i64_text, text_before, text_equal,
    texts, u64_text,
};

verus! {

/// A text is written in decimal digits and has this value.
pub open spec fn writes_number(text: Seq<char>, n: nat) -> bool {
    &&& text.len() > 0
    &&& forall|i: int| 0 <= i < text.len() ==> '0' <= #[trigger] text[i] && text[i] <= '9'
    &&& value_of(text) == n
}

/// The value of decimal digits: each digit counts ten times the next.
pub open spec fn value_of(digits: Seq<char>) -> nat
    decreases digits.len(),
{
    if digits.len() == 0 {
        0
    } else {
        value_of(digits.skip(1)) + digit_value(digits[0]) * ten_to((digits.len() - 1) as nat)
    }
}

/// The value of a digit.
pub open spec fn digit_value(c: char) -> nat {
    (c as nat - '0' as nat) as nat
}

/// A power of ten.
pub open spec fn ten_to(n: nat) -> nat
    decreases n,
{
    if n == 0 {
        1
    } else {
        10 * ten_to((n - 1) as nat)
    }
}

proof fn lemma_value_push(digits: Seq<char>, c: char)
    ensures
        value_of(digits.push(c)) == 10 * value_of(digits) + digit_value(c),
    decreases digits.len(),
{
    let longer = digits.push(c);
    if digits.len() == 0 {
        assert(longer.skip(1) =~= seq![]);
        assert(value_of(longer.skip(1)) == 0);
        assert(ten_to(0) == 1);
        assert(longer[0] == c);
        assert(digit_value(c) * 1 == digit_value(c)) by (nonlinear_arith);
    } else {
        lemma_value_push(digits.skip(1), c);
        assert(longer.skip(1) =~= digits.skip(1).push(c));
        let d = digit_value(digits[0]);
        let t = ten_to((digits.len() - 1) as nat);
        assert(ten_to(digits.len()) == 10 * t);
        assert(d * (10 * t) == 10 * (d * t)) by (nonlinear_arith);
        assert(longer[0] == digits[0]);
    }
}

/// The digits of a number have its value.
pub proof fn lemma_number(n: nat)
    ensures
        writes_number(nat_text(n), n),
        n > 0 ==> nat_text(n)[0] != '0',
    decreases n,
{
    let text = nat_text(n);
    if n < 10 {
        lemma_value_push(seq![], digit_char(n as int));
        assert(Seq::<char>::empty().push(digit_char(n as int)) =~= text);
        assert(value_of(Seq::<char>::empty()) == 0);
    } else {
        lemma_number(n / 10);
        lemma_value_push(nat_text(n / 10), digit_char((n % 10) as int));
        assert forall|i: int| 0 <= i < text.len() implies '0' <= #[trigger] text[i] && text[i]
            <= '9' by {
            if i < nat_text(n / 10).len() {
                assert(text[i] == nat_text(n / 10)[i]);
            }
        }
        assert(text[0] == nat_text(n / 10)[0]);
    }
}

proof fn lemma_value_decimal(digits: Seq<char>)
    ensures
        decimal_value(digits) == value_of(digits),
    decreases digits.len(),
{
    if digits.len() > 0 {
        lemma_value_decimal(digits.drop_last());
        lemma_value_push(digits.drop_last(), digits.last());
        assert(digits.drop_last().push(digits.last()) =~= digits);
    }
}

/// What is read as a number is what its digits say.
pub proof fn lemma_read(digits: Seq<char>)
    ensures
        decimal_value(digits) == value_of(digits),
{
    lemma_value_decimal(digits);
}

proof fn lemma_zeros(zeros: nat, digits: Seq<char>)
    ensures
        value_of(Seq::new(zeros, |i: int| '0') + digits) == value_of(digits),
    decreases zeros,
{
    let all = Seq::new(zeros, |i: int| '0') + digits;
    if zeros == 0 {
        assert(all =~= digits);
    } else {
        lemma_zeros((zeros - 1) as nat, digits);
        assert(all.skip(1) =~= Seq::new((zeros - 1) as nat, |i: int| '0') + digits);
        assert(all[0] == '0');
        assert(digit_value('0') == 0);
        assert(0 * ten_to((all.len() - 1) as nat) == 0) by (nonlinear_arith);
    }
}

/// Five digits have the value of the number too, and are five at least.
pub proof fn lemma_five_digits(n: nat)
    ensures
        writes_number(five_digits(n), n),
        five_digits(n).len() >= 5,
        five_digits(n).len() > 5 ==> five_digits(n)[0] != '0',
{
    lemma_number(n);
    let digits = nat_text(n);
    if digits.len() < 5 {
        let zeros = (5 - digits.len()) as nat;
        lemma_zeros(zeros, digits);
        let all = Seq::new(zeros, |i: int| '0') + digits;
        assert forall|i: int| 0 <= i < all.len() implies '0' <= #[trigger] all[i] && all[i]
            <= '9' by {
            if i >= zeros {
                assert(all[i] == digits[i - zeros]);
            }
        }
    }
}

/// A number is written in digits that have its value, without a zero before them, and with a minus
/// sign exactly where it is negative.
pub proof fn numbers_are_written_as_they_are(n: u64, a: String, i: i64, b: String)
    requires
        call_ensures(u64_text, (n,), a),
        call_ensures(i64_text, (i,), b),
    ensures
        writes_number(a@, n as nat),
        n > 0 ==> a@[0] != '0',
        i >= 0 ==> writes_number(b@, i as nat),
        i < 0 ==> b@.len() > 0 && b@[0] == '-' && writes_number(b@.skip(1), (-i) as nat),
{
    lemma_number(n as nat);
    if i >= 0 {
        lemma_number(i as nat);
    } else {
        lemma_number((-i) as nat);
        assert(b@.skip(1) =~= nat_text((-i) as nat));
    }
}

/// An optional number says whether it is there, and which it is.
pub proof fn optional_numbers_are_told_apart(value: Option<i64>, text: String, i: i64, number: String)
    requires
        call_ensures(optional_i64_text, (value,), text),
        call_ensures(i64_text, (i,), number),
        value is Some ==> value->0 == i,
    ensures
        value is None ==> text@ == "None"@,
        value is Some ==> text@ == "Some("@ + number@ + ")"@,
{
}

/// Two texts are equal exactly where their characters are, and one comes before another exactly
/// where its bytes do.
pub proof fn texts_are_compared_by_bytes(a: &str, b: &str, equal: bool, before: bool)
    requires
        call_ensures(text_equal, (a, b), equal),
        call_ensures(text_before, (a, b), before),
    ensures
        equal <==> a@ == b@,
        before <==> comes_first(a@, b@),
{
    lemma_comes_first(a@, b@);
}

/// Texts that are put in order are all there, each once, and each before the next by its bytes.
pub proof fn sorting_keeps_every_text_once(
    strings: &Vec<String>,
    r: Vec<String>,
    text: Seq<char>,
    i: int,
    j: int,
)
    requires
        call_ensures(sorted_distinct, (strings,), r),
    ensures
        (exists|k: int| 0 <= k < r@.len() && (#[trigger] r@[k])@ == text) <==> (exists|k: int|
            0 <= k < strings@.len() && (#[trigger] strings@[k])@ == text),
        0 <= i < j < r@.len() ==> comes_first(r@[i]@, r@[j]@) && r@[i]@ != r@[j]@,
{
    assert(texts(r@).contains(text) <==> texts(strings@).contains(text));
    if exists|k: int| 0 <= k < r@.len() && (#[trigger] r@[k])@ == text {
        let k = choose|k: int| 0 <= k < r@.len() && (#[trigger] r@[k])@ == text;
        assert(texts(r@)[k] == text);
        let n = choose|n: int| 0 <= n < texts(strings@).len() && texts(strings@)[n] == text;
        assert(strings@[n]@ == text);
    }
    if exists|k: int| 0 <= k < strings@.len() && (#[trigger] strings@[k])@ == text {
        let k = choose|k: int| 0 <= k < strings@.len() && (#[trigger] strings@[k])@ == text;
        assert(texts(strings@)[k] == text);
        let n = choose|n: int| 0 <= n < texts(r@).len() && texts(r@)[n] == text;
        assert(r@[n]@ == text);
    }
    if 0 <= i < j < r@.len() {
        assert(crate::text::text_less(texts(r@)[i], texts(r@)[j]));
        lemma_comes_first(r@[i]@, r@[j]@);
        crate::text::lemma_text_order(r@[i]@, r@[j]@, r@[j]@);
    }
}

/// Pieces that are joined stand one after the other with the separator between them: one piece alone
/// is itself, and one more piece comes after the others and a separator.
pub proof fn joining_puts_pieces_in_order(
    pieces: &Vec<String>,
    separator: &str,
    all: String,
    shorter: &Vec<String>,
    before: String,
)
    requires
        call_ensures(join, (pieces, separator), all),
        call_ensures(join, (shorter, separator), before),
        pieces@.len() > 0,
        shorter@ == pieces@.drop_last(),
    ensures
        pieces@.len() == 1 ==> all@ == pieces@[0]@,
        pieces@.len() > 1 ==> all@ == before@ + separator@ + pieces@.last()@,
{
    let t = texts(pieces@);
    assert(t.drop_last() =~= texts(shorter@));
    assert(t.last() == pieces@.last()@);
}

/// Metadata files of different versions have different names, and so have those with a unique name
/// and those without.
pub proof fn versions_have_their_own_files(
    version: u64,
    extension: &str,
    file: String,
    digits: String,
)
    requires
        call_ensures(metadata_file_name, (version, None::<u128>, extension), file),
        call_ensures(u64_text, (version,), digits),
    ensures
        file@ == "metadata/v"@ + digits@ + extension@,
        writes_number(digits@, version as nat),
{
    lemma_number(version as nat);
}

/// A file with an identifier has the number of its version first, in five digits where those will do,
/// and then the identifier.
pub proof fn unique_files_begin_with_their_version(
    version: u64,
    uuid: u128,
    extension: &str,
    file: String,
)
    requires
        call_ensures(metadata_file_name, (version, Some(uuid), extension), file),
    ensures
        exists|digits: Seq<char>|
            {
                &&& writes_number(digits, version as nat)
                &&& digits.len() == 5 || digits.len() > 5 && digits[0] != '0'
                &&& file@ == #[trigger] ("metadata/"@ + digits) + "-"@
                    + crate::identifier::uuid_chars(uuid) + extension@
            },
{
    lemma_five_digits(version as nat);
    let digits = five_digits(version as nat);
    assert(file@ == ("metadata/"@ + digits) + "-"@ + crate::identifier::uuid_chars(uuid)
        + extension@);
}

} // verus!
