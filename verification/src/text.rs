//! Text: numbers written out, bytes read as text, and the order of names.

use rustc_hash::FxHashMap;
use vstd::prelude::*;
use vstd::utf8::{decode_utf8, encode_utf8, valid_utf8};

use crate::names::{entries, keys, texts};
use crate::paths::same_bytes;

verus! {

/// The character that stands for a digit.
pub open spec fn digit(value: nat) -> char {
    if value == 0 {
        '0'
    } else if value == 1 {
        '1'
    } else if value == 2 {
        '2'
    } else if value == 3 {
        '3'
    } else if value == 4 {
        '4'
    } else if value == 5 {
        '5'
    } else if value == 6 {
        '6'
    } else if value == 7 {
        '7'
    } else if value == 8 {
        '8'
    } else {
        '9'
    }
}

/// A number in decimal notation, without leading zeros.
pub open spec fn decimal(value: nat) -> Seq<char>
    decreases value,
{
    if value < 10 {
        seq![digit(value)]
    } else {
        decimal(value / 10).push(digit(value % 10))
    }
}

/// A number in decimal notation, with a sign where it is negative.
pub open spec fn signed_decimal(value: int) -> Seq<char> {
    if value < 0 {
        "-"@ + decimal((-value) as nat)
    } else {
        decimal(value as nat)
    }
}

/// Numbers that are written the same are the same.
pub proof fn lemma_decimal_is_injective(a: nat, b: nat)
    requires
        decimal(a) == decimal(b),
    ensures
        a == b,
    decreases a,
{
    reveal_with_fuel(decimal, 2);
    lemma_decimal_is_not_empty(a);
    lemma_decimal_is_not_empty(b);
    assert(decimal(a).last() == digit(a % 10)) by {
        if a < 10 {
            assert(a % 10 == a);
        }
    }
    assert(decimal(b).last() == digit(b % 10)) by {
        if b < 10 {
            assert(b % 10 == b);
        }
    }
    assert(a % 10 == b % 10);
    if a >= 10 && b >= 10 {
        assert(decimal(a).drop_last() =~= decimal(a / 10));
        assert(decimal(b).drop_last() =~= decimal(b / 10));
        lemma_decimal_is_injective(a / 10, b / 10);
    } else if a >= 10 {
        lemma_decimal_is_not_empty(a / 10);
        assert(decimal(a).len() > 1);
    } else if b >= 10 {
        lemma_decimal_is_not_empty(b / 10);
        assert(decimal(b).len() > 1);
    }
}

/// A number has at least one digit.
pub proof fn lemma_decimal_is_not_empty(value: nat)
    ensures
        decimal(value).len() > 0,
{
    reveal_with_fuel(decimal, 1);
}

/// The text of one digit.
fn digit_text(value: u64) -> (text: &'static str)
    requires
        value < 10,
    ensures
        text@ == seq![digit(value as nat)],
{
    proof {
        reveal_strlit("0");
        reveal_strlit("1");
        reveal_strlit("2");
        reveal_strlit("3");
        reveal_strlit("4");
        reveal_strlit("5");
        reveal_strlit("6");
        reveal_strlit("7");
        reveal_strlit("8");
        reveal_strlit("9");
        assert("0"@ =~= seq!['0']);
        assert("1"@ =~= seq!['1']);
        assert("2"@ =~= seq!['2']);
        assert("3"@ =~= seq!['3']);
        assert("4"@ =~= seq!['4']);
        assert("5"@ =~= seq!['5']);
        assert("6"@ =~= seq!['6']);
        assert("7"@ =~= seq!['7']);
        assert("8"@ =~= seq!['8']);
        assert("9"@ =~= seq!['9']);
    }
    match value {
        0 => "0",
        1 => "1",
        2 => "2",
        3 => "3",
        4 => "4",
        5 => "5",
        6 => "6",
        7 => "7",
        8 => "8",
        _ => "9",
    }
}

/// Writes a number in decimal notation.
pub fn decimal_text(value: u64) -> (text: String)
    ensures
        text@ == decimal(value as nat),
    decreases value,
{
    if value < 10 {
        digit_text(value).to_owned()
    } else {
        let text = decimal_text(value / 10).concat(digit_text(value % 10));
        proof {
            assert(text@ =~= decimal(value as nat));
        }
        text
    }
}

/// Writes a number in decimal notation, with a sign where it is negative.
pub fn signed_decimal_text(value: i32) -> (text: String)
    ensures
        text@ == signed_decimal(value as int),
{
    if value < 0 {
        let magnitude: i64 = -(value as i64);
        "-".to_owned().concat(decimal_text(magnitude as u64).as_str())
    } else {
        decimal_text(value as u64)
    }
}

/// Whether `text` begins with `prefix`.
pub fn starts_with(text: &str, prefix: &str) -> (result: bool)
    ensures
        result == prefix@.is_prefix_of(text@),
{
    let length: usize = prefix.unicode_len();
    if text.unicode_len() < length {
        return false;
    }
    let mut i: usize = 0;
    while i < length
        invariant
            i <= length,
            length == prefix@.len(),
            length <= text@.len(),
            forall|j: int| 0 <= j < i ==> prefix@[j] == text@[j],
        decreases length - i,
    {
        if text.get_char(i) != prefix.get_char(i) {
            assert(prefix@[i as int] != text@.subrange(0, prefix@.len() as int)[i as int]);
            return false;
        }
        i = i + 1;
    }
    assert(prefix@ =~= text@.subrange(0, prefix@.len() as int));
    true
}

/// Texts that are encoded the same are the same.
pub proof fn lemma_encoding_is_injective(a: Seq<char>, b: Seq<char>)
    requires
        encode_utf8(a) == encode_utf8(b),
    ensures
        a == b,
{
    vstd::utf8::encode_utf8_decode_utf8(a);
    vstd::utf8::encode_utf8_decode_utf8(b);
}

/// The encoding of a text is that of its parts, one after the other.
pub proof fn lemma_encoding_of_parts(a: Seq<char>, b: Seq<char>)
    ensures
        encode_utf8(a + b) == encode_utf8(a) + encode_utf8(b),
    decreases a.len(),
{
    if a.len() == 0 {
        assert(a + b =~= b);
        assert(encode_utf8(a) + encode_utf8(b) =~= encode_utf8(b));
    } else {
        assert((a + b).drop_first() =~= a.drop_first() + b);
        lemma_encoding_of_parts(a.drop_first(), b);
        assert(encode_utf8(a + b) =~= encode_utf8(a) + encode_utf8(b));
    }
}

/// A text whose encoding begins with an ASCII byte begins with the character of that byte.
pub proof fn lemma_first_ascii_character(text: Seq<char>)
    requires
        encode_utf8(text).len() > 0,
        encode_utf8(text)[0] < 0x80,
    ensures
        text.len() > 0,
        text[0] == (encode_utf8(text)[0] as u32) as char,
{
    let bytes = encode_utf8(text);
    vstd::utf8::encode_utf8_decode_utf8(text);
    vstd::utf8::encode_utf8_valid_utf8(text);
    let first = bytes[0];
    assert(vstd::utf8::is_leading_byte_width_1(first)) by {
        vstd::utf8::utf8_byte_ranges_bitwise(first);
    }
    assert(vstd::utf8::decode_first_scalar(bytes) == first as u32) by {
        assert(first < 0x80 ==> vstd::utf8::leading_bits_width_1(first) == first as u32) by {
            assert(first < 0x80 ==> (first & 0x7f) as u32 == first as u32) by (bit_vector);
        }
    }
    assert(decode_utf8(bytes)[0] == vstd::utf8::decode_first_scalar(bytes) as char);
}

/// What bytes that are no UTF-8 read as, with what is invalid in them replaced.
pub uninterp spec fn lossy_text(bytes: Seq<u8>) -> Seq<char>;

/// What bytes read as: the text that they encode, or one with what is invalid in them replaced.
pub open spec fn readable(bytes: Seq<u8>) -> Seq<char> {
    if valid_utf8(bytes) {
        decode_utf8(bytes)
    } else {
        lossy_text(bytes)
    }
}

/// `String::from_utf8_lossy`: the text that `bytes` read as. Bytes that are UTF-8 read as the
/// text that they encode; how invalid ones are replaced is left to the name.
#[verifier::external_body]
pub(crate) fn text_of(bytes: &[u8]) -> (text: String)
    ensures
        text@ == (if valid_utf8(bytes@) {
            decode_utf8(bytes@)
        } else {
            lossy_text(bytes@)
        }),
{
    String::from_utf8_lossy(bytes).into_owned()
}

/// Whether the bytes `a` come before the bytes `b`, or are the same: they are compared byte by
/// byte, and a string comes after everything that it begins with.
pub open spec fn in_order(a: Seq<u8>, b: Seq<u8>) -> bool
    decreases a.len(),
{
    if a.len() == 0 {
        true
    } else if b.len() == 0 {
        false
    } else if a[0] != b[0] {
        a[0] < b[0]
    } else {
        in_order(a.skip(1), b.skip(1))
    }
}

/// Whether the text `a` comes before the text `b`, or is the same.
pub open spec fn text_in_order(a: Seq<char>, b: Seq<char>) -> bool {
    in_order(encode_utf8(a), encode_utf8(b))
}

/// Whether every text comes before those that follow it.
pub open spec fn sorted(list: Seq<Seq<char>>) -> bool {
    forall|i: int, j: int|
        0 <= i < j < list.len() ==> text_in_order(#[trigger] list[i], #[trigger] list[j])
}

/// Of two strings of bytes at least one comes before the other.
pub proof fn lemma_order_is_total(a: Seq<u8>, b: Seq<u8>)
    ensures
        in_order(a, b) || in_order(b, a),
    decreases a.len(),
{
    if a.len() > 0 && b.len() > 0 && a[0] == b[0] {
        lemma_order_is_total(a.skip(1), b.skip(1));
    }
}

/// What comes before something comes before everything after it.
pub proof fn lemma_order_is_transitive(a: Seq<u8>, b: Seq<u8>, c: Seq<u8>)
    requires
        in_order(a, b),
        in_order(b, c),
    ensures
        in_order(a, c),
    decreases a.len(),
{
    if a.len() > 0 && b.len() > 0 && c.len() > 0 && a[0] == b[0] && b[0] == c[0] {
        lemma_order_is_transitive(a.skip(1), b.skip(1), c.skip(1));
    }
}

/// Two strings of bytes that come before each other are the same.
pub proof fn lemma_order_is_antisymmetric(a: Seq<u8>, b: Seq<u8>)
    requires
        in_order(a, b),
        in_order(b, a),
    ensures
        a == b,
    decreases a.len(),
{
    if a.len() == 0 || b.len() == 0 {
        assert(a =~= b);
    } else {
        assert(a[0] == b[0]);
        lemma_order_is_antisymmetric(a.skip(1), b.skip(1));
        assert(a =~= seq![a[0]] + a.skip(1));
        assert(b =~= seq![b[0]] + b.skip(1));
    }
}

/// Whether the text `a` comes before the text `b`, or is the same.
pub fn is_in_order(a: &str, b: &str) -> (result: bool)
    ensures
        result == text_in_order(a@, b@),
{
    let first: &[u8] = a.as_bytes();
    let second: &[u8] = b.as_bytes();
    let mut i: usize = 0;
    assert(first@.skip(0) =~= first@);
    assert(second@.skip(0) =~= second@);
    while i < first.len() && i < second.len()
        invariant
            i <= first.len(),
            i <= second.len(),
            text_in_order(a@, b@) == in_order(first@.skip(i as int), second@.skip(i as int)),
        decreases first.len() - i,
    {
        if first[i] != second[i] {
            return first[i] < second[i];
        }
        proof {
            assert(first@.skip(i as int).skip(1) =~= first@.skip(i + 1));
            assert(second@.skip(i as int).skip(1) =~= second@.skip(i + 1));
        }
        i = i + 1;
    }
    i == first.len()
}

/// Puts names in order. Each name stays as often as it was there.
pub fn sort_names(names: &mut Vec<String>)
    ensures
        sorted(texts(final(names)@)),
        texts(final(names)@).to_multiset() == texts(old(names)@).to_multiset(),
{
    let mut done: usize = 0;
    while done < names.len()
        invariant
            done <= names.len(),
            sorted(texts(names@).take(done as int)),
            texts(names@).to_multiset() == texts(old(names)@).to_multiset(),
        decreases names.len() - done,
    {
        sink(names, done);
        done = done + 1;
    }
    proof {
        assert(texts(names@).take(done as int) =~= texts(names@));
    }
}

/// Moves the name at `last` down to its place among those before it, which are in order.
fn sink(names: &mut Vec<String>, last: usize)
    requires
        last < old(names).len(),
        sorted(texts(old(names)@).take(last as int)),
    ensures
        final(names).len() == old(names).len(),
        sorted(texts(final(names)@).take(last + 1)),
        texts(final(names)@).to_multiset() == texts(old(names)@).to_multiset(),
{
    let name = names.remove(last);
    let ghost rest = names@;
    proof {
        assert(texts(rest) =~= texts(old(names)@).remove(last as int));
    }
    let mut place: usize = last;
    while place > 0 && !is_in_order(names[place - 1].as_str(), name.as_str())
        invariant
            place <= last <= names.len(),
            names@ == rest,
            forall|i: int|
                place <= i < last ==> text_in_order(name@, #[trigger] texts(names@)[i]),
        decreases place,
    {
        proof {
            lemma_order_is_total(
                encode_utf8(names@[place - 1]@),
                encode_utf8(name@),
            );
        }
        place = place - 1;
    }
    let ghost text = name@;
    proof {
        assert(sorted(texts(rest).take(last as int))) by {
            assert(texts(rest).take(last as int) =~= texts(old(names)@).take(last as int));
        }
    }
    names.insert(place, name);
    proof {
        broadcast use vstd::seq_lib::group_to_multiset_ensures;

        assert(texts(names@) =~= texts(rest).insert(place as int, text));
        assert(texts(old(names)@)[last as int] == text);
        assert(texts(names@).to_multiset() =~= texts(old(names)@).to_multiset());
        let before = texts(rest);
        let after = texts(names@).take(last + 1);
        assert forall|i: int, j: int| 0 <= i < j < after.len() implies text_in_order(
            #[trigger] after[i],
            #[trigger] after[j],
        ) by {
            let from_i = if i < place { i } else { i - 1 };
            let from_j = if j < place { j } else { j - 1 };
            if i != place {
                assert(after[i] == before[from_i]);
                assert(before.take(last as int)[from_i] == before[from_i]);
            }
            if j != place {
                assert(after[j] == before[from_j]);
                assert(before.take(last as int)[from_j] == before[from_j]);
            }
            if i == place {
                assert(text_in_order(text, before[from_j]));
            } else if j == place {
                // Everything before `i` is in order with the name just below the place, and that
                // one with the name itself.
                assert(i <= place - 1);
                assert(text_in_order(before[place - 1], text));
                if i < place - 1 {
                    assert(before.take(last as int)[place - 1] == before[place - 1]);
                    assert(text_in_order(before[i], before[place - 1]));
                    lemma_order_is_transitive(
                        encode_utf8(before[i]),
                        encode_utf8(before[place - 1]),
                        encode_utf8(text),
                    );
                }
            }
        }
    }
}

/// Two lists that hold the same texts, each once and in order, are the same.
pub proof fn lemma_order_is_unique(a: Seq<Seq<char>>, b: Seq<Seq<char>>)
    requires
        sorted(a),
        sorted(b),
        a.no_duplicates(),
        b.no_duplicates(),
        a.to_set() == b.to_set(),
    ensures
        a == b,
    decreases a.len(),
{
    if a.len() == 0 {
        if b.len() > 0 {
            assert(b.to_set().contains(b[0]));
        }
        assert(a =~= b);
    } else {
        assert(a.to_set().contains(a.last()));
        assert(b.to_set().contains(a.last()));
        let i = choose|i: int| 0 <= i < b.len() && b[i] == a.last();
        assert(b.to_set().contains(b.last()));
        assert(a.to_set().contains(b.last()));
        let j = choose|j: int| 0 <= j < a.len() && a[j] == b.last();
        if a.last() != b.last() {
            assert(text_in_order(b[i], b[b.len() - 1]));
            assert(text_in_order(a[j], a[a.len() - 1]));
            lemma_order_is_antisymmetric(encode_utf8(a.last()), encode_utf8(b.last()));
            lemma_encoding_is_injective(a.last(), b.last());
        }
        let shorter_a = a.drop_last();
        let shorter_b = b.drop_last();
        assert(shorter_a.to_set() =~= shorter_b.to_set()) by {
            assert forall|text: Seq<char>| shorter_a.to_set().contains(text)
                == shorter_b.to_set().contains(text) by {
                if shorter_a.to_set().contains(text) {
                    let k = choose|k: int| 0 <= k < shorter_a.len() && shorter_a[k] == text;
                    assert(a[k] == text && a[k] != a[a.len() - 1]);
                    assert(a.to_set().contains(text));
                    let l = choose|l: int| 0 <= l < b.len() && b[l] == text;
                    assert(shorter_b[l] == text);
                }
                if shorter_b.to_set().contains(text) {
                    let k = choose|k: int| 0 <= k < shorter_b.len() && shorter_b[k] == text;
                    assert(b[k] == text && b[k] != b[b.len() - 1]);
                    assert(b.to_set().contains(text));
                    let l = choose|l: int| 0 <= l < a.len() && a[l] == text;
                    assert(shorter_a[l] == text);
                }
            }
        }
        lemma_order_is_unique(shorter_a, shorter_b);
        assert(a =~= shorter_a.push(a.last()));
        assert(b =~= shorter_b.push(b.last()));
    }
}

/// Whether `list` holds the keys of `table`, each once and in order.
pub open spec fn lists_in_order<V>(list: Seq<Seq<char>>, table: Map<Seq<char>, V>) -> bool {
    &&& sorted(list)
    &&& list.no_duplicates()
    &&& list.to_set() == table.dom()
}

/// The keys of a table, in order.
pub fn sorted_keys<V>(table: &FxHashMap<String, V>) -> (names: Vec<String>)
    ensures
        lists_in_order(texts(names@), entries(*table)),
{
    let mut names = keys(table);
    let ghost before = texts(names@);
    sort_names(&mut names);
    proof {
        let after = texts(names@);
        before.lemma_multiset_has_no_duplicates();
        after.lemma_multiset_has_no_duplicates_conv();
        broadcast use vstd::seq_lib::group_to_multiset_ensures;

        assert(after.to_set() =~= before.to_set()) by {
            assert forall|text: Seq<char>| after.to_set().contains(text)
                == before.to_set().contains(text) by {
                assert(after.contains(text) <==> after.to_multiset().count(text) > 0);
                assert(before.contains(text) <==> before.to_multiset().count(text) > 0);
            }
        }
    }
    names
}

/// Whether two texts are the same.
pub fn same_text(a: &str, b: &str) -> (same: bool)
    ensures
        same == (a@ == b@),
{
    let same = same_bytes(a.as_bytes(), b.as_bytes());
    proof {
        if same {
            lemma_encoding_is_injective(a@, b@);
        }
    }
    same
}

/// The value of a digit.
pub open spec fn digit_value(character: char) -> nat {
    if '0' <= character <= '9' {
        (character as nat - '0' as nat) as nat
    } else {
        0
    }
}

/// The number that a row of digits stands for.
pub open spec fn number_of(digits: Seq<char>) -> nat
    decreases digits.len(),
{
    if digits.len() == 0 {
        0
    } else {
        number_of(digits.drop_last()) * 10 + digit_value(digits.last())
    }
}

/// A number that is written out reads back as itself, in digits alone and without a leading zero.
pub proof fn law_decimal_reads_back(value: nat)
    ensures
        number_of(decimal(value)) == value,
        forall|i: int| 0 <= i < decimal(value).len() ==> '0' <= #[trigger] decimal(value)[i] <= '9',
        decimal(value).len() > 0,
        decimal(value)[0] == '0' ==> value == 0,
    decreases value,
{
    reveal_with_fuel(number_of, 3);
    if value >= 10 {
        law_decimal_reads_back(value / 10);
        assert(decimal(value).drop_last() =~= decimal(value / 10));
        assert forall|i: int| 0 <= i < decimal(value).len() implies '0' <= #[trigger] decimal(
            value,
        )[i] <= '9' by {
            if i < decimal(value / 10).len() {
                assert(decimal(value)[i] == decimal(value / 10)[i]);
            }
        }
        assert(decimal(value)[0] == decimal(value / 10)[0]);
    } else {
        assert(decimal(value).drop_last() =~= Seq::<char>::empty());
    }
}

} // verus!
