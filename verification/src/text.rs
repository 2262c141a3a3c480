//! Decimal numerals and the ids of numbered thread items.
use vstd::prelude::*;

verus! {

/// The characters of a string that may be absent.
pub open spec fn opt_text(text: Option<String>) -> Option<Seq<char>> {
    match text {
        Some(text) => Some(text@),
        None => None,
    }
}

/// The decimal digit of a number below ten.
pub open spec fn digit_char(digit: nat) -> char
    recommends
        digit < 10,
{
    (('0' as nat) + digit) as char
}

pub open spec fn is_digit(c: char) -> bool {
    '0' <= c <= '9'
}

/// The number that a digit stands for.
pub open spec fn digit_value(c: char) -> nat
    recommends
        is_digit(c),
{
    (c as nat - '0' as nat) as nat
}

/// The decimal numeral of a number, without leading zeros.
pub open spec fn decimal(number: nat) -> Seq<char>
    decreases number,
{
    if number < 10 {
        seq![digit_char(number)]
    } else {
        decimal(number / 10).push(digit_char(number % 10))
    }
}

pub open spec fn all_digits(numeral: Seq<char>) -> bool {
    forall|i: int| 0 <= i < numeral.len() ==> is_digit(#[trigger] numeral[i])
}

/// The number that a sequence of digits denotes; leading zeros are harmless.
pub open spec fn numeral_value(numeral: Seq<char>) -> nat
    decreases numeral.len(),
{
    if numeral.len() == 0 {
        0
    } else {
        10 * numeral_value(numeral.drop_last()) + digit_value(numeral.last())
    }
}

/// What every numbered item id begins with.
pub open spec fn item_prefix() -> Seq<char> {
    seq!['i', 't', 'e', 'm', '-']
}

/// The id of the numbered item `index`.
pub open spec fn item_id(index: nat) -> Seq<char> {
    item_prefix() + decimal(index)
}

/// The number in an item id: the prefix has to be followed by digits alone, at
/// least one, and the number has to fit the counter.
pub open spec fn item_index(id: Seq<char>) -> Option<nat> {
    let numeral = id.skip(5);
    if id.len() > 5 && id.take(5) == item_prefix() && all_digits(numeral) && numeral_value(numeral)
        <= u64::MAX {
        Some(numeral_value(numeral))
    } else {
        None
    }
}

/// The numeral of a number denotes that number.
pub proof fn lemma_decimal_value(number: nat)
    ensures
        decimal(number).len() > 0,
        all_digits(decimal(number)),
        numeral_value(decimal(number)) == number,
    decreases number,
{
    if number < 10 {
        let numeral = decimal(number);
        assert(numeral.drop_last() =~= Seq::<char>::empty());
        assert(numeral_value(numeral.drop_last()) == 0);
    } else {
        lemma_decimal_value(number / 10);
        let numeral = decimal(number);
        assert(numeral.drop_last() =~= decimal(number / 10));
        assert(numeral.last() == digit_char(number % 10));
    }
}

/// Reading the number of a numbered item id gives that number back.
pub proof fn law_item_index_of_item_id(index: nat)
    requires
        index <= u64::MAX,
    ensures
        item_index(item_id(index)) == Some(index),
{
    lemma_decimal_value(index);
    assert(item_id(index).take(5) =~= item_prefix());
    assert(item_id(index).skip(5) =~= decimal(index));
}

/// Different numbers give different item ids.
pub proof fn law_item_ids_are_distinct(a: nat, b: nat)
    requires
        a != b,
    ensures
        item_id(a) != item_id(b),
{
    lemma_decimal_value(a);
    lemma_decimal_value(b);
    assert(item_id(a).skip(5) =~= decimal(a));
    assert(item_id(b).skip(5) =~= decimal(b));
}

/// The value of a numeral is at least that of each of its prefixes.
proof fn lemma_numeral_value_grows(numeral: Seq<char>, end: int)
    requires
        0 <= end <= numeral.len(),
    ensures
        numeral_value(numeral.take(end)) <= numeral_value(numeral),
    decreases numeral.len(),
{
    if end == numeral.len() {
        assert(numeral.take(end) =~= numeral);
    } else {
        lemma_numeral_value_grows(numeral.drop_last(), end);
        assert(numeral.drop_last().take(end) =~= numeral.take(end));
    }
}

fn digit_text(digit: u64) -> (text: &'static str)
    requires
        digit < 10,
    ensures
        text@ == seq![digit_char(digit as nat)],
{
    proof {
        reveal_strlit("0");
        reveal_strlit("1");
        reveal_strlit("2");
        reveal_strlit("3");
        reveal_strlit("4");
        reveal_strlit("5");
        reveal_strlit("6");
        reveal_strlit("7");
        reveal_strlit("8");
        reveal_strlit("9");
    }
    let text = match digit {
        0 => "0",
        1 => "1",
        2 => "2",
        3 => "3",
        4 => "4",
        5 => "5",
        6 => "6",
        7 => "7",
        8 => "8",
        _ => "9",
    };
    assert(text@ =~= seq![digit_char(digit as nat)]);
    text
}

/// Writes a number in decimal.
pub fn decimal_text(number: u64) -> (text: String)
    ensures
        text@ == decimal(number as nat),
    decreases number,
{
    if number < 10 {
        digit_text(number).to_string()
    } else {
        let mut text = decimal_text(number / 10);
        text.append(digit_text(number % 10));
        assert(text@ =~= decimal(number as nat));
        text
    }
}

/// Writes the id of the numbered item `index`.
pub fn item_id_text(index: u64) -> (text: String)
    ensures
        text@ == item_id(index as nat),
{
    proof {
        reveal_strlit("item-");
    }
    let mut text = "item-".to_string();
    assert(text@ =~= item_prefix());
    text.append(decimal_text(index).as_str());
    text
}

/// Reads the number out of an item id.
pub fn parse_item_index(id: &str) -> (index: Option<u64>)
    ensures
        match index {
            Some(index) => item_index(id@) == Some(index as nat),
            None => item_index(id@) is None,
        },
{
    let len: usize = id.unicode_len();
    if len <= 5 {
        return None;
    }
    let ghost numeral = id@.skip(5);
    if !(id.get_char(0) == 'i' && id.get_char(1) == 't' && id.get_char(2) == 'e' && id.get_char(3)
        == 'm' && id.get_char(4) == '-') {
        assert(id@.take(5) != item_prefix()) by {
            if id@.take(5) == item_prefix() {
                assert(id@.take(5)[0] == id@[0]);
                assert(id@.take(5)[1] == id@[1]);
                assert(id@.take(5)[2] == id@[2]);
                assert(id@.take(5)[3] == id@[3]);
                assert(id@.take(5)[4] == id@[4]);
            }
        }
        return None;
    }
    assert(id@.take(5) =~= item_prefix());
    let mut value: u64 = 0;
    let mut i: usize = 5;
    assert(numeral.take(0) =~= Seq::<char>::empty());
    while i < len
        invariant
            5 <= i <= len,
            len == id@.len(),
            numeral == id@.skip(5),
            all_digits(numeral.take(i - 5)),
            value == numeral_value(numeral.take(i - 5)),
        decreases len - i,
    {
        let c = id.get_char(i);
        assert(c == numeral[i - 5]);
        if !('0' <= c && c <= '9') {
            return None;
        }
        let digit: u64 = (c as u64) - 48;
        proof {
            let shorter = numeral.take(i - 5);
            let longer = numeral.take(i - 4);
            assert(longer.drop_last() =~= shorter);
            assert(longer.last() == c);
            assert(numeral_value(longer) == 10 * value + digit);
            lemma_numeral_value_grows(numeral, i - 4);
            assert forall|k: int| 0 <= k < longer.len() implies is_digit(#[trigger] longer[k]) by {
                if k < shorter.len() {
                    assert(longer[k] == shorter[k]);
                }
            }
        }
        if value > (u64::MAX - digit) / 10 {
            return None;
        }
        value = 10 * value + digit;
        i = i + 1;
    }
    assert(numeral.take(len - 5) =~= numeral);
    Some(value)
}

/// A text that may be absent is seen exactly if it is there, and with all its
/// characters.
pub proof fn law_optional_text_is_seen_whole(text: Option<String>)
    ensures
        text is Some <==> opt_text(text) is Some,
        text is Some ==> opt_text(text)->0 == text->0@,
{
}

/// A digit is its own numeral, and a further digit behind a numeral multiplies
/// by ten and adds: no numeral has a leading zero.
pub proof fn law_numerals_grow_by_digits(number: nat, digit: nat)
    requires
        digit < 10,
    ensures
        decimal(digit).len() == 1,
        decimal(digit)[0] as nat == '0' as nat + digit,
        number > 0 ==> decimal(10 * number + digit) == decimal(number) + decimal(digit),
{
    if number > 0 {
        let longer: nat = 10 * number + digit;
        assert(longer / 10 == number);
        assert(longer % 10 == digit);
        assert(decimal(longer) =~= decimal(number) + decimal(digit));
    }
}

/// A numbered item id is the word `item`, a hyphen and the numeral.
pub proof fn law_item_id_is_prefixed_numeral(index: nat)
    ensures
        item_id(index) == "item-"@ + decimal(index),
{
    reveal_strlit("item-");
    assert("item-"@ =~= item_prefix());
}

/// Only an id with the prefix, and with digits alone behind it, has a number.
pub proof fn law_other_ids_have_no_number(id: Seq<char>)
    requires
        ({
            ||| id.len() <= 5
            ||| id.take(5) != "item-"@
            ||| exists|i: int| 5 <= i < id.len() && !('0' <= #[trigger] id[i] <= '9')
        }),
    ensures
        item_index(id) is None,
{
    reveal_strlit("item-");
    assert("item-"@ =~= item_prefix());
    if id.len() > 5 && id.take(5) == "item-"@ {
        let i = choose|i: int| 5 <= i < id.len() && !('0' <= #[trigger] id[i] <= '9');
        assert(id.skip(5)[i - 5] == id[i]);
        assert(!is_digit(id.skip(5)[i - 5]));
    }
}

/// An id with one digit has that digit's number; a further digit multiplies by
/// ten and adds, as long as the counter can hold the number.
pub proof fn law_item_index_grows_by_digits(id: Seq<char>, digit: char)
    requires
        '0' <= digit <= '9',
    ensures
        item_index("item-"@.push(digit)) == Some((digit as nat - '0' as nat) as nat),
        item_index(id) matches Some(index) ==> item_index(id.push(digit)) == {
            let longer = 10 * index + (digit as nat - '0' as nat) as nat;
            if longer <= u64::MAX {
                Some(longer)
            } else {
                None
            }
        },
{
    reveal_strlit("item-");
    assert("item-"@ =~= item_prefix());
    let single = "item-"@.push(digit);
    assert(single.take(5) =~= item_prefix());
    assert(single.skip(5) =~= seq![digit]);
    assert(seq![digit].drop_last() =~= Seq::<char>::empty());
    assert(numeral_value(seq![digit].drop_last()) == 0);
    assert(numeral_value(seq![digit]) == digit_value(digit));
    if item_index(id) is Some {
        let longer = id.push(digit);
        assert(longer.take(5) =~= id.take(5));
        assert(longer.skip(5) =~= id.skip(5).push(digit));
        assert(id.skip(5).push(digit).drop_last() =~= id.skip(5));
        assert(all_digits(longer.skip(5)));
    }
}

} // verus!
