//! Diary entries and their plaintext form.
//!
//! An entry is written as `timestamp|word_count|content`, the word count in
//! decimal. Reading splits on the first two separators only, so the content
//! may hold separators of its own.

use vstd::prelude::*;
use vstd::string::*;

verus! {

/// The character that stands between the fields of a plaintext.
pub const SEPARATOR: char = '|';

/// One diary write: when it was made, how many words it has, and its text.
#[derive(Clone, Debug, PartialEq, Eq)]
pub struct DiaryEntry {
    pub timestamp: String,
    pub word_count: u32,
    pub content: String,
}

/// What a `DiaryEntry` holds, as plain values.
pub struct EntryView {
    pub timestamp: Seq<char>,
    pub word_count: u32,
    pub content: Seq<char>,
}

impl View for DiaryEntry {
    type V = EntryView;

    open spec fn view(&self) -> EntryView {
        EntryView {
            timestamp: self.timestamp@,
            word_count: self.word_count,
            content: self.content@,
        }
    }
}

/// The first position at or after `from` where `s` holds `c`, or the length
/// of `s` where it holds none.
pub open spec fn position(s: Seq<char>, c: char, from: int) -> int
    decreases s.len() - from,
{
    if from < 0 || from >= s.len() {
        s.len() as int
    } else if s[from] == c {
        from
    } else {
        position(s, c, from + 1)
    }
}

/// The decimal digit for `d`, which is below ten.
pub open spec fn digit_char(d: nat) -> char {
    (d + 48) as char
}

/// Whether `c` is one of `0` to `9`.
pub open spec fn is_digit(c: char) -> bool {
    '0' <= c <= '9'
}

/// The number that the digit `c` stands for.
pub open spec fn digit_value(c: char) -> nat {
    (c as nat - 48) as nat
}

/// `n` in decimal, without sign or leading zeros.
pub open spec fn decimal(n: nat) -> Seq<char>
    decreases n,
{
    if n < 10 {
        seq![digit_char(n)]
    } else {
        decimal(n / 10).push(digit_char(n % 10))
    }
}

/// Whether `s` holds decimal digits only.
pub open spec fn all_digits(s: Seq<char>) -> bool {
    forall|i: int| 0 <= i < s.len() ==> is_digit(#[trigger] s[i])
}

/// The number that the digits of `s` write in decimal.
pub open spec fn digits_value(s: Seq<char>) -> nat
    decreases s.len(),
{
    if s.len() == 0 {
        0
    } else {
        digits_value(s.drop_last()) * 10 + digit_value(s.last())
    }
}

/// `s` without the plus sign that may lead it.
pub open spec fn unsigned_part(s: Seq<char>) -> Seq<char> {
    if s.len() > 0 && s[0] == '+' {
        s.subrange(1, s.len() as int)
    } else {
        s
    }
}

/// The word count that the field `s` records: its decimal value where it is
/// one or more digits, with or without a leading plus sign, and fits 32 bits;
/// zero for every other text.
pub open spec fn word_count_of(s: Seq<char>) -> u32 {
    let digits = unsigned_part(s);
    if digits.len() > 0 && all_digits(digits) && digits_value(digits) <= u32::MAX {
        digits_value(digits) as u32
    } else {
        0
    }
}

/// The plaintext of an entry.
pub open spec fn serialize(entry: EntryView) -> Seq<char> {
    entry.timestamp + seq![SEPARATOR] + decimal(entry.word_count as nat) + seq![SEPARATOR]
        + entry.content
}

/// The entry that a plaintext is read as. The text is cut at its first two
/// separators; a field that is missing is empty, and a word count that is
/// missing or unreadable is zero.
pub open spec fn parse_plaintext_spec(text: Seq<char>) -> EntryView {
    let n = text.len() as int;
    let i = position(text, SEPARATOR, 0);
    if i >= n {
        EntryView { timestamp: text, word_count: 0, content: Seq::empty() }
    } else {
        let j = position(text, SEPARATOR, i + 1);
        EntryView {
            timestamp: text.subrange(0, i),
            word_count: word_count_of(text.subrange(i + 1, j)),
            content: if j >= n {
                Seq::empty()
            } else {
                text.subrange(j + 1, n)
            },
        }
    }
}

/// Where `position` points: not before `from`, past everything that differs
/// from `c`, and at a `c` unless it is the end.
pub proof fn lemma_position(s: Seq<char>, c: char, from: int)
    requires
        0 <= from <= s.len(),
    ensures
        from <= position(s, c, from) <= s.len(),
        forall|k: int| from <= k < position(s, c, from) ==> s[k] != c,
        position(s, c, from) < s.len() ==> s[position(s, c, from)] == c,
    decreases s.len() - from,
{
    if from < s.len() && s[from] != c {
        lemma_position(s, c, from + 1);
    }
}

/// A place at or after `from` that holds the first `c` from there on, or the
/// end where there is none, is what `position` returns.
pub proof fn lemma_position_is(s: Seq<char>, c: char, from: int, p: int)
    requires
        0 <= from <= p <= s.len(),
        forall|k: int| from <= k < p ==> s[k] != c,
        p < s.len() ==> s[p] == c,
    ensures
        position(s, c, from) == p,
    decreases p - from,
{
    if from < p {
        lemma_position_is(s, c, from + 1, p);
    }
}

/// The decimal form of a number is one or more digits that write it.
pub proof fn lemma_decimal_digits(n: nat)
    ensures
        decimal(n).len() > 0,
        all_digits(decimal(n)),
        digits_value(decimal(n)) == n,
    decreases n,
{
    let s = decimal(n);
    if n < 10 {
        assert(s.drop_last() =~= Seq::<char>::empty());
        assert(digits_value(s.drop_last()) == 0);
        assert(digit_value(s.last()) == n);
    } else {
        lemma_decimal_digits(n / 10);
        assert(s.drop_last() =~= decimal(n / 10));
        assert(digit_value(s.last()) == n % 10);
    }
}

/// A word count that was written in decimal is read back as it was.
pub proof fn lemma_word_count_of_decimal(n: u32)
    ensures
        word_count_of(decimal(n as nat)) == n,
{
    lemma_decimal_digits(n as nat);
    assert(is_digit(decimal(n as nat)[0]));
}

/// Reading the plaintext of an entry gives the entry back, provided its
/// timestamp holds no separator.
pub proof fn lemma_parse_serialize(entry: EntryView)
    requires
        !entry.timestamp.contains(SEPARATOR),
    ensures
        parse_plaintext_spec(serialize(entry)) == entry,
{
    let text = serialize(entry);
    let count = decimal(entry.word_count as nat);
    let i = entry.timestamp.len() as int;
    let j = i + 1 + count.len();
    lemma_decimal_digits(entry.word_count as nat);
    lemma_word_count_of_decimal(entry.word_count);
    assert forall|k: int| 0 <= k < i implies text[k] != SEPARATOR by {
        assert(entry.timestamp.contains(entry.timestamp[k]));
    }
    lemma_position_is(text, SEPARATOR, 0, i);
    assert forall|k: int| i + 1 <= k < j implies text[k] != SEPARATOR by {
        assert(is_digit(count[k - i - 1]));
    }
    lemma_position_is(text, SEPARATOR, i + 1, j);
    assert(text.subrange(0, i) =~= entry.timestamp);
    assert(text.subrange(i + 1, j) =~= count);
    assert(text.subrange(j + 1, text.len() as int) =~= entry.content);
}

/// Finds the first `c` in `text` at or after the character position `from`.
/// Returns the number of characters of `text` where there is none.
pub fn find_char(text: &str, c: char, from: usize) -> (pos: usize)
    ensures
        pos == position(text@, c, from as int),
{
    let n = text.unicode_len();
    let mut i: usize = 0;
    for ch in it: text.chars()
        invariant
            i == it.index(),
            n == text@.len(),
            it.seq() == text@,
            i <= n,
            from <= i ==> position(text@, c, from as int) == position(text@, c, i as int),
    {
        if i >= from && ch == c {
            return i;
        }
        i = i + 1;
    }
    i
}

/// The one-character text of the decimal digit `d`.
fn digit_str(d: u32) -> (s: &'static str)
    requires
        d < 10,
    ensures
        s@ == seq![digit_char(d as nat)],
{
    proof {
        reveal_strlit("0");
        reveal_strlit("1");
        reveal_strlit("2");
        reveal_strlit("3");
        reveal_strlit("4");
        reveal_strlit("5");
        reveal_strlit("6");
        reveal_strlit("7");
        reveal_strlit("8");
        reveal_strlit("9");
    }
    let s = if d == 0 {
        "0"
    } else if d == 1 {
        "1"
    } else if d == 2 {
        "2"
    } else if d == 3 {
        "3"
    } else if d == 4 {
        "4"
    } else if d == 5 {
        "5"
    } else if d == 6 {
        "6"
    } else if d == 7 {
        "7"
    } else if d == 8 {
        "8"
    } else {
        "9"
    };
    assert(s@ =~= seq![digit_char(d as nat)]);
    s
}

/// Writes `n` in decimal.
pub fn decimal_string(n: u32) -> (s: String)
    ensures
        s@ == decimal(n as nat),
    decreases n,
{
    if n < 10 {
        String::from_str(digit_str(n))
    } else {
        let mut s = decimal_string(n / 10);
        s.append(digit_str(n % 10));
        s
    }
}

/// Writes the plaintext of `entry`.
pub fn format_plaintext(entry: &DiaryEntry) -> (text: String)
    ensures
        text@ == serialize(entry@),
{
    proof {
        reveal_strlit("|");
    }
    let count = decimal_string(entry.word_count);
    let mut text = String::from_str(entry.timestamp.as_str());
    text.append("|");
    text.append(count.as_str());
    text.append("|");
    text.append(entry.content.as_str());
    assert("|"@ =~= seq![SEPARATOR]);
    text
}

/// Reads a word count field. A field that is no decimal number of 32 bits
/// counts as zero.
pub fn parse_word_count(field: &str) -> (count: u32)
    ensures
        count == word_count_of(field@),
{
    let mut first = true;
    let mut signed = false;
    let mut seen = false;
    let mut overflow = false;
    let mut value: u64 = 0;
    for ch in it: field.chars()
        invariant
            it.seq() == field@,
            first <==> it.index() == 0,
            signed <==> it.index() > 0 && field@[0] == '+',
            seen <==> it.index() > (if signed { 1int } else { 0int }),
            all_digits(field@.subrange(if signed { 1int } else { 0int }, it.index() as int)),
            overflow ==> digits_value(
                field@.subrange(if signed { 1int } else { 0int }, it.index() as int),
            ) > u32::MAX,
            !overflow ==> value == digits_value(
                field@.subrange(if signed { 1int } else { 0int }, it.index() as int),
            ) && value <= u32::MAX,
    {
        let ghost k = it.index() as int;
        let ghost start = if signed { 1int } else { 0int };
        if first && ch == '+' {
            signed = true;
            assert(field@.subrange(1, 1) =~= Seq::<char>::empty());
        } else if '0' <= ch && ch <= '9' {
            proof {
                let before = field@.subrange(start, k);
                let after = field@.subrange(start, k + 1);
                assert(after.drop_last() =~= before);
                assert(after.last() == ch);
            }
            if !overflow {
                value = value * 10 + (ch as u64 - 48);
                if value > u32::MAX as u64 {
                    overflow = true;
                }
            }
            seen = true;
        } else {
            proof {
                let digits = unsigned_part(field@);
                if k == 0 {
                    assert(!is_digit(digits[0]));
                } else {
                    assert(digits[k - start] == ch);
                    assert(!is_digit(digits[k - start]));
                }
            }
            return 0;
        }
        first = false;
    }
    proof {
        let start = if signed { 1int } else { 0int };
        assert(field@.subrange(start, field@.len() as int) =~= unsigned_part(field@));
    }
    if overflow || !seen {
        0
    } else {
        value as u32
    }
}

/// Reads a plaintext as an entry.
pub fn parse_plaintext(text: &str) -> (entry: DiaryEntry)
    ensures
        entry@ == parse_plaintext_spec(text@),
{
    let n = text.unicode_len();
    let i = find_char(text, SEPARATOR, 0);
    proof {
        lemma_position(text@, SEPARATOR, 0);
    }
    if i >= n {
        return DiaryEntry {
            timestamp: String::from_str(text),
            word_count: 0,
            content: String::new(),
        };
    }
    let j = find_char(text, SEPARATOR, i + 1);
    proof {
        lemma_position(text@, SEPARATOR, i + 1);
    }
    let timestamp = String::from_str(text.substring_char(0, i));
    let word_count = parse_word_count(text.substring_char(i + 1, j));
    let content = if j >= n {
        String::new()
    } else {
        String::from_str(text.substring_char(j + 1, n))
    };
    DiaryEntry { timestamp, word_count, content }
}

} // verus!
