//! Text operations: blankness, order, decimal numbers and cutting at a character.

use vstd::prelude::*;

verus! {

/// The characters that Unicode lists under `White_Space`.
pub open spec fn white_space(c: char) -> bool {
    let n = c as u32;
    ||| 0x9 <= n <= 0xD
    ||| n == 0x20
    ||| n == 0x85
    ||| n == 0xA0
    ||| n == 0x1680
    ||| 0x2000 <= n <= 0x200A
    ||| n == 0x2028
    ||| n == 0x2029
    ||| n == 0x202F
    ||| n == 0x205F
    ||| n == 0x3000
}

/// A text with nothing but white space in it.
pub open spec fn blank(text: Seq<char>) -> bool {
    forall|i: int| 0 <= i < text.len() ==> white_space(#[trigger] text[i])
}

/// The characters of `text`.
pub fn characters(text: &str) -> (characters: Vec<char>)
    ensures
        characters@ == text@,
{
    let mut characters: Vec<char> = Vec::new();
    for c in it: text.chars()
        invariant
            it.seq() == text@,
            characters@ == text@.take(it.index()),
    {
        proof {
            assert(text@.take(it.index() + 1) =~= text@.take(it.index()).push(c));
        }
        characters.push(c);
    }
    proof {
        assert(text@.take(text@.len() as int) =~= text@);
    }
    characters
}

/// Whether `text` holds nothing but white space.
pub fn is_blank(text: &str) -> (result: bool)
    ensures
        result == blank(text@),
{
    let characters = characters(text);
    let mut i: usize = 0;
    while i < characters.len()
        invariant
            i <= characters@.len(),
            characters@ == text@,
            forall|j: int| 0 <= j < i ==> white_space(#[trigger] text@[j]),
        decreases characters@.len() - i,
    {
        let n: u32 = characters[i] as u32;
        let space = (0x9 <= n && n <= 0xD) || n == 0x20 || n == 0x85 || n == 0xA0 || n == 0x1680
            || (0x2000 <= n && n <= 0x200A) || n == 0x2028 || n == 0x2029 || n == 0x202F || n
            == 0x205F || n == 0x3000;
        if !space {
            assert(!white_space(text@[i as int]));
            return false;
        }
        i += 1;
    }
    true
}

/// Whether two texts are the same.
pub fn same_text(left: &str, right: &str) -> (result: bool)
    ensures
        result == (left@ == right@),
{
    left.to_owned() == right.to_owned()
}

/// Whether two optional texts are the same.
pub fn same_optional_text(left: &Option<String>, right: &Option<String>) -> (result: bool)
    ensures
        result == (optional_text(*left) == optional_text(*right)),
{
    match (left, right) {
        (Some(left), Some(right)) => *left == *right,
        (None, None) => true,
        _ => false,
    }
}

/// The characters of an optional text.
pub open spec fn optional_text(text: Option<String>) -> Option<Seq<char>> {
    match text {
        Some(text) => Some(text@),
        None => None,
    }
}

/// The characters of each text of a list.
pub open spec fn texts(list: Seq<String>) -> Seq<Seq<char>> {
    list.map_values(|text: String| text@)
}

/// Whether a list of texts holds `text`.
pub open spec fn lists(list: Seq<String>, text: Seq<char>) -> bool {
    exists|i: int| 0 <= i < list.len() && (#[trigger] list[i])@ == text
}

/// Whether a list holds a text, seen from the texts it holds.
pub proof fn listed_texts(list: Seq<String>, text: Seq<char>)
    ensures
        lists(list, text) == texts(list).contains(text),
{
    if lists(list, text) {
        let i = choose|i: int| 0 <= i < list.len() && (#[trigger] list[i])@ == text;
        assert(texts(list)[i] == text);
    }
    if texts(list).contains(text) {
        let i = texts(list).index_of(text);
        assert(list[i]@ == text);
    }
}

/// Whether `list` holds `text`.
pub fn holds_text(list: &Vec<String>, text: &str) -> (result: bool)
    ensures
        result == lists(list@, text@),
{
    let mut i: usize = 0;
    while i < list.len()
        invariant
            i <= list@.len(),
            forall|j: int| 0 <= j < i ==> (#[trigger] list@[j])@ != text@,
        decreases list@.len() - i,
    {
        if same_text(list[i].as_str(), text) {
            return true;
        }
        i += 1;
    }
    false
}

/// Adds `text` to `list` unless the list holds it already.
pub fn add_text(list: &mut Vec<String>, text: &String)
    ensures
        final(list)@ == with_text(old(list)@, *text),
{
    if !holds_text(list, text.as_str()) {
        list.push(text.clone());
    }
}

/// `list` with `text` at its end, or `list` itself where it holds the text already.
pub open spec fn with_text(list: Seq<String>, text: String) -> Seq<String> {
    if lists(list, text@) {
        list
    } else {
        list.push(text)
    }
}

/// `list` with each text of `more` that it does not hold already.
pub open spec fn with_texts(list: Seq<String>, more: Seq<String>) -> Seq<String>
    decreases more.len(),
{
    if more.len() == 0 {
        list
    } else {
        with_text(with_texts(list, more.drop_last()), more.last())
    }
}

/// Adds texts to `list`, but none that it holds already.
pub fn add_texts(list: &mut Vec<String>, more: &Vec<String>)
    ensures
        final(list)@ == with_texts(old(list)@, more@),
{
    let ghost before = list@;
    let mut i: usize = 0;
    proof {
        assert(more@.take(0) =~= Seq::empty());
    }
    while i < more.len()
        invariant
            i <= more@.len(),
            before == old(list)@,
            list@ == with_texts(before, more@.take(i as int)),
        decreases more@.len() - i,
    {
        proof {
            assert(more@.take(i + 1).drop_last() =~= more@.take(i as int));
            assert(more@.take(i + 1).last() == more@[i as int]);
        }
        add_text(list, &more[i]);
        i += 1;
    }
    proof {
        assert(more@.take(more@.len() as int) =~= more@);
    }
}

/// The order of texts by their code points, which is also the order of their UTF-8 bytes.
pub open spec fn text_before(left: Seq<char>, right: Seq<char>) -> bool
    decreases left.len(),
{
    if right.len() == 0 {
        false
    } else if left.len() == 0 {
        true
    } else if left[0] != right[0] {
        (left[0] as int) < (right[0] as int)
    } else {
        text_before(left.drop_first(), right.drop_first())
    }
}

fn code_point(c: char) -> (n: u32)
    ensures
        n as int == c as int,
{
    c as u32
}

/// Whether `left` comes before `right` by code points.
pub fn precedes(left: &str, right: &str) -> (result: bool)
    ensures
        result == text_before(left@, right@),
{
    let a = characters(left);
    let b = characters(right);
    let mut i: usize = 0;
    proof {
        assert(a@.skip(0) =~= left@);
        assert(b@.skip(0) =~= right@);
    }
    while i < a.len() && i < b.len()
        invariant
            i <= a@.len(),
            i <= b@.len(),
            text_before(left@, right@) == text_before(a@.skip(i as int), b@.skip(i as int)),
        decreases a@.len() - i,
    {
        proof {
            assert(a@.skip(i as int).drop_first() =~= a@.skip(i + 1));
            assert(b@.skip(i as int).drop_first() =~= b@.skip(i + 1));
        }
        if a[i] != b[i] {
            return code_point(a[i]) < code_point(b[i]);
        }
        i += 1;
    }
    i < b.len()
}

/// Two texts are ordered one way or the other unless they are the same.
pub proof fn text_order_is_total(left: Seq<char>, right: Seq<char>)
    ensures
        text_before(left, right) || text_before(right, left) || left == right,
        !(text_before(left, right) && text_before(right, left)),
        left == right ==> !text_before(left, right),
    decreases left.len(),
{
    if left.len() == 0 || right.len() == 0 {
        if left.len() == right.len() {
            assert(left =~= right);
        }
    } else {
        text_order_is_total(left.drop_first(), right.drop_first());
        if left[0] == right[0] && left.drop_first() == right.drop_first() {
            assert(left =~= seq![left[0]] + left.drop_first());
            assert(right =~= seq![right[0]] + right.drop_first());
        }
    }
}

/// The order of texts is transitive.
pub proof fn text_order_is_transitive(first: Seq<char>, second: Seq<char>, third: Seq<char>)
    requires
        text_before(first, second),
        text_before(second, third),
    ensures
        text_before(first, third),
    decreases first.len(),
{
    if first.len() > 0 && first[0] == second[0] && second[0] == third[0] {
        text_order_is_transitive(first.drop_first(), second.drop_first(), third.drop_first());
    }
}

/// Texts that follow one another in their order.
pub open spec fn ascending(list: Seq<String>) -> bool {
    forall|i: int, j: int|
        0 <= i < j < list.len() ==> text_before((#[trigger] list[i])@, (#[trigger] list[j])@)
}

/// Puts a text into its place among texts in their order, unless it is there already.
pub fn add_in_order(list: &mut Vec<String>, text: &String)
    requires
        ascending(old(list)@),
    ensures
        ascending(final(list)@),
        forall|other: Seq<char>| #[trigger]
            lists(final(list)@, other) == (lists(old(list)@, other) || other == text@),
{
    let ghost before = list@;
    let mut i: usize = 0;
    while i < list.len() && precedes(list[i].as_str(), text.as_str())
        invariant
            i <= list@.len(),
            list@ == before,
            ascending(before),
            forall|j: int| 0 <= j < i ==> text_before((#[trigger] list@[j])@, text@),
        decreases list@.len() - i,
    {
        i += 1;
    }
    if i < list.len() && list[i] == *text {
        return;
    }
    list.insert(i, text.clone());
    proof {
        let after = list@;
        assert(after == before.insert(i as int, *text));
        assert forall|j: int, k: int| 0 <= j < k < after.len() implies text_before(
            (#[trigger] after[j])@,
            (#[trigger] after[k])@,
        ) by {
            if j == i {
                text_order_is_total(text@, before[i as int]@);
                if k > i + 1 {
                    assert(text_before(before[i as int]@, before[k - 1]@));
                    text_order_is_transitive(text@, before[i as int]@, before[k - 1]@);
                }
            }
        }
        assert forall|other: Seq<char>| #[trigger] lists(after, other) == (lists(before, other)
            || other == text@) by {
            if lists(before, other) {
                let j = choose|j: int| 0 <= j < before.len() && (#[trigger] before[j])@ == other;
                if j < i {
                    assert(after[j]@ == other);
                } else {
                    assert(after[j + 1]@ == other);
                }
            }
            if other == text@ {
                assert(after[i as int]@ == other);
            }
            if lists(after, other) && other != text@ {
                let j = choose|j: int| 0 <= j < after.len() && (#[trigger] after[j])@ == other;
                if j < i {
                    assert(before[j]@ == other);
                } else {
                    assert(before[j - 1]@ == other);
                }
            }
        }
    }
}

/// The digit with value `d`.
pub open spec fn digit(d: nat) -> char
    recommends
        d < 10,
{
    if d == 0 {
        '0'
    } else if d == 1 {
        '1'
    } else if d == 2 {
        '2'
    } else if d == 3 {
        '3'
    } else if d == 4 {
        '4'
    } else if d == 5 {
        '5'
    } else if d == 6 {
        '6'
    } else if d == 7 {
        '7'
    } else if d == 8 {
        '8'
    } else {
        '9'
    }
}

/// The decimal notation of `n`, without leading zeros.
pub open spec fn decimal(n: nat) -> Seq<char>
    decreases n,
{
    if n < 10 {
        seq![digit(n)]
    } else {
        decimal(n / 10).push(digit(n % 10))
    }
}

fn digit_text(d: u64) -> (text: &'static str)
    requires
        d < 10,
    ensures
        text@ == seq![digit(d as nat)],
{
    proof {
        reveal_strlit("0");
        reveal_strlit("1");
        reveal_strlit("2");
        reveal_strlit("3");
        reveal_strlit("4");
        reveal_strlit("5");
        reveal_strlit("6");
        reveal_strlit("7");
        reveal_strlit("8");
        reveal_strlit("9");
    }
    let text = if d == 0 {
        "0"
    } else if d == 1 {
        "1"
    } else if d == 2 {
        "2"
    } else if d == 3 {
        "3"
    } else if d == 4 {
        "4"
    } else if d == 5 {
        "5"
    } else if d == 6 {
        "6"
    } else if d == 7 {
        "7"
    } else if d == 8 {
        "8"
    } else {
        "9"
    };
    proof {
        assert(text@ =~= seq![digit(d as nat)]);
    }
    text
}

/// The decimal notation of `n`.
pub fn decimal_text(n: u64) -> (text: String)
    ensures
        text@ == decimal(n as nat),
    decreases n,
{
    if n < 10 {
        digit_text(n).to_owned()
    } else {
        let mut text = decimal_text(n / 10);
        text.append(digit_text(n % 10));
        proof {
            assert(decimal((n / 10) as nat) + seq![digit((n % 10) as nat)] =~= decimal(
                (n / 10) as nat,
            ).push(digit((n % 10) as nat)));
        }
        text
    }
}

/// The text of `left` followed by that of `right`.
pub fn joined(left: &str, right: &str) -> (text: String)
    ensures
        text@ == left@ + right@,
{
    let mut text = left.to_owned();
    text.append(right);
    text
}

/// The first place of `c` in `text` at or after `from`, or the length of the text.
pub open spec fn place_of(text: Seq<char>, c: char, from: int) -> int
    decreases text.len() - from,
{
    if from >= text.len() {
        text.len() as int
    } else if text[from] == c {
        from
    } else {
        place_of(text, c, from + 1)
    }
}

/// What stands before the first `c` of `text`, where there is one.
pub open spec fn before_first(text: Seq<char>, c: char) -> Option<Seq<char>> {
    let place = place_of(text, c, 0);
    if place < text.len() {
        Some(text.take(place))
    } else {
        None
    }
}

/// The part of `text` before its first `c`.
pub fn cut_at(text: &str, c: char) -> (part: Option<String>)
    ensures
        optional_text(part) == before_first(text@, c),
{
    let characters = characters(text);
    let mut i: usize = 0;
    while i < characters.len()
        invariant
            i <= characters@.len(),
            characters@ == text@,
            place_of(text@, c, 0) == place_of(text@, c, i as int),
        decreases characters@.len() - i,
    {
        if characters[i] == c {
            let part = text.substring_char(0, i).to_owned();
            proof {
                assert(text@.subrange(0, i as int) =~= text@.take(i as int));
            }
            return Some(part);
        }
        i += 1;
    }
    None
}

/// The first `c` of a text is at the end of what is before it.
pub proof fn cut_of_joined(left: Seq<char>, c: char, right: Seq<char>)
    requires
        !left.contains(c),
    ensures
        before_first(left.push(c) + right, c) == Some(left),
{
    let text = left.push(c) + right;
    cut_of_joined_from(left, c, right, 0);
    assert(text.take(left.len() as int) =~= left);
}

proof fn cut_of_joined_from(left: Seq<char>, c: char, right: Seq<char>, from: int)
    requires
        !left.contains(c),
        0 <= from <= left.len(),
    ensures
        place_of(left.push(c) + right, c, from) == left.len(),
    decreases left.len() - from,
{
    if from < left.len() {
        assert((left.push(c) + right)[from] == left[from]);
        assert(left.contains(left[from]));
        cut_of_joined_from(left, c, right, from + 1);
    }
}

/// Different numbers have different decimal notations.
pub proof fn decimals_differ(left: nat, right: nat)
    requires
        decimal(left) == decimal(right),
    ensures
        left == right,
    decreases left,
{
    decimal_has_digits(left / 10);
    decimal_has_digits(right / 10);
    let text = decimal(left);
    if left < 10 && right < 10 {
        assert(text[0] == digit(left));
        assert(text[0] == digit(right));
    } else if left < 10 {
        assert(decimal(left).len() == 1);
        assert(decimal(right).len() == decimal(right / 10).len() + 1);
    } else if right < 10 {
        assert(decimal(right).len() == 1);
        assert(decimal(left).len() == decimal(left / 10).len() + 1);
    } else {
        assert(text == decimal(left / 10).push(digit(left % 10)));
        assert(text == decimal(right / 10).push(digit(right % 10)));
        assert(text.last() == digit(left % 10));
        assert(text.last() == digit(right % 10));
        assert(left % 10 == right % 10);
        assert(text.drop_last() =~= decimal(left / 10));
        assert(text.drop_last() =~= decimal(right / 10));
        decimals_differ(left / 10, right / 10);
        assert(left == 10 * (left / 10) + left % 10);
        assert(right == 10 * (right / 10) + right % 10);
    }
}

proof fn decimal_has_digits(n: nat)
    ensures
        decimal(n).len() > 0,
    decreases n,
{
    if n >= 10 {
        decimal_has_digits(n / 10);
    }
}

/// Whether `text` starts with `prefix`.
pub open spec fn has_prefix(text: Seq<char>, prefix: Seq<char>) -> bool {
    prefix.len() <= text.len() && text.take(prefix.len() as int) == prefix
}

/// Whether `text` ends with `suffix`.
pub open spec fn has_suffix(text: Seq<char>, suffix: Seq<char>) -> bool {
    suffix.len() <= text.len() && text.skip(text.len() - suffix.len()) == suffix
}

/// What stands between a prefix and a suffix, where a text has first the one and then the other.
pub open spec fn between(text: Seq<char>, prefix: Seq<char>, suffix: Seq<char>) -> Option<
    Seq<char>,
> {
    if has_prefix(text, prefix) && has_suffix(text.skip(prefix.len() as int), suffix) {
        Some(text.subrange(prefix.len() as int, text.len() - suffix.len()))
    } else {
        None
    }
}

/// Whether `text` starts with `prefix`.
pub fn starts_with(text: &str, prefix: &str) -> (result: bool)
    ensures
        result == has_prefix(text@, prefix@),
{
    let size: usize = prefix.unicode_len();
    if size > text.unicode_len() {
        return false;
    }
    proof {
        assert(text@.subrange(0, size as int) =~= text@.take(size as int));
    }
    same_text(text.substring_char(0, size), prefix)
}

/// Whether `text` ends with `suffix`.
pub fn ends_with(text: &str, suffix: &str) -> (result: bool)
    ensures
        result == has_suffix(text@, suffix@),
{
    let size: usize = suffix.unicode_len();
    let length: usize = text.unicode_len();
    if size > length {
        return false;
    }
    proof {
        assert(text@.subrange(length - size, length as int) =~= text@.skip(length - size));
    }
    same_text(text.substring_char(length - size, length), suffix)
}

/// The part of `text` between `prefix` and `suffix`.
pub fn strip(text: &str, prefix: &str, suffix: &str) -> (part: Option<String>)
    ensures
        optional_text(part) == between(text@, prefix@, suffix@),
{
    if !starts_with(text, prefix) {
        return None;
    }
    let start: usize = prefix.unicode_len();
    let length: usize = text.unicode_len();
    let rest = text.substring_char(start, length);
    proof {
        assert(rest@ =~= text@.skip(start as int));
    }
    if !ends_with(rest, suffix) {
        return None;
    }
    let size: usize = suffix.unicode_len();
    proof {
        assert(rest@.len() == length - start);
    }
    Some(text.substring_char(start, length - size).to_owned())
}

/// The value of a digit.
pub open spec fn digit_value(c: char) -> Option<nat> {
    if '0' <= c <= '9' {
        Some((c as int - '0' as int) as nat)
    } else {
        None
    }
}

/// The number that digits denote; leading zeros do not matter.
pub open spec fn digits_value(text: Seq<char>) -> Option<nat>
    decreases text.len(),
{
    if text.len() == 0 {
        Some(0)
    } else {
        match (digits_value(text.drop_last()), digit_value(text.last())) {
            (Some(earlier), Some(last)) => Some(earlier * 10 + last),
            _ => None,
        }
    }
}

/// The unsigned number that a text denotes: digits, with or without a plus sign before them.
pub open spec fn unsigned_value(text: Seq<char>) -> Option<u64> {
    let digits = if text.len() > 0 && text[0] == '+' {
        text.skip(1)
    } else {
        text
    };
    match digits_value(digits) {
        Some(value) => if digits.len() > 0 && value <= u64::MAX {
            Some(value as u64)
        } else {
            None
        },
        None => None,
    }
}

proof fn no_digits_stay_none(text: Seq<char>, n: int)
    requires
        0 <= n <= text.len(),
        digits_value(text.take(n)) is None,
    ensures
        digits_value(text) is None,
    decreases text.len() - n,
{
    if n < text.len() {
        assert(text.take(n + 1).drop_last() =~= text.take(n));
        no_digits_stay_none(text, n + 1);
    } else {
        assert(text.take(n) =~= text);
    }
}

proof fn large_digits_stay_large(text: Seq<char>, n: int)
    requires
        0 <= n <= text.len(),
        digits_value(text.take(n)) is None || digits_value(text.take(n))->0 > u64::MAX,
    ensures
        digits_value(text) is None || digits_value(text)->0 > u64::MAX,
    decreases text.len() - n,
{
    if n < text.len() {
        assert(text.take(n + 1).drop_last() =~= text.take(n));
        large_digits_stay_large(text, n + 1);
    } else {
        assert(text.take(n) =~= text);
    }
}

/// The unsigned number that a text denotes.
pub fn parse_unsigned(text: &str) -> (value: Option<u64>)
    ensures
        value == unsigned_value(text@),
{
    let characters = characters(text);
    let start: usize = if characters.len() > 0 && characters[0] == '+' {
        1
    } else {
        0
    };
    let ghost digits = characters@.skip(start as int);
    proof {
        assert(text@.skip(0) =~= text@);
        assert(digits.take(0) =~= Seq::empty());
    }
    if start == characters.len() {
        return None;
    }
    let mut value: u64 = 0;
    let mut i: usize = start;
    while i < characters.len()
        invariant
            start <= i <= characters@.len(),
            start < characters@.len(),
            characters@ == text@,
            digits == characters@.skip(start as int),
            digits == (if text@.len() > 0 && text@[0] == '+' {
                text@.skip(1)
            } else {
                text@
            }),
            digits_value(digits.take(i - start)) == Some(value as nat),
        decreases characters@.len() - i,
    {
        proof {
            let longer = digits.take(i - start + 1);
            assert(longer.drop_last() =~= digits.take(i - start));
            assert(longer.last() == characters@[i as int]);
        }
        let point: u32 = code_point(characters[i]);
        if point < 48 || point > 57 {
            proof {
                no_digits_stay_none(digits, i - start + 1);
            }
            return None;
        }
        let last: u64 = (point - 48) as u64;
        if value > (u64::MAX - last) / 10 {
            proof {
                assert(value * 10 + last > u64::MAX);
                large_digits_stay_large(digits, i - start + 1);
            }
            return None;
        }
        value = value * 10 + last;
        i += 1;
    }
    proof {
        assert(digits.take(digits.len() as int) =~= digits);
    }
    Some(value)
}

/// The place of the last `c` in `text` before `end`.
pub open spec fn last_place(text: Seq<char>, c: char, end: int) -> Option<int>
    decreases end,
{
    if end <= 0 {
        None
    } else if text[end - 1] == c {
        Some(end - 1)
    } else {
        last_place(text, c, end - 1)
    }
}

/// The extension of a file name: what stands behind its last dot, unless the name starts with it.
pub open spec fn extension_of(name: Seq<char>) -> Option<Seq<char>> {
    match last_place(name, '.', name.len() as int) {
        Some(place) => if place > 0 {
            Some(name.skip(place + 1))
        } else {
            None
        },
        None => None,
    }
}

/// The extension of a file name.
pub fn extension(name: &str) -> (result: Option<String>)
    ensures
        optional_text(result) == extension_of(name@),
{
    let characters = characters(name);
    let mut end: usize = characters.len();
    while end > 0
        invariant
            end <= characters@.len(),
            characters@ == name@,
            last_place(name@, '.', name@.len() as int) == last_place(name@, '.', end as int),
        decreases end,
    {
        if characters[end - 1] == '.' {
            if end == 1 {
                return None;
            }
            proof {
                assert(name@.subrange(end as int, name@.len() as int) =~= name@.skip(end as int));
            }
            return Some(name.substring_char(end, characters.len()).to_owned());
        }
        end -= 1;
    }
    None
}

/// The decimal notation of a number has only digits, no plus sign, and denotes the number.
pub proof fn decimal_digits_value(n: nat)
    ensures
        digits_value(decimal(n)) == Some(n),
        decimal(n).len() > 0,
        decimal(n)[0] != '+',
    decreases n,
{
    if n < 10 {
        let text = decimal(n);
        assert(text.drop_last() =~= Seq::empty());
        assert(digits_value(text.drop_last()) == Some(0nat));
        assert(text.last() == digit(n));
    } else {
        decimal_digits_value(n / 10);
        let text = decimal(n);
        assert(text.drop_last() =~= decimal(n / 10));
        assert(text.last() == digit(n % 10));
        assert(text[0] == decimal(n / 10)[0]);
        assert(n == (n / 10) * 10 + n % 10);
    }
}

} // verus!
