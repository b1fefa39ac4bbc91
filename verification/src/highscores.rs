//! The table of best results: which results enter it, and the text in which
//! it is kept. The text has two lines, the best scores and the best line
//! counts, each a list of decimal numbers separated by single spaces.

use vstd::prelude::*;

verus! {

/// How many entries each list of the table holds at most.
pub const NUM_HIGHSCORES: usize = 5;

/// The byte that separates two numbers of a line.
pub const SPACE: u8 = 32;

/// The byte that ends a line.
pub const NEWLINE: u8 = 10;

/// The sign that may stand before a number.
pub const PLUS: u8 = 43;

/// The digit zero.
pub const ZERO: u8 = 48;

/// The position of the first entry that `value` beats, or the number of
/// entries where it beats none.
pub open spec fn first_beaten(entries: Seq<u32>, value: u32) -> int
    decreases entries.len(),
{
    if entries.len() == 0 || entries[0] < value {
        0
    } else {
        1 + first_beaten(entries.skip(1), value)
    }
}

/// The result enters the list: the list is not full yet, or the result beats
/// one of its entries.
pub open spec fn enters(entries: Seq<u32>, value: u32) -> bool {
    entries.len() < NUM_HIGHSCORES || first_beaten(entries, value) < entries.len()
}

/// The list after `value` was offered to it: appended while the list is not
/// full; written over the first entry it beats once the list is full; left
/// out where it beats none.
pub open spec fn recorded(entries: Seq<u32>, value: u32) -> Seq<u32> {
    if entries.len() < NUM_HIGHSCORES {
        entries.push(value)
    } else if first_beaten(entries, value) < entries.len() {
        entries.update(first_beaten(entries, value), value)
    } else {
        entries
    }
}

/// The first beaten entry stands at `at` where `value` beats none before
/// `at` and either beats the one there or the entries end there.
pub proof fn lemma_first_beaten(entries: Seq<u32>, value: u32, at: int)
    requires
        0 <= at <= entries.len(),
        forall|k: int| 0 <= k < at ==> entries[k] >= value,
        at < entries.len() ==> entries[at] < value,
    ensures
        first_beaten(entries, value) == at,
    decreases at,
{
    if at > 0 {
        let rest = entries.skip(1);
        assert forall|k: int| 0 <= k < at - 1 implies rest[k] >= value by {
            assert(rest[k] == entries[k + 1]);
        }
        lemma_first_beaten(rest, value, at - 1);
    }
}

/// Offers `value` to a list of the table and tells whether it entered.
pub fn update_vec(v: &mut Vec<u32>, value: u32) -> (entered: bool)
    ensures
        entered == enters(old(v)@, value),
        final(v)@ == recorded(old(v)@, value),
{
    if v.len() < NUM_HIGHSCORES {
        v.push(value);
        return true;
    }
    let mut i: usize = 0;
    while i < v.len()
        invariant
            0 <= i <= v.len(),
            v.len() >= NUM_HIGHSCORES,
            v@ == old(v)@,
            forall|k: int| 0 <= k < i ==> v[k] >= value,
        decreases v.len() - i,
    {
        if value > v[i] {
            proof {
                lemma_first_beaten(v@, value, i as int);
            }
            v[i] = value;
            assert(v@ =~= old(v)@.update(i as int, value));
            return true;
        }
        i += 1;
    }
    proof {
        lemma_first_beaten(v@, value, i as int);
    }
    false
}

/// The decimal digits of `n`, most significant first, as ASCII bytes.
pub open spec fn decimal(n: nat) -> Seq<u8>
    decreases n,
{
    if n < 10 {
        seq![(ZERO + n) as u8]
    } else {
        decimal(n / 10).push((ZERO + n % 10) as u8)
    }
}

/// The numbers in decimal, with one space between neighbours.
pub open spec fn joined(values: Seq<u32>) -> Seq<u8>
    decreases values.len(),
{
    if values.len() == 0 {
        Seq::empty()
    } else if values.len() == 1 {
        decimal(values[0] as nat)
    } else {
        joined(values.drop_last()) + seq![SPACE] + decimal(values.last() as nat)
    }
}

/// The text of the table: the line of scores, then the line of line counts,
/// each ended by a newline.
pub open spec fn table_text(highscores: Seq<u32>, lines: Seq<u32>) -> Seq<u8> {
    joined(highscores) + seq![NEWLINE] + joined(lines) + seq![NEWLINE]
}

/// Appends the decimal digits of `n` to `out`.
pub fn push_decimal(out: &mut Vec<u8>, n: u32)
    ensures
        final(out)@ == old(out)@ + decimal(n as nat),
    decreases n,
{
    if n >= 10 {
        push_decimal(out, n / 10);
    }
    out.push(ZERO + (n % 10) as u8);
    assert(out@ =~= old(out)@ + decimal(n as nat));
}

/// Appends the numbers in decimal, separated by single spaces, to `out`.
pub fn push_joined(out: &mut Vec<u8>, values: &Vec<u32>)
    ensures
        final(out)@ == old(out)@ + joined(values@),
{
    let mut i: usize = 0;
    assert(values@.take(0) =~= Seq::<u32>::empty());
    assert(out@ =~= old(out)@ + Seq::<u8>::empty());
    while i < values.len()
        invariant
            0 <= i <= values.len(),
            out@ == old(out)@ + joined(values@.take(i as int)),
        decreases values.len() - i,
    {
        let ghost before = out@;
        if i > 0 {
            out.push(SPACE);
        }
        push_decimal(out, values[i]);
        proof {
            let front = values@.take(i as int);
            let next = values@.take(i + 1);
            assert(next.drop_last() =~= front);
            assert(next.last() == values[i as int]);
            if i == 0 {
                assert(joined(front) =~= Seq::<u8>::empty());
                assert(out@ =~= old(out)@ + joined(next));
            } else {
                assert(out@ =~= old(out)@ + joined(next));
            }
        }
        i += 1;
    }
    assert(values@.take(values.len() as int) =~= values@);
}

/// Writes the numbers in decimal, separated by single spaces.
pub fn slice_to_string(values: &Vec<u32>) -> (text: Vec<u8>)
    ensures
        text@ == joined(values@),
{
    let mut text: Vec<u8> = Vec::new();
    push_joined(&mut text, values);
    assert(text@ =~= joined(values@));
    text
}

/// Writes the text of the table.
pub fn format_table(highscores: &Vec<u32>, lines: &Vec<u32>) -> (text: Vec<u8>)
    ensures
        text@ == table_text(highscores@, lines@),
{
    let mut text: Vec<u8> = Vec::new();
    push_joined(&mut text, highscores);
    text.push(NEWLINE);
    push_joined(&mut text, lines);
    text.push(NEWLINE);
    assert(text@ =~= table_text(highscores@, lines@));
    text
}

/// The byte is one of the ASCII digits.
pub open spec fn is_digit(byte: u8) -> bool {
    ZERO <= byte <= ZERO + 9
}

/// Every byte is an ASCII digit.
pub open spec fn all_digits(bytes: Seq<u8>) -> bool {
    forall|k: int| 0 <= k < bytes.len() ==> is_digit(#[trigger] bytes[k])
}

/// The number that a run of digits spells in decimal.
pub open spec fn digits_value(digits: Seq<u8>) -> nat
    decreases digits.len(),
{
    if digits.len() == 0 {
        0
    } else {
        (digits_value(digits.drop_last()) * 10 + (digits.last() - ZERO)) as nat
    }
}

/// The token without the plus sign that may lead it.
pub open spec fn unsigned_part(token: Seq<u8>) -> Seq<u8> {
    if token.len() > 0 && token[0] == PLUS {
        token.skip(1)
    } else {
        token
    }
}

/// The number that a token spells: an optional plus sign, then one or more
/// digits whose value fits a `u32`. Any other token spells none.
pub open spec fn spelled(token: Seq<u8>) -> Option<u32> {
    let digits = unsigned_part(token);
    if digits.len() > 0 && all_digits(digits) && digits_value(digits) <= u32::MAX {
        Some(digits_value(digits) as u32)
    } else {
        None
    }
}

/// The position of the first byte equal to `mark`, or the number of bytes
/// where there is none.
pub open spec fn first_of(bytes: Seq<u8>, mark: u8) -> int
    decreases bytes.len(),
{
    if bytes.len() == 0 || bytes[0] == mark {
        0
    } else {
        1 + first_of(bytes.skip(1), mark)
    }
}

/// The numbers of a line: the line is cut at every space, and each piece
/// that spells a number gives that number; the other pieces are dropped.
pub open spec fn numbers_in(line: Seq<u8>) -> Seq<u32>
    decreases line.len(),
{
    let end = first_of(line, SPACE);
    let head = match spelled(line.take(end)) {
        Some(n) => seq![n],
        None => Seq::empty(),
    };
    if 0 <= end < line.len() {
        head + numbers_in(line.skip(end + 1))
    } else {
        head
    }
}

/// The table that a text holds: the numbers before the first newline are
/// the scores, those of all that follows it are the line counts. A text
/// without a newline holds no table.
pub open spec fn table_of(content: Seq<u8>) -> Option<(Seq<u32>, Seq<u32>)> {
    let end = first_of(content, NEWLINE);
    if end < content.len() {
        Some((numbers_in(content.take(end)), numbers_in(content.skip(end + 1))))
    } else {
        None
    }
}

/// The first `mark` stands at `at` where none stands before `at` and either
/// one stands there or the bytes end there.
pub proof fn lemma_first_of(bytes: Seq<u8>, mark: u8, at: int)
    requires
        0 <= at <= bytes.len(),
        forall|k: int| 0 <= k < at ==> bytes[k] != mark,
        at < bytes.len() ==> bytes[at] == mark,
    ensures
        first_of(bytes, mark) == at,
    decreases at,
{
    if at > 0 {
        let rest = bytes.skip(1);
        assert forall|k: int| 0 <= k < at - 1 implies rest[k] != mark by {
            assert(rest[k] == bytes[k + 1]);
        }
        lemma_first_of(rest, mark, at - 1);
    }
}

/// A run of digits is worth at least as much as any of its prefixes.
pub proof fn lemma_digits_value_prefix(digits: Seq<u8>, k: int)
    requires
        0 <= k <= digits.len(),
        all_digits(digits),
    ensures
        digits_value(digits.take(k)) <= digits_value(digits),
    decreases digits.len() - k,
{
    if k < digits.len() {
        let longer = digits.take(k + 1);
        assert(longer.drop_last() =~= digits.take(k));
        assert(is_digit(digits[k]));
        assert(longer.last() == digits[k]);
        lemma_digits_value_prefix(digits, k + 1);
    } else {
        assert(digits.take(k) =~= digits);
    }
}

/// Finds the first byte equal to `mark` between `from` and `to`.
pub fn find(bytes: &Vec<u8>, from: usize, to: usize, mark: u8) -> (at: usize)
    requires
        from <= to <= bytes.len(),
    ensures
        from <= at <= to,
        at - from == first_of(bytes@.subrange(from as int, to as int), mark),
{
    let mut at: usize = from;
    while at < to && bytes[at] != mark
        invariant
            from <= at <= to <= bytes.len(),
            forall|k: int| from <= k < at ==> bytes[k] != mark,
        decreases to - at,
    {
        at += 1;
    }
    proof {
        lemma_first_of(bytes@.subrange(from as int, to as int), mark, at - from);
    }
    at
}

/// Reads the bytes from `from` up to `to` as one number.
pub fn parse_number(bytes: &Vec<u8>, from: usize, to: usize) -> (number: Option<u32>)
    requires
        from <= to <= bytes.len(),
    ensures
        number == spelled(bytes@.subrange(from as int, to as int)),
{
    let ghost token = bytes@.subrange(from as int, to as int);
    let start: usize = if from < to && bytes[from] == PLUS {
        from + 1
    } else {
        from
    };
    let ghost digits = bytes@.subrange(start as int, to as int);
    assert(digits =~= unsigned_part(token));
    if start == to {
        return None;
    }
    let mut value: u64 = 0;
    let mut i: usize = start;
    assert(digits.take(0) =~= Seq::<u8>::empty());
    while i < to
        invariant
            from <= start <= i <= to <= bytes.len(),
            start < to,
            token == bytes@.subrange(from as int, to as int),
            digits == bytes@.subrange(start as int, to as int),
            digits == unsigned_part(token),
            all_digits(digits.take(i - start)),
            value == digits_value(digits.take(i - start)),
            value <= u32::MAX,
        decreases to - i,
    {
        let byte = bytes[i];
        if byte < ZERO || byte > ZERO + 9 {
            assert(!is_digit(digits[i - start]));
            return None;
        }
        proof {
            let longer = digits.take(i - start + 1);
            assert(longer.drop_last() =~= digits.take(i - start));
            assert(longer.last() == byte);
            assert forall|k: int| 0 <= k < longer.len() implies is_digit(#[trigger] longer[k]) by {
                if k < i - start {
                    assert(longer[k] == digits.take(i - start)[k]);
                }
            }
        }
        value = value * 10 + (byte - ZERO) as u64;
        if value > u32::MAX as u64 {
            proof {
                if all_digits(digits) {
                    lemma_digits_value_prefix(digits, i - start + 1);
                }
            }
            return None;
        }
        i += 1;
    }
    assert(digits.take(to - start) =~= digits);
    Some(value as u32)
}

/// Reads the numbers of the line that the bytes from `from` up to `to` hold.
pub fn parse_numbers(bytes: &Vec<u8>, from: usize, to: usize) -> (numbers: Vec<u32>)
    requires
        from <= to <= bytes.len(),
    ensures
        numbers@ == numbers_in(bytes@.subrange(from as int, to as int)),
{
    let ghost line = bytes@.subrange(from as int, to as int);
    let mut numbers: Vec<u32> = Vec::new();
    let mut at: usize = from;
    let mut more = true;
    assert(numbers@ + numbers_in(line) =~= numbers_in(line));
    while more
        invariant
            from <= at <= to <= bytes.len(),
            line == bytes@.subrange(from as int, to as int),
            more ==> numbers@ + numbers_in(bytes@.subrange(at as int, to as int)) == numbers_in(
                line,
            ),
            !more ==> numbers@ == numbers_in(line),
        decreases to - at + if more { 1int } else { 0int },
    {
        let ghost rest = bytes@.subrange(at as int, to as int);
        let ghost before = numbers@;
        let end = find(bytes, at, to, SPACE);
        assert(rest.take(end - at) =~= bytes@.subrange(at as int, end as int));
        match parse_number(bytes, at, end) {
            Some(n) => {
                numbers.push(n);
                assert(numbers@ =~= before + seq![n]);
            },
            None => {
                assert(numbers@ =~= before + Seq::<u32>::empty());
            },
        }
        if end < to {
            assert(rest.skip(end - at + 1) =~= bytes@.subrange(end + 1, to as int));
            assert(numbers@ + numbers_in(bytes@.subrange(end + 1, to as int)) =~= before
                + numbers_in(rest));
            at = end + 1;
        } else {
            assert(numbers@ =~= before + numbers_in(rest));
            more = false;
        }
    }
    numbers
}

/// Reads the numbers of a line.
pub fn line_to_slice(line: &Vec<u8>) -> (numbers: Vec<u32>)
    ensures
        numbers@ == numbers_in(line@),
{
    assert(line@.subrange(0, line.len() as int) =~= line@);
    parse_numbers(line, 0, line.len())
}

/// Reads the table that a text holds, if it holds one.
pub fn parse_table(content: &Vec<u8>) -> (table: Option<(Vec<u32>, Vec<u32>)>)
    ensures
        table is Some <==> table_of(content@) is Some,
        table matches Some((highscores, lines)) ==> table_of(content@) == Some(
            (highscores@, lines@),
        ),
{
    assert(content@.subrange(0, content.len() as int) =~= content@);
    let end = find(content, 0, content.len(), NEWLINE);
    if end < content.len() {
        assert(content@.take(end as int) =~= content@.subrange(0, end as int));
        assert(content@.skip(end + 1) =~= content@.subrange(end + 1, content.len() as int));
        let highscores = parse_numbers(content, 0, end);
        let lines = parse_numbers(content, end + 1, content.len());
        Some((highscores, lines))
    } else {
        None
    }
}

/// What the end of a game means for the table.
pub struct Verdict {
    /// The score entered the list of best scores.
    pub new_highscore: bool,
    /// The line count entered the list of best line counts.
    pub new_lines: bool,
    /// The text to keep from now on, where the table changed.
    pub text: Option<Vec<u8>>,
}

/// What the end of a game with `score` points and `num_lines` lines means
/// for the table kept in `content`. Where no text is at hand, or the text
/// holds no table, a table of this one result is started and both values
/// count as new bests. Otherwise each value is offered to its list, and the
/// table is written anew if either entered.
pub open spec fn verdict_on(content: Option<Seq<u8>>, score: u32, num_lines: u32) -> (
    bool,
    bool,
    Option<Seq<u8>>,
) {
    let table = match content {
        Some(text) => table_of(text),
        None => None,
    };
    match table {
        Some((highscores, lines)) => (
            enters(highscores, score),
            enters(lines, num_lines),
            if enters(highscores, score) || enters(lines, num_lines) {
                Some(table_text(recorded(highscores, score), recorded(lines, num_lines)))
            } else {
                None
            },
        ),
        None => (true, true, Some(table_text(seq![score], seq![num_lines]))),
    }
}

/// The mathematical view of a stored text, where there is one.
pub open spec fn text_view(content: Option<Vec<u8>>) -> Option<Seq<u8>> {
    match content {
        Some(text) => Some(text@),
        None => None,
    }
}

/// Decides what the end of a game means for the table kept in `content`.
pub fn record_result(content: Option<Vec<u8>>, score: u32, num_lines: u32) -> (verdict: Verdict)
    ensures
        (verdict.new_highscore, verdict.new_lines, text_view(verdict.text)) == verdict_on(
            text_view(content),
            score,
            num_lines,
        ),
{
    let table = match &content {
        Some(text) => parse_table(text),
        None => None,
    };
    match table {
        Some((mut highscores, mut lines)) => {
            let new_highscore = update_vec(&mut highscores, score);
            let new_lines = update_vec(&mut lines, num_lines);
            let text = if new_highscore || new_lines {
                Some(format_table(&highscores, &lines))
            } else {
                None
            };
            Verdict { new_highscore, new_lines, text }
        },
        None => {
            let mut highscores: Vec<u32> = Vec::new();
            highscores.push(score);
            let mut lines: Vec<u32> = Vec::new();
            lines.push(num_lines);
            assert(highscores@ =~= seq![score]);
            assert(lines@ =~= seq![num_lines]);
            Verdict { new_highscore: true, new_lines: true, text: Some(format_table(&highscores, &lines)) }
        },
    }
}

} // verus!
