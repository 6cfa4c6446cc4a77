//! Working with the characters of a string: splitting at a separator,
//! trimming white space, searching, and reading decimal integers.
use vstd::prelude::*;
use crate::lookup::{lemma_position_found, lemma_position_missing, position};
use crate::text::push_char;

verus! {

/// The characters of `s`, one by one.
pub fn to_chars(s: &str) -> (chars: Vec<char>)
    ensures
        chars@ == s@,
{
    let mut chars: Vec<char> = Vec::new();
    for c in it: s.chars()
        invariant
            chars@ == it.seq().take(it.index() as int),
    {
        chars.push(c);
    }
    chars
}

/// The string that holds the characters `chars[from..to]`.
pub fn string_of(chars: &Vec<char>, from: usize, to: usize) -> (s: String)
    requires
        from <= to <= chars.len(),
    ensures
        s@ == chars@.subrange(from as int, to as int),
{
    let mut s = String::new();
    let mut i: usize = from;
    while i < to
        invariant
            from <= i <= to <= chars.len(),
            s@ == chars@.subrange(from as int, i as int),
        decreases to - i,
    {
        push_char(&mut s, chars[i]);
        assert(s@ =~= chars@.subrange(from as int, i as int + 1));
        i = i + 1;
    }
    s
}

/// The pieces of `s` between occurrences of `separator`.  A text without
/// the separator is one piece; two separators in a row have an empty piece
/// between them.
pub open spec fn split_on(s: Seq<char>, separator: char) -> Seq<Seq<char>>
    decreases s.len(),
{
    if s.len() == 0 {
        seq![Seq::<char>::empty()]
    } else {
        let before = split_on(s.drop_last(), separator);
        if s.last() == separator {
            before.push(Seq::<char>::empty())
        } else {
            before.update(before.len() - 1, before.last().push(s.last()))
        }
    }
}

/// The pieces joined again, with the separator between them.
pub open spec fn join_with(pieces: Seq<Seq<char>>, separator: char) -> Seq<char>
    decreases pieces.len(),
{
    if pieces.len() == 0 {
        Seq::<char>::empty()
    } else if pieces.len() == 1 {
        pieces[0]
    } else {
        join_with(pieces.drop_last(), separator).push(separator) + pieces.last()
    }
}

/// Splitting loses nothing: there is at least one piece, no piece holds the
/// separator, and the pieces joined with the separator give the text back.
pub proof fn lemma_split_on(s: Seq<char>, separator: char)
    ensures
        split_on(s, separator).len() >= 1,
        forall|i: int, j: int|
            0 <= i < split_on(s, separator).len() && 0 <= j < split_on(s, separator)[i].len()
                ==> split_on(s, separator)[i][j] != separator,
        join_with(split_on(s, separator), separator) == s,
    decreases s.len(),
{
    if s.len() == 0 {
        assert(join_with(split_on(s, separator), separator) =~= s);
    } else {
        let front = s.drop_last();
        lemma_split_on(front, separator);
        let before = split_on(front, separator);
        let pieces = split_on(s, separator);
        if s.last() == separator {
            assert(pieces.drop_last() =~= before);
            assert(join_with(pieces, separator) =~= join_with(before, separator).push(separator)
                + Seq::<char>::empty());
            assert(join_with(pieces, separator) =~= s);
        } else {
            let grown = before.last().push(s.last());
            assert(pieces[pieces.len() - 1] == grown);
            assert forall|i: int, j: int|
                0 <= i < pieces.len() && 0 <= j < pieces[i].len() implies pieces[i][j] != separator by {
                if i < pieces.len() - 1 {
                    assert(pieces[i] == before[i]);
                } else if j < before.last().len() {
                    assert(grown[j] == before.last()[j]);
                }
            }
            if before.len() == 1 {
                assert(join_with(before, separator) == before[0]);
                assert(join_with(pieces, separator) == grown);
                assert(grown =~= s);
            } else {
                assert(pieces.drop_last() =~= before.drop_last());
                assert(join_with(before, separator) == join_with(before.drop_last(), separator).push(
                    separator,
                ) + before.last());
                assert(join_with(pieces, separator) == join_with(before.drop_last(), separator).push(
                    separator,
                ) + grown);
                assert(join_with(pieces, separator) =~= front.push(s.last()));
                assert(front.push(s.last()) =~= s);
            }
        }
    }
}

/// The characters of an optional string.
pub open spec fn optional_text(s: Option<String>) -> Option<Seq<char>> {
    match s {
        Some(s) => Some(s@),
        None => None,
    }
}

/// The characters of each string of a list.
pub open spec fn texts(strings: Seq<String>) -> Seq<Seq<char>> {
    strings.map_values(|s: String| s@)
}

/// The pieces of `s` between occurrences of `separator`.
pub fn split(s: &str, separator: char) -> (pieces: Vec<String>)
    ensures
        texts(pieces@) == split_on(s@, separator),
{
    let chars = to_chars(s);
    let mut pieces: Vec<String> = Vec::new();
    let mut current = String::new();
    let mut i: usize = 0;
    assert(chars@.take(0) =~= Seq::<char>::empty());
    assert(texts(pieces@).push(current@) =~= split_on(chars@.take(0), separator));
    while i < chars.len()
        invariant
            i <= chars.len(),
            texts(pieces@).push(current@) == split_on(chars@.take(i as int), separator),
        decreases chars.len() - i,
    {
        let c = chars[i];
        let ghost before = split_on(chars@.take(i as int), separator);
        let ghost old_pieces = texts(pieces@);
        let ghost old_current = current@;
        proof {
            assert(chars@.take(i as int + 1).drop_last() =~= chars@.take(i as int));
            assert(chars@.take(i as int + 1).last() == c);
        }
        if c == separator {
            pieces.push(current);
            current = String::new();
            assert(texts(pieces@) =~= old_pieces.push(old_current));
        } else {
            push_char(&mut current, c);
            assert(texts(pieces@).push(current@) =~= before.update(
                before.len() - 1,
                before.last().push(c),
            ));
        }
        i = i + 1;
    }
    assert(chars@.take(chars.len() as int) =~= chars@);
    let ghost done = texts(pieces@).push(current@);
    pieces.push(current);
    assert(texts(pieces@) =~= done);
    pieces
}

/// Whether `c` occurs in `s`.
pub fn contains_char(s: &str, c: char) -> (found: bool)
    ensures
        found == s@.contains(c),
{
    let chars = to_chars(s);
    let mut i: usize = 0;
    while i < chars.len()
        invariant
            i <= chars.len(),
            chars@ == s@,
            forall|j: int| 0 <= j < i ==> chars@[j] != c,
        decreases chars.len() - i,
    {
        if chars[i] == c {
            assert(s@[i as int] == c);
            return true;
        }
        i = i + 1;
    }
    false
}

/// The position of the first `c` in `s`, if there is one.
pub fn find_char(s: &str, c: char) -> (found: Option<usize>)
    ensures
        match found {
            Some(at) => position(s@, c) == Some(at as int) && at < s@.len(),
            None => position(s@, c) is None,
        },
{
    let chars = to_chars(s);
    let mut i: usize = 0;
    while i < chars.len()
        invariant
            i <= chars.len(),
            chars@ == s@,
            forall|j: int| 0 <= j < i ==> chars@[j] != c,
        decreases chars.len() - i,
    {
        if chars[i] == c {
            proof {
                lemma_position_found(s@, c, i as int);
            }
            return Some(i);
        }
        i = i + 1;
    }
    proof {
        lemma_position_missing(s@, c);
    }
    None
}

/// The lines of `s`.  A line ends at a line feed; a carriage return just
/// before that line feed belongs to the line ending too.  The last line
/// needs no line ending, and a text that ends with one has no empty line
/// after it.
pub open spec fn lines_of(s: Seq<char>) -> Seq<Seq<char>> {
    let pieces = split_on(s, '\n');
    let ended = pieces.drop_last().map_values(|piece: Seq<char>| without_return(piece));
    if pieces.last().len() == 0 {
        ended
    } else {
        ended.push(pieces.last())
    }
}

/// `piece` without the carriage return at its end, if it has one.
pub open spec fn without_return(piece: Seq<char>) -> Seq<char> {
    if piece.len() > 0 && piece.last() == '\r' {
        piece.drop_last()
    } else {
        piece
    }
}

/// The lines of `s`.
pub fn lines(s: &str) -> (found: Vec<String>)
    ensures
        texts(found@) == lines_of(s@),
{
    let pieces = split(s, '\n');
    proof {
        lemma_split_on(s@, '\n');
    }
    assert(texts(pieces@).len() == pieces@.len());
    let ghost ended = texts(pieces@).drop_last().map_values(|piece: Seq<char>| without_return(piece));
    let mut found: Vec<String> = Vec::new();
    let last: usize = pieces.len() - 1;
    let mut i: usize = 0;
    while i < last
        invariant
            i <= last,
            last == pieces.len() - 1,
            texts(pieces@) == split_on(s@, '\n'),
            ended == texts(pieces@).drop_last().map_values(|piece: Seq<char>| without_return(piece)),
            texts(found@) == ended.take(i as int),
        decreases last - i,
    {
        let chars = to_chars(pieces[i].as_str());
        let ghost before = texts(found@);
        assert(texts(pieces@)[i as int] == pieces@[i as int]@);
        let n = chars.len();
        let line = if n > 0 && chars[n - 1] == '\r' {
            string_of(&chars, 0, n - 1)
        } else {
            string_of(&chars, 0, n)
        };
        assert(line@ =~= without_return(chars@));
        found.push(line);
        assert(texts(found@) =~= before.push(ended[i as int]));
        assert(ended.take(i as int + 1) =~= ended.take(i as int).push(ended[i as int]));
        i = i + 1;
    }
    assert(ended.take(last as int) =~= ended);
    assert(texts(pieces@)[last as int] == pieces@[last as int]@);
    let tail = to_chars(pieces[last].as_str());
    if tail.len() > 0 {
        let ghost before = texts(found@);
        let line = string_of(&tail, 0, tail.len());
        assert(line@ =~= tail@);
        found.push(line);
        assert(texts(found@) =~= before.push(tail@));
    }
    found
}

/// Whether `needle` stands in `hay` at position `at`.
pub open spec fn occurs_at(hay: Seq<char>, needle: Seq<char>, at: int) -> bool {
    0 <= at && at + needle.len() <= hay.len() && hay.subrange(at, at + needle.len()) == needle
}

/// Whether `needle` stands somewhere in `hay`.  The empty text stands in
/// every text.
pub open spec fn contains_text(hay: Seq<char>, needle: Seq<char>) -> bool {
    exists|at: int| occurs_at(hay, needle, at)
}

/// Whether `needle` stands in `hay` at position `at`.
fn matches_at(hay: &Vec<char>, needle: &Vec<char>, at: usize) -> (found: bool)
    requires
        at + needle.len() <= hay.len(),
    ensures
        found == occurs_at(hay@, needle@, at as int),
{
    let mut k: usize = 0;
    while k < needle.len()
        invariant
            k <= needle.len(),
            at + needle.len() <= hay.len(),
            forall|j: int| 0 <= j < k ==> hay@[at + j] == needle@[j],
        decreases needle.len() - k,
    {
        if hay[at + k] != needle[k] {
            assert(hay@.subrange(at as int, at + needle.len())[k as int] != needle@[k as int]);
            return false;
        }
        k = k + 1;
    }
    assert(hay@.subrange(at as int, at + needle.len()) =~= needle@);
    true
}

/// Whether `needle` stands somewhere in `hay`.
pub fn contains(hay: &str, needle: &str) -> (found: bool)
    ensures
        found == contains_text(hay@, needle@),
{
    let hay_chars = to_chars(hay);
    let needle_chars = to_chars(needle);
    if needle_chars.len() > hay_chars.len() {
        assert(!contains_text(hay@, needle@));
        return false;
    }
    let last: usize = hay_chars.len() - needle_chars.len();
    let mut at: usize = 0;
    loop
        invariant
            at <= last,
            last == hay_chars.len() - needle_chars.len(),
            hay_chars@ == hay@,
            needle_chars@ == needle@,
            forall|j: int| 0 <= j < at ==> !occurs_at(hay@, needle@, j),
        decreases last - at,
    {
        if matches_at(&hay_chars, &needle_chars, at) {
            return true;
        }
        if at == last {
            assert(!contains_text(hay@, needle@));
            return false;
        }
        at = at + 1;
    }
}

/// White space: the characters with the Unicode property `White_Space`.
pub open spec fn is_space(c: char) -> bool {
    let code = c as u32;
    ||| 0x09 <= code <= 0x0d
    ||| code == 0x20
    ||| code == 0x85
    ||| code == 0xa0
    ||| code == 0x1680
    ||| 0x2000 <= code <= 0x200a
    ||| code == 0x2028
    ||| code == 0x2029
    ||| code == 0x202f
    ||| code == 0x205f
    ||| code == 0x3000
}

/// `s` without the white space at its start.
pub open spec fn trim_start(s: Seq<char>) -> Seq<char>
    decreases s.len(),
{
    if s.len() > 0 && is_space(s[0]) {
        trim_start(s.skip(1))
    } else {
        s
    }
}

/// `s` without the white space at its end.
pub open spec fn trim_end(s: Seq<char>) -> Seq<char>
    decreases s.len(),
{
    if s.len() > 0 && is_space(s.last()) {
        trim_end(s.drop_last())
    } else {
        s
    }
}

/// `s` without the white space at its start and at its end.
pub open spec fn trimmed(s: Seq<char>) -> Seq<char> {
    trim_end(trim_start(s))
}

/// Whether `c` is white space.
pub fn is_space_char(c: char) -> (space: bool)
    ensures
        space == is_space(c),
{
    let code: u32 = c as u32;
    (0x09 <= code && code <= 0x0d) || code == 0x20 || code == 0x85 || code == 0xa0 || code == 0x1680
        || (0x2000 <= code && code <= 0x200a) || code == 0x2028 || code == 0x2029 || code == 0x202f
        || code == 0x205f || code == 0x3000
}

/// `s` without the white space at its start and at its end.
pub fn trim(s: &str) -> (t: String)
    ensures
        t@ == trimmed(s@),
{
    let chars = to_chars(s);
    let mut from: usize = 0;
    assert(chars@.skip(0) =~= chars@);
    while from < chars.len() && is_space_char(chars[from])
        invariant
            from <= chars.len(),
            trim_start(chars@) == trim_start(chars@.skip(from as int)),
        decreases chars.len() - from,
    {
        assert(chars@.skip(from as int).skip(1) =~= chars@.skip(from as int + 1));
        from = from + 1;
    }
    assert(trim_start(chars@) == chars@.skip(from as int));
    let mut to: usize = chars.len();
    assert(chars@.subrange(from as int, to as int) =~= chars@.skip(from as int));
    while to > from && is_space_char(chars[to - 1])
        invariant
            from <= to <= chars.len(),
            trimmed(chars@) == trim_end(chars@.subrange(from as int, to as int)),
        decreases to,
    {
        assert(chars@.subrange(from as int, to as int).drop_last() =~= chars@.subrange(
            from as int,
            to as int - 1,
        ));
        to = to - 1;
    }
    string_of(&chars, from, to)
}

/// Whether `c` is one of the ten decimal digits.
pub open spec fn is_digit(c: char) -> bool {
    '0' <= c <= '9'
}

/// The number that a run of decimal digits writes.
pub open spec fn digits_value(digits: Seq<char>) -> nat
    decreases digits.len(),
{
    if digits.len() == 0 {
        0
    } else {
        digits_value(digits.drop_last()) * 10 + ((digits.last() as u32 - 48) as nat)
    }
}

/// Whether `s` is a run of at least one decimal digit.
pub open spec fn all_digits(s: Seq<char>) -> bool {
    s.len() > 0 && forall|i: int| 0 <= i < s.len() ==> is_digit(#[trigger] s[i])
}

/// Why a text is not an integer of the wanted kind.
#[derive(Debug, Clone, Copy, PartialEq, Eq, Structural)]
pub enum IntegerError {
    /// The text is empty.
    Empty,
    /// The text holds something other than digits after its sign, or
    /// nothing at all.
    InvalidDigit,
    /// The number is above the range.
    PosOverflow,
    /// The number is below the range.
    NegOverflow,
}

/// Reading `digits` from the left stops at position `at`: the character
/// there is no digit, or the digits up to and including it write a number
/// above `limit`.
pub open spec fn stops_at(digits: Seq<char>, limit: int, at: int) -> bool {
    0 <= at < digits.len() && (!is_digit(digits[at]) || digits_value(digits.take(at + 1)) > limit)
}

/// Reading `digits` from the left stops first at position `at`.
pub open spec fn first_stop_at(digits: Seq<char>, limit: int, at: int) -> bool {
    stops_at(digits, limit, at) && forall|j: int| 0 <= j < at ==> !stops_at(digits, limit, j)
}

/// The number of at most `limit` that a run of digits writes, negated where
/// `negative` says so.  The run is read from the left, and the first
/// character that is no digit or that takes the number above the limit
/// decides the error.
pub open spec fn digits_outcome(digits: Seq<char>, limit: int, negative: bool) -> Result<
    int,
    IntegerError,
> {
    if digits.len() == 0 {
        Err(IntegerError::InvalidDigit)
    } else if exists|at: int| first_stop_at(digits, limit, at) {
        let at = choose|at: int| first_stop_at(digits, limit, at);
        if !is_digit(digits[at]) {
            Err(IntegerError::InvalidDigit)
        } else if negative {
            Err(IntegerError::NegOverflow)
        } else {
            Err(IntegerError::PosOverflow)
        }
    } else if negative {
        Ok(-(digits_value(digits) as int))
    } else {
        Ok(digits_value(digits) as int)
    }
}

/// The integer between `low` and `high` that `s` writes in decimal: an
/// optional sign and then at least one digit, nothing else.  The sign is a
/// plus or, where `minus` allows it, a minus.
pub open spec fn integer_outcome(s: Seq<char>, low: int, high: int, minus: bool) -> Result<
    int,
    IntegerError,
> {
    if s.len() == 0 {
        Err(IntegerError::Empty)
    } else if minus && s[0] == '-' {
        digits_outcome(s.skip(1), -low, true)
    } else if s[0] == '+' {
        digits_outcome(s.skip(1), high, false)
    } else {
        digits_outcome(s, high, false)
    }
}

/// A run of characters that is read as a number is a run of digits, and the
/// number is the one that the digits write, within the limit.
pub proof fn lemma_digits_outcome_ok(digits: Seq<char>, limit: int, negative: bool)
    requires
        limit >= 0,
        digits_outcome(digits, limit, negative) is Ok,
    ensures
        all_digits(digits),
        digits_value(digits) <= limit,
        digits_outcome(digits, limit, negative) == Ok::<int, IntegerError>(
            if negative {
                -(digits_value(digits) as int)
            } else {
                digits_value(digits) as int
            },
        ),
{
    assert forall|at: int| 0 <= at < digits.len() implies !stops_at(digits, limit, at) by {
        if stops_at(digits, limit, at) {
            lemma_some_stop_is_first(digits, limit, at);
        }
    }
    assert forall|i: int| 0 <= i < digits.len() implies is_digit(#[trigger] digits[i]) by {
        assert(!stops_at(digits, limit, i));
    }
    assert(!stops_at(digits, limit, digits.len() - 1));
    assert(digits.take(digits.len() as int) =~= digits);
}

/// Where reading stops somewhere, it stops somewhere first.
proof fn lemma_some_stop_is_first(digits: Seq<char>, limit: int, at: int)
    requires
        stops_at(digits, limit, at),
    ensures
        exists|k: int| first_stop_at(digits, limit, k),
    decreases at,
{
    if exists|j: int| 0 <= j < at && stops_at(digits, limit, j) {
        let j = choose|j: int| 0 <= j < at && stops_at(digits, limit, j);
        lemma_some_stop_is_first(digits, limit, j);
    } else {
        assert(first_stop_at(digits, limit, at));
    }
}

/// Reads the decimal integer between `low` and `high` that `s` writes.
fn parse_within(s: &str, low: i128, high: i128, minus: bool) -> (outcome: Result<i128, IntegerError>)
    requires
        -0x8000_0000_0000_0000_0000 <= low <= 0,
        0 <= high <= 0x8000_0000_0000_0000_0000,
    ensures
        match integer_outcome(s@, low as int, high as int, minus) {
            Ok(value) => outcome matches Ok(v) && v == value,
            Err(error) => outcome == Err::<i128, IntegerError>(error),
        },
        outcome matches Ok(v) ==> low <= v <= high,
{
    let chars = to_chars(s);
    let n = chars.len();
    if n == 0 {
        return Err(IntegerError::Empty);
    }
    let negative = minus && chars[0] == '-';
    let start: usize = if negative || chars[0] == '+' { 1 } else { 0 };
    let ghost digits = s@.skip(start as int);
    assert(s@.skip(0) =~= s@);
    if start == n {
        return Err(IntegerError::InvalidDigit);
    }
    let limit: i128 = if negative { -low } else { high };
    let mut total: i128 = 0;
    let mut i: usize = start;
    assert(digits.take(0) =~= Seq::<char>::empty());
    while i < n
        invariant
            start <= i <= n,
            start <= 1,
            n == chars.len(),
            chars@ == s@,
            digits == s@.skip(start as int),
            digits.len() == n - start,
            0 <= total <= limit,
            0 <= limit <= 0x8000_0000_0000_0000_0000,
            total == digits_value(digits.take(i - start)),
            forall|j: int| 0 <= j < i - start ==> !stops_at(digits, limit as int, j),
            integer_outcome(s@, low as int, high as int, minus) == digits_outcome(
                digits,
                limit as int,
                negative,
            ),
        decreases n - i,
    {
        let c = chars[i];
        let ghost at = i - start;
        proof {
            assert(digits[at] == c);
            assert(digits.take(at + 1).drop_last() =~= digits.take(at));
            assert(digits.take(at + 1).last() == c);
        }
        if !('0' <= c && c <= '9') {
            assert(first_stop_at(digits, limit as int, at));
            proof {
                lemma_first_stop_is_unique(digits, limit as int, at);
            }
            return Err(IntegerError::InvalidDigit);
        }
        let d: i128 = (c as u32 - 48) as i128;
        assert(digits_value(digits.take(at + 1)) == total * 10 + d);
        if d > limit || total > (limit - d) / 10 {
            assert(total * 10 + d > limit);
            assert(first_stop_at(digits, limit as int, at));
            proof {
                lemma_first_stop_is_unique(digits, limit as int, at);
            }
            if negative {
                return Err(IntegerError::NegOverflow);
            } else {
                return Err(IntegerError::PosOverflow);
            }
        }
        total = total * 10 + d;
        i = i + 1;
    }
    assert(digits.take(n - start) =~= digits);
    assert forall|at: int| !first_stop_at(digits, limit as int, at) by {
        if 0 <= at < digits.len() {
            assert(!stops_at(digits, limit as int, at));
        }
    }
    if negative {
        Ok(-total)
    } else {
        Ok(total)
    }
}

/// Reading stops first at one position only.
proof fn lemma_first_stop_is_unique(digits: Seq<char>, limit: int, at: int)
    requires
        first_stop_at(digits, limit, at),
    ensures
        (choose|k: int| first_stop_at(digits, limit, k)) == at,
{
    let k = choose|k: int| first_stop_at(digits, limit, k);
    assert(first_stop_at(digits, limit, k));
    if k < at {
        assert(!stops_at(digits, limit, k));
    } else if at < k {
        assert(!stops_at(digits, limit, at));
    }
}

/// What `s` is as an `i64`.
pub open spec fn as_i64(s: Seq<char>) -> Result<int, IntegerError> {
    integer_outcome(s, i64::MIN as int, i64::MAX as int, true)
}

/// What `s` is as an `i32`.
pub open spec fn as_i32(s: Seq<char>) -> Result<int, IntegerError> {
    integer_outcome(s, i32::MIN as int, i32::MAX as int, true)
}

/// What `s` is as a `u64`.  An unsigned integer takes no minus sign.
pub open spec fn as_u64(s: Seq<char>) -> Result<int, IntegerError> {
    integer_outcome(s, 0, u64::MAX as int, false)
}

/// What `s` is as a `u32`.  An unsigned integer takes no minus sign.
pub open spec fn as_u32(s: Seq<char>) -> Result<int, IntegerError> {
    integer_outcome(s, 0, u32::MAX as int, false)
}

/// Reads `s` as an `i64`.
pub fn parse_i64(s: &str) -> (outcome: Result<i64, IntegerError>)
    ensures
        match as_i64(s@) {
            Ok(value) => outcome matches Ok(v) && v == value,
            Err(error) => outcome == Err::<i64, IntegerError>(error),
        },
{
    match parse_within(s, i64::MIN as i128, i64::MAX as i128, true) {
        Ok(v) => Ok(v as i64),
        Err(error) => Err(error),
    }
}

/// Reads `s` as an `i32`.
pub fn parse_i32(s: &str) -> (outcome: Result<i32, IntegerError>)
    ensures
        match as_i32(s@) {
            Ok(value) => outcome matches Ok(v) && v == value,
            Err(error) => outcome == Err::<i32, IntegerError>(error),
        },
{
    match parse_within(s, i32::MIN as i128, i32::MAX as i128, true) {
        Ok(v) => Ok(v as i32),
        Err(error) => Err(error),
    }
}

/// Reads `s` as a `u64`.
pub fn parse_u64(s: &str) -> (outcome: Result<u64, IntegerError>)
    ensures
        match as_u64(s@) {
            Ok(value) => outcome matches Ok(v) && v == value,
            Err(error) => outcome == Err::<u64, IntegerError>(error),
        },
{
    match parse_within(s, 0, u64::MAX as i128, false) {
        Ok(v) => Ok(v as u64),
        Err(error) => Err(error),
    }
}

/// Reads `s` as a `u32`.
pub fn parse_u32(s: &str) -> (outcome: Result<u32, IntegerError>)
    ensures
        match as_u32(s@) {
            Ok(value) => outcome matches Ok(v) && v == value,
            Err(error) => outcome == Err::<u32, IntegerError>(error),
        },
{
    match parse_within(s, 0, u32::MAX as i128, false) {
        Ok(v) => Ok(v as u32),
        Err(error) => Err(error),
    }
}

/// The words with which an integer that could not be read is reported.
pub open spec fn integer_error_text(error: IntegerError) -> Seq<char> {
    match error {
        IntegerError::Empty => "cannot parse integer from empty string"@,
        IntegerError::InvalidDigit => "invalid digit found in string"@,
        IntegerError::PosOverflow => "number too large to fit in target type"@,
        IntegerError::NegOverflow => "number too small to fit in target type"@,
    }
}

impl IntegerError {
    /// The words for this error.
    pub fn message(&self) -> (words: &'static str)
        ensures
            words@ == integer_error_text(*self),
    {
        match self {
            IntegerError::Empty => "cannot parse integer from empty string",
            IntegerError::InvalidDigit => "invalid digit found in string",
            IntegerError::PosOverflow => "number too large to fit in target type",
            IntegerError::NegOverflow => "number too small to fit in target type",
        }
    }
}

} // verus!
