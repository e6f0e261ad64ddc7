use vstd::prelude::*;

verus! {

/// `String::push` puts one character at the end of a text.
pub assume_specification[ String::push ](text: &mut String, ch: char)
    ensures
        final(text)@ == old(text)@.push(ch),
;

/// A text with every letter turned into its lower case.
pub uninterp spec fn lowercase_of(text: Seq<char>) -> Seq<char>;

/// Calls `str::to_lowercase`. Nothing is claimed of the outcome but that it
/// is a function of the text.
#[verifier::external_body]
pub(crate) fn lowercase(text: &str) -> (lower: String)
    ensures
        lower@ == lowercase_of(text@),
{
    text.to_lowercase()
}

/// The texts that a list of character lists holds.
pub open spec fn texts(list: Seq<Vec<char>>) -> Seq<Seq<char>> {
    Seq::new(list.len(), |i: int| list[i]@)
}

/// The parts into which a separator cuts a text. There is one part more than
/// there are separators; a part may be empty.
pub open spec fn pieces(text: Seq<char>, separator: char) -> Seq<Seq<char>>
    decreases text.len(),
{
    if text.len() == 0 {
        seq![Seq::empty()]
    } else {
        let before = pieces(text.drop_last(), separator);
        if text.last() == separator {
            before.push(Seq::empty())
        } else {
            before.update(before.len() - 1, before.last().push(text.last()))
        }
    }
}

/// A line without the carriage return that may end it.
pub open spec fn without_return(line: Seq<char>) -> Seq<char> {
    if line.len() > 0 && line.last() == '\r' {
        line.drop_last()
    } else {
        line
    }
}

/// The lines of a text: its parts between line feeds, each without the
/// carriage return that may end it. What follows the last line feed is a line
/// only where it is not empty.
pub open spec fn lines(text: Seq<char>) -> Seq<Seq<char>> {
    let parts = pieces(text, '\n');
    let kept = if parts.last().len() == 0 {
        parts.drop_last()
    } else {
        parts
    };
    Seq::new(kept.len(), |i: int| without_return(kept[i]))
}

/// Whether a character is one of the digits `0` to `9`.
pub open spec fn is_digit(c: char) -> bool {
    48 <= c as u32 <= 57
}

/// Whether a text is made of digits alone.
pub open spec fn all_digits(text: Seq<char>) -> bool {
    forall|i: int| 0 <= i < text.len() ==> is_digit(#[trigger] text[i])
}

/// The number that a text of digits writes in base ten.
pub open spec fn digits_value(text: Seq<char>) -> nat
    decreases text.len(),
{
    if text.len() == 0 {
        0
    } else {
        digits_value(text.drop_last()) * 10 + (text.last() as u32 - 48) as nat
    }
}

/// A text without the plus sign that may lead it.
pub open spec fn unsigned(text: Seq<char>) -> Seq<char> {
    if text.len() > 0 && text[0] == '+' {
        text.skip(1)
    } else {
        text
    }
}

/// The number up to `largest` that a text writes in base ten: one digit or
/// more, after a plus sign or none. `None` for any other text and for a
/// larger number.
pub open spec fn decimal(text: Seq<char>, largest: nat) -> Option<nat> {
    let digits = unsigned(text);
    if digits.len() > 0 && all_digits(digits) && digits_value(digits) <= largest {
        Some(digits_value(digits))
    } else {
        None
    }
}

/// The characters of a text, one by one.
pub fn chars_of(text: &str) -> (chars: Vec<char>)
    ensures
        chars@ == text@,
{
    let mut chars: Vec<char> = Vec::new();
    for c in it: text.chars()
        invariant
            it.seq() == text@,
            chars@ == it.seq().take(it.index() as int),
    {
        chars.push(c);
    }
    chars
}

/// The text made of the given characters.
pub fn text_of(chars: &Vec<char>) -> (text: String)
    ensures
        text@ == chars@,
{
    let mut text: String = String::new();
    let mut i: usize = 0;
    while i < chars.len()
        invariant
            i <= chars.len(),
            text@ == chars@.take(i as int),
        decreases chars.len() - i,
    {
        text.push(chars[i]);
        i += 1;
    }
    text
}

/// Cuts a text at each separator.
pub fn split(chars: &Vec<char>, separator: char) -> (parts: Vec<Vec<char>>)
    ensures
        texts(parts@) == pieces(chars@, separator),
        parts.len() >= 1,
{
    let mut parts: Vec<Vec<char>> = Vec::new();
    let mut current: Vec<char> = Vec::new();
    let mut i: usize = 0;
    while i < chars.len()
        invariant
            i <= chars.len(),
            texts(parts@).push(current@) == pieces(chars@.take(i as int), separator),
        decreases chars.len() - i,
    {
        let ghost before = texts(parts@);
        let ghost held = current@;
        proof {
            assert(chars@.take(i + 1).drop_last() == chars@.take(i as int));
            assert(chars@.take(i + 1).last() == chars@[i as int]);
            assert(before.push(held).last() == held);
        }
        if chars[i] == separator {
            parts.push(current);
            current = Vec::new();
            assert(texts(parts@) == before.push(held));
        } else {
            current.push(chars[i]);
            assert(before.push(current@) == before.push(held).update(
                before.len() as int,
                held.push(chars@[i as int]),
            ));
        }
        i += 1;
    }
    let ghost before = texts(parts@);
    let ghost held = current@;
    parts.push(current);
    assert(texts(parts@) == before.push(held));
    assert(chars@.take(chars.len() as int) == chars@);
    parts
}

/// Cuts a text into its lines.
pub fn split_lines(chars: &Vec<char>) -> (list: Vec<Vec<char>>)
    ensures
        texts(list@) == lines(chars@),
{
    let mut parts: Vec<Vec<char>> = split(chars, '\n');
    let ghost cut = texts(parts@);
    let last: usize = parts.len() - 1;
    if parts[last].len() == 0 {
        parts.pop();
        assert(texts(parts@) == cut.drop_last());
    }
    let ghost kept = texts(parts@);
    let mut list: Vec<Vec<char>> = Vec::new();
    let mut i: usize = 0;
    while i < parts.len()
        invariant
            i <= parts.len(),
            kept == texts(parts@),
            list.len() == i,
            forall|j: int| 0 <= j < i ==> (#[trigger] list[j])@ == without_return(kept[j]),
        decreases parts.len() - i,
    {
        let line: &Vec<char> = &parts[i];
        let mut end: usize = line.len();
        if end > 0 && line[end - 1] == '\r' {
            end = end - 1;
        }
        let mut kept_line: Vec<char> = Vec::new();
        let mut j: usize = 0;
        while j < end
            invariant
                j <= end <= line.len(),
                kept_line@ == line@.take(j as int),
            decreases end - j,
        {
            kept_line.push(line[j]);
            assert(line@.take(j + 1) == line@.take(j as int).push(line@[j as int]));
            j += 1;
        }
        proof {
            assert(kept[i as int] == line@);
            if end == line.len() {
                assert(line@.take(end as int) == line@);
            } else {
                assert(line@.take(end as int) == line@.drop_last());
            }
        }
        list.push(kept_line);
        i += 1;
    }
    assert(texts(list@) == lines(chars@));
    list
}

/// Reads a number up to 65535 written in base ten.
pub fn parse_u16(chars: &Vec<char>) -> (number: Option<u16>)
    ensures
        match decimal(chars@, 65_535) {
            Some(value) => number == Some(value as u16),
            None => number is None,
        },
{
    let start: usize = if chars.len() > 0 && chars[0] == '+' {
        1
    } else {
        0
    };
    let ghost digits = unsigned(chars@);
    assert(digits == chars@.skip(start as int));
    if start == chars.len() {
        return None;
    }
    let mut value: u32 = 0;
    let mut beyond: bool = false;
    let mut i: usize = start;
    while i < chars.len()
        invariant
            start <= i <= chars.len(),
            digits == chars@.skip(start as int),
            digits == unsigned(chars@),
            all_digits(digits.take(i - start)),
            value <= 65_535,
            !beyond ==> value == digits_value(digits.take(i - start)),
            beyond ==> digits_value(digits.take(i - start)) > 65_535,
        decreases chars.len() - i,
    {
        let code: u32 = chars[i] as u32;
        let ghost seen = digits.take(i - start);
        let ghost next = digits.take(i + 1 - start);
        proof {
            assert(next.drop_last() == seen);
            assert(next.last() == chars@[i as int]);
        }
        if code < 48 || code > 57 {
            proof {
                assert(digits[i - start] == chars@[i as int]);
                assert(!is_digit(digits[i - start]));
            }
            return None;
        }
        proof {
            assert forall|j: int| 0 <= j < next.len() implies is_digit(#[trigger] next[j]) by {
                if j < seen.len() {
                    assert(next[j] == seen[j]);
                }
            }
        }
        if !beyond {
            let grown: u32 = value * 10 + (code - 48);
            if grown > 65_535 {
                beyond = true;
            } else {
                value = grown;
            }
        }
        i += 1;
    }
    proof {
        assert(digits.take(chars.len() - start) == digits);
    }
    if beyond {
        None
    } else {
        Some(value as u16)
    }
}

} // verus!
