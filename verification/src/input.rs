use vstd::prelude::*;

verus! {

/// Characters with the Unicode `White_Space` property, which `str::trim` removes
/// from both ends of a line.
pub open spec fn is_white_space(c: char) -> bool {
    let u = c as u32;
    ||| 0x9 <= u <= 0xd
    ||| u == 0x20
    ||| u == 0x85
    ||| u == 0xa0
    ||| u == 0x1680
    ||| 0x2000 <= u <= 0x200a
    ||| u == 0x2028
    ||| u == 0x2029
    ||| u == 0x202f
    ||| u == 0x205f
    ||| u == 0x3000
}

/// The text with its leading white space removed.
pub open spec fn trim_start(s: Seq<char>) -> Seq<char>
    decreases s.len(),
{
    if s.len() > 0 && is_white_space(s[0]) {
        trim_start(s.drop_first())
    } else {
        s
    }
}

/// The text with its trailing white space removed.
pub open spec fn trim_end(s: Seq<char>) -> Seq<char>
    decreases s.len(),
{
    if s.len() > 0 && is_white_space(s.last()) {
        trim_end(s.drop_last())
    } else {
        s
    }
}

/// The text with white space removed from both ends.
pub open spec fn trim(s: Seq<char>) -> Seq<char> {
    trim_end(trim_start(s))
}

pub open spec fn is_digit(c: char) -> bool {
    48 <= c as u32 <= 57
}

pub open spec fn digit_value(c: char) -> nat {
    (c as u32 - 48) as nat
}

pub open spec fn all_digits(d: Seq<char>) -> bool {
    forall|i: int| 0 <= i < d.len() ==> is_digit(#[trigger] d[i])
}

/// The number that a string of decimal digits spells, most significant first.
pub open spec fn decimal_value(d: Seq<char>) -> nat
    decreases d.len(),
{
    if d.len() == 0 {
        0
    } else {
        decimal_value(d.drop_last()) * 10 + digit_value(d.last())
    }
}

/// The number that `t` spells as an unsigned integer no larger than `max`:
/// an optional `+` and then one or more decimal digits; `None` for anything else
/// or for a larger number.
pub open spec fn parse_unsigned(t: Seq<char>, max: nat) -> Option<nat> {
    let digits = if t.len() > 0 && t[0] == '+' {
        t.drop_first()
    } else {
        t
    };
    if digits.len() > 0 && all_digits(digits) && decimal_value(digits) <= max {
        Some(decimal_value(digits))
    } else {
        None
    }
}

/// A line typed as a number from 0 to 255, with white space around it allowed.
pub open spec fn spec_entry_u8(line: Seq<char>) -> Option<u8> {
    match parse_unsigned(trim(line), 255) {
        Some(n) => Some(n as u8),
        None => None,
    }
}

/// A line typed as a number from 0 to `u32::MAX`, with white space around it allowed.
pub open spec fn spec_entry_u32(line: Seq<char>) -> Option<u32> {
    match parse_unsigned(trim(line), 0xffff_ffff) {
        Some(n) => Some(n as u32),
        None => None,
    }
}

fn white_space(c: char) -> (b: bool)
    ensures
        b == is_white_space(c),
{
    let u = c as u32;
    (0x9 <= u && u <= 0xd) || u == 0x20 || u == 0x85 || u == 0xa0 || u == 0x1680 || (0x2000 <= u
        && u <= 0x200a) || u == 0x2028 || u == 0x2029 || u == 0x202f || u == 0x205f || u == 0x3000
}

fn chars_of(s: &str) -> (v: Vec<char>)
    ensures
        v@ == s@,
{
    let mut v: Vec<char> = Vec::new();
    for c in it: s.chars()
        invariant
            v@ == it.seq().take(it.index()),
    {
        v.push(c);
    }
    v
}


proof fn lemma_trim_start_step(s: Seq<char>, lo: int)
    requires
        0 <= lo < s.len(),
        is_white_space(s[lo]),
    ensures
        trim_start(s.subrange(lo, s.len() as int)) == trim_start(s.subrange(lo + 1, s.len() as int)),
{
    assert(s.subrange(lo, s.len() as int).drop_first() =~= s.subrange(lo + 1, s.len() as int));
}

proof fn lemma_trim_end_step(s: Seq<char>, lo: int, hi: int)
    requires
        0 <= lo < hi <= s.len(),
        is_white_space(s[hi - 1]),
    ensures
        trim_end(s.subrange(lo, hi)) == trim_end(s.subrange(lo, hi - 1)),
{
    assert(s.subrange(lo, hi).drop_last() =~= s.subrange(lo, hi - 1));
}

/// The bounds of `chars` without the white space at its two ends.
fn trim_bounds(chars: &Vec<char>) -> (bounds: (usize, usize))
    ensures
        bounds.0 <= bounds.1 <= chars@.len(),
        trim(chars@) == chars@.subrange(bounds.0 as int, bounds.1 as int),
{
    let n = chars.len();
    let mut lo: usize = 0;
    assert(chars@.subrange(0, n as int) =~= chars@);
    while lo < n && white_space(chars[lo])
        invariant
            n == chars@.len(),
            lo <= n,
            trim_start(chars@) == trim_start(chars@.subrange(lo as int, n as int)),
        decreases n - lo,
    {
        proof {
            lemma_trim_start_step(chars@, lo as int);
        }
        lo = lo + 1;
    }
    assert(trim_start(chars@) == chars@.subrange(lo as int, n as int));
    let mut hi: usize = n;
    while hi > lo && white_space(chars[hi - 1])
        invariant
            n == chars@.len(),
            lo <= hi <= n,
            trim(chars@) == trim_end(chars@.subrange(lo as int, hi as int)),
        decreases hi - lo,
    {
        proof {
            lemma_trim_end_step(chars@, lo as int, hi as int);
        }
        hi = hi - 1;
    }
    (lo, hi)
}

proof fn lemma_decimal_step(chars: Seq<char>, start: int, i: int)
    requires
        0 <= start <= i < chars.len(),
    ensures
        decimal_value(chars.subrange(start, i + 1)) == decimal_value(chars.subrange(start, i)) * 10
            + digit_value(chars[i]),
{
    assert(chars.subrange(start, i + 1).drop_last() =~= chars.subrange(start, i));
}

/// A prefix of a string of digits never spells a larger number than the whole.
proof fn lemma_prefix_value_le(d: Seq<char>, k: int)
    requires
        all_digits(d),
        0 <= k <= d.len(),
    ensures
        decimal_value(d.take(k)) <= decimal_value(d),
    decreases d.len(),
{
    if k == d.len() {
        assert(d.take(k) =~= d);
    } else {
        let rest = d.drop_last();
        assert(all_digits(rest)) by {
            assert forall|i: int| 0 <= i < rest.len() implies is_digit(#[trigger] rest[i]) by {
                assert(rest[i] == d[i]);
            }
        }
        lemma_prefix_value_le(rest, k);
        assert(rest.take(k) =~= d.take(k));
    }
}

/// Reads `chars[lo..hi]` as an unsigned number no larger than `max`.
fn parse_range(chars: &Vec<char>, lo: usize, hi: usize, max: u64) -> (value: Option<u64>)
    requires
        lo <= hi <= chars@.len(),
        max <= u32::MAX,
    ensures
        match parse_unsigned(chars@.subrange(lo as int, hi as int), max as nat) {
            Some(n) => value == Some(n as u64),
            None => value is None,
        },
{
    let ghost t = chars@.subrange(lo as int, hi as int);
    let mut start = lo;
    if hi > lo && chars[lo] == '+' {
        start = lo + 1;
    }
    let ghost digits = chars@.subrange(start as int, hi as int);
    assert(digits =~= (if t.len() > 0 && t[0] == '+' {
        t.drop_first()
    } else {
        t
    }));
    if start == hi {
        return None;
    }
    let mut value: u64 = 0;
    let mut i = start;
    assert(chars@.subrange(start as int, start as int) =~= Seq::<char>::empty());
    while i < hi
        invariant
            lo <= start <= i <= hi <= chars@.len(),
            max <= u32::MAX,
            digits == chars@.subrange(start as int, hi as int),
            t == chars@.subrange(lo as int, hi as int),
            digits == (if t.len() > 0 && t[0] == '+' {
                t.drop_first()
            } else {
                t
            }),
            digits.len() > 0,
            value == decimal_value(chars@.subrange(start as int, i as int)),
            value <= max,
            all_digits(chars@.subrange(start as int, i as int)),
        decreases hi - i,
    {
        let c = chars[i];
        let code = c as u32;
        if code < 48 || code > 57 {
            assert(!is_digit(digits[i - start]));
            assert(!all_digits(digits));
            return None;
        }
        proof {
            lemma_decimal_step(chars@, start as int, i as int);
        }
        let next = value * 10 + (code - 48) as u64;
        assert(chars@.subrange(start as int, i + 1) =~= digits.take(i + 1 - start));
        assert(all_digits(chars@.subrange(start as int, i + 1))) by {
            let p = chars@.subrange(start as int, i + 1);
            assert forall|j: int| 0 <= j < p.len() implies is_digit(#[trigger] p[j]) by {
                if j < i - start {
                    assert(p[j] == chars@.subrange(start as int, i as int)[j]);
                }
            }
        }
        if next > max {
            proof {
                if all_digits(digits) {
                    lemma_prefix_value_le(digits, i + 1 - start);
                }
            }
            return None;
        }
        value = next;
        i = i + 1;
    }
    assert(chars@.subrange(start as int, i as int) =~= digits);
    Some(value)
}

/// Reads a typed line as a number from 0 to 255, ignoring white space at its ends;
/// `None` where the line holds anything else.
pub fn parse_entry_u8(line: &str) -> (value: Option<u8>)
    ensures
        value == spec_entry_u8(line@),
{
    let chars = chars_of(line);
    let (lo, hi) = trim_bounds(&chars);
    match parse_range(&chars, lo, hi, 255) {
        Some(n) => Some(n as u8),
        None => None,
    }
}

/// Reads a typed line as a number from 0 to `u32::MAX`, ignoring white space at its
/// ends; `None` where the line holds anything else.
pub fn parse_entry_u32(line: &str) -> (value: Option<u32>)
    ensures
        value == spec_entry_u32(line@),
{
    let chars = chars_of(line);
    let (lo, hi) = trim_bounds(&chars);
    match parse_range(&chars, lo, hi, 0xffff_ffff) {
        Some(n) => Some(n as u32),
        None => None,
    }
}


/// Whether the typed line, without white space at its ends, is exactly `y`.
pub fn is_yes_answer(line: &str) -> (yes: bool)
    ensures
        yes == (trim(line@) == seq!['y']),
{
    let chars = chars_of(line);
    let (lo, hi) = trim_bounds(&chars);
    let ghost t = trim(line@);
    assert(t.len() == hi - lo);
    if hi - lo == 1 {
        assert(t[0] == chars@[lo as int]);
        let yes = chars[lo] == 'y';
        proof {
            if yes {
                assert(t =~= seq!['y']);
            }
        }
        yes
    } else {
        assert(t.len() != seq!['y'].len());
        false
    }
}

/// A line reads as a number from 0 to 255 exactly when it reads as a number from 0
/// to `u32::MAX` that is at most 255, and then both readings give the same number.
pub proof fn lemma_entry_readings_agree(line: Seq<char>, n: u8)
    ensures
        spec_entry_u8(line) == Some(n) <==> spec_entry_u32(line) == Some(n as u32),
        spec_entry_u8(line) is None <==> (spec_entry_u32(line) is None || spec_entry_u32(line).unwrap() > 255),
{
}

/// White space around an answer does not change how it reads.
pub proof fn lemma_entry_ignores_surrounding_space(line: Seq<char>, before: char, after: char)
    requires
        is_white_space(before),
        is_white_space(after),
    ensures
        spec_entry_u8(seq![before] + line + seq![after]) == spec_entry_u8(line),
        spec_entry_u32(seq![before] + line + seq![after]) == spec_entry_u32(line),
{
    lemma_trim_padded(line, before, after);
}

proof fn lemma_trim_start_append(s: Seq<char>, tail: Seq<char>)
    requires
        exists|i: int| 0 <= i < s.len() && !is_white_space(s[i]),
    ensures
        trim_start(s + tail) == trim_start(s) + tail,
    decreases s.len(),
{
    if is_white_space(s[0]) {
        let i = choose|i: int| 0 <= i < s.len() && !is_white_space(s[i]);
        assert(i > 0);
        assert(s.drop_first()[i - 1] == s[i]);
        lemma_trim_start_append(s.drop_first(), tail);
        assert((s + tail).drop_first() =~= s.drop_first() + tail);
    } else {
    }
}

proof fn lemma_trim_start_all_space(s: Seq<char>)
    requires
        forall|i: int| 0 <= i < s.len() ==> is_white_space(#[trigger] s[i]),
    ensures
        trim_start(s).len() == 0,
    decreases s.len(),
{
    if s.len() > 0 {
        assert forall|i: int| 0 <= i < s.drop_first().len() implies is_white_space(#[trigger] s.drop_first()[i]) by {
            assert(s.drop_first()[i] == s[i + 1]);
        }
        lemma_trim_start_all_space(s.drop_first());
    }
}

proof fn lemma_trim_end_prepend(head: Seq<char>, s: Seq<char>)
    requires
        exists|i: int| 0 <= i < s.len() && !is_white_space(s[i]),
    ensures
        trim_end(head + s) == head + trim_end(s),
    decreases s.len(),
{
    if is_white_space(s.last()) {
        let i = choose|i: int| 0 <= i < s.len() && !is_white_space(s[i]);
        assert(i < s.len() - 1);
        assert(s.drop_last()[i] == s[i]);
        lemma_trim_end_prepend(head, s.drop_last());
        assert((head + s).drop_last() =~= head + s.drop_last());
    } else {
        assert((head + s).last() == s.last());
    }
}

proof fn lemma_trim_end_all_space(s: Seq<char>)
    requires
        forall|i: int| 0 <= i < s.len() ==> is_white_space(#[trigger] s[i]),
    ensures
        trim_end(s).len() == 0,
    decreases s.len(),
{
    if s.len() > 0 {
        assert forall|i: int| 0 <= i < s.drop_last().len() implies is_white_space(#[trigger] s.drop_last()[i]) by {
            assert(s.drop_last()[i] == s[i]);
        }
        lemma_trim_end_all_space(s.drop_last());
    }
}

proof fn lemma_trim_padded(line: Seq<char>, before: char, after: char)
    requires
        is_white_space(before),
        is_white_space(after),
    ensures
        trim(seq![before] + line + seq![after]) == trim(line),
{
    let padded = seq![before] + line + seq![after];
    if exists|i: int| 0 <= i < line.len() && !is_white_space(line[i]) {
        // the leading space goes first
        assert(padded.drop_first() =~= line + seq![after]);
        assert(trim_start(padded) == trim_start(line + seq![after]));
        lemma_trim_start_append(line, seq![after]);
        let ts = trim_start(line);
        // trim_start(line) keeps a character that is not white space
        lemma_trim_start_keeps_nonspace(line);
        assert((ts + seq![after]).drop_last() =~= ts);
        assert(trim_end(ts + seq![after]) == trim_end(ts));
    } else {
        assert forall|i: int| 0 <= i < padded.len() implies is_white_space(#[trigger] padded[i]) by {
            if i == 0 {
            } else if i < padded.len() - 1 {
                assert(padded[i] == line[i - 1]);
            } else {
            }
        }
        assert forall|i: int| 0 <= i < line.len() implies is_white_space(#[trigger] line[i]) by {}
        lemma_trim_start_all_space(padded);
        lemma_trim_start_all_space(line);
        assert(trim_start(padded) =~= Seq::<char>::empty());
        assert(trim_start(line) =~= Seq::<char>::empty());
    }
}

proof fn lemma_trim_start_keeps_nonspace(s: Seq<char>)
    requires
        exists|i: int| 0 <= i < s.len() && !is_white_space(s[i]),
    ensures
        exists|j: int| 0 <= j < trim_start(s).len() && !is_white_space(trim_start(s)[j]),
    decreases s.len(),
{
    let i = choose|i: int| 0 <= i < s.len() && !is_white_space(s[i]);
    if is_white_space(s[0]) {
        assert(s.drop_first()[i - 1] == s[i]);
        lemma_trim_start_keeps_nonspace(s.drop_first());
        assert(trim_start(s) == trim_start(s.drop_first()));
    } else {
        assert(trim_start(s) == s);
        assert(0 <= i < trim_start(s).len() && !is_white_space(trim_start(s)[i]));
    }
}

} // verus!
