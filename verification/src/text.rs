//! Text helpers: trimming, the edit buffer's primitive operations, and
//! decimal numerals.

use vstd::prelude::*;

verus! {

/// Whether a character counts as white space (the Unicode property
/// `White_Space`), as `char::is_whitespace` reports it.
pub uninterp spec fn is_whitespace(c: char) -> bool;

/// A text without its leading white space.
pub open spec fn trim_start(s: Seq<char>) -> Seq<char>
    decreases s.len(),
{
    if s.len() > 0 && is_whitespace(s.first()) {
        trim_start(s.drop_first())
    } else {
        s
    }
}

/// A text without its trailing white space.
pub open spec fn trim_end(s: Seq<char>) -> Seq<char>
    decreases s.len(),
{
    if s.len() > 0 && is_whitespace(s.last()) {
        trim_end(s.drop_last())
    } else {
        s
    }
}

/// A text without its leading and trailing white space.
pub open spec fn trimmed(s: Seq<char>) -> Seq<char> {
    trim_end(trim_start(s))
}

/// Whether a text holds nothing but white space.
pub open spec fn is_blank(s: Seq<char>) -> bool {
    forall|i: int| 0 <= i < s.len() ==> is_whitespace(#[trigger] s[i])
}

/// The text of an optional string.
pub open spec fn option_text(s: Option<String>) -> Option<Seq<char>> {
    match s {
        Some(t) => Some(t@),
        None => None,
    }
}

/// The character of a decimal digit.
pub open spec fn digit_char(d: int) -> char {
    if d == 0 {
        '0'
    } else if d == 1 {
        '1'
    } else if d == 2 {
        '2'
    } else if d == 3 {
        '3'
    } else if d == 4 {
        '4'
    } else if d == 5 {
        '5'
    } else if d == 6 {
        '6'
    } else if d == 7 {
        '7'
    } else if d == 8 {
        '8'
    } else {
        '9'
    }
}

/// The decimal digits of a natural number, without leading zeros.
pub open spec fn digits(n: nat) -> Seq<char>
    decreases n,
{
    if n < 10 {
        seq![digit_char(n as int)]
    } else {
        digits(n / 10).push(digit_char((n % 10) as int))
    }
}

/// The decimal numeral of an integer: its digits, after a minus sign where
/// it is negative.
pub open spec fn decimal(n: int) -> Seq<char> {
    if n < 0 {
        seq!['-'] + digits((-n) as nat)
    } else {
        digits(n as nat)
    }
}

/// `char::is_whitespace` tells whether a character has the Unicode property
/// `White_Space`. Trusted: its answer is the name `is_whitespace` at the
/// character; nothing is claimed of which characters those are.
pub assume_specification[ char::is_whitespace ](c: char) -> (r: bool)
    ensures
        r == is_whitespace(c),
;

/// `String::push` appends the given character to the end of the string.
/// Trusted, as the standard library documents it.
pub assume_specification[ String::push ](s: &mut String, c: char)
    ensures
        final(s)@ == old(s)@.push(c),
;

/// `String::pop` removes the last character from the string and returns
/// it, or returns `None` if the string is empty, which it then leaves as it
/// is. Trusted, as the standard library documents it.
pub assume_specification[ String::pop ](s: &mut String) -> (r: Option<char>)
    ensures
        old(s)@.len() == 0 ==> r is None && final(s)@ == old(s)@,
        old(s)@.len() > 0 ==> r == Some(old(s)@.last()) && final(s)@ == old(s)@.drop_last(),
;

/// `String::clear` removes all contents of the string. Trusted, as the
/// standard library documents it.
pub assume_specification[ String::clear ](s: &mut String)
    ensures
        final(s)@ == Seq::<char>::empty(),
;

/// The character of a decimal digit.
fn digit_of(d: u32) -> (r: char)
    requires
        d < 10,
    ensures
        r == digit_char(d as int),
{
    match d {
        0 => '0',
        1 => '1',
        2 => '2',
        3 => '3',
        4 => '4',
        5 => '5',
        6 => '6',
        7 => '7',
        8 => '8',
        _ => '9',
    }
}

/// The decimal numeral of an integer.
pub fn int_to_string(n: i32) -> (r: String)
    ensures
        r@ == decimal(n as int),
{
    let magnitude: u32 = if n < 0 {
        (-(n as i64)) as u32
    } else {
        n as u32
    };
    // The digits, last first.
    let mut backwards: Vec<char> = Vec::new();
    let mut rest: u32 = magnitude;
    assert(digits(magnitude as nat) =~= digits(rest as nat) + backwards@.reverse());
    while rest >= 10
        invariant
            digits(magnitude as nat) == digits(rest as nat) + backwards@.reverse(),
        decreases rest,
    {
        let ghost before = backwards@;
        backwards.push(digit_of(rest % 10));
        assert(backwards@.reverse() =~= seq![digit_char((rest % 10) as int)] + before.reverse());
        assert(digits(rest as nat) == digits((rest / 10) as nat).push(
            digit_char((rest % 10) as int),
        ));
        assert(digits(magnitude as nat) =~= digits((rest / 10) as nat) + backwards@.reverse());
        rest = rest / 10;
    }
    let ghost before = backwards@;
    backwards.push(digit_of(rest));
    assert(backwards@.reverse() =~= seq![digit_char(rest as int)] + before.reverse());
    assert(digits(magnitude as nat) =~= backwards@.reverse());
    let mut out = String::new();
    if n < 0 {
        out.push('-');
    }
    let ghost sign = out@;
    let mut left: usize = backwards.len();
    assert(out@ =~= sign + backwards@.reverse().take(0));
    while left > 0
        invariant
            left <= backwards@.len(),
            out@ == sign + backwards@.reverse().take(backwards@.len() - left),
        decreases left,
    {
        left -= 1;
        out.push(backwards[left]);
        assert(out@ =~= sign + backwards@.reverse().take(backwards@.len() - left));
    }
    assert(backwards@.reverse().take(backwards@.len() as int) =~= backwards@.reverse());
    assert(sign =~= if n < 0 {
        seq!['-']
    } else {
        Seq::<char>::empty()
    });
    assert(out@ =~= decimal(n as int));
    out
}

/// The characters of a text.
fn chars_of(s: &str) -> (r: Vec<char>)
    ensures
        r@ == s@,
{
    let mut out: Vec<char> = Vec::new();
    for c in it: s.chars()
        invariant
            it.seq() == s@,
            out@ == it.seq().take(it.index()),
    {
        out.push(c);
    }
    out
}

/// Trimming at the front drops exactly the leading white space.
proof fn lemma_trim_start(s: Seq<char>, k: int)
    requires
        0 <= k <= s.len(),
        forall|i: int| 0 <= i < k ==> is_whitespace(#[trigger] s[i]),
        k < s.len() ==> !is_whitespace(s[k]),
    ensures
        trim_start(s) == s.subrange(k, s.len() as int),
    decreases k,
{
    if k == 0 {
        assert(s.subrange(0, s.len() as int) =~= s);
    } else {
        let rest = s.drop_first();
        assert forall|i: int| 0 <= i < k - 1 implies is_whitespace(#[trigger] rest[i]) by {
            assert(rest[i] == s[i + 1]);
        }
        lemma_trim_start(rest, k - 1);
        assert(rest.subrange(k - 1, rest.len() as int) =~= s.subrange(k, s.len() as int));
    }
}

/// Trimming at the back drops exactly the trailing white space.
proof fn lemma_trim_end(s: Seq<char>, k: int)
    requires
        0 <= k <= s.len(),
        forall|i: int| k <= i < s.len() ==> is_whitespace(#[trigger] s[i]),
        k > 0 ==> !is_whitespace(s[k - 1]),
    ensures
        trim_end(s) == s.subrange(0, k),
    decreases s.len() - k,
{
    if k == s.len() {
        assert(s.subrange(0, k) =~= s);
    } else {
        let rest = s.drop_last();
        assert forall|i: int| k <= i < rest.len() implies is_whitespace(#[trigger] rest[i]) by {
            assert(rest[i] == s[i]);
        }
        lemma_trim_end(rest, k);
        assert(rest.subrange(0, k) =~= s.subrange(0, k));
    }
}

/// A text is blank exactly when nothing is left of it once trimmed.
pub proof fn lemma_blank_is_trimmed_empty(s: Seq<char>)
    ensures
        is_blank(s) <==> trimmed(s).len() == 0,
    decreases s.len(),
{
    if s.len() > 0 && is_whitespace(s.first()) {
        let rest = s.drop_first();
        lemma_blank_is_trimmed_empty(rest);
        assert(is_blank(s) <==> is_blank(rest)) by {
            if is_blank(rest) {
                assert forall|i: int| 0 <= i < s.len() implies is_whitespace(#[trigger] s[i]) by {
                    if i > 0 {
                        assert(s[i] == rest[i - 1]);
                    }
                }
            }
            if is_blank(s) {
                assert forall|i: int| 0 <= i < rest.len() implies is_whitespace(
                    #[trigger] rest[i],
                ) by {
                    assert(rest[i] == s[i + 1]);
                }
            }
        }
    } else if s.len() > 0 {
        lemma_trim_start(s, 0);
        assert(s.subrange(0, s.len() as int) =~= s);
        lemma_trim_end_keeps_first(s);
    }
}

/// Trimming at the back keeps a first character that is not white space.
proof fn lemma_trim_end_keeps_first(s: Seq<char>)
    requires
        s.len() > 0,
        !is_whitespace(s.first()),
    ensures
        trim_end(s).len() > 0,
        trim_end(s).first() == s.first(),
    decreases s.len(),
{
    if is_whitespace(s.last()) {
        assert(s.len() > 1);
        assert(s.drop_last().first() == s.first());
        lemma_trim_end_keeps_first(s.drop_last());
    }
}

/// What is left after trimming at the front is empty or starts with a
/// character that is not white space.
proof fn lemma_trim_start_first(s: Seq<char>)
    ensures
        trim_start(s).len() > 0 ==> !is_whitespace(trim_start(s).first()),
    decreases s.len(),
{
    if s.len() > 0 && is_whitespace(s.first()) {
        lemma_trim_start_first(s.drop_first());
    }
}

/// A trimmed text that is not empty starts with a character that is not
/// white space, so a text is blank exactly when its trimmed text is.
pub proof fn lemma_trimmed_blank(s: Seq<char>)
    ensures
        trimmed(s).len() > 0 ==> !is_whitespace(trimmed(s).first()),
        is_blank(trimmed(s)) <==> is_blank(s),
{
    lemma_blank_is_trimmed_empty(s);
    lemma_trim_start_first(s);
    if trim_start(s).len() > 0 {
        lemma_trim_end_keeps_first(trim_start(s));
        assert(!is_whitespace(trimmed(s)[0]));
    }
}

/// Whether a text is empty once trimmed: whether it holds nothing but
/// white space.
pub fn is_blank_str(s: &str) -> (r: bool)
    ensures
        r == is_blank(s@),
{
    let chars = chars_of(s);
    let mut i: usize = 0;
    while i < chars.len()
        invariant
            i <= chars@.len(),
            chars@ == s@,
            forall|j: int| 0 <= j < i ==> is_whitespace(#[trigger] chars@[j]),
        decreases chars@.len() - i,
    {
        if !chars[i].is_whitespace() {
            assert(!is_whitespace(s@[i as int]));
            return false;
        }
        i += 1;
    }
    true
}

/// The trimmed text as an owned string.
pub fn trimmed_string(s: &str) -> (r: String)
    ensures
        r@ == trimmed(s@),
{
    let chars = chars_of(s);
    let mut start: usize = 0;
    while start < chars.len() && chars[start].is_whitespace()
        invariant
            start <= chars@.len(),
            forall|j: int| 0 <= j < start ==> is_whitespace(#[trigger] chars@[j]),
        decreases chars@.len() - start,
    {
        start += 1;
    }
    let mut end: usize = chars.len();
    while end > start && chars[end - 1].is_whitespace()
        invariant
            start <= end <= chars@.len(),
            forall|j: int| end <= j < chars@.len() ==> is_whitespace(#[trigger] chars@[j]),
        decreases end,
    {
        end -= 1;
    }
    let mut out = String::new();
    let mut i: usize = start;
    assert(out@ =~= chars@.subrange(start as int, i as int));
    while i < end
        invariant
            start <= i <= end <= chars@.len(),
            out@ == chars@.subrange(start as int, i as int),
        decreases end - i,
    {
        out.push(chars[i]);
        i += 1;
        assert(out@ =~= chars@.subrange(start as int, i as int));
    }
    proof {
        let front = chars@.subrange(start as int, chars@.len() as int);
        lemma_trim_start(chars@, start as int);
        assert forall|j: int| end - start <= j < front.len() implies is_whitespace(
            #[trigger] front[j],
        ) by {
            assert(front[j] == chars@[j + start]);
        }
        if end > start {
            assert(front[end - start - 1] == chars@[end - 1]);
        }
        lemma_trim_end(front, end - start);
        assert(front.subrange(0, end - start) =~= chars@.subrange(start as int, end as int));
    }
    out
}

} // verus!
