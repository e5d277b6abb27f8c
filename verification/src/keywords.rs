//! Lists of keywords in the text that a user attached to a layer or a tag:
//! items between commas, taken without the white space around them and
//! without regard to the case of ASCII letters.

use vstd::prelude::*;

verus! {

/// The characters that Unicode counts as white space.
pub open spec fn is_white_space(c: char) -> bool {
    let code = c as u32;
    (0x09 <= code <= 0x0d) || code == 0x20 || code == 0x85 || code == 0xa0 || code == 0x1680 || (
    0x2000 <= code <= 0x200a) || code == 0x2028 || code == 0x2029 || code == 0x202f || code
        == 0x205f || code == 0x3000
}

/// The small letter of a capital ASCII letter; any other character as it
/// is.
pub open spec fn ascii_lower(c: char) -> char {
    if 0x41 <= c as u32 <= 0x5a {
        ((c as u32) + 32) as char
    } else {
        c
    }
}

/// `s` without the white space at its start.
pub open spec fn trim_start(s: Seq<char>) -> Seq<char>
    decreases s.len(),
{
    if s.len() > 0 && is_white_space(s[0]) {
        trim_start(s.drop_first())
    } else {
        s
    }
}

/// `s` without the white space at its end.
pub open spec fn trim_end(s: Seq<char>) -> Seq<char>
    decreases s.len(),
{
    if s.len() > 0 && is_white_space(s.last()) {
        trim_end(s.drop_last())
    } else {
        s
    }
}

/// `s` without the white space at its start and at its end.
pub open spec fn trim(s: Seq<char>) -> Seq<char> {
    trim_end(trim_start(s))
}

/// `s` with a small letter for each capital ASCII letter.
pub open spec fn lower(s: Seq<char>) -> Seq<char> {
    Seq::new(s.len(), |i: int| ascii_lower(s[i]))
}

/// Where the item that starts at `from` ends: at the next comma, or at the
/// end of `s`.
pub open spec fn item_end(s: Seq<char>, from: int) -> int
    decreases s.len() - from,
{
    if from >= s.len() || s[from] == ',' {
        from
    } else {
        item_end(s, from + 1)
    }
}

/// The list that starts at `from` in `s` has `keyword` among its items.
pub open spec fn has_item_from(s: Seq<char>, from: int, keyword: Seq<char>) -> bool
    decreases s.len() - from,
{
    if from < 0 || from > s.len() {
        false
    } else {
        proof {
            lemma_item_end_bounds(s, from);
        }
        let end = item_end(s, from);
        lower(trim(s.subrange(from, end))) == keyword || (end < s.len() && has_item_from(
            s,
            end + 1,
            keyword,
        ))
    }
}

/// The list `s` has `keyword` among its items. A text without a comma is a
/// list of one item.
pub open spec fn has_item(s: Seq<char>, keyword: Seq<char>) -> bool {
    has_item_from(s, 0, keyword)
}

pub proof fn lemma_item_end_bounds(s: Seq<char>, from: int)
    requires
        0 <= from <= s.len(),
    ensures
        from <= item_end(s, from) <= s.len(),
        item_end(s, from) < s.len() ==> s[item_end(s, from)] == ',',
        forall|i: int| from <= i < item_end(s, from) ==> s[i] != ',',
    decreases s.len() - from,
{
    if from < s.len() && s[from] != ',' {
        lemma_item_end_bounds(s, from + 1);
    }
}

/// Trimming the start of a run of white space followed by `s` gives what
/// trimming the start of `s` gives.
proof fn lemma_trim_start_skip(s: Seq<char>, n: int)
    requires
        0 <= n <= s.len(),
        forall|i: int| 0 <= i < n ==> is_white_space(s[i]),
    ensures
        trim_start(s) == trim_start(s.skip(n)),
    decreases n,
{
    if n > 0 {
        assert(s.drop_first().skip(n - 1) =~= s.skip(n));
        lemma_trim_start_skip(s.drop_first(), n - 1);
    } else {
        assert(s.skip(0) =~= s);
    }
}

/// Trimming the end of `s` followed by a run of white space gives what
/// trimming the end of `s` gives.
proof fn lemma_trim_end_take(s: Seq<char>, n: int)
    requires
        0 <= n <= s.len(),
        forall|i: int| n <= i < s.len() ==> is_white_space(s[i]),
    ensures
        trim_end(s) == trim_end(s.take(n)),
    decreases s.len() - n,
{
    if n < s.len() {
        assert(s.drop_last().take(n) =~= s.take(n));
        lemma_trim_end_take(s.drop_last(), n);
    } else {
        assert(s.take(n) =~= s);
    }
}

pub fn char_is_white_space(c: char) -> (b: bool)
    ensures
        b == is_white_space(c),
{
    let code: u32 = c as u32;
    (0x09 <= code && code <= 0x0d) || code == 0x20 || code == 0x85 || code == 0xa0 || code
        == 0x1680 || (0x2000 <= code && code <= 0x200a) || code == 0x2028 || code == 0x2029
        || code == 0x202f || code == 0x205f || code == 0x3000
}

/// `c` becomes `k` when its capital ASCII letter, if it is one, is made
/// small.
fn lowers_to(c: char, k: char) -> (b: bool)
    ensures
        b == (ascii_lower(c) == k),
{
    let code: u32 = c as u32;
    if 0x41 <= code && code <= 0x5a {
        code + 32 == k as u32
    } else {
        c == k
    }
}

/// The characters of a text.
pub fn text_chars(text: &str) -> (chars: Vec<char>)
    ensures
        chars@ == text@,
{
    let mut chars: Vec<char> = Vec::new();
    for c in it: text.chars()
        invariant
            it.seq() == text@,
            chars@ == it.seq().take(it.index() as int),
    {
        assert(it.seq().take(it.index() + 1) =~= it.seq().take(it.index() as int).push(c));
        chars.push(c);
    }
    assert(text@.take(text@.len() as int) =~= text@);
    chars
}

/// Whether the item of `chars` from `from` to `end` is `keyword`.
fn item_is(chars: &Vec<char>, from: usize, end: usize, keyword: &Vec<char>) -> (b: bool)
    requires
        from <= end <= chars@.len(),
    ensures
        b == (lower(trim(chars@.subrange(from as int, end as int))) == keyword@),
{
    let ghost item = chars@.subrange(from as int, end as int);
    let mut a: usize = from;
    while a < end && char_is_white_space(chars[a])
        invariant
            from <= a <= end <= chars@.len(),
            forall|i: int| from <= i < a ==> is_white_space(chars@[i]),
        decreases end - a,
    {
        a += 1;
    }
    let mut b: usize = end;
    while b > a && char_is_white_space(chars[b - 1])
        invariant
            a <= b <= end <= chars@.len(),
            forall|i: int| b <= i < end ==> is_white_space(chars@[i]),
        decreases b - a,
    {
        b -= 1;
    }
    let ghost core = chars@.subrange(a as int, b as int);
    proof {
        lemma_trim_start_skip(item, a - from);
        let started = item.skip(a - from);
        assert(started =~= chars@.subrange(a as int, end as int));
        assert(trim_start(started) == started) by {
            if started.len() > 0 {
                assert(started[0] == chars@[a as int]);
            }
        }
        lemma_trim_end_take(started, b - a);
        assert(started.take(b - a) =~= core);
        assert(trim_end(core) == core) by {
            if core.len() > 0 {
                assert(core.last() == chars@[b - 1]);
            }
        }
        assert(trim(item) == core);
    }
    if b - a != keyword.len() {
        assert(lower(core).len() != keyword@.len());
        return false;
    }
    let mut i: usize = 0;
    while i < keyword.len()
        invariant
            a <= b <= chars@.len(),
            b - a == keyword@.len(),
            i <= keyword@.len(),
            from <= end <= chars@.len(),
            core == chars@.subrange(a as int, b as int),
            trim(chars@.subrange(from as int, end as int)) == core,
            forall|k: int| 0 <= k < i ==> lower(core)[k] == keyword@[k],
        decreases keyword@.len() - i,
    {
        if !lowers_to(chars[a + i], keyword[i]) {
            assert(lower(core)[i as int] != keyword@[i as int]);
            return false;
        }
        i += 1;
    }
    assert(lower(core) =~= keyword@);
    true
}

/// Whether the list `chars` has `keyword` among its items.
pub fn has_keyword(chars: &Vec<char>, keyword: &Vec<char>) -> (b: bool)
    ensures
        b == has_item(chars@, keyword@),
{
    let mut from: usize = 0;
    loop
        invariant
            from <= chars@.len(),
            has_item(chars@, keyword@) == has_item_from(chars@, from as int, keyword@),
        decreases chars@.len() - from,
    {
        let mut end: usize = from;
        while end < chars.len() && chars[end] != ','
            invariant
                from <= end <= chars@.len(),
                item_end(chars@, from as int) == item_end(chars@, end as int),
            decreases chars@.len() - end,
        {
            end += 1;
        }
        proof {
            lemma_item_end_bounds(chars@, from as int);
        }
        if item_is(chars, from, end, keyword) {
            return true;
        }
        if end >= chars.len() {
            return false;
        }
        from = end + 1;
    }
}

} // verus!
