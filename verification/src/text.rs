//! Verified operations on text.

use vstd::prelude::*;
use itertools::Itertools;

verus! {

/// Whether `needle` occurs in `haystack` at position `at`.
pub open spec fn occurs_at(haystack: Seq<char>, needle: Seq<char>, at: int) -> bool {
    &&& 0 <= at
    &&& at + needle.len() <= haystack.len()
    &&& haystack.subrange(at, at + needle.len()) == needle
}

/// Whether `needle` occurs anywhere in `haystack`.
pub open spec fn contains(haystack: Seq<char>, needle: Seq<char>) -> bool {
    exists|at: int| occurs_at(haystack, needle, at)
}

/// `text` without the slashes it ends in.
pub open spec fn without_trailing_slashes(text: Seq<char>) -> Seq<char>
    decreases text.len(),
{
    if text.len() > 0 && text.last() == '/' {
        without_trailing_slashes(text.drop_last())
    } else {
        text
    }
}

/// The parts in order, with `separator` between neighbours.
pub open spec fn joined(parts: Seq<Seq<char>>, separator: Seq<char>) -> Seq<char>
    decreases parts.len(),
{
    if parts.len() == 0 {
        Seq::empty()
    } else if parts.len() == 1 {
        parts[0]
    } else {
        joined(parts.drop_last(), separator) + separator + parts.last()
    }
}

/// The texts that a sequence of strings holds.
pub open spec fn texts(strings: Seq<String>) -> Seq<Seq<char>> {
    strings.map_values(|s: String| s@)
}

/// The text of an optional string.
pub open spec fn opt_text(string: Option<String>) -> Option<Seq<char>> {
    match string {
        Some(s) => Some(s@),
        None => None,
    }
}

/// The character of a decimal digit.
pub open spec fn digit(d: nat) -> char {
    (('0' as u32) + d) as char
}

/// `n` in decimal notation, without leading zeros.
pub open spec fn decimal(n: nat) -> Seq<char>
    decreases n,
{
    if n < 10 {
        seq![digit(n)]
    } else {
        decimal(n / 10).push(digit(n % 10))
    }
}

/// Whether `a` comes before `b`, or equals it, in the order of their code points.
pub open spec fn text_le(a: Seq<char>, b: Seq<char>) -> bool
    decreases a.len(),
{
    if a.len() == 0 {
        true
    } else if b.len() == 0 {
        false
    } else if a[0] == b[0] {
        text_le(a.drop_first(), b.drop_first())
    } else {
        (a[0] as u32) < (b[0] as u32)
    }
}

/// Whether two texts are the same.
pub fn text_eq(a: &str, b: &str) -> (equal: bool)
    ensures
        equal == (a@ == b@),
{
    let a: String = a.to_owned();
    let b: String = b.to_owned();
    a == b
}

/// A copy of an optional string.
pub fn clone_opt(string: &Option<String>) -> (copy: Option<String>)
    ensures
        copy == *string,
{
    match string {
        Some(s) => Some(s.clone()),
        None => None,
    }
}

/// The characters of a text.
pub fn chars_of(text: &str) -> (chars: Vec<char>)
    ensures
        chars@ == text@,
{
    let mut chars: Vec<char> = Vec::new();
    for c in it: text.chars()
        invariant
            chars@ == it.seq().take(it.index()),
            it.seq() == text@,
    {
        chars.push(c);
    }
    chars
}

/// Whether `needle` occurs anywhere in `haystack`.
pub fn contains_text(haystack: &str, needle: &str) -> (found: bool)
    ensures
        found == contains(haystack@, needle@),
{
    let text: Vec<char> = chars_of(haystack);
    let pattern: Vec<char> = chars_of(needle);
    if pattern.len() > text.len() {
        return false;
    }
    let last: usize = text.len() - pattern.len();
    let mut at: usize = 0;
    while at <= last
        invariant
            text@ == haystack@,
            pattern@ == needle@,
            last + pattern.len() == text.len(),
            at <= last + 1,
            forall|i: int| 0 <= i < at ==> !occurs_at(haystack@, needle@, i),
        decreases last + 1 - at,
    {
        let mut matched: usize = 0;
        while matched < pattern.len() && text[at + matched] == pattern[matched]
            invariant
                text@ == haystack@,
                pattern@ == needle@,
                last + pattern.len() == text.len(),
                at <= last,
                matched <= pattern@.len(),
                forall|k: int| 0 <= k < matched ==> text@[at + k] == pattern@[k],
            decreases pattern.len() - matched,
        {
            matched += 1;
        }
        if matched == pattern.len() {
            assert(haystack@.subrange(at as int, at + needle@.len()) =~= needle@);
            assert(occurs_at(haystack@, needle@, at as int));
            return true;
        }
        assert(!occurs_at(haystack@, needle@, at as int)) by {
            if occurs_at(haystack@, needle@, at as int) {
                assert(haystack@.subrange(at as int, at + needle@.len())[matched as int]
                    == needle@[matched as int]);
            }
        }
        if at == last {
            return false;
        }
        at += 1;
    }
    false
}

/// `text` without the slashes it ends in.
pub fn trim_trailing_slashes(text: &str) -> (trimmed: String)
    ensures
        trimmed@ == without_trailing_slashes(text@),
{
    let chars: Vec<char> = chars_of(text);
    let mut end: usize = chars.len();
    assert(text@.take(end as int) =~= text@);
    while end > 0 && chars[end - 1] == '/'
        invariant
            chars@ == text@,
            end <= chars@.len(),
            without_trailing_slashes(text@.take(end as int)) == without_trailing_slashes(text@),
        decreases end,
    {
        assert(text@.take(end as int).drop_last() =~= text@.take(end - 1));
        end -= 1;
    }
    text.substring_char(0, end).to_owned()
}

/// The parts in order, with `separator` between neighbours.
pub fn join_texts(parts: &Vec<String>, separator: &str) -> (text: String)
    ensures
        text@ == joined(texts(parts@), separator@),
{
    let mut text: String = String::new();
    let mut i: usize = 0;
    while i < parts.len()
        invariant
            i <= parts@.len(),
            text@ == joined(texts(parts@).take(i as int), separator@),
        decreases parts.len() - i,
    {
        assert(texts(parts@).take(i + 1).drop_last() =~= texts(parts@).take(i as int));
        if i > 0 {
            text.append(separator);
        }
        text.append(parts[i].as_str());
        i += 1;
    }
    assert(texts(parts@).take(i as int) =~= texts(parts@));
    text
}

/// `n` in decimal notation.
pub fn decimal_text(n: u64) -> (text: String)
    ensures
        text@ == decimal(n as nat),
    decreases n,
{
    let d: u64 = n % 10;
    let last: &str = if d == 0 {
        "0"
    } else if d == 1 {
        "1"
    } else if d == 2 {
        "2"
    } else if d == 3 {
        "3"
    } else if d == 4 {
        "4"
    } else if d == 5 {
        "5"
    } else if d == 6 {
        "6"
    } else if d == 7 {
        "7"
    } else if d == 8 {
        "8"
    } else {
        "9"
    };
    proof {
        reveal_strlit("0");
        reveal_strlit("1");
        reveal_strlit("2");
        reveal_strlit("3");
        reveal_strlit("4");
        reveal_strlit("5");
        reveal_strlit("6");
        reveal_strlit("7");
        reveal_strlit("8");
        reveal_strlit("9");
        assert(last@ =~= seq![digit(d as nat)]);
    }
    if n < 10 {
        last.to_owned()
    } else {
        let mut text: String = decimal_text(n / 10);
        text.append(last);
        assert(text@ =~= decimal((n / 10) as nat).push(digit(d as nat)));
        text
    }
}

/// Numbers in decimal notation are told apart by their text.
pub proof fn law_decimal_is_injective(a: nat, b: nat)
    requires
        decimal(a) == decimal(b),
    ensures
        a == b,
    decreases a,
{
    reveal_with_fuel(decimal, 2);
    assert(decimal(a).last() == digit(a % 10));
    assert(decimal(b).last() == digit(b % 10));
    if a >= 10 && b >= 10 {
        assert(decimal(a).drop_last() =~= decimal(a / 10));
        assert(decimal(b).drop_last() =~= decimal(b / 10));
        law_decimal_is_injective(a / 10, b / 10);
    } else if a >= 10 {
        lemma_decimal_is_not_empty(a / 10);
    } else if b >= 10 {
        lemma_decimal_is_not_empty(b / 10);
    }
}

proof fn lemma_decimal_is_not_empty(n: nat)
    ensures
        decimal(n).len() > 0,
{
}

/// A text contains another exactly if it can be taken apart into something, that other text, and
/// something.
pub proof fn law_contains(haystack: Seq<char>, needle: Seq<char>)
    ensures
        contains(haystack, needle) <==> exists|before: Seq<char>, after: Seq<char>|
            haystack == #[trigger] (before + needle + after),
{
    if contains(haystack, needle) {
        let at = choose|at: int| occurs_at(haystack, needle, at);
        let before = haystack.take(at);
        let after = haystack.skip(at + needle.len());
        assert(haystack =~= before + needle + after) by {
            assert forall|i: int| 0 <= i < haystack.len() implies haystack[i] == (before + needle
                + after)[i] by {
                if at <= i < at + needle.len() {
                    assert(haystack.subrange(at, at + needle.len())[i - at] == haystack[i]);
                }
            }
        }
    }
    if exists|before: Seq<char>, after: Seq<char>| haystack == #[trigger] (before + needle + after) {
        let (before, after) = choose|before: Seq<char>, after: Seq<char>|
            haystack == #[trigger] (before + needle + after);
        let at = before.len() as int;
        assert(haystack.subrange(at, at + needle.len()) =~= needle);
        assert(occurs_at(haystack, needle, at));
    }
}

/// Trimming takes off slashes at the end, and all of them.
pub proof fn law_without_trailing_slashes(text: Seq<char>)
    ensures
        ({
            let trimmed = without_trailing_slashes(text);
            &&& trimmed.len() <= text.len()
            &&& text.take(trimmed.len() as int) == trimmed
            &&& forall|i: int| trimmed.len() <= i < text.len() ==> #[trigger] text[i] == '/'
            &&& trimmed.len() > 0 ==> trimmed.last() != '/'
        }),
    decreases text.len(),
{
    if text.len() > 0 && text.last() == '/' {
        let front = text.drop_last();
        law_without_trailing_slashes(front);
        let trimmed = without_trailing_slashes(front);
        assert(text.take(trimmed.len() as int) =~= front.take(trimmed.len() as int));
        assert forall|i: int| trimmed.len() <= i < text.len() implies #[trigger] text[i] == '/' by {
            if i < front.len() {
                assert(front[i] == text[i]);
            }
        }
    } else {
        assert(text.take(text.len() as int) =~= text);
    }
}

/// One text is joined to itself, and a further text comes behind a separator.
pub proof fn law_joined(parts: Seq<Seq<char>>, separator: Seq<char>, part: Seq<char>)
    ensures
        joined(Seq::empty(), separator) == Seq::<char>::empty(),
        joined(seq![part], separator) == part,
        parts.len() > 0 ==> joined(parts.push(part), separator) == joined(parts, separator)
            + separator + part,
{
    if parts.len() > 0 {
        assert(parts.push(part).drop_last() =~= parts);
    }
}

/// Two texts are in order exactly if the first is where the second begins, or if it is smaller at
/// the first place where they differ.
pub proof fn law_text_le(a: Seq<char>, b: Seq<char>)
    ensures
        text_le(a, b) <==> a.is_prefix_of(b) || exists|k: int|
            {
                &&& 0 <= k < a.len() && k < b.len()
                &&& a.take(k) == b.take(k)
                &&& (#[trigger] a[k] as u32) < (b[k] as u32)
            },
    decreases a.len(),
{
    if a.len() > 0 && b.len() > 0 {
        let c = a.drop_first();
        let d = b.drop_first();
        law_text_le(c, d);
        if a[0] == b[0] {
            if c.is_prefix_of(d) {
                assert forall|i: int| 0 <= i < a.len() implies a[i] == b[i] by {
                    if i > 0 {
                        assert(c[i - 1] == d[i - 1]);
                    }
                }
                assert(a =~= b.subrange(0, a.len() as int));
            }
            if a.is_prefix_of(b) {
                assert forall|i: int| 0 <= i < c.len() implies c[i] == d[i] by {
                    assert(a[i + 1] == b[i + 1]);
                }
                assert(c =~= d.subrange(0, c.len() as int));
            }
            if exists|k: int|
                0 <= k < c.len() && k < d.len() && c.take(k) == d.take(k) && (
                #[trigger] c[k] as u32) < (d[k] as u32) {
                let k = choose|k: int|
                    0 <= k < c.len() && k < d.len() && c.take(k) == d.take(k) && (
                    #[trigger] c[k] as u32) < (d[k] as u32);
                let p = k + 1;
                assert forall|i: int| 0 <= i < p implies #[trigger] a.take(p)[i] == b.take(p)[i] by {
                    if i > 0 {
                        assert(c.take(k)[i - 1] == d.take(k)[i - 1]);
                    }
                }
                assert(a.take(p) =~= b.take(p));
                assert((a[k + 1] as u32) < (b[k + 1] as u32));
            }
            if exists|k: int|
                0 <= k < a.len() && k < b.len() && a.take(k) == b.take(k) && (
                #[trigger] a[k] as u32) < (b[k] as u32) {
                let k = choose|k: int|
                    0 <= k < a.len() && k < b.len() && a.take(k) == b.take(k) && (
                    #[trigger] a[k] as u32) < (b[k] as u32);
                assert(k > 0);
                let p = k - 1;
                assert forall|i: int| 0 <= i < p implies #[trigger] c.take(p)[i] == d.take(p)[i] by {
                    assert(a.take(k)[i + 1] == b.take(k)[i + 1]);
                }
                assert(c.take(p) =~= d.take(p));
                assert((c[k - 1] as u32) < (d[k - 1] as u32));
            }
        } else {
            assert(a.take(0) =~= b.take(0));
            if exists|k: int|
                0 <= k < a.len() && k < b.len() && a.take(k) == b.take(k) && (
                #[trigger] a[k] as u32) < (b[k] as u32) {
                let k = choose|k: int|
                    0 <= k < a.len() && k < b.len() && a.take(k) == b.take(k) && (
                    #[trigger] a[k] as u32) < (b[k] as u32);
                if k > 0 {
                    assert(a.take(k)[0] == b.take(k)[0]);
                }
            }
            if a.is_prefix_of(b) {
                assert(a[0] == b.subrange(0, a.len() as int)[0]);
            }
            if (a[0] as u32) < (b[0] as u32) {
                assert((a[0] as u32) < (b[0] as u32) && a.take(0) == b.take(0));
            }
        }
    } else if a.len() == 0 {
        assert(a =~= b.subrange(0, 0));
    }
}

/// Read digit by digit, a number in decimal notation is that number, and it has no leading zero.
pub proof fn law_decimal(n: nat)
    ensures
        decimal(n).fold_left(0int, |value: int, c: char| 10 * value + (c as int - '0' as int)) == n,
        forall|i: int| 0 <= i < decimal(n).len() ==> '0' <= #[trigger] decimal(n)[i] <= '9',
        decimal(n).len() > 1 ==> decimal(n)[0] != '0',
        decimal(n).len() > 0,
    decreases n,
{
    let read = |value: int, c: char| 10 * value + (c as int - '0' as int);
    reveal_with_fuel(Seq::fold_left, 2);
    if n < 10 {
        let one = seq![digit(n)];
        assert(one.drop_last() =~= Seq::<char>::empty());
    } else {
        law_decimal(n / 10);
        let front = decimal(n / 10);
        assert(decimal(n).drop_last() =~= front);
        assert(decimal(n).fold_left(0int, read) == read(front.fold_left(0int, read), digit(n % 10)));
        assert forall|i: int| 0 <= i < decimal(n).len() implies '0' <= #[trigger] decimal(n)[i]
            <= '9' by {
            if i < front.len() {
                assert(decimal(n)[i] == front[i]);
            }
        }
        assert(decimal(n)[0] == front[0]);
        if front.len() == 1 {
            assert(n / 10 < 10) by {
                if n / 10 >= 10 {
                    lemma_decimal_is_not_empty(n / 10 / 10);
                }
            }
            assert(front[0] == digit(n / 10));
        }
    }
}

/// The texts of strings, and of an optional string, are theirs.
pub proof fn law_texts(strings: Seq<String>, string: Option<String>)
    ensures
        texts(strings).len() == strings.len(),
        forall|i: int| 0 <= i < strings.len() ==> #[trigger] texts(strings)[i] == strings[i]@,
        string matches Some(s) ==> opt_text(string) == Some(s@),
        string is None ==> opt_text(string) is None,
{
}

/// Sorts texts with `Itertools::sorted`, which yields all items of an iterator in ascending
/// order. The claim: the result holds the same texts, each as often as before, and every text is
/// at most the texts behind it. Strings are ordered as std documents: by their bytes, which is the
/// order of their code points.
#[verifier::external_body]
pub(crate) fn sorted_texts(strings: Vec<String>) -> (sorted: Vec<String>)
    ensures
        texts(sorted@).to_multiset() == texts(strings@).to_multiset(),
        forall|i: int, j: int|
            0 <= i <= j < sorted@.len() ==> text_le(#[trigger] sorted@[i]@, #[trigger] sorted@[j]@),
{
    strings.into_iter().sorted().collect()
}

/// What the operations on text give, by what they are given.
pub proof fn law_text_operations(
    text: &str,
    other: &str,
    equal: bool,
    found: bool,
    trimmed: String,
    n: u64,
    digits: String,
    parts: Vec<String>,
    whole: String,
)
    requires
        call_ensures(text_eq, (text, other), equal),
        call_ensures(contains_text, (text, other), found),
        call_ensures(trim_trailing_slashes, (text,), trimmed),
        call_ensures(decimal_text, (n,), digits),
        call_ensures(join_texts, (&parts, other), whole),
    ensures
        equal <==> text@ == other@,
        found <==> contains(text@, other@),
        trimmed@ == without_trailing_slashes(text@),
        digits@ == decimal(n as nat),
        whole@ == joined(texts(parts@), other@),
{
}

} // verus!
