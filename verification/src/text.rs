//! Character-level facts about strings, and the few `std` string functions
//! the launcher relies on.

use vstd::prelude::*;
use vstd::string::*;

verus! {

/// `needle` occurs in `hay` starting at position `i`.
pub open spec fn occurs_at(hay: Seq<char>, needle: Seq<char>, i: int) -> bool {
    &&& 0 <= i
    &&& i + needle.len() <= hay.len()
    &&& hay.subrange(i, i + needle.len()) == needle
}

/// `needle` occurs somewhere in `hay`.
pub open spec fn contains(hay: Seq<char>, needle: Seq<char>) -> bool {
    exists|i: int| occurs_at(hay, needle, i)
}

/// `hay` ends with `suffix`.
pub open spec fn ends_with(hay: Seq<char>, suffix: Seq<char>) -> bool {
    &&& suffix.len() <= hay.len()
    &&& hay.subrange(hay.len() - suffix.len(), hay.len() as int) == suffix
}

/// What occurs in the back part of a string occurs in the string.
pub proof fn lemma_contains_in_back(front: Seq<char>, back: Seq<char>, needle: Seq<char>)
    requires
        contains(back, needle),
    ensures
        contains(front + back, needle),
{
    let i = choose|i: int| occurs_at(back, needle, i);
    let whole = front + back;
    assert(whole.subrange(front.len() + i, front.len() + i + needle.len()) =~= back.subrange(
        i,
        i + needle.len(),
    ));
    assert(occurs_at(whole, needle, front.len() + i));
}

/// `str::contains` with a string pattern: true exactly when the pattern
/// occurs as a contiguous run of characters of the haystack.
#[verifier::external_body]
pub(crate) fn str_contains(hay: &str, needle: &str) -> (r: bool)
    ensures
        r == contains(hay@, needle@),
{
    hay.contains(needle)
}

/// `str::ends_with` with a string pattern: true exactly when the pattern is
/// a suffix of the string.
#[verifier::external_body]
pub(crate) fn str_ends_with(hay: &str, suffix: &str) -> (r: bool)
    ensures
        r == ends_with(hay@, suffix@),
{
    hay.ends_with(suffix)
}

/// The decimal digit `d` as a character.
pub open spec fn digit(d: nat) -> char {
    if d == 0 {
        '0'
    } else if d == 1 {
        '1'
    } else if d == 2 {
        '2'
    } else if d == 3 {
        '3'
    } else if d == 4 {
        '4'
    } else if d == 5 {
        '5'
    } else if d == 6 {
        '6'
    } else if d == 7 {
        '7'
    } else if d == 8 {
        '8'
    } else {
        '9'
    }
}

/// The decimal numeral of `n`, without leading zeros.
pub open spec fn decimal(n: nat) -> Seq<char>
    decreases n,
{
    if n < 10 {
        seq![digit(n)]
    } else {
        decimal(n / 10).push(digit(n % 10))
    }
}

fn digit_text(d: u64) -> (r: &'static str)
    requires
        d < 10,
    ensures
        r@ == seq![digit(d as nat)],
{
    proof {
        reveal_strlit("0");
        reveal_strlit("1");
        reveal_strlit("2");
        reveal_strlit("3");
        reveal_strlit("4");
        reveal_strlit("5");
        reveal_strlit("6");
        reveal_strlit("7");
        reveal_strlit("8");
        reveal_strlit("9");
    }
    let r = if d == 0 {
        "0"
    } else if d == 1 {
        "1"
    } else if d == 2 {
        "2"
    } else if d == 3 {
        "3"
    } else if d == 4 {
        "4"
    } else if d == 5 {
        "5"
    } else if d == 6 {
        "6"
    } else if d == 7 {
        "7"
    } else if d == 8 {
        "8"
    } else {
        "9"
    };
    assert(r@ =~= seq![digit(d as nat)]);
    r
}

/// Writes `n` in decimal.
pub fn to_decimal(n: u64) -> (r: String)
    ensures
        r@ == decimal(n as nat),
    decreases n,
{
    if n < 10 {
        String::from_str(digit_text(n))
    } else {
        let mut s = to_decimal(n / 10);
        s.append(digit_text(n % 10));
        assert(s@ =~= decimal((n / 10) as nat).push(digit((n % 10) as nat)));
        s
    }
}

/// The concatenation of two strings.
pub fn joined(a: &str, b: &str) -> (r: String)
    ensures
        r@ == a@ + b@,
{
    let mut s = String::from_str(a);
    s.append(b);
    s
}

/// Whether two strings hold the same characters.
pub fn same_text(a: &str, b: &str) -> (r: bool)
    ensures
        r == (a@ == b@),
{
    let x = String::from_str(a);
    let y = String::from_str(b);
    x == y
}

/// The characters of each string of a sequence.
pub open spec fn texts(items: Seq<String>) -> Seq<Seq<char>> {
    items.map_values(|s: String| s@)
}

/// White space, as Unicode's `White_Space` property has it: the controls
/// from tab to carriage return, the space, the next-line control, the
/// no-break space, and the spaces and separators of the general
/// punctuation and ideographic blocks.
pub open spec fn is_white_space(c: char) -> bool {
    let n = c as u32;
    ||| 0x09 <= n <= 0x0D
    ||| n == 0x20
    ||| n == 0x85
    ||| n == 0xA0
    ||| n == 0x1680
    ||| 0x2000 <= n <= 0x200A
    ||| n == 0x2028
    ||| n == 0x2029
    ||| n == 0x202F
    ||| n == 0x205F
    ||| n == 0x3000
}

/// How many characters of white space a string begins with.
pub open spec fn leading_white_space(s: Seq<char>) -> int
    decreases s.len(),
{
    if s.len() > 0 && is_white_space(s[0]) {
        1 + leading_white_space(s.drop_first())
    } else {
        0
    }
}

/// Where the white space at the end of a string begins.
pub open spec fn trailing_white_space(s: Seq<char>) -> int
    decreases s.len(),
{
    if s.len() > 0 && is_white_space(s.last()) {
        trailing_white_space(s.drop_last())
    } else {
        s.len() as int
    }
}

/// A string without the white space at its beginning and at its end.
pub open spec fn trimmed(s: Seq<char>) -> Seq<char> {
    if leading_white_space(s) < trailing_white_space(s) {
        s.subrange(leading_white_space(s), trailing_white_space(s))
    } else {
        Seq::empty()
    }
}

/// `str::trim`, with the result copied into a string of its own: the
/// string without its leading and trailing white space, white space being
/// what Unicode's `White_Space` property says it is.
#[verifier::external_body]
pub(crate) fn trim(s: &str) -> (r: String)
    ensures
        r@ == trimmed(s@),
{
    s.trim().to_string()
}

/// What `str::to_lowercase` makes of a string: each character replaced by
/// its lower-case form, as Unicode defines it.
pub uninterp spec fn lowercased(s: Seq<char>) -> Seq<char>;

/// `str::to_lowercase`.
#[verifier::external_body]
pub(crate) fn to_lowercase(s: &str) -> (r: String)
    ensures
        r@ == lowercased(s@),
{
    s.to_lowercase()
}

/// The order of strings: character by character, by code point, a proper
/// prefix before the longer string.
pub open spec fn lex_le(a: Seq<char>, b: Seq<char>) -> bool
    decreases a.len(),
{
    if a.len() == 0 {
        true
    } else if b.len() == 0 {
        false
    } else if a[0] == b[0] {
        lex_le(a.drop_first(), b.drop_first())
    } else {
        (a[0] as u32) < (b[0] as u32)
    }
}

/// Two strings that each come no later than the other are the same.
pub proof fn lemma_lex_antisymmetric(a: Seq<char>, b: Seq<char>)
    requires
        lex_le(a, b),
        lex_le(b, a),
    ensures
        a == b,
    decreases a.len(),
{
    if a.len() == 0 || b.len() == 0 {
        assert(a =~= b);
    } else {
        lemma_lex_antisymmetric(a.drop_first(), b.drop_first());
        assert(a =~= seq![a[0]] + a.drop_first());
        assert(b =~= seq![b[0]] + b.drop_first());
    }
}

/// No string comes before an earlier one.
pub open spec fn ascending(s: Seq<Seq<char>>) -> bool {
    forall|i: int, j: int| 0 <= i < j < s.len() ==> lex_le(#[trigger] s[i], #[trigger] s[j])
}

/// Each string comes strictly after those before it.
pub open spec fn strictly_ascending(s: Seq<Seq<char>>) -> bool {
    forall|i: int, j: int|
        0 <= i < j < s.len() ==> lex_le(#[trigger] s[i], #[trigger] s[j]) && s[i] != s[j]
}

/// A sequence with each run of equal neighbours reduced to its first.
pub open spec fn without_repeats(s: Seq<Seq<char>>) -> Seq<Seq<char>>
    decreases s.len(),
{
    if s.len() == 0 {
        s
    } else {
        let front = without_repeats(s.drop_last());
        if front.len() > 0 && front.last() == s.last() {
            front
        } else {
            front.push(s.last())
        }
    }
}

/// `sort` on a vector of strings: the same strings, each as often as
/// before, in ascending order.
#[verifier::external_body]
pub(crate) fn sort_strings(v: &mut Vec<String>)
    ensures
        ascending(texts(final(v)@)),
        texts(final(v)@).to_multiset() == texts(old(v)@).to_multiset(),
{
    v.sort()
}

/// `Vec::dedup` on a vector of strings: of each run of equal neighbours
/// only the first stays.
#[verifier::external_body]
pub(crate) fn dedup_strings(v: &mut Vec<String>)
    ensures
        texts(final(v)@) == without_repeats(texts(old(v)@)),
{
    v.dedup()
}

/// Reducing runs keeps the members: a string is in the result exactly
/// when it was in the sequence.
pub proof fn lemma_without_repeats_members(s: Seq<Seq<char>>, x: Seq<char>)
    ensures
        without_repeats(s).contains(x) <==> s.contains(x),
    decreases s.len(),
{
    if s.len() > 0 {
        let head = s.drop_last();
        let front = without_repeats(head);
        let out = without_repeats(s);
        lemma_without_repeats_members(head, x);
        if out.contains(x) {
            let k = choose|k: int| 0 <= k < out.len() && out[k] == x;
            if k < front.len() {
                assert(front[k] == x);
                assert(front.contains(x));
                assert(head.contains(x));
                let m = choose|m: int| 0 <= m < head.len() && head[m] == x;
                assert(s[m] == x);
            } else {
                assert(s[s.len() - 1] == x);
            }
            assert(s.contains(x));
        }
        if s.contains(x) {
            let m = choose|m: int| 0 <= m < s.len() && s[m] == x;
            if m < head.len() {
                assert(head[m] == x);
                assert(head.contains(x));
                assert(front.contains(x));
                let k = choose|k: int| 0 <= k < front.len() && front[k] == x;
                assert(out[k] == x);
            } else {
                assert(out[out.len() - 1] == x);
            }
            assert(out.contains(x));
        }
    }
}

/// Reducing the runs of an ascending sequence leaves a strictly ascending
/// one.
pub proof fn lemma_without_repeats(s: Seq<Seq<char>>)
    requires
        ascending(s),
    ensures
        strictly_ascending(without_repeats(s)),
    decreases s.len(),
{
    if s.len() > 0 {
        let head = s.drop_last();
        let front = without_repeats(head);
        let out = without_repeats(s);
        assert forall|i: int, j: int| 0 <= i < j < head.len() implies lex_le(
            #[trigger] head[i],
            #[trigger] head[j],
        ) by {
            assert(head[i] == s[i] && head[j] == s[j]);
        }
        lemma_without_repeats(head);
        if !(front.len() > 0 && front.last() == s.last()) {
            assert forall|i: int, j: int| 0 <= i < j < out.len() implies lex_le(
                #[trigger] out[i],
                #[trigger] out[j],
            ) && out[i] != out[j] by {
                if j < front.len() {
                    assert(out[i] == front[i] && out[j] == front[j]);
                } else {
                    assert(out[i] == front[i]);
                    assert(front.contains(front[i]));
                    lemma_without_repeats_members(head, front[i]);
                    let m = choose|m: int| 0 <= m < head.len() && head[m] == front[i];
                    assert(s[m] == front[i]);
                    assert(lex_le(s[m], s[s.len() - 1]));
                    if front[i] == s.last() {
                        // the last of `front` is the last of `head`
                        assert(front.last() == head.last());
                        assert(head.last() == s[s.len() - 2]);
                        if m < s.len() - 2 {
                            assert(lex_le(s[m], s[s.len() - 2]));
                        }
                        assert(lex_le(s[s.len() - 2], s[s.len() - 1]));
                        lemma_lex_antisymmetric(s[m], s[s.len() - 2]);
                    }
                }
            }
        }
    }
}

/// `s` without its last character, where that character is `c`.
pub open spec fn without_last(s: Seq<char>, c: char) -> Seq<char> {
    if s.len() > 0 && s.last() == c {
        s.drop_last()
    } else {
        s
    }
}

/// A line as typed: without the line feed at its end, and then without
/// the carriage return at its end.
pub open spec fn line_content(line: Seq<char>) -> Seq<char> {
    without_last(without_last(line, '\n'), '\r')
}

/// Takes the line ending off a line read from the terminal: one line
/// feed, and then one carriage return, where they stand at the end.
pub fn strip_line_ending(line: &str) -> (r: String)
    ensures
        r@ == line_content(line@),
{
    let n = line.unicode_len();
    let mut end: usize = n;
    if end > 0 && line.get_char(end - 1) == '\n' {
        end = end - 1;
    }
    assert(line@.subrange(0, end as int) =~= without_last(line@, '\n'));
    let ghost mid = line@.subrange(0, end as int);
    if end > 0 && line.get_char(end - 1) == '\r' {
        end = end - 1;
    }
    assert(line@.subrange(0, end as int) =~= without_last(mid, '\r'));
    line.substring_char(0, end).to_owned()
}

} // verus!
