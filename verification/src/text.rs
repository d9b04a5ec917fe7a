//! Text normalization: trimming, ideographic-space replacement, and verified
//! conversions between `&str` and `String`.

use vstd::prelude::*;

verus! {

/// The Unicode white-space characters: exactly those that trimming strips.
pub open spec fn is_ws_char(c: char) -> bool {
    ||| c == '\u{9}'
    ||| c == '\u{a}'
    ||| c == '\u{b}'
    ||| c == '\u{c}'
    ||| c == '\u{d}'
    ||| c == ' '
    ||| c == '\u{85}'
    ||| c == '\u{a0}'
    ||| c == '\u{1680}'
    ||| (0x2000 <= c as u32 && c as u32 <= 0x200a)
    ||| c == '\u{2028}'
    ||| c == '\u{2029}'
    ||| c == '\u{202f}'
    ||| c == '\u{205f}'
    ||| c == '\u{3000}'
}

/// Runtime check for [`is_ws_char`].
pub fn is_ws(c: char) -> (r: bool)
    ensures
        r == is_ws_char(c),
{
    let u = c as u32;
    u == 0x9 || u == 0xa || u == 0xb || u == 0xc || u == 0xd || u == 0x20 || u == 0x85
        || u == 0xa0 || u == 0x1680 || (0x2000 <= u && u <= 0x200a) || u == 0x2028 || u == 0x2029
        || u == 0x202f || u == 0x205f || u == 0x3000
}

/// The sequence with all leading white space removed.
pub open spec fn trim_start_spec(s: Seq<char>) -> Seq<char>
    decreases s.len(),
{
    if s.len() > 0 && is_ws_char(s[0]) {
        trim_start_spec(s.drop_first())
    } else {
        s
    }
}

/// The sequence with all trailing white space removed.
pub open spec fn trim_end_spec(s: Seq<char>) -> Seq<char>
    decreases s.len(),
{
    if s.len() > 0 && is_ws_char(s.last()) {
        trim_end_spec(s.drop_last())
    } else {
        s
    }
}

/// The sequence with leading and trailing white space removed.
pub open spec fn trim_spec(s: Seq<char>) -> Seq<char> {
    trim_end_spec(trim_start_spec(s))
}

/// Every ideographic space (U+3000) replaced by an ordinary space.
pub open spec fn replace_fw_space(s: Seq<char>) -> Seq<char> {
    s.map_values(|c: char| if c == '\u{3000}' { ' ' } else { c })
}

/// The normalization applied to every free-text field: trim, then replace
/// each ideographic space by an ordinary space.
pub open spec fn norm_text(s: Seq<char>) -> Seq<char> {
    replace_fw_space(trim_spec(s))
}

proof fn lemma_trim_start_at(s: Seq<char>, i: int)
    requires
        0 <= i <= s.len(),
        forall|j: int| 0 <= j < i ==> is_ws_char(s[j]),
        i < s.len() ==> !is_ws_char(s[i]),
    ensures
        trim_start_spec(s) == s.subrange(i, s.len() as int),
    decreases i,
{
    if i == 0 {
        assert(s.subrange(0, s.len() as int) =~= s);
    } else {
        lemma_trim_start_at(s.drop_first(), i - 1);
        assert(s.drop_first().subrange(i - 1, s.len() - 1) =~= s.subrange(i, s.len() as int));
    }
}

proof fn lemma_trim_end_at(s: Seq<char>, e: int)
    requires
        0 <= e <= s.len(),
        forall|j: int| e <= j < s.len() ==> is_ws_char(s[j]),
        e > 0 ==> !is_ws_char(s[e - 1]),
    ensures
        trim_end_spec(s) == s.subrange(0, e),
    decreases s.len() - e,
{
    if e == s.len() {
        assert(s.subrange(0, e) =~= s);
    } else {
        lemma_trim_end_at(s.drop_last(), e);
        assert(s.drop_last().subrange(0, e) =~= s.subrange(0, e));
    }
}

/// The character indices that trimming keeps: `text[r.0 .. r.1]` is the
/// trimmed text.
pub fn trim_bounds(text: &str) -> (r: (usize, usize))
    ensures
        r.0 <= r.1 && r.1 <= text@.len(),
        trim_spec(text@) == text@.subrange(r.0 as int, r.1 as int),
{
    let n = text.unicode_len();
    let mut start: usize = 0;
    while start < n && is_ws(text.get_char(start))
        invariant
            start <= n,
            n == text@.len(),
            forall|j: int| 0 <= j < start ==> is_ws_char(text@[j]),
        decreases n - start,
    {
        start += 1;
    }
    let mut end: usize = n;
    while end > start && is_ws(text.get_char(end - 1))
        invariant
            start <= end <= n,
            n == text@.len(),
            forall|j: int| end <= j < n ==> is_ws_char(text@[j]),
        decreases end,
    {
        end -= 1;
    }
    proof {
        lemma_trim_start_at(text@, start as int);
        let sub = text@.subrange(start as int, n as int);
        assert(forall|j: int|
            (end - start) <= j < sub.len() ==> is_ws_char(#[trigger] sub[j]));
        lemma_trim_end_at(sub, end - start);
        assert(sub.subrange(0, end - start) =~= text@.subrange(start as int, end as int));
    }
    (start, end)
}

/// Relies on `String::push`: appends exactly the given character.
#[verifier::external_body]
fn push_char(s: &mut String, c: char)
    ensures
        final(s)@ == old(s)@.push(c),
{
    s.push(c);
}

/// Trims the text and replaces each ideographic space by an ordinary space.
pub fn trim_and_replace(text: &str) -> (r: String)
    ensures
        r@ == norm_text(text@),
{
    let (start, end) = trim_bounds(text);
    let mut r = String::new();
    let mut k = start;
    proof {
        assert(r@ =~= replace_fw_space(text@.subrange(start as int, start as int)));
    }
    while k < end
        invariant
            start <= k <= end,
            end <= text@.len(),
            r@ == replace_fw_space(text@.subrange(start as int, k as int)),
        decreases end - k,
    {
        let c = text.get_char(k);
        let c2 = if c == '\u{3000}' {
            ' '
        } else {
            c
        };
        push_char(&mut r, c2);
        proof {
            assert(replace_fw_space(text@.subrange(start as int, k + 1)) =~= replace_fw_space(
                text@.subrange(start as int, k as int),
            ).push(
                if text@[k as int] == '\u{3000}' {
                    ' '
                } else {
                    text@[k as int]
                },
            ));
        }
        k += 1;
    }
    r
}

/// Character-for-character equality of two text slices.
pub fn str_eq(a: &str, b: &str) -> (r: bool)
    ensures
        r == (a@ == b@),
{
    let sa: String = a.to_owned();
    let sb: String = b.to_owned();
    sa == sb
}

/// Index of the first occurrence of `sep` in `s`, or `s.len()` if none.
pub open spec fn find_sep(s: Seq<char>, sep: char) -> nat
    decreases s.len(),
{
    if s.len() == 0 {
        0
    } else if s[0] == sep {
        0
    } else {
        1 + find_sep(s.drop_first(), sep)
    }
}

/// `find_sep` is determined by where the separators stand: if nothing before
/// `k` is a separator and `k` (when in range) is one, the first occurrence is
/// at `k`.
pub proof fn lemma_find_sep_at(s: Seq<char>, sep: char, k: int)
    requires
        0 <= k <= s.len(),
        forall|j: int| 0 <= j < k ==> s[j] != sep,
        k < s.len() ==> s[k] == sep,
    ensures
        find_sep(s, sep) == k,
    decreases k,
{
    if s.len() == 0 {
    } else if k == 0 {
    } else {
        assert(s[0] != sep);
        lemma_find_sep_at(s.drop_first(), sep, k - 1);
    }
}

/// The segments of `s` between occurrences of `sep`, in document order.
/// Empty segments are kept; a text without the separator is one segment.
pub open spec fn split_spec(s: Seq<char>, sep: char) -> Seq<Seq<char>>
    decreases s.len(),
{
    let i = find_sep(s, sep);
    if i >= s.len() {
        seq![s]
    } else {
        seq![s.subrange(0, i as int)].add(
            split_spec(s.subrange(i as int + 1, s.len() as int), sep),
        )
    }
}

/// Splits the text on the given separator character, keeping empty segments.
pub fn split_str(text: &str, sep: char) -> (r: Vec<String>)
    ensures
        r.deep_view() == split_spec(text@, sep),
        r@.len() >= 1,
{
    let n = text.unicode_len();
    let mut parts: Vec<String> = Vec::new();
    let mut cur = String::new();
    let mut seg_start: usize = 0;
    let mut i: usize = 0;
    proof {
        assert(cur@ =~= text@.subrange(0, 0));
        assert(text@.subrange(0, n as int) =~= text@);
        assert(parts.deep_view().add(split_spec(text@, sep)) =~= split_spec(text@, sep));
    }
    while i < n
        invariant
            seg_start <= i <= n,
            n == text@.len(),
            cur@ == text@.subrange(seg_start as int, i as int),
            forall|j: int| seg_start <= j < i ==> text@[j] != sep,
            split_spec(text@, sep) == parts.deep_view().add(
                split_spec(text@.subrange(seg_start as int, n as int), sep),
            ),
        decreases n - i,
    {
        let c = text.get_char(i);
        if c == sep {
            proof {
                let tail = text@.subrange(seg_start as int, n as int);
                assert forall|j: int| 0 <= j < i - seg_start implies tail[j] != sep by {
                    assert(tail[j] == text@[j + seg_start]);
                }
                lemma_find_sep_at(tail, sep, i - seg_start);
                assert(tail.subrange(0, i - seg_start) =~= cur@);
                assert(tail.subrange(i - seg_start + 1, tail.len() as int) =~= text@.subrange(
                    i + 1,
                    n as int,
                ));
            }
            let ghost old_parts = parts.deep_view();
            parts.push(cur);
            proof {
                assert(parts.deep_view() =~= old_parts.push(text@.subrange(
                    seg_start as int,
                    i as int,
                )));
                assert(old_parts.push(text@.subrange(seg_start as int, i as int)).add(
                    split_spec(text@.subrange(i + 1, n as int), sep),
                ) =~= old_parts.add(
                    seq![text@.subrange(seg_start as int, i as int)].add(
                        split_spec(text@.subrange(i + 1, n as int), sep),
                    ),
                ));
            }
            cur = String::new();
            seg_start = i + 1;
            proof {
                assert(cur@ =~= text@.subrange(seg_start as int, seg_start as int));
            }
        } else {
            push_char(&mut cur, c);
            proof {
                assert(text@.subrange(seg_start as int, i + 1) =~= text@.subrange(
                    seg_start as int,
                    i as int,
                ).push(text@[i as int]));
            }
        }
        i += 1;
    }
    proof {
        let tail = text@.subrange(seg_start as int, n as int);
        assert forall|j: int| 0 <= j < tail.len() implies tail[j] != sep by {
            assert(tail[j] == text@[j + seg_start]);
        }
        lemma_find_sep_at(tail, sep, tail.len() as int);
        assert(tail =~= cur@);
    }
    let ghost old_parts = parts.deep_view();
    parts.push(cur);
    proof {
        assert(parts.deep_view() =~= old_parts.push(text@.subrange(seg_start as int, n as int)));
        assert(old_parts.push(text@.subrange(seg_start as int, n as int)) =~= old_parts.add(
            seq![text@.subrange(seg_start as int, n as int)],
        ));
    }
    parts
}

/// A decimal digit.
pub open spec fn is_digit_char(c: char) -> bool {
    0x30 <= c as u32 && c as u32 <= 0x39
}

pub open spec fn all_digits(s: Seq<char>) -> bool {
    forall|i: int| 0 <= i < s.len() ==> is_digit_char(s[i])
}

pub open spec fn digit_val(c: char) -> nat {
    (c as u32 - 0x30) as nat
}

/// The value of a decimal digit string.
pub open spec fn digits_value(s: Seq<char>) -> nat
    decreases s.len(),
{
    if s.len() == 0 {
        0
    } else {
        digits_value(s.drop_last()) * 10 + digit_val(s.last())
    }
}

/// Numeric cell policy: a non-empty all-digit text (after trimming) whose
/// value fits the field parses to that value; anything else degrades to 0.
pub open spec fn numeric_value(s: Seq<char>) -> u16 {
    let t = trim_spec(s);
    if t.len() > 0 && all_digits(t) && digits_value(t) <= u16::MAX {
        digits_value(t) as u16
    } else {
        0
    }
}

proof fn lemma_digits_prefix(s: Seq<char>, k: int)
    requires
        0 <= k <= s.len(),
    ensures
        digits_value(s.subrange(0, k)) <= digits_value(s),
    decreases s.len() - k,
{
    if k == s.len() {
        assert(s.subrange(0, k) =~= s);
    } else {
        lemma_digits_prefix(s.drop_last(), k);
        assert(s.drop_last().subrange(0, k) =~= s.subrange(0, k));
    }
}

/// Parses a numeric cell: the trimmed text if it is all digits and fits,
/// otherwise 0.
pub fn parse_numeric(text: &str) -> (r: u16)
    ensures
        r == numeric_value(text@),
{
    let (start, end) = trim_bounds(text);
    let ghost t = trim_spec(text@);
    if start == end {
        return 0;
    }
    let mut acc: u32 = 0;
    let mut k = start;
    proof {
        assert(t.subrange(0, 0) =~= Seq::<char>::empty());
    }
    while k < end
        invariant
            start <= k <= end,
            start < end,
            end <= text@.len(),
            t == text@.subrange(start as int, end as int),
            t == trim_spec(text@),
            all_digits(t.subrange(0, k - start)),
            acc == digits_value(t.subrange(0, k - start)),
            acc <= 0xffff,
        decreases end - k,
    {
        let c = text.get_char(k);
        let u = c as u32;
        let ghost m = k - start;
        if u < 0x30 || u > 0x39 {
            proof {
                assert(t[m] == text@[k as int]);
                assert(!is_digit_char(t[m]));
                assert(!all_digits(t));
            }
            return 0;
        }
        let d = u - 0x30;
        proof {
            assert(t.subrange(0, m + 1).drop_last() =~= t.subrange(0, m));
            assert(t.subrange(0, m + 1).last() == t[m]);
            assert(t[m] == text@[k as int]);
            assert(digit_val(t[m]) == d);
            assert(digits_value(t.subrange(0, m + 1)) == acc * 10 + d);
            assert forall|j: int| 0 <= j < m + 1 implies is_digit_char(
                #[trigger] t.subrange(0, m + 1)[j],
            ) by {
                assert(t.subrange(0, m + 1)[j] == t.subrange(0, m + 1 - 1).push(t[m])[j]);
            }
        }
        let next: u32 = acc * 10 + d;
        if next > 0xffff {
            proof {
                if all_digits(t) {
                    lemma_digits_prefix(t, m + 1);
                }
            }
            return 0;
        }
        acc = next;
        k += 1;
    }
    proof {
        assert(t.subrange(0, end - start) =~= t);
    }
    acc as u16
}

/// Law: an all-digit text (after trimming) whose value fits parses to that
/// value; any text with non-digit content after trimming parses to 0.
pub proof fn lemma_parse_numeric_law(s: Seq<char>)
    ensures
        trim_spec(s).len() > 0 && all_digits(trim_spec(s)) && digits_value(trim_spec(s))
            <= u16::MAX ==> numeric_value(s) == digits_value(trim_spec(s)),
        !all_digits(trim_spec(s)) ==> numeric_value(s) == 0,
{
}

} // verus!
