//! Small text operations: naming conventions, comma lists, trimming, and the
//! character facts they rest on.
use vstd::prelude::*;
use vstd::string::{StrSliceExecFns, StringExecFns};

verus! {

broadcast use vstd::std_specs::vec::group_vec_axioms, vstd::seq::group_seq_axioms;

/// Whether `char::is_uppercase` holds of `c`.
pub uninterp spec fn char_is_uppercase(c: char) -> bool;

/// The first character of `char::to_lowercase` of `c`.
pub uninterp spec fn char_lowercase_first(c: char) -> char;

/// The Unicode White_Space property, which `char::is_whitespace` tests: tab
/// through carriage return, space, next line, no-break space, ogham space
/// mark, en quad through hair space, the line and paragraph separators,
/// narrow no-break space, medium mathematical space and ideographic space.
pub open spec fn char_is_whitespace(c: char) -> bool {
    let u = c as u32;
    ||| 9 <= u <= 13
    ||| u == 0x20 || u == 0x85 || u == 0xa0 || u == 0x1680
    ||| 0x2000 <= u <= 0x200a
    ||| u == 0x2028 || u == 0x2029 || u == 0x202f || u == 0x205f || u == 0x3000
}

/// The decimal digits of `n`, most significant first, with no leading zero.
pub open spec fn decimal(n: nat) -> Seq<char>
    decreases n,
{
    if n < 10 {
        seq![(48 + n) as char]
    } else {
        decimal(n / 10).push((48 + n % 10) as char)
    }
}

/// The text that `Debug` gives for a list of strings, such as `["a", "b"]`.
pub uninterp spec fn debug_string_list(items: Seq<Seq<char>>) -> Seq<char>;

pub open spec fn is_ascii_upper(c: char) -> bool {
    65 <= c as u32 <= 90
}

pub open spec fn is_ascii_lower_digit_or_underscore(c: char) -> bool {
    (97 <= c as u32 <= 122) || (48 <= c as u32 <= 57) || c == '_'
}

/// `char::is_uppercase`: whether `c` has the Unicode Uppercase property; the
/// contract states the answer for ASCII letters, digits and `_`.
#[verifier::external_body]
pub(crate) fn is_uppercase(c: char) -> (r: bool)
    ensures
        r == char_is_uppercase(c),
        is_ascii_upper(c) ==> r,
        is_ascii_lower_digit_or_underscore(c) ==> !r,
{
    c.is_uppercase()
}

/// The first character of `char::to_lowercase`, an iterator that always yields at
/// least one character; an ASCII capital maps to its small letter, and ASCII
/// small letters, digits and `_` map to themselves.
#[verifier::external_body]
pub(crate) fn lowercase_first(c: char) -> (r: char)
    ensures
        r == char_lowercase_first(c),
        is_ascii_upper(c) ==> r as u32 == c as u32 + 32,
        is_ascii_lower_digit_or_underscore(c) ==> r == c,
{
    c.to_lowercase().next().unwrap()
}

/// Whether `c` is whitespace in the sense of `char::is_whitespace`.
pub(crate) fn is_whitespace(c: char) -> (r: bool)
    ensures
        r == char_is_whitespace(c),
{
    let u = c as u32;
    (9 <= u && u <= 13) || u == 0x20 || u == 0x85 || u == 0xa0 || u == 0x1680 || (0x2000 <= u && u
        <= 0x200a) || u == 0x2028 || u == 0x2029 || u == 0x202f || u == 0x205f || u == 0x3000
}

/// `String::push`: appends `c`.
#[verifier::external_body]
pub(crate) fn push_char(s: &mut String, c: char)
    ensures
        final(s)@ == old(s)@.push(c),
{
    s.push(c)
}

/// Append the decimal digits of `n` to `out`.
fn push_decimal(n: usize, out: &mut String)
    ensures
        final(out)@ == old(out)@ + decimal(n as nat),
    decreases n,
{
    if n >= 10 {
        push_decimal(n / 10, out);
    }
    let digit = (48 + n % 10) as u8;
    push_char(out, digit as char);
    proof {
        assert(out@ =~= old(out)@ + decimal(n as nat));
    }
}

/// The decimal text of `n`, as `usize`'s `Display` writes it.
pub(crate) fn usize_to_string(n: usize) -> (r: String)
    ensures
        r@ == decimal(n as nat),
{
    let mut s = String::new();
    push_decimal(n, &mut s);
    proof {
        assert(s@ =~= decimal(n as nat));
    }
    s
}

/// The `Debug` text of a list of strings.
#[verifier::external_body]
pub(crate) fn debug_list(items: &Vec<String>) -> (r: String)
    ensures
        r@ == debug_string_list(items@.map_values(|s: String| s@)),
{
    format!("{:?}", items)
}

/// The snake_case form of a CamelCase name: an underscore before every
/// uppercase character except the first, and every character lowercased.
pub open spec fn snake_case(s: Seq<char>) -> Seq<char>
    decreases s.len(),
{
    if s.len() == 0 {
        Seq::empty()
    } else {
        let i = s.len() - 1;
        let c = s[i];
        snake_case(s.drop_last()) + (if char_is_uppercase(c) && i != 0 {
            seq!['_']
        } else {
            Seq::empty()
        }).push(char_lowercase_first(c))
    }
}

/// How many characters of `s` after its first are uppercase.
pub open spec fn capitals_after_first(s: Seq<char>) -> nat {
    if s.len() == 0 {
        0
    } else {
        s.drop_first().filter(|c: char| char_is_uppercase(c)).len()
    }
}

proof fn lemma_capitals_push(s: Seq<char>, c: char)
    ensures
        capitals_after_first(s.push(c)) == capitals_after_first(s) + (if s.len() > 0
            && char_is_uppercase(c) {
            1nat
        } else {
            0nat
        }),
{
    let t = s.push(c);
    if s.len() > 0 {
        assert(t.drop_first() =~= s.drop_first().push(c));
        s.drop_first().lemma_filter_push(c, |c: char| char_is_uppercase(c));
    } else {
        assert(t.drop_first() =~= Seq::<char>::empty());
        reveal(Seq::filter);
    }
}

/// snake_case writes every character of the name, lowercased, in order, and
/// puts an underscore right before each uppercase character after the first
/// one, and nothing else: character `i` lands at position `i` plus the
/// number of capitals after the first up to and including it, and the text
/// is longer than the name by the number of those capitals.
pub proof fn law_snake_case_splits_at_every_capital(s: Seq<char>)
    ensures
        snake_case(s).len() == s.len() + capitals_after_first(s),
        forall|i: int|
            0 <= i < s.len() ==> i + capitals_after_first(#[trigger] s.take(i + 1)) < snake_case(
                s,
            ).len(),
        forall|i: int|
            0 <= i < s.len() ==> snake_case(s)[i + capitals_after_first(#[trigger] s.take(i + 1))]
                == char_lowercase_first(s[i]),
        forall|i: int|
            0 < i < s.len() && char_is_uppercase(s[i]) ==> snake_case(s)[i + capitals_after_first(
                #[trigger] s.take(i + 1),
            ) - 1] == '_',
    decreases s.len(),
{
    if s.len() > 0 {
        let n = s.len() - 1;
        let p = s.drop_last();
        let c = s[n];
        law_snake_case_splits_at_every_capital(p);
        assert(p.push(c) =~= s);
        lemma_capitals_push(p, c);
        let out = snake_case(s);
        let head = snake_case(p);
        assert(out == head + (if char_is_uppercase(c) && n != 0 {
            seq!['_']
        } else {
            Seq::empty()
        }).push(char_lowercase_first(c)));
        assert forall|i: int| 0 <= i < n implies #[trigger] s.take(i + 1) == p.take(i + 1) by {
            assert(s.take(i + 1) =~= p.take(i + 1));
        }
        assert(s.take(n + 1) =~= s);
        assert forall|i: int| 0 <= i < s.len() implies i + capitals_after_first(
            #[trigger] s.take(i + 1),
        ) < out.len() && out[i + capitals_after_first(s.take(i + 1))] == char_lowercase_first(s[i])
            && (0 < i && char_is_uppercase(s[i]) ==> out[i + capitals_after_first(s.take(i + 1)) - 1]
            == '_') by {
            if i < n {
                assert(s.take(i + 1) == p.take(i + 1));
                assert(p[i] == s[i]);
                assert(out[i + capitals_after_first(p.take(i + 1))] == head[i + capitals_after_first(
                    p.take(i + 1),
                )]);
                if 0 < i && char_is_uppercase(s[i]) {
                    assert(out[i + capitals_after_first(p.take(i + 1)) - 1] == head[i
                        + capitals_after_first(p.take(i + 1)) - 1]);
                }
            }
        }
    }
}

/// The snake_case plural of a type name: its snake_case form followed by `s`.
pub open spec fn snake_case_plural(s: Seq<char>) -> Seq<char> {
    snake_case(s).push('s')
}

/// The snake_case plural of `s`, the default collection name of a schema
/// type: `UserProfile` becomes `user_profiles`.
pub fn to_snake_case_plural(s: &str) -> (out: String)
    ensures
        out@ == snake_case_plural(s@),
{
    let mut out = String::new();
    let n = s.unicode_len();
    let mut i: usize = 0;
    while i < n
        invariant
            n == s@.len(),
            i <= n,
            out@ == snake_case(s@.subrange(0, i as int)),
        decreases n - i,
    {
        let c = s.get_char(i);
        if is_uppercase(c) && i != 0 {
            push_char(&mut out, '_');
        }
        push_char(&mut out, lowercase_first(c));
        proof {
            let t = s@.subrange(0, i + 1);
            assert(t.drop_last() =~= s@.subrange(0, i as int));
            assert(t[t.len() - 1] == c);
        }
        i += 1;
    }
    proof {
        assert(s@.subrange(0, n as int) =~= s@);
    }
    push_char(&mut out, 's');
    out
}

/// The pieces of `s` between commas, as `str::split(',')` yields them:
/// empty pieces included, and one empty piece for an empty string.
pub open spec fn split_commas(s: Seq<char>) -> Seq<Seq<char>>
    decreases s.len(),
{
    if s.len() == 0 {
        seq![Seq::empty()]
    } else {
        let p = split_commas(s.drop_last());
        if s.last() == ',' {
            p.push(Seq::empty())
        } else {
            p.update(p.len() - 1, p.last().push(s.last()))
        }
    }
}

/// `s` without its leading whitespace.
pub open spec fn trim_start(s: Seq<char>) -> Seq<char>
    decreases s.len(),
{
    if s.len() > 0 && char_is_whitespace(s[0]) {
        trim_start(s.drop_first())
    } else {
        s
    }
}

/// `s` without its trailing whitespace.
pub open spec fn trim_end(s: Seq<char>) -> Seq<char>
    decreases s.len(),
{
    if s.len() > 0 && char_is_whitespace(s.last()) {
        trim_end(s.drop_last())
    } else {
        s
    }
}

/// `s` without leading and trailing whitespace, as `str::trim` gives it.
pub open spec fn trim(s: Seq<char>) -> Seq<char> {
    trim_end(trim_start(s))
}

/// Dropping leading whitespace before position `i` does not change what
/// trimming the start gives.
proof fn lemma_trim_start_from(s: Seq<char>, i: int)
    requires
        0 <= i <= s.len(),
        forall|j: int| 0 <= j < i ==> char_is_whitespace(#[trigger] s[j]),
    ensures
        trim_start(s) == trim_start(s.subrange(i, s.len() as int)),
    decreases i,
{
    if i > 0 {
        assert(s.len() > 0 && char_is_whitespace(s[0]));
        let t = s.drop_first();
        assert forall|j: int| 0 <= j < i - 1 implies char_is_whitespace(#[trigger] t[j]) by {
            assert(t[j] == s[j + 1]);
        }
        lemma_trim_start_from(t, i - 1);
        assert(t.subrange(i - 1, t.len() as int) =~= s.subrange(i, s.len() as int));
    } else {
        assert(s.subrange(0, s.len() as int) =~= s);
    }
}

/// Dropping trailing whitespace from position `k` on does not change what
/// trimming the end gives.
proof fn lemma_trim_end_to(s: Seq<char>, k: int)
    requires
        0 <= k <= s.len(),
        forall|j: int| k <= j < s.len() ==> char_is_whitespace(#[trigger] s[j]),
    ensures
        trim_end(s) == trim_end(s.subrange(0, k)),
    decreases s.len() - k,
{
    if k < s.len() {
        assert(char_is_whitespace(s.last()));
        let t = s.drop_last();
        lemma_trim_end_to(t, k);
        assert(t.subrange(0, k) =~= s.subrange(0, k));
    } else {
        assert(s.subrange(0, k) =~= s);
    }
}

/// The characters of `s` from `from` up to `to`.
fn chars_between(s: &str, from: usize, to: usize) -> (out: String)
    requires
        from <= to <= s@.len(),
    ensures
        out@ == s@.subrange(from as int, to as int),
{
    let mut out = String::new();
    let mut i = from;
    while i < to
        invariant
            from <= i <= to,
            to <= s@.len(),
            out@ == s@.subrange(from as int, i as int),
        decreases to - i,
    {
        push_char(&mut out, s.get_char(i));
        proof {
            assert(s@.subrange(from as int, i + 1) =~= s@.subrange(from as int, i as int).push(s@[i as int]));
        }
        i += 1;
    }
    out
}

/// `s` without leading and trailing whitespace.
pub fn trim_string(s: &str) -> (out: String)
    ensures
        out@ == trim(s@),
{
    let n = s.unicode_len();
    let mut start: usize = 0;
    while start < n && is_whitespace(s.get_char(start))
        invariant
            n == s@.len(),
            start <= n,
            forall|j: int| 0 <= j < start ==> char_is_whitespace(#[trigger] s@[j]),
        decreases n - start,
    {
        start += 1;
    }
    proof {
        lemma_trim_start_from(s@, start as int);
    }
    let ghost rest = s@.subrange(start as int, n as int);
    proof {
        if rest.len() > 0 {
            assert(rest[0] == s@[start as int]);
            assert(!char_is_whitespace(rest[0]));
        }
        assert(trim_start(rest) == rest);
    }
    let mut end: usize = n;
    while end > start && is_whitespace(s.get_char(end - 1))
        invariant
            n == s@.len(),
            start <= end <= n,
            rest == s@.subrange(start as int, n as int),
            forall|j: int| end - start <= j < rest.len() ==> char_is_whitespace(#[trigger] rest[j]),
        decreases end,
    {
        proof {
            assert(rest[end - 1 - start] == s@[end - 1]);
        }
        end -= 1;
    }
    proof {
        let k = (end - start) as int;
        lemma_trim_end_to(rest, k);
        let r = rest.subrange(0, k);
        if r.len() > 0 {
            assert(r.last() == s@[end - 1]);
        }
        assert(trim_end(r) == r);
        assert(r =~= s@.subrange(start as int, end as int));
    }
    chars_between(s, start, end)
}

/// The pieces of `s` between commas.
pub fn split_on_commas(s: &str) -> (parts: Vec<String>)
    ensures
        parts@.map_values(|p: String| p@) == split_commas(s@),
{
    let n = s.unicode_len();
    let mut parts: Vec<String> = Vec::new();
    let mut current = String::new();
    let mut i: usize = 0;
    proof {
        assert(s@.subrange(0, 0) =~= Seq::<char>::empty());
    }
    while i < n
        invariant
            n == s@.len(),
            i <= n,
            parts@.map_values(|p: String| p@).push(current@) == split_commas(s@.subrange(0, i as int)),
        decreases n - i,
    {
        let c = s.get_char(i);
        let ghost before = parts@.map_values(|p: String| p@).push(current@);
        let ghost t = s@.subrange(0, i + 1);
        proof {
            assert(t.drop_last() =~= s@.subrange(0, i as int));
            assert(t.last() == c);
        }
        if c == ',' {
            let done = current;
            parts.push(done);
            current = String::new();
            proof {
                assert(parts@.map_values(|p: String| p@).push(current@) =~= before.push(Seq::empty()));
            }
        } else {
            push_char(&mut current, c);
            proof {
                assert(parts@.map_values(|p: String| p@).push(current@) =~= before.update(
                    before.len() - 1,
                    before.last().push(c),
                ));
            }
        }
        i += 1;
    }
    proof {
        assert(s@.subrange(0, n as int) =~= s@);
    }
    parts.push(current);
    parts
}

} // verus!
