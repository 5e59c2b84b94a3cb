use vstd::prelude::*;
use vstd::string::{StrSliceExecFns, StringExecFns};

verus! {

/// Whether `c` has the Unicode `White_Space` property, which is what
/// `char::is_whitespace` tells: the 25 code points U+0009..U+000D, U+0020,
/// U+0085, U+00A0, U+1680, U+2000..U+200A, U+2028, U+2029, U+202F, U+205F
/// and U+3000.
pub open spec fn is_white_space(c: char) -> bool {
    let v = c as u32;
    ||| 0x09 <= v <= 0x0D
    ||| v == 0x20
    ||| v == 0x85
    ||| v == 0xA0
    ||| v == 0x1680
    ||| 0x2000 <= v <= 0x200A
    ||| v == 0x2028
    ||| v == 0x2029
    ||| v == 0x202F
    ||| v == 0x205F
    ||| v == 0x3000
}

/// Whether `c` has the Unicode `White_Space` property, as
/// `char::is_whitespace` tells.
pub fn char_is_whitespace(c: char) -> (r: bool)
    ensures
        r == is_white_space(c),
{
    let v = c as u32;
    (0x09 <= v && v <= 0x0D) || v == 0x20 || v == 0x85 || v == 0xA0 || v == 0x1680 || (0x2000 <= v
        && v <= 0x200A) || v == 0x2028 || v == 0x2029 || v == 0x202F || v == 0x205F || v == 0x3000
}

/// Calls `String::push`, which appends `c` at the end of `s`.
#[verifier::external_body]
pub(crate) fn push_char(s: &mut String, c: char)
    ensures
        final(s)@ == old(s)@.push(c),
{
    s.push(c)
}

/// Calls `String::pop`, which removes and returns the last character of `s`,
/// or returns `None` and leaves `s` alone when `s` is empty.
#[verifier::external_body]
pub(crate) fn pop_char(s: &mut String) -> (r: Option<char>)
    ensures
        old(s)@.len() == 0 ==> r is None && final(s)@ == old(s)@,
        old(s)@.len() > 0 ==> r == Some(old(s)@.last()) && final(s)@ == old(s)@.drop_last(),
{
    s.pop()
}

/// Appends `t` at the end of `s`.
pub(crate) fn push_str(s: &mut String, t: &str)
    ensures
        final(s)@ == old(s)@ + t@,
{
    s.append(t);
}

/// The decimal digit for `d` (which is below 10).
pub open spec fn digit_char(d: nat) -> char {
    (48 + d) as char
}

/// The decimal notation of `n`: its digits, most significant first, without
/// leading zeros.
pub open spec fn decimal(n: nat) -> Seq<char>
    decreases n,
{
    if n < 10 {
        seq![digit_char(n)]
    } else {
        decimal(n / 10).push(digit_char(n % 10))
    }
}

/// The decimal digit for `d`.
fn digit(d: u64) -> (c: char)
    requires
        d < 10,
    ensures
        c == digit_char(d as nat),
{
    let b: u8 = 48 + d as u8;
    b as char
}

/// The decimal notation of `n`, as `u64::to_string` writes it.
pub fn decimal_text(n: u64) -> (r: String)
    ensures
        r@ == decimal(n as nat),
    decreases n,
{
    if n < 10 {
        let mut s = String::new();
        push_char(&mut s, digit(n));
        assert(s@ =~= decimal(n as nat));
        s
    } else {
        let mut s = decimal_text(n / 10);
        push_char(&mut s, digit(n % 10));
        s
    }
}

/// A string literal as an owned `String` with the same characters.
pub(crate) fn owned(s: &str) -> (r: String)
    ensures
        r@ == s@,
{
    broadcast use vstd::string::to_string_from_display_ensures_for_str;

    s.to_string()
}

/// `s` without its leading white space.
pub open spec fn trim_start_spec(s: Seq<char>) -> Seq<char>
    decreases s.len(),
{
    if s.len() > 0 && is_white_space(s[0]) {
        trim_start_spec(s.drop_first())
    } else {
        s
    }
}

/// `s` without its trailing white space.
pub open spec fn trim_end_spec(s: Seq<char>) -> Seq<char>
    decreases s.len(),
{
    if s.len() > 0 && is_white_space(s.last()) {
        trim_end_spec(s.drop_last())
    } else {
        s
    }
}

/// `s` without its leading and trailing white space.
pub open spec fn trim_spec(s: Seq<char>) -> Seq<char> {
    trim_end_spec(trim_start_spec(s))
}

/// `s` holds nothing but white space.
pub open spec fn is_blank_spec(s: Seq<char>) -> bool {
    forall|i: int| 0 <= i < s.len() ==> is_white_space(#[trigger] s[i])
}

proof fn lemma_trim_start(s: Seq<char>)
    ensures
        trim_start_spec(s).len() == 0 <==> is_blank_spec(s),
        trim_start_spec(s).len() > 0 ==> !is_white_space(trim_start_spec(s)[0]),
    decreases s.len(),
{
    if s.len() > 0 && is_white_space(s[0]) {
        lemma_trim_start(s.drop_first());
        if is_blank_spec(s.drop_first()) {
            assert forall|i: int| 0 <= i < s.len() implies is_white_space(#[trigger] s[i]) by {
                if i > 0 {
                    assert(s[i] == s.drop_first()[i - 1]);
                }
            }
        }
        if is_blank_spec(s) {
            assert forall|i: int| 0 <= i < s.drop_first().len() implies is_white_space(
                #[trigger] s.drop_first()[i],
            ) by {
                assert(s.drop_first()[i] == s[i + 1]);
            }
        }
    }
}

proof fn lemma_trim_end_keeps_first(s: Seq<char>)
    requires
        s.len() > 0,
        !is_white_space(s[0]),
    ensures
        trim_end_spec(s).len() > 0,
        trim_end_spec(s)[0] == s[0],
        trim_end_spec(s).len() <= s.len(),
    decreases s.len(),
{
    if is_white_space(s.last()) {
        lemma_trim_end_keeps_first(s.drop_last());
    }
}

/// A trimmed text is blank exactly when the text was, and is never blank
/// when it holds anything.
pub proof fn lemma_trim_blank(s: Seq<char>)
    ensures
        trim_spec(s).len() == 0 <==> is_blank_spec(s),
        trim_spec(s).len() > 0 ==> !is_blank_spec(trim_spec(s)),
{
    lemma_trim_start(s);
    let t = trim_start_spec(s);
    if t.len() > 0 {
        lemma_trim_end_keeps_first(t);
        assert(!is_white_space(trim_spec(s)[0]));
    } else {
        assert(trim_end_spec(t) == t);
    }
}

/// `s` without its leading and trailing white space, as `str::trim` gives it.
pub fn trim_text(s: &str) -> (r: &str)
    ensures
        r@ == trim_spec(s@),
{
    let n = s.unicode_len();
    let mut a: usize = 0;
    let mut stop = false;
    assert(s@.subrange(0, n as int) =~= s@);
    while a < n && !stop
        invariant
            n == s@.len(),
            a <= n,
            trim_start_spec(s@) == trim_start_spec(s@.subrange(a as int, n as int)),
            stop ==> a < n && !is_white_space(s@[a as int]),
        decreases n - a, if stop { 0int } else { 1int },
    {
        let c = s.get_char(a);
        if char_is_whitespace(c) {
            proof {
                let u = s@.subrange(a as int, n as int);
                assert(u[0] == c);
                assert(u.drop_first() =~= s@.subrange(a + 1, n as int));
            }
            a = a + 1;
        } else {
            stop = true;
        }
    }
    let ghost t = s@.subrange(a as int, n as int);
    assert(trim_start_spec(s@) == t) by {
        if a < n {
            assert(t[0] == s@[a as int]);
        }
    }
    let mut b: usize = n;
    let mut stop_end = false;
    while b > a && !stop_end
        invariant
            n == s@.len(),
            a <= b <= n,
            t == s@.subrange(a as int, n as int),
            trim_end_spec(t) == trim_end_spec(s@.subrange(a as int, b as int)),
            stop_end ==> b > a && !is_white_space(s@[b - 1]),
        decreases b - a, if stop_end { 0int } else { 1int },
    {
        let c = s.get_char(b - 1);
        if char_is_whitespace(c) {
            proof {
                let u = s@.subrange(a as int, b as int);
                assert(u.last() == c);
                assert(u.drop_last() =~= s@.subrange(a as int, b - 1));
            }
            b = b - 1;
        } else {
            stop_end = true;
        }
    }
    proof {
        let u = s@.subrange(a as int, b as int);
        if b > a {
            assert(u.last() == s@[b - 1]);
        }
    }
    s.substring_char(a, b)
}

/// Whether the text is empty once its leading and trailing white space is
/// removed, as `trim().is_empty()` tells.
pub fn is_blank(s: &str) -> (r: bool)
    ensures
        r == is_blank_spec(s@),
{
    let t = trim_text(s);
    proof {
        lemma_trim_blank(s@);
    }
    t.is_empty()
}

/// The views of a sequence of strings.
pub open spec fn strings_view(v: Seq<String>) -> Seq<Seq<char>> {
    v.map_values(|s: String| s@)
}

/// Reading `s` from the left: the words completed so far, and the word
/// being read. A word is a run of characters that are not white space.
pub open spec fn split_state(s: Seq<char>) -> (Seq<Seq<char>>, Seq<char>)
    decreases s.len(),
{
    if s.len() == 0 {
        (Seq::empty(), Seq::empty())
    } else {
        let (words, current) = split_state(s.drop_last());
        if is_white_space(s.last()) {
            if current.len() > 0 {
                (words.push(current), Seq::empty())
            } else {
                (words, current)
            }
        } else {
            (words, current.push(s.last()))
        }
    }
}

/// The words of `s`, in order: its maximal runs of characters that are not
/// white space, as `str::split_whitespace` gives them.
pub open spec fn words_of(s: Seq<char>) -> Seq<Seq<char>> {
    let (words, current) = split_state(s);
    if current.len() > 0 {
        words.push(current)
    } else {
        words
    }
}

/// The words of `text`.
pub fn split_words(text: &str) -> (r: Vec<String>)
    ensures
        strings_view(r@) == words_of(text@),
{
    let n = text.unicode_len();
    let mut words: Vec<String> = Vec::new();
    let mut current = String::new();
    let mut i: usize = 0;
    assert(text@.subrange(0, 0) =~= Seq::<char>::empty());
    assert(strings_view(words@) =~= Seq::<Seq<char>>::empty());
    while i < n
        invariant
            n == text@.len(),
            i <= n,
            (strings_view(words@), current@) == split_state(text@.subrange(0, i as int)),
        decreases n - i,
    {
        let c = text.get_char(i);
        proof {
            assert(text@.subrange(0, i + 1).drop_last() =~= text@.subrange(0, i as int));
            assert(text@.subrange(0, i + 1).last() == c);
        }
        if char_is_whitespace(c) {
            if !current.as_str().is_empty() {
                let ghost before = words@;
                let ghost word = current@;
                words.push(current);
                current = String::new();
                proof {
                    assert(strings_view(words@) =~= strings_view(before).push(word));
                }
            }
        } else {
            push_char(&mut current, c);
        }
        i = i + 1;
    }
    assert(text@.subrange(0, n as int) =~= text@);
    if !current.as_str().is_empty() {
        let ghost before = words@;
        let ghost word = current@;
        words.push(current);
        proof {
            assert(strings_view(words@) =~= strings_view(before).push(word));
        }
    }
    words
}

/// The length of the UTF-8 encoding of `s`, which `str::len` gives.
pub open spec fn utf8_len(s: Seq<char>) -> nat {
    vstd::utf8::encode_utf8(s).len()
}

/// UTF-8 lengths add up over concatenation.
pub proof fn lemma_utf8_len_add(a: Seq<char>, b: Seq<char>)
    ensures
        utf8_len(a + b) == utf8_len(a) + utf8_len(b),
    decreases a.len(),
{
    if a.len() == 0 {
        assert(a + b =~= b);
    } else {
        assert((a + b).drop_first() =~= a.drop_first() + b);
        assert((a + b)[0] == a[0]);
        lemma_utf8_len_add(a.drop_first(), b);
    }
}

/// Every character takes at least one byte, and a space exactly one.
pub proof fn lemma_utf8_len_char(c: char)
    ensures
        utf8_len(seq![c]) >= 1,
        c == ' ' ==> utf8_len(seq![c]) == 1,
{
    assert(seq![c].drop_first() =~= Seq::<char>::empty());
    assert(vstd::utf8::encode_utf8(Seq::<char>::empty()).len() == 0);
    if c == ' ' {
        assert(c as u32 == 32);
        assert(vstd::utf8::has_width_1_encoding(c as u32));
    }
}

/// The total UTF-8 length of some words, each counted with one byte more.
pub open spec fn words_cost(words: Seq<Seq<char>>) -> nat
    decreases words.len(),
{
    if words.len() == 0 {
        0
    } else {
        utf8_len(words[0]) + 1 + words_cost(words.drop_first())
    }
}

pub proof fn lemma_words_cost_push(words: Seq<Seq<char>>, w: Seq<char>)
    ensures
        words_cost(words.push(w)) == words_cost(words) + utf8_len(w) + 1,
    decreases words.len(),
{
    if words.len() > 0 {
        assert(words.push(w).drop_first() =~= words.drop_first().push(w));
        assert(words.push(w)[0] == words[0]);
        lemma_words_cost_push(words.drop_first(), w);
    } else {
        assert(words.push(w).drop_first() =~= Seq::<Seq<char>>::empty());
        assert(words_cost(Seq::<Seq<char>>::empty()) == 0);
        assert(words.push(w)[0] == w);
    }
}

proof fn lemma_split_state_cost(s: Seq<char>)
    ensures
        words_cost(split_state(s).0) + utf8_len(split_state(s).1) <= utf8_len(s),
    decreases s.len(),
{
    if s.len() > 0 {
        lemma_split_state_cost(s.drop_last());
        let (words, current) = split_state(s.drop_last());
        let c = s.last();
        assert(s =~= s.drop_last() + seq![c]);
        lemma_utf8_len_add(s.drop_last(), seq![c]);
        lemma_utf8_len_char(c);
        if is_white_space(c) {
            if current.len() > 0 {
                lemma_words_cost_push(words, current);
            }
        } else {
            lemma_utf8_len_add(current, seq![c]);
            assert(current.push(c) =~= current + seq![c]);
        }
    }
}

/// The words of a text, each counted with one byte more, take at most one
/// byte more than the text.
pub proof fn lemma_words_cost(s: Seq<char>)
    ensures
        words_cost(words_of(s)) <= utf8_len(s) + 1,
{
    lemma_split_state_cost(s);
    let (words, current) = split_state(s);
    if current.len() > 0 {
        lemma_words_cost_push(words, current);
    }
}

} // verus!
