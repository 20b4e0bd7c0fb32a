use vstd::prelude::*;
use vstd::utf8::*;

verus! {

broadcast use vstd::string::group_string_axioms;

/// `'0'..='9'`.
pub open spec fn spec_is_ascii_digit(c: char) -> bool {
    '0' <= c && c <= '9'
}

/// The five ASCII whitespace characters: space, tab, line feed, form feed, carriage return.
pub open spec fn spec_is_ascii_whitespace(c: char) -> bool {
    c == ' ' || c == '\t' || c == '\n' || c == '\x0C' || c == '\r'
}

/// The 32 ASCII punctuation characters.
pub open spec fn spec_is_ascii_punctuation(c: char) -> bool {
    ||| ('!' <= c && c <= '/')
    ||| (':' <= c && c <= '@')
    ||| ('[' <= c && c <= '`')
    ||| ('{' <= c && c <= '~')
}

/// Whether `c` has the Unicode `Alphabetic` property, as `char::is_alphabetic` answers it.
pub uninterp spec fn char_is_alphabetic(c: char) -> bool;

pub fn is_ascii_digit(c: char) -> (r: bool)
    ensures
        r == spec_is_ascii_digit(c),
{
    '0' <= c && c <= '9'
}

pub fn is_ascii_whitespace(c: char) -> (r: bool)
    ensures
        r == spec_is_ascii_whitespace(c),
{
    c == ' ' || c == '\t' || c == '\n' || c == '\x0C' || c == '\r'
}

pub fn is_ascii_punctuation(c: char) -> (r: bool)
    ensures
        r == spec_is_ascii_punctuation(c),
{
    ('!' <= c && c <= '/') || (':' <= c && c <= '@') || ('[' <= c && c <= '`') || ('{' <= c
        && c <= '~')
}

/// Calls `char::is_alphabetic`; its result is the Unicode `Alphabetic` property of `c`,
/// which is named here and not spelled out.
#[verifier::external_body]
pub fn is_alphabetic(c: char) -> (r: bool)
    ensures
        r == char_is_alphabetic(c),
{
    c.is_alphabetic()
}

/// Number of bytes of the UTF-8 encoding of `c`.
pub open spec fn utf8_len(c: char) -> nat {
    if (c as u32) < 0x80 {
        1
    } else if (c as u32) < 0x800 {
        2
    } else if (c as u32) < 0x10000 {
        3
    } else {
        4
    }
}

/// Byte offset, in the UTF-8 encoding of `s`, of the character at index `i`.
pub open spec fn byte_offset(s: Seq<char>, i: int) -> nat {
    encode_utf8(s.subrange(0, i)).len()
}

pub fn len_utf8(c: char) -> (r: usize)
    ensures
        r == utf8_len(c),
{
    let u = c as u32;
    if u < 0x80 {
        1
    } else if u < 0x800 {
        2
    } else if u < 0x10000 {
        3
    } else {
        4
    }
}

pub proof fn lemma_encode_scalar_len(c: char)
    ensures
        encode_scalar(c as u32).len() == utf8_len(c),
{
    char_is_scalar(c);
}

pub proof fn lemma_encode_utf8_concat(a: Seq<char>, b: Seq<char>)
    ensures
        encode_utf8(a + b) == encode_utf8(a) + encode_utf8(b),
    decreases a.len(),
{
    if a.len() == 0 {
        assert(a + b =~= b);
        assert(encode_utf8(a) + encode_utf8(b) =~= encode_utf8(b));
    } else {
        lemma_encode_utf8_concat(a.drop_first(), b);
        assert((a + b).drop_first() =~= a.drop_first() + b);
        assert(encode_utf8(a + b) =~= encode_scalar(a[0] as u32) + encode_utf8(a.drop_first() + b));
    }
}

/// Moving past one character adds its UTF-8 length to the byte offset.
pub proof fn lemma_byte_offset_step(s: Seq<char>, i: int)
    requires
        0 <= i < s.len(),
    ensures
        byte_offset(s, i + 1) == byte_offset(s, i) + utf8_len(s[i]),
{
    let a = s.subrange(0, i);
    let b = seq![s[i]];
    assert(s.subrange(0, i + 1) =~= a + b);
    lemma_encode_utf8_concat(a, b);
    assert(b.drop_first() =~= Seq::<char>::empty());
    assert(encode_utf8(b) =~= encode_scalar(s[i] as u32) + encode_utf8(Seq::<char>::empty()));
    lemma_encode_scalar_len(s[i]);
}

pub proof fn lemma_byte_offset_mono(s: Seq<char>, i: int, j: int)
    requires
        0 <= i <= j <= s.len(),
    ensures
        byte_offset(s, i) <= byte_offset(s, j),
    decreases j - i,
{
    if i < j {
        lemma_byte_offset_mono(s, i, j - 1);
        lemma_byte_offset_step(s, j - 1);
    }
}

/// The characters of `s`, in order.
pub fn to_chars(s: &str) -> (v: Vec<char>)
    ensures
        v@ == s@,
{
    let mut v: Vec<char> = Vec::new();
    for c in it: s.chars()
        invariant
            v@ == it.seq().take(it.index() as int),
            it.seq() == s@,
    {
        v.push(c);
    }
    v
}

/// Whether `a` and `b` hold the same characters.
pub fn str_eq(a: &str, b: &str) -> (r: bool)
    ensures
        r == (a@ == b@),
{
    let n = a.unicode_len();
    if n != b.unicode_len() {
        return false;
    }
    let mut i: usize = 0;
    while i < n
        invariant
            n == a@.len(),
            n == b@.len(),
            i <= n,
            forall|k: int| 0 <= k < i ==> a@[k] == b@[k],
        decreases n - i,
    {
        if a.get_char(i) != b.get_char(i) {
            return false;
        }
        i = i + 1;
    }
    assert(a@ =~= b@);
    true
}

/// The byte length of `s`, which bounds every byte offset into it.
pub fn byte_len(s: &str) -> (n: usize)
    ensures
        n == encode_utf8(s@).len(),
        n == byte_offset(s@, s@.len() as int),
{
    let b = s.as_bytes();
    assert(s@.subrange(0, s@.len() as int) =~= s@);
    b.len()
}

} // verus!

verus! {

/// `s` without the prefix `p`, when `s` starts with `p`.
pub fn strip_prefix<'a>(s: &'a str, p: &str) -> (res: Option<&'a str>)
    ensures
        p@.is_prefix_of(s@) ==> (res matches Some(r) && r@ == s@.subrange(p@.len() as int, s@.len() as int)),
        !p@.is_prefix_of(s@) ==> res is None,
{
    let n = s.unicode_len();
    let m = p.unicode_len();
    if m > n {
        return None;
    }
    let mut i: usize = 0;
    while i < m
        invariant
            n == s@.len(),
            m == p@.len(),
            m <= n,
            i <= m,
            forall|k: int| 0 <= k < i ==> p@[k] == s@[k],
        decreases m - i,
    {
        if s.get_char(i) != p.get_char(i) {
            return None;
        }
        i = i + 1;
    }
    Some(s.substring_char(m, n))
}

/// End of the run of ASCII digits of `s` that starts at `i`.
pub open spec fn digit_end(s: Seq<char>, i: int) -> int
    decreases s.len() - i,
{
    if i < 0 || i >= s.len() || !spec_is_ascii_digit(s[i]) {
        i
    } else {
        digit_end(s, i + 1)
    }
}

pub proof fn lemma_digit_end(s: Seq<char>, i: int)
    requires
        0 <= i <= s.len(),
    ensures
        i <= digit_end(s, i) <= s.len(),
        forall|k: int| i <= k < digit_end(s, i) ==> spec_is_ascii_digit(#[trigger] s[k]),
    decreases s.len() - i,
{
    if i < s.len() && spec_is_ascii_digit(s[i]) {
        lemma_digit_end(s, i + 1);
    }
}

/// The number of ASCII digits at the start of `s`.
pub fn digit_prefix_len(s: &str) -> (n: usize)
    ensures
        n == digit_end(s@, 0),
        n <= s@.len(),
{
    let len = s.unicode_len();
    let mut index: usize = 0;
    proof {
        lemma_digit_end(s@, 0);
    }
    while index < len && is_ascii_digit(s.get_char(index))
        invariant
            len == s@.len(),
            index <= len,
            digit_end(s@, 0) == digit_end(s@, index as int),
        decreases len - index,
    {
        index = index + 1;
    }
    index
}

/// The number that the ASCII digits `s` spell in decimal.
pub open spec fn decimal_value(s: Seq<char>) -> nat
    decreases s.len(),
{
    if s.len() == 0 {
        0
    } else {
        decimal_value(s.drop_last()) * 10 + ((s.last() as u32) - ('0' as u32)) as nat
    }
}

pub open spec fn all_ascii_digits(s: Seq<char>) -> bool {
    forall|k: int| 0 <= k < s.len() ==> spec_is_ascii_digit(#[trigger] s[k])
}

proof fn lemma_decimal_value_grows(s: Seq<char>, i: int, j: int)
    requires
        0 <= i <= j <= s.len(),
        all_ascii_digits(s),
    ensures
        decimal_value(s.take(i)) <= decimal_value(s.take(j)),
    decreases j - i,
{
    if i < j {
        lemma_decimal_value_grows(s, i, j - 1);
        assert(s.take(j).drop_last() =~= s.take(j - 1));
    }
}

/// The decimal value of the digits `s`, when it is at most `limit`.
pub fn parse_decimal(s: &str, limit: u64) -> (res: Option<u64>)
    ensures
        (all_ascii_digits(s@) && s@.len() > 0 && decimal_value(s@) <= limit) ==> res == Some(decimal_value(s@) as u64),
        !(all_ascii_digits(s@) && s@.len() > 0 && decimal_value(s@) <= limit) ==> res is None,
{
    let n = s.unicode_len();
    if n == 0 {
        return None;
    }
    let ghost t = s@;
    let mut acc: u64 = 0;
    let mut i: usize = 0;
    while i < n
        invariant
            n == t.len(),
            t == s@,
            i <= n,
            forall|k: int| 0 <= k < i ==> spec_is_ascii_digit(#[trigger] t[k]),
            acc == decimal_value(t.take(i as int)),
            acc <= limit,
        decreases n - i,
    {
        let c = s.get_char(i);
        if !is_ascii_digit(c) {
            return None;
        }
        let d = ((c as u32) - ('0' as u32)) as u64;
        assert(t.take(i + 1).drop_last() =~= t.take(i as int));
        if d > limit || acc > (limit - d) / 10 {
            proof {
                assert(decimal_value(t.take(i + 1)) > limit) by (nonlinear_arith)
                    requires
                        decimal_value(t.take(i + 1)) == acc * 10 + d,
                        d > limit || acc > (limit - d) / 10,
                        d <= 9,
                ;
                if all_ascii_digits(t) {
                    lemma_decimal_value_grows(t, i + 1, n as int);
                    assert(t.take(n as int) =~= t);
                }
            }
            return None;
        }
        assert(acc * 10 + d <= limit) by (nonlinear_arith)
            requires
                d <= limit,
                acc <= (limit - d) / 10,
        ;
        acc = acc * 10 + d;
        i = i + 1;
    }
    assert(t.take(n as int) =~= t);
    Some(acc)
}


/// Lexicographic order of character sequences by code point, which is the order
/// of their UTF-8 encodings byte by byte.
pub open spec fn chars_less(a: Seq<char>, b: Seq<char>) -> bool
    decreases a.len(),
{
    if b.len() == 0 {
        false
    } else if a.len() == 0 {
        true
    } else if a[0] != b[0] {
        a[0] < b[0]
    } else {
        chars_less(a.drop_first(), b.drop_first())
    }
}

/// `chars_less` is a strict total order.
pub proof fn lemma_chars_less_order(a: Seq<char>, b: Seq<char>)
    ensures
        !chars_less(a, a),
        chars_less(a, b) ==> !chars_less(b, a),
        a != b ==> chars_less(a, b) || chars_less(b, a),
    decreases a.len(),
{
    if a.len() > 0 && b.len() > 0 && a[0] == b[0] {
        lemma_chars_less_order(a.drop_first(), b.drop_first());
        if a.drop_first() == b.drop_first() {
            assert(a =~= seq![a[0]] + a.drop_first());
            assert(b =~= seq![b[0]] + b.drop_first());
        }
    }
    if a.len() > 0 {
        lemma_chars_less_order(a.drop_first(), a.drop_first());
    }
    if a.len() == 0 && b.len() == 0 {
        assert(a =~= b);
    }
}

/// `chars_less` is transitive.
pub proof fn lemma_chars_less_trans(a: Seq<char>, b: Seq<char>, c: Seq<char>)
    requires
        chars_less(a, b),
        chars_less(b, c),
    ensures
        chars_less(a, c),
    decreases a.len(),
{
    if a.len() > 0 && b.len() > 0 && c.len() > 0 && a[0] == b[0] && b[0] == c[0] {
        lemma_chars_less_trans(a.drop_first(), b.drop_first(), c.drop_first());
    }
}

/// Whether `a` comes before `b` in the order of strings.
pub fn str_less(a: &str, b: &str) -> (r: bool)
    ensures
        r == chars_less(a@, b@),
{
    let av = to_chars(a);
    let bv = to_chars(b);
    let mut i: usize = 0;
    assert(a@.skip(0) =~= a@);
    assert(b@.skip(0) =~= b@);
    while i < av.len() && i < bv.len()
        invariant
            av@ == a@,
            bv@ == b@,
            i <= av@.len(),
            i <= bv@.len(),
            chars_less(a@, b@) == chars_less(a@.skip(i as int), b@.skip(i as int)),
        decreases av@.len() - i,
    {
        if av[i] != bv[i] {
            return av[i] < bv[i];
        }
        assert(a@.skip(i as int).drop_first() =~= a@.skip(i + 1));
        assert(b@.skip(i as int).drop_first() =~= b@.skip(i + 1));
        i = i + 1;
    }
    i == av.len() && i < bv.len()
}

} // verus!
