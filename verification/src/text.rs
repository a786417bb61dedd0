use vstd::prelude::*;
use vstd::string::*;

verus! {

/// Appends `c` to `s`; `String::push` of std.
#[verifier::external_body]
pub(crate) fn push_char(s: &mut String, c: char)
    ensures
        final(s)@ == old(s)@.push(c),
{
    s.push(c);
}

/// The characters of `s`, in order.
pub fn chars_of(s: &str) -> (v: Vec<char>)
    ensures
        v@ == s@,
{
    let mut v: Vec<char> = Vec::new();
    for c in it: s.chars()
        invariant
            v@ == it.seq().take(it.index() as int),
    {
        v.push(c);
    }
    v
}

pub fn str_eq(a: &str, b: &str) -> (r: bool)
    ensures
        r == (a@ == b@),
{
    let x = a.to_owned();
    let y = b.to_owned();
    x == y
}

/// The ASCII digit for `d < 10`.
pub open spec fn decimal_digit(d: nat) -> char {
    ((d + 48) as u8) as char
}

/// The shortest decimal representation of `n`.
pub open spec fn decimal(n: nat) -> Seq<char>
    decreases n,
{
    if n < 10 {
        seq![decimal_digit(n)]
    } else {
        decimal(n / 10).push(decimal_digit(n % 10))
    }
}

proof fn lemma_decimal_digit(d: nat)
    requires
        d < 10,
    ensures
        decimal_digit(d) as u32 == d + 48,
{
}

/// The decimal representation of a number is not empty and holds only the
/// digits `0` to `9`.
pub proof fn lemma_decimal_digits(n: nat)
    ensures
        decimal(n).len() >= 1,
        forall|i: int| 0 <= i < decimal(n).len() ==> 48 <= #[trigger] decimal(n)[i] as u32 <= 57,
    decreases n,
{
    if n < 10 {
        lemma_decimal_digit(n);
    } else {
        lemma_decimal_digits(n / 10);
        lemma_decimal_digit(n % 10);
        let d = decimal(n);
        assert forall|i: int| 0 <= i < d.len() implies 48 <= #[trigger] d[i] as u32 <= 57 by {
            if i < d.len() - 1 {
                assert(d[i] == decimal(n / 10)[i]);
            }
        }
    }
}

/// Different numbers have different decimal representations.
pub proof fn lemma_decimal_injective(a: nat, b: nat)
    requires
        decimal(a) == decimal(b),
    ensures
        a == b,
    decreases a,
{
    if a < 10 && b < 10 {
        lemma_decimal_digit(a);
        lemma_decimal_digit(b);
        assert(decimal(a) =~= seq![decimal_digit(a)]);
        assert(decimal(b) =~= seq![decimal_digit(b)]);
        assert(decimal(a)[0] == decimal_digit(a));
        assert(decimal(b)[0] == decimal_digit(b));
    } else if a < 10 {
        lemma_decimal_digits(b / 10);
        assert(decimal(b).len() >= 2);
        assert(decimal(a).len() == 1);
    } else if b < 10 {
        lemma_decimal_digits(a / 10);
        assert(decimal(a).len() >= 2);
        assert(decimal(b).len() == 1);
    } else {
        let (da, db) = (decimal(a), decimal(b));
        assert(da.drop_last() =~= decimal(a / 10));
        assert(db.drop_last() =~= decimal(b / 10));
        lemma_decimal_injective(a / 10, b / 10);
        lemma_decimal_digit(a % 10);
        lemma_decimal_digit(b % 10);
        assert(da.last() == db.last());
        assert(a % 10 == b % 10);
        assert(a == (a / 10) * 10 + a % 10);
        assert(b == (b / 10) * 10 + b % 10);
    }
}

/// Appends the decimal representation of `n` to `out`.
pub fn append_decimal(out: &mut String, n: u64)
    ensures
        final(out)@ == old(out)@ + decimal(n as nat),
    decreases n,
{
    if n < 10 {
        push_char(out, digit_char(n));
        assert(decimal(n as nat) =~= seq![decimal_digit(n as nat)]);
    } else {
        append_decimal(out, n / 10);
        push_char(out, digit_char(n % 10));
    }
}

/// The decimal representation of `n`, as `u64::to_string` writes it.
pub fn u64_to_decimal(n: u64) -> (s: String)
    ensures
        s@ == decimal(n as nat),
{
    let mut s = String::new();
    append_decimal(&mut s, n);
    s
}

pub fn digit_char(d: u64) -> (c: char)
    requires d < 10,
    ensures c == decimal_digit(d as nat),
{
    let b: u8 = (d as u8) + 48;
    b as char
}


/// Characters with the Unicode `White_Space` property, which
/// `char::is_whitespace` and `str::trim` go by.
pub open spec fn is_unicode_whitespace(c: char) -> bool {
    let u = c as u32;
    ||| 9 <= u <= 13
    ||| u == 32
    ||| u == 0x85
    ||| u == 0xA0
    ||| u == 0x1680
    ||| 0x2000 <= u <= 0x200A
    ||| u == 0x2028
    ||| u == 0x2029
    ||| u == 0x202F
    ||| u == 0x205F
    ||| u == 0x3000
}

/// Whether a text is empty once whitespace is trimmed: all its characters
/// are whitespace.
pub open spec fn blank(s: Seq<char>) -> bool {
    forall|i: int| 0 <= i < s.len() ==> is_unicode_whitespace(#[trigger] s[i])
}

fn is_whitespace_char(c: char) -> (r: bool)
    ensures
        r == is_unicode_whitespace(c),
{
    let u = c as u32;
    (9 <= u && u <= 13) || u == 32 || u == 0x85 || u == 0xA0 || u == 0x1680 || (0x2000 <= u && u
        <= 0x200A) || u == 0x2028 || u == 0x2029 || u == 0x202F || u == 0x205F || u == 0x3000
}

/// Whether `s.trim()` is empty.
pub fn is_blank(s: &str) -> (r: bool)
    ensures
        r == blank(s@),
{
    let cs = chars_of(s);
    let n = cs.len();
    for i in 0..n
        invariant
            n == cs@.len(),
            cs@ == s@,
            forall|k: int| 0 <= k < i ==> is_unicode_whitespace(#[trigger] cs@[k]),
    {
        if !is_whitespace_char(cs[i]) {
            return false;
        }
    }
    true
}

/// Whether `s` begins with `prefix`.
pub open spec fn has_prefix(s: Seq<char>, prefix: Seq<char>) -> bool {
    prefix.len() <= s.len() && s.subrange(0, prefix.len() as int) == prefix
}

/// `s.starts_with(prefix)`.
pub fn starts_with(s: &str, prefix: &str) -> (r: bool)
    ensures
        r == has_prefix(s@, prefix@),
{
    let a = chars_of(s);
    let b = chars_of(prefix);
    if b.len() > a.len() {
        return false;
    }
    let n = b.len();
    for i in 0..n
        invariant
            n == b@.len(),
            n <= a@.len(),
            a@ == s@,
            b@ == prefix@,
            forall|k: int| 0 <= k < i ==> #[trigger] a@[k] == b@[k],
    {
        if a[i] != b[i] {
            return false;
        }
    }
    assert(a@.subrange(0, n as int) =~= b@);
    true
}

/// The pieces of `s` between occurrences of `sep`, as `str::split` yields
/// them: one more piece than there are separators.
pub open spec fn split_on(s: Seq<char>, sep: char) -> Seq<Seq<char>>
    decreases s.len(),
{
    if s.len() == 0 {
        seq![Seq::<char>::empty()]
    } else {
        let p = split_on(s.drop_last(), sep);
        if s.last() == sep {
            p.push(Seq::<char>::empty())
        } else {
            p.update(p.len() - 1, p.last().push(s.last()))
        }
    }
}

pub proof fn lemma_split_on_nonempty(s: Seq<char>, sep: char)
    ensures
        split_on(s, sep).len() >= 1,
    decreases s.len(),
{
    if s.len() > 0 {
        lemma_split_on_nonempty(s.drop_last(), sep);
    }
}

/// Views of a list of strings.
pub open spec fn string_views(v: Seq<String>) -> Seq<Seq<char>> {
    v.map_values(|x: String| x@)
}

/// `s.split(sep)`, collected.
pub fn split_char(s: &str, sep: char) -> (parts: Vec<String>)
    ensures
        string_views(parts@) == split_on(s@, sep),
{
    let cs = chars_of(s);
    let n = cs.len();
    let mut parts: Vec<String> = Vec::new();
    let mut cur = String::new();
    assert(cs@.take(0) =~= Seq::<char>::empty());
    assert(string_views(parts@).push(cur@) =~= split_on(cs@.take(0), sep));
    for i in 0..n
        invariant
            n == cs@.len(),
            cs@ == s@,
            string_views(parts@).push(cur@) == split_on(cs@.take(i as int), sep),
    {
        let c = cs[i];
        assert(cs@.take(i + 1).drop_last() =~= cs@.take(i as int));
        assert(cs@.take(i + 1).last() == c);
        if c == sep {
            let done = cur;
            parts.push(done);
            cur = String::new();
            assert(string_views(parts@).push(cur@) =~= split_on(cs@.take(i + 1), sep));
        } else {
            let ghost before = string_views(parts@).push(cur@);
            push_char(&mut cur, c);
            assert(string_views(parts@).push(cur@) =~= before.update(
                before.len() - 1,
                before.last().push(c),
            ));
        }
    }
    assert(cs@.take(n as int) =~= cs@);
    parts.push(cur);
    assert(string_views(parts@) =~= split_on(s@, sep));
    parts
}

} // verus!
