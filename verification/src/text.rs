//! Text primitives over `&str` and `String`, stated on sequences of characters.
use vstd::prelude::*;
use vstd::string::*;
use vstd::utf8::{encode_scalar, encode_utf8};

verus! {

/// `String::push` appends a character.
pub assume_specification[ String::push ](s: &mut String, c: char)
    ensures
        final(s)@ == old(s)@.push(c),
;

/// `String::push_str` appends a text.
pub assume_specification[ String::push_str ](s: &mut String, other: &str)
    ensures
        final(s)@ == old(s)@ + other@,
;

/// A set of characters to strip from the ends of a text.
#[derive(Clone, Copy, PartialEq, Eq, Structural)]
pub enum CharSet {
    /// Unicode `White_Space`.
    Whitespace,
    /// A single character.
    One(char),
}

/// The Unicode `White_Space` property.
pub open spec fn is_whitespace(c: char) -> bool {
    ||| '\u{9}' <= c <= '\u{d}'
    ||| c == ' '
    ||| c == '\u{85}'
    ||| c == '\u{a0}'
    ||| c == '\u{1680}'
    ||| '\u{2000}' <= c <= '\u{200a}'
    ||| c == '\u{2028}'
    ||| c == '\u{2029}'
    ||| c == '\u{202f}'
    ||| c == '\u{205f}'
    ||| c == '\u{3000}'
}

impl CharSet {
    pub open spec fn has(self, c: char) -> bool {
        match self {
            CharSet::Whitespace => is_whitespace(c),
            CharSet::One(x) => c == x,
        }
    }

    pub fn contains(self, c: char) -> (b: bool)
        ensures
            b == self.has(c),
    {
        match self {
            CharSet::Whitespace => char_is_whitespace(c),
            CharSet::One(x) => c == x,
        }
    }
}

pub fn char_is_whitespace(c: char) -> (b: bool)
    ensures
        b == is_whitespace(c),
{
    ('\u{9}' <= c && c <= '\u{d}') || c == ' ' || c == '\u{85}' || c == '\u{a0}' || c == '\u{1680}'
        || ('\u{2000}' <= c && c <= '\u{200a}') || c == '\u{2028}' || c == '\u{2029}' || c
        == '\u{202f}' || c == '\u{205f}' || c == '\u{3000}'
}

/// `s` without its longest prefix of characters in `set`.
pub open spec fn trim_front(s: Seq<char>, set: CharSet) -> Seq<char>
    decreases s.len(),
{
    if s.len() > 0 && set.has(s[0]) {
        trim_front(s.drop_first(), set)
    } else {
        s
    }
}

/// `s` without its longest suffix of characters in `set`.
pub open spec fn trim_back(s: Seq<char>, set: CharSet) -> Seq<char>
    decreases s.len(),
{
    if s.len() > 0 && set.has(s.last()) {
        trim_back(s.drop_last(), set)
    } else {
        s
    }
}

/// The model of an optional text.
pub open spec fn opt_string(o: Option<String>) -> Option<Seq<char>> {
    match o {
        Some(s) => Some(s@),
        None => None,
    }
}

/// The characters of a text.
pub fn chars_of(s: &str) -> (v: Vec<char>)
    ensures
        v@ == s@,
{
    let mut v: Vec<char> = Vec::new();
    for c in it: s.chars()
        invariant
            v@ == s@.take(it.index() as int),
            it.seq() == s@,
    {
        v.push(c);
    }
    v
}

/// The text made of `v[from..to]`.
pub fn string_of(v: &Vec<char>, from: usize, to: usize) -> (s: String)
    requires
        from <= to <= v@.len(),
    ensures
        s@ == v@.subrange(from as int, to as int),
{
    let mut s = String::new();
    let mut i: usize = from;
    while i < to
        invariant
            from <= i <= to <= v@.len(),
            s@ == v@.subrange(from as int, i as int),
        decreases to - i,
    {
        s.push(v[i]);
        i += 1;
    }
    s
}

/// The number of bytes of the UTF-8 encoding of a text.
pub fn byte_len(s: &str) -> (n: usize)
    ensures
        n == s.spec_bytes().len(),
{
    s.as_bytes().len()
}

pub proof fn lemma_encode_utf8_injective(a: Seq<char>, b: Seq<char>)
    requires
        encode_utf8(a) == encode_utf8(b),
    ensures
        a == b,
{
    vstd::utf8::encode_utf8_decode_utf8(a);
    vstd::utf8::encode_utf8_decode_utf8(b);
}

/// Whether two texts are the same.
pub fn str_eq(a: &str, b: &str) -> (r: bool)
    ensures
        r == (a@ == b@),
{
    let x = a.as_bytes();
    let y = b.as_bytes();
    if x.len() != y.len() {
        return false;
    }
    let mut i: usize = 0;
    while i < x.len()
        invariant
            x@ == a.spec_bytes(),
            y@ == b.spec_bytes(),
            x@.len() == y@.len(),
            i <= x@.len(),
            x@.take(i as int) == y@.take(i as int),
        decreases x@.len() - i,
    {
        if x[i] != y[i] {
            assert(x@[i as int] != y@[i as int]);
            return false;
        }
        assert(x@.take(i + 1) == x@.take(i as int).push(x@[i as int]));
        assert(y@.take(i + 1) == y@.take(i as int).push(y@[i as int]));
        i += 1;
    }
    proof {
        assert(x@.take(i as int) == x@);
        assert(y@.take(i as int) == y@);
        lemma_encode_utf8_injective(a@, b@);
    }
    true
}

/// `s` stripped at both ends of the characters in `set`.
pub open spec fn trim_both(s: Seq<char>, set: CharSet) -> Seq<char> {
    trim_back(trim_front(s, set), set)
}

/// `s` stripped at both ends of whitespace.
pub open spec fn trimmed(s: Seq<char>) -> Seq<char> {
    trim_both(s, CharSet::Whitespace)
}

fn front_index(v: &Vec<char>, set: CharSet) -> (i: usize)
    ensures
        i <= v@.len(),
        trim_front(v@, set) == v@.skip(i as int),
{
    let mut i: usize = 0;
    assert(v@.skip(0) == v@);
    while i < v.len() && set.contains(v[i])
        invariant
            i <= v@.len(),
            trim_front(v@, set) == trim_front(v@.skip(i as int), set),
        decreases v@.len() - i,
    {
        assert(v@.skip(i as int).drop_first() == v@.skip(i + 1));
        i += 1;
    }
    i
}

fn back_index(v: &Vec<char>, from: usize, set: CharSet) -> (j: usize)
    requires
        from <= v@.len(),
    ensures
        from <= j <= v@.len(),
        trim_back(v@.skip(from as int), set) == v@.subrange(from as int, j as int),
{
    let mut j: usize = v.len();
    assert(v@.skip(from as int) == v@.subrange(from as int, j as int));
    while from < j && set.contains(v[j - 1])
        invariant
            from <= j <= v@.len(),
            trim_back(v@.skip(from as int), set) == trim_back(
                v@.subrange(from as int, j as int),
                set,
            ),
        decreases j,
    {
        assert(v@.subrange(from as int, j as int).drop_last() == v@.subrange(
            from as int,
            j - 1,
        ));
        j -= 1;
    }
    j
}

pub fn trim_set<'a>(s: &'a str, set: CharSet) -> (r: &'a str)
    ensures
        r@ == trim_both(s@, set),
{
    let v = chars_of(s);
    let i = front_index(&v, set);
    let j = back_index(&v, i, set);
    s.substring_char(i, j)
}

pub fn trim_set_front<'a>(s: &'a str, set: CharSet) -> (r: &'a str)
    ensures
        r@ == trim_front(s@, set),
{
    let v = chars_of(s);
    let i = front_index(&v, set);
    s.substring_char(i, v.len())
}

pub fn trim_set_back<'a>(s: &'a str, set: CharSet) -> (r: &'a str)
    ensures
        r@ == trim_back(s@, set),
{
    let v = chars_of(s);
    let j = back_index(&v, 0, set);
    assert(v@.skip(0) == v@);
    s.substring_char(0, j)
}

/// `s` without leading and trailing whitespace.
pub fn trim<'a>(s: &'a str) -> (r: &'a str)
    ensures
        r@ == trimmed(s@),
{
    trim_set(s, CharSet::Whitespace)
}

/// Whether nothing but whitespace stands in `s`.
pub open spec fn blank(s: Seq<char>) -> bool {
    trimmed(s).len() == 0
}

pub fn is_blank(s: &str) -> (b: bool)
    ensures
        b == blank(s@),
{
    trim(s).is_empty()
}

/// Whether `s` begins with `p`.
pub open spec fn has_prefix(s: Seq<char>, p: Seq<char>) -> bool {
    p.len() <= s.len() && s.take(p.len() as int) == p
}

/// Whether `s` ends with `p`.
pub open spec fn has_suffix(s: Seq<char>, p: Seq<char>) -> bool {
    p.len() <= s.len() && s.skip(s.len() - p.len()) == p
}

/// Whether `p` stands in `s` at position `i`.
pub open spec fn stands_at(s: Seq<char>, p: Seq<char>, i: int) -> bool {
    0 <= i <= s.len() - p.len() && s.subrange(i, i + p.len()) == p
}

/// Whether `p` stands somewhere in `s`.
pub open spec fn has_infix(s: Seq<char>, p: Seq<char>) -> bool {
    exists|i: int| #[trigger] stands_at(s, p, i)
}

fn matches_at(v: &Vec<char>, p: &Vec<char>, at: usize) -> (r: bool)
    requires
        at + p@.len() <= v@.len(),
    ensures
        r == (v@.subrange(at as int, at + p@.len()) == p@),
{
    let whole: usize = v.len();
    assert(whole == v@.len());
    let mut k: usize = 0;
    let ghost here = v@.subrange(at as int, at + p@.len());
    while k < p.len()
        invariant
            k <= p@.len(),
            at + p@.len() <= v@.len(),
            v@.len() == whole,
            here == v@.subrange(at as int, at + p@.len()),
            forall|m: int| 0 <= m < k ==> here[m] == p@[m],
        decreases p@.len() - k,
    {
        assert(here[k as int] == v@[at + k]);
        if v[at + k] != p[k] {
            return false;
        }
        k += 1;
    }
    assert(here =~= p@);
    true
}

pub fn starts_with(s: &str, p: &str) -> (r: bool)
    ensures
        r == has_prefix(s@, p@),
{
    let v = chars_of(s);
    let q = chars_of(p);
    if q.len() > v.len() {
        return false;
    }
    assert(v@.subrange(0, q@.len() as int) == v@.take(q@.len() as int));
    matches_at(&v, &q, 0)
}

pub fn ends_with(s: &str, p: &str) -> (r: bool)
    ensures
        r == has_suffix(s@, p@),
{
    let v = chars_of(s);
    let q = chars_of(p);
    if q.len() > v.len() {
        return false;
    }
    assert(v@.subrange(v@.len() - q@.len(), v@.len() as int) == v@.skip(v@.len() - q@.len()));
    matches_at(&v, &q, v.len() - q.len())
}

pub fn contains(s: &str, p: &str) -> (r: bool)
    ensures
        r == has_infix(s@, p@),
{
    let v = chars_of(s);
    let q = chars_of(p);
    if q.len() > v.len() {
        return false;
    }
    let last: usize = v.len() - q.len();
    let mut i: usize = 0;
    while i <= last
        invariant
            v@ == s@,
            q@ == p@,
            last == v@.len() - q@.len(),
            i <= last + 1,
            last < usize::MAX || i <= last,
            forall|k: int| 0 <= k < i ==> !stands_at(s@, p@, k),
        decreases last + 1 - i,
    {
        if matches_at(&v, &q, i) {
            assert(stands_at(s@, p@, i as int));
            return true;
        }
        if i == last {
            return false;
        }
        i += 1;
    }
    false
}

/// `s` without the prefix `p`, if it begins with it.
pub open spec fn without_prefix(s: Seq<char>, p: Seq<char>) -> Option<Seq<char>> {
    if has_prefix(s, p) {
        Some(s.skip(p.len() as int))
    } else {
        None
    }
}

pub fn strip_prefix<'a>(s: &'a str, p: &str) -> (r: Option<&'a str>)
    ensures
        r is Some == (without_prefix(s@, p@) is Some),
        r matches Some(t) ==> without_prefix(s@, p@) == Some(t@),
{
    if starts_with(s, p) {
        let n = s.unicode_len();
        let k = p.unicode_len();
        let t = s.substring_char(k, n);
        assert(t@ == s@.skip(k as int));
        Some(t)
    } else {
        None
    }
}

/// `s` without the suffix `p`, if it ends with it.
pub open spec fn without_suffix(s: Seq<char>, p: Seq<char>) -> Option<Seq<char>> {
    if has_suffix(s, p) {
        Some(s.take(s.len() - p.len()))
    } else {
        None
    }
}

pub fn strip_suffix<'a>(s: &'a str, p: &str) -> (r: Option<&'a str>)
    ensures
        r is Some == (without_suffix(s@, p@) is Some),
        r matches Some(t) ==> without_suffix(s@, p@) == Some(t@),
{
    if ends_with(s, p) {
        let n = s.unicode_len();
        let k = p.unicode_len();
        let t = s.substring_char(0, n - k);
        assert(t@ == s@.take(n - k));
        Some(t)
    } else {
        None
    }
}

/// The pieces of `s` between the characters of `set`: one more than there are
/// such characters.
pub open spec fn split_at_set(s: Seq<char>, set: CharSet) -> Seq<Seq<char>>
    decreases s.len(),
{
    if s.len() == 0 {
        seq![Seq::<char>::empty()]
    } else {
        let before = split_at_set(s.drop_last(), set);
        if set.has(s.last()) {
            before.push(Seq::<char>::empty())
        } else {
            before.drop_last().push(before.last().push(s.last()))
        }
    }
}

pub proof fn lemma_split_nonempty(s: Seq<char>, set: CharSet)
    ensures
        split_at_set(s, set).len() > 0,
    decreases s.len(),
{
    if s.len() > 0 {
        lemma_split_nonempty(s.drop_last(), set);
    }
}

pub fn split_set(s: &str, set: CharSet) -> (r: Vec<String>)
    ensures
        r.deep_view() == split_at_set(s@, set),
{
    let v = chars_of(s);
    let mut done: Vec<String> = Vec::new();
    let mut cur = String::new();
    let mut i: usize = 0;
    assert(v@.take(0).len() == 0);
    assert(done.deep_view().push(cur@) =~= split_at_set(v@.take(0), set));
    while i < v.len()
        invariant
            i <= v@.len(),
            done.deep_view().push(cur@) == split_at_set(v@.take(i as int), set),
        decreases v@.len() - i,
    {
        let ghost before = done.deep_view().push(cur@);
        let ghost was = done.deep_view();
        assert(v@.take(i + 1).drop_last() == v@.take(i as int));
        assert(before.drop_last() == was);
        if set.contains(v[i]) {
            done.push(cur);
            cur = String::new();
            assert(done.deep_view() =~= before);
        } else {
            cur.push(v[i]);
        }
        i += 1;
    }
    assert(v@.take(i as int) == v@);
    let ghost all = done.deep_view().push(cur@);
    done.push(cur);
    assert(done.deep_view() =~= all);
    done
}

/// The non-empty members of `pieces`, in order.
pub open spec fn nonempty_pieces(pieces: Seq<Seq<char>>) -> Seq<Seq<char>>
    decreases pieces.len(),
{
    if pieces.len() == 0 {
        Seq::<Seq<char>>::empty()
    } else {
        let before = nonempty_pieces(pieces.drop_last());
        if pieces.last().len() == 0 {
            before
        } else {
            before.push(pieces.last())
        }
    }
}

/// The maximal runs of characters that are no whitespace.
pub open spec fn words_of(s: Seq<char>) -> Seq<Seq<char>> {
    nonempty_pieces(split_at_set(s, CharSet::Whitespace))
}

pub fn split_words(s: &str) -> (r: Vec<String>)
    ensures
        r.deep_view() == words_of(s@),
{
    let pieces = split_set(s, CharSet::Whitespace);
    let mut out: Vec<String> = Vec::new();
    let mut i: usize = 0;
    assert(out.deep_view() =~= nonempty_pieces(pieces.deep_view().take(0)));
    while i < pieces.len()
        invariant
            i <= pieces@.len(),
            out.deep_view() == nonempty_pieces(pieces.deep_view().take(i as int)),
        decreases pieces@.len() - i,
    {
        let ghost was = out.deep_view();
        assert(pieces.deep_view().take(i + 1).drop_last() == pieces.deep_view().take(i as int));
        if !pieces[i].as_str().is_empty() {
            out.push(pieces[i].clone());
            assert(out.deep_view() =~= was.push(pieces@[i as int]@));
        }
        i += 1;
    }
    assert(pieces.deep_view().take(i as int) == pieces.deep_view());
    out
}

/// `parts` one after the other, `sep` between each two.
pub open spec fn joined(parts: Seq<Seq<char>>, sep: Seq<char>) -> Seq<char>
    decreases parts.len(),
{
    if parts.len() == 0 {
        Seq::<char>::empty()
    } else if parts.len() == 1 {
        parts[0]
    } else {
        joined(parts.drop_last(), sep) + sep + parts.last()
    }
}

pub fn join(parts: &Vec<String>, sep: &str) -> (r: String)
    ensures
        r@ == joined(parts.deep_view(), sep@),
{
    let mut out = String::new();
    let mut i: usize = 0;
    while i < parts.len()
        invariant
            i <= parts@.len(),
            out@ == joined(parts.deep_view().take(i as int), sep@),
        decreases parts@.len() - i,
    {
        assert(parts.deep_view().take(i + 1).drop_last() == parts.deep_view().take(i as int));
        if i > 0 {
            out.push_str(sep);
        }
        out.push_str(parts[i].as_str());
        i += 1;
    }
    assert(parts.deep_view().take(i as int) == parts.deep_view());
    out
}

/// Whether `c` is one of `0` to `9`.
pub open spec fn is_digit(c: char) -> bool {
    '0' <= c <= '9'
}

pub open spec fn all_digits(s: Seq<char>) -> bool {
    forall|i: int| 0 <= i < s.len() ==> is_digit(#[trigger] s[i])
}

/// The number that a row of decimal digits stands for.
pub open spec fn digits_value(s: Seq<char>) -> nat
    decreases s.len(),
{
    if s.len() == 0 {
        0
    } else {
        (10 * digits_value(s.drop_last()) + (s.last() as nat - '0' as nat)) as nat
    }
}

/// A number from 0 to `max` that `s` writes in decimal digits.
pub open spec fn digits_up_to(s: Seq<char>, max: nat) -> Option<nat> {
    if s.len() > 0 && all_digits(s) && digits_value(s) <= max {
        Some(digits_value(s))
    } else {
        None
    }
}

/// A number from 0 to `max` that `s` writes in decimal digits, perhaps behind a `+`.
pub open spec fn unsigned_up_to(s: Seq<char>, max: nat) -> Option<nat> {
    if s.len() > 0 && s[0] == '+' {
        digits_up_to(s.drop_first(), max)
    } else {
        digits_up_to(s, max)
    }
}

proof fn lemma_digits_grow(s: Seq<char>, k: int)
    requires
        0 <= k <= s.len(),
        all_digits(s),
    ensures
        digits_value(s.take(k)) <= digits_value(s),
    decreases s.len() - k,
{
    if k < s.len() {
        lemma_digits_grow(s, k + 1);
        assert(s.take(k + 1).drop_last() == s.take(k));
        assert(is_digit(s[k]));
    } else {
        assert(s.take(k) == s);
    }
}

/// Reads `v[from..]` as decimal digits.
pub fn parse_digits(v: &Vec<char>, from: usize, max: u64) -> (r: Option<u64>)
    requires
        from <= v@.len(),
    ensures
        match r {
            Some(n) => digits_up_to(v@.skip(from as int), max as nat) == Some(n as nat),
            None => digits_up_to(v@.skip(from as int), max as nat) is None,
        },
{
    let ghost s = v@.skip(from as int);
    if from == v.len() {
        return None;
    }
    let mut n: u64 = 0;
    let mut i: usize = from;
    while i < v.len()
        invariant
            from <= i <= v@.len(),
            s == v@.skip(from as int),
            n <= max,
            all_digits(s.take(i - from)),
            n == digits_value(s.take(i - from)),
        decreases v@.len() - i,
    {
        let c = v[i];
        let ghost k = i - from;
        assert(s[k] == c);
        assert(s.take(k + 1).drop_last() == s.take(k));
        if !('0' <= c && c <= '9') {
            return None;
        }
        let d: u64 = (c as u32 - '0' as u32) as u64;
        assert(digits_value(s.take(k + 1)) == 10 * n + d);
        if n > max / 10 || d > max || 10 * n > max - d {
            proof {
                if all_digits(s) {
                    lemma_digits_grow(s, k + 1);
                }
            }
            return None;
        }
        n = 10 * n + d;
        i += 1;
    }
    assert(s.take(i - from) == s);
    Some(n)
}

/// Reads `s` as `str::parse` reads an unsigned integer, up to `max`.
pub fn parse_unsigned(s: &str, max: u64) -> (r: Option<u64>)
    ensures
        match r {
            Some(n) => unsigned_up_to(s@, max as nat) == Some(n as nat),
            None => unsigned_up_to(s@, max as nat) is None,
        },
{
    let v = chars_of(s);
    if v.len() > 0 && v[0] == '+' {
        assert(v@.skip(1) == s@.drop_first());
        parse_digits(&v, 1, max)
    } else {
        assert(v@.skip(0) == s@);
        parse_digits(&v, 0, max)
    }
}

/// The decimal notation of `n`.
pub open spec fn decimal(n: nat) -> Seq<char>
    decreases n,
{
    if n < 10 {
        seq![('0' as nat + n) as char]
    } else {
        decimal(n / 10).push(('0' as nat + n % 10) as char)
    }
}

/// The decimal notation of `n`, behind a `-` where `n` is negative.
pub open spec fn signed_decimal(n: int) -> Seq<char> {
    if n < 0 {
        seq!['-'] + decimal((-n) as nat)
    } else {
        decimal(n as nat)
    }
}

fn push_decimal(out: &mut String, n: u64)
    ensures
        final(out)@ == old(out)@ + decimal(n as nat),
    decreases n,
{
    if n >= 10 {
        push_decimal(out, n / 10);
    }
    let d: u8 = (n % 10) as u8;
    out.push((48u8 + d) as char);
}

pub fn u64_text(n: u64) -> (r: String)
    ensures
        r@ == decimal(n as nat),
{
    let mut out = String::new();
    push_decimal(&mut out, n);
    assert(out@ =~= decimal(n as nat));
    out
}

pub fn i64_text(n: i64) -> (r: String)
    ensures
        r@ == signed_decimal(n as int),
{
    let mut out = String::new();
    if n < 0 {
        out.push('-');
        let m: u64 = if n == i64::MIN {
            0x8000_0000_0000_0000
        } else {
            (-n) as u64
        };
        push_decimal(&mut out, m);
    } else {
        push_decimal(&mut out, n as u64);
    }
    assert(out@ =~= signed_decimal(n as int));
    out
}

/// `a` and then `b`.
pub fn cat2(a: &str, b: &str) -> (r: String)
    ensures
        r@ == a@ + b@,
{
    let mut out = String::new();
    out.push_str(a);
    out.push_str(b);
    assert(out@ =~= a@ + b@);
    out
}

/// `a`, then `b`, then `c`.
pub fn cat3(a: &str, b: &str, c: &str) -> (r: String)
    ensures
        r@ == a@ + b@ + c@,
{
    let mut out = cat2(a, b);
    out.push_str(c);
    out
}

/// A copy of a text that may be there.
pub fn clone_opt(o: &Option<String>) -> (r: Option<String>)
    ensures
        r == *o,
{
    match o {
        Some(s) => Some(s.clone()),
        None => None,
    }
}

/// What is stripped at the end leaves a prefix.
pub proof fn lemma_trim_back_prefix(s: Seq<char>, set: CharSet)
    ensures
        trim_back(s, set).len() <= s.len(),
        trim_back(s, set) == s.take(trim_back(s, set).len() as int),
        trim_back(s, set).len() < s.len() ==> set.has(s[trim_back(s, set).len() as int]),
    decreases s.len(),
{
    if s.len() > 0 && set.has(s.last()) {
        lemma_trim_back_prefix(s.drop_last(), set);
    }
}

/// The bytes of a text are the bytes of its parts.
pub proof fn lemma_encode_concat(a: Seq<char>, b: Seq<char>)
    ensures
        encode_utf8(a + b) == encode_utf8(a) + encode_utf8(b),
    decreases a.len(),
{
    if a.len() == 0 {
        assert(a + b =~= b);
    } else {
        assert((a + b).drop_first() =~= a.drop_first() + b);
        lemma_encode_concat(a.drop_first(), b);
        assert(encode_utf8(a + b) =~= encode_utf8(a) + encode_utf8(b));
    }
}

/// A proper prefix has fewer bytes.
pub proof fn lemma_encode_prefix_shorter(s: Seq<char>, n: int)
    requires
        0 <= n < s.len(),
    ensures
        encode_utf8(s.take(n)).len() < encode_utf8(s).len(),
{
    assert(s.take(n) + s.skip(n) =~= s);
    lemma_encode_concat(s.take(n), s.skip(n));
    assert(encode_utf8(s.skip(n)).len() > 0);
}

/// `c` in lower case, where it is an ASCII letter.
pub open spec fn ascii_lower(c: char) -> char {
    if 'A' <= c <= 'Z' {
        (c as u32 + 32) as char
    } else {
        c
    }
}

/// Whether two texts are the same but for the case of ASCII letters.
pub open spec fn same_ignoring_case(a: Seq<char>, b: Seq<char>) -> bool {
    a.len() == b.len() && forall|i: int|
        0 <= i < a.len() ==> ascii_lower(#[trigger] a[i]) == ascii_lower(b[i])
}

fn lower(c: char) -> (r: char)
    ensures
        r == ascii_lower(c),
{
    if 'A' <= c && c <= 'Z' {
        ((c as u8) + 32) as char
    } else {
        c
    }
}

fn chars_match_ignoring_case(a: &Vec<char>, n: usize, b: &Vec<char>) -> (r: bool)
    requires
        n <= a@.len(),
    ensures
        r == same_ignoring_case(a@.take(n as int), b@),
{
    if n != b.len() {
        return false;
    }
    let mut i: usize = 0;
    while i < n
        invariant
            i <= n <= a@.len(),
            n == b@.len(),
            forall|k: int| 0 <= k < i ==> ascii_lower(#[trigger] a@[k]) == ascii_lower(b@[k]),
        decreases n - i,
    {
        if lower(a[i]) != lower(b[i]) {
            assert(ascii_lower(a@.take(n as int)[i as int]) != ascii_lower(b@[i as int]));
            return false;
        }
        i += 1;
    }
    true
}

pub fn eq_ignoring_case(a: &str, b: &str) -> (r: bool)
    ensures
        r == same_ignoring_case(a@, b@),
{
    let v = chars_of(a);
    let w = chars_of(b);
    let n: usize = v.len();
    assert(v@.take(n as int) == v@);
    chars_match_ignoring_case(&v, n, &w)
}

/// `s` without the prefix `p`, if it begins with it but for the case of ASCII letters.
pub fn strip_prefix_ignoring_case<'a>(s: &'a str, p: &str) -> (r: Option<&'a str>)
    ensures
        match r {
            Some(t) => p@.len() <= s@.len() && same_ignoring_case(s@.take(p@.len() as int), p@)
                && t@ == s@.skip(p@.len() as int),
            None => !(p@.len() <= s@.len() && same_ignoring_case(s@.take(p@.len() as int), p@)),
        },
{
    let v = chars_of(s);
    let w = chars_of(p);
    let n: usize = w.len();
    if n <= v.len() && chars_match_ignoring_case(&v, n, &w) {
        let t = s.substring_char(n, v.len());
        assert(t@ =~= s@.skip(n as int));
        Some(t)
    } else {
        None
    }
}

/// The UTF-16 code units of a character.
pub open spec fn utf16_char(c: char) -> Seq<u16> {
    let n = c as u32;
    if n < 0x10000 {
        seq![n as u16]
    } else {
        seq![
            (0xd800 + (n - 0x10000) / 0x400) as u16,
            (0xdc00 + (n - 0x10000) % 0x400) as u16,
        ]
    }
}

/// The UTF-16 code units of a text.
pub open spec fn utf16(s: Seq<char>) -> Seq<u16>
    decreases s.len(),
{
    if s.len() == 0 {
        Seq::empty()
    } else {
        utf16(s.drop_last()) + utf16_char(s.last())
    }
}

pub fn utf16_units(s: &str) -> (r: Vec<u16>)
    ensures
        r@ == utf16(s@),
{
    let v = chars_of(s);
    let mut out: Vec<u16> = Vec::new();
    let mut i: usize = 0;
    while i < v.len()
        invariant
            i <= v@.len(),
            out@ == utf16(v@.take(i as int)),
        decreases v@.len() - i,
    {
        assert(v@.take(i + 1).drop_last() == v@.take(i as int));
        let c = v[i];
        let n: u32 = c as u32;
        if n < 0x10000 {
            out.push(n as u16);
        } else {
            let m: u32 = n - 0x10000;
            out.push((0xd800 + m / 0x400) as u16);
            out.push((0xdc00 + m % 0x400) as u16);
        }
        assert(out@ =~= utf16(v@.take(i as int)) + utf16_char(c));
        i += 1;
    }
    assert(v@.take(i as int) == v@);
    out
}

/// A code unit in lower case, where it is an ASCII letter.
pub open spec fn unit_lower(u: u16) -> u16 {
    if 0x41 <= u <= 0x5a {
        (u + 32) as u16
    } else {
        u
    }
}

/// Whether two rows of code units are the same but for the case of ASCII letters.
pub open spec fn units_match(a: Seq<u16>, b: Seq<u16>) -> bool {
    a.len() == b.len() && forall|i: int|
        0 <= i < a.len() ==> unit_lower(#[trigger] a[i]) == unit_lower(b[i])
}

/// Whether `a[from..to]` and `b` are the same but for the case of ASCII letters.
pub fn units_match_at(a: &Vec<u16>, from: usize, to: usize, b: &Vec<u16>) -> (r: bool)
    requires
        from <= to <= a@.len(),
    ensures
        r == units_match(a@.subrange(from as int, to as int), b@),
{
    if to - from != b.len() {
        return false;
    }
    let ghost part = a@.subrange(from as int, to as int);
    let mut i: usize = 0;
    while i < b.len()
        invariant
            i <= b@.len(),
            from + b@.len() == to,
            to <= a@.len(),
            part == a@.subrange(from as int, to as int),
            forall|k: int| 0 <= k < i ==> unit_lower(#[trigger] part[k]) == unit_lower(b@[k]),
        decreases b@.len() - i,
    {
        let x = a[from + i];
        let y = b[i];
        assert(part[i as int] == x);
        let lx: u16 = if 0x41 <= x && x <= 0x5a {
            x + 32
        } else {
            x
        };
        let ly: u16 = if 0x41 <= y && y <= 0x5a {
            y + 32
        } else {
            y
        };
        if lx != ly {
            return false;
        }
        i += 1;
    }
    true
}

/// The lower case of a text, as Unicode has it.
pub uninterp spec fn lowercase(s: Seq<char>) -> Seq<char>;

/// Calls `str::to_lowercase`. The result is named: it depends on the text alone.
#[verifier::external_body]
pub(crate) fn to_lowercase(s: &str) -> (r: String)
    ensures
        r@ == lowercase(s@),
{
    s.to_lowercase()
}

/// The first `n` characters, or all of them.
pub open spec fn first_chars(s: Seq<char>, n: int) -> Seq<char> {
    if s.len() <= n {
        s
    } else {
        s.take(n)
    }
}

pub fn take_chars<'a>(s: &'a str, n: usize) -> (r: &'a str)
    ensures
        r@ == first_chars(s@, n as int),
{
    let len = s.unicode_len();
    if len <= n {
        s
    } else {
        let t = s.substring_char(0, n);
        assert(t@ =~= s@.take(n as int));
        t
    }
}

/// The part of `s` before its first `c`, if there is a `c`.
pub open spec fn before_first(s: Seq<char>, c: char) -> Option<Seq<char>>
    decreases s.len(),
{
    if s.len() == 0 {
        None
    } else if s[0] == c {
        Some(Seq::empty())
    } else {
        match before_first(s.drop_first(), c) {
            Some(t) => Some(seq![s[0]] + t),
            None => None,
        }
    }
}

proof fn lemma_before_first(s: Seq<char>, c: char, i: int)
    requires
        0 <= i <= s.len(),
        forall|k: int| 0 <= k < i ==> #[trigger] s[k] != c,
    ensures
        i < s.len() && s[i] == c ==> before_first(s, c) == Some(s.take(i)),
        i == s.len() ==> before_first(s, c) is None,
    decreases s.len(),
{
    if s.len() > 0 && i > 0 {
        assert(s[0] != c);
        let t = s.drop_first();
        assert forall|k: int| 0 <= k < i - 1 implies #[trigger] t[k] != c by {
            assert(t[k] == s[k + 1]);
        }
        lemma_before_first(t, c, i - 1);
        if i < s.len() && s[i] == c {
            assert(t[i - 1] == c);
            assert(seq![s[0]] + t.take(i - 1) =~= s.take(i));
        }
    } else if s.len() > 0 {
        assert(s.take(0) =~= Seq::empty());
    }
}

pub fn text_before<'a>(s: &'a str, c: char) -> (r: Option<&'a str>)
    ensures
        match r {
            Some(t) => before_first(s@, c) == Some(t@),
            None => before_first(s@, c) is None,
        },
{
    let v = chars_of(s);
    let mut i: usize = 0;
    while i < v.len()
        invariant
            i <= v@.len(),
            v@ == s@,
            forall|k: int| 0 <= k < i ==> #[trigger] v@[k] != c,
        decreases v@.len() - i,
    {
        if v[i] == c {
            proof {
                lemma_before_first(s@, c, i as int);
            }
            let t = s.substring_char(0, i);
            assert(t@ =~= s@.take(i as int));
            return Some(t);
        }
        i += 1;
    }
    proof {
        lemma_before_first(s@, c, i as int);
    }
    None
}

/// How many bytes a character takes.
pub open spec fn char_bytes(c: char) -> int {
    encode_scalar(c as u32).len() as int
}

/// How many leading characters fit into `max` bytes.
pub open spec fn chars_within(s: Seq<char>, max: int) -> int
    decreases s.len(),
{
    if s.len() == 0 || char_bytes(s[0]) > max {
        0
    } else {
        1 + chars_within(s.drop_first(), max - char_bytes(s[0]))
    }
}

/// The longest prefix of at most `max` bytes.
pub open spec fn prefix_within(s: Seq<char>, max: int) -> Seq<char> {
    s.take(chars_within(s, max))
}

/// The prefix within `max` bytes fits, and with one more character it would not.
pub proof fn lemma_chars_within(s: Seq<char>, max: int)
    requires
        0 <= max,
    ensures
        0 <= chars_within(s, max) <= s.len(),
        encode_utf8(prefix_within(s, max)).len() <= max,
        chars_within(s, max) < s.len() ==> encode_utf8(s.take(chars_within(s, max) + 1)).len()
            > max,
    decreases s.len(),
{
    let n = chars_within(s, max);
    if s.len() > 0 {
        let one = s.take(1);
        assert(one.drop_first().len() == 0);
        assert(encode_utf8(one.drop_first()).len() == 0);
        assert(encode_utf8(one).len() == char_bytes(s[0]));
        if char_bytes(s[0]) <= max {
            let rest = s.drop_first();
            lemma_chars_within(rest, max - char_bytes(s[0]));
            assert(s.take(n).drop_first() =~= rest.take(n - 1));
            if n < s.len() {
                assert(s.take(n + 1).drop_first() =~= rest.take(n));
            }
        } else {
            assert(s.take(0).len() == 0);
        }
    } else {
        assert(s.take(0).len() == 0);
    }
}

fn char_width(c: char) -> (r: usize)
    ensures
        r == char_bytes(c),
{
    let n: u32 = c as u32;
    if n < 0x80 {
        1
    } else if n < 0x800 {
        2
    } else if n < 0x10000 {
        3
    } else {
        4
    }
}

/// The longest prefix of at most `max` bytes.
pub fn truncate_bytes<'a>(s: &'a str, max: usize) -> (r: &'a str)
    ensures
        r@ == prefix_within(s@, max as int),
{
    let v = chars_of(s);
    let mut left: usize = max;
    let mut i: usize = 0;
    assert(v@.skip(0) == v@);
    while i < v.len()
        invariant_except_break
            i <= v@.len(),
            v@ == s@,
            chars_within(s@, max as int) == i + chars_within(v@.skip(i as int), left as int),
        ensures
            i <= v@.len(),
            v@ == s@,
            i == chars_within(s@, max as int),
        decreases v@.len() - i,
    {
        assert(v@.skip(i as int).drop_first() == v@.skip(i + 1));
        let w = char_width(v[i]);
        if w > left {
            break ;
        }
        left = left - w;
        i += 1;
    }
    let r = s.substring_char(0, i);
    assert(r@ =~= s@.take(i as int));
    r
}

/// Whether `c` stands nowhere in `s`.
pub open spec fn lacks(s: Seq<char>, set: CharSet) -> bool {
    forall|i: int| 0 <= i < s.len() ==> !set.has(#[trigger] s[i])
}

/// A text without separators is one piece.
pub proof fn lemma_split_whole(s: Seq<char>, set: CharSet)
    requires
        lacks(s, set),
    ensures
        split_at_set(s, set) == seq![s],
    decreases s.len(),
{
    if s.len() == 0 {
        assert(s =~= Seq::empty());
    } else {
        let before = s.drop_last();
        assert forall|i: int| 0 <= i < before.len() implies !set.has(#[trigger] before[i]) by {
            assert(before[i] == s[i]);
        }
        lemma_split_whole(before, set);
        assert(!set.has(s[s.len() - 1]));
        assert(before.push(s.last()) =~= s);
        assert(split_at_set(s, set) =~= seq![s]);
    }
}

/// What stands behind the last separator is the last piece.
pub proof fn lemma_split_last(a: Seq<char>, c: char, b: Seq<char>, set: CharSet)
    requires
        set.has(c),
        lacks(b, set),
    ensures
        split_at_set(a.push(c) + b, set) == split_at_set(a, set).push(b),
    decreases b.len(),
{
    let s = a.push(c) + b;
    if b.len() == 0 {
        assert(s =~= a.push(c));
        assert(s.drop_last() =~= a);
        assert(b =~= Seq::empty());
    } else {
        let fewer = b.drop_last();
        assert forall|i: int| 0 <= i < fewer.len() implies !set.has(#[trigger] fewer[i]) by {
            assert(fewer[i] == b[i]);
        }
        lemma_split_last(a, c, fewer, set);
        assert(s.drop_last() =~= a.push(c) + fewer);
        assert(!set.has(b[b.len() - 1]));
        assert(s.last() == b.last());
        assert(fewer.push(b.last()) =~= b);
        assert(split_at_set(s, set) =~= split_at_set(a, set).push(b));
    }
}

/// A number is read back from its decimal notation.
pub proof fn lemma_decimal_reads_back(n: nat)
    ensures
        decimal(n).len() > 0,
        all_digits(decimal(n)),
        digits_value(decimal(n)) == n,
    decreases n,
{
    if n < 10 {
        assert(decimal(n).drop_last().len() == 0);
        assert(digits_value(decimal(n).drop_last()) == 0);
    } else {
        lemma_decimal_reads_back(n / 10);
        assert(decimal(n).drop_last() =~= decimal(n / 10));
        assert forall|i: int| 0 <= i < decimal(n).len() implies is_digit(#[trigger] decimal(n)[i]) by {
            if i < decimal(n / 10).len() {
                assert(decimal(n)[i] == decimal(n / 10)[i]);
            }
        }
    }
}

/// A character that is not stripped stays.
pub proof fn lemma_trim_back_keeps(s: Seq<char>, set: CharSet, i: int)
    requires
        0 <= i < s.len(),
        !set.has(s[i]),
    ensures
        trim_back(s, set).len() > i,
    decreases s.len(),
{
    if set.has(s.last()) {
        assert(i < s.len() - 1);
        assert(s.drop_last()[i] == s[i]);
        lemma_trim_back_keeps(s.drop_last(), set, i);
    }
}

// ---------------------------------------------------------------------------
// Laws
// ---------------------------------------------------------------------------

/// Which characters are stripped and split at: those of Unicode's `White_Space`, and one
/// character alone.
pub proof fn law_sets_of_characters(c: char, x: char)
    ensures
        CharSet::One(x).has(c) == (c == x),
        CharSet::Whitespace.has(c) == (c == ' ' || c == '\n' || c == '\t' || c == '\r' || c
            == '\u{b}' || c == '\u{c}' || c == '\u{85}' || c == '\u{a0}' || c == '\u{1680}'
            || '\u{2000}' <= c <= '\u{200a}' || c == '\u{2028}' || c == '\u{2029}' || c
            == '\u{202f}' || c == '\u{205f}' || c == '\u{3000}'),
{
}

/// What is stripped off the front is what stands there of the set, and no more.
pub proof fn law_trim_front_cuts_the_front(a: Seq<char>, m: Seq<char>, set: CharSet)
    requires
        forall|i: int| 0 <= i < a.len() ==> set.has(#[trigger] a[i]),
        m.len() > 0 ==> !set.has(m[0]),
    ensures
        trim_front(a + m, set) == m,
    decreases a.len(),
{
    if a.len() == 0 {
        assert(a + m =~= m);
    } else {
        assert((a + m)[0] == a[0]);
        assert((a + m).drop_first() =~= a.drop_first() + m);
        let rest = a.drop_first();
        assert forall|i: int| 0 <= i < rest.len() implies set.has(#[trigger] rest[i]) by {
            assert(rest[i] == a[i + 1]);
        }
        law_trim_front_cuts_the_front(rest, m, set);
    }
}

/// What is stripped off the back is what stands there of the set, and no more.
pub proof fn law_trim_back_cuts_the_back(m: Seq<char>, b: Seq<char>, set: CharSet)
    requires
        forall|i: int| 0 <= i < b.len() ==> set.has(#[trigger] b[i]),
        m.len() > 0 ==> !set.has(m.last()),
    ensures
        trim_back(m + b, set) == m,
    decreases b.len(),
{
    if b.len() == 0 {
        assert(m + b =~= m);
    } else {
        assert((m + b).last() == b[b.len() - 1]);
        assert((m + b).drop_last() =~= m + b.drop_last());
        let rest = b.drop_last();
        assert forall|i: int| 0 <= i < rest.len() implies set.has(#[trigger] rest[i]) by {
            assert(rest[i] == b[i]);
        }
        law_trim_back_cuts_the_back(m, rest, set);
    }
}

/// Stripping both ends leaves what stands between them.
pub proof fn law_trim_keeps_the_middle(a: Seq<char>, m: Seq<char>, b: Seq<char>, set: CharSet)
    requires
        forall|i: int| 0 <= i < a.len() ==> set.has(#[trigger] a[i]),
        forall|i: int| 0 <= i < b.len() ==> set.has(#[trigger] b[i]),
        m.len() > 0 ==> !set.has(m[0]) && !set.has(m.last()),
    ensures
        trim_both(a + m + b, set) == m,
        set == CharSet::Whitespace ==> trimmed(a + m + b) == m && (blank(a + m + b) == (m.len()
            == 0)),
{
    if m.len() == 0 {
        let all = a + m + b;
        assert forall|i: int| 0 <= i < all.len() implies set.has(#[trigger] all[i]) by {
            if i < a.len() {
                assert(all[i] == a[i]);
            } else {
                assert(all[i] == b[i - a.len()]);
            }
        }
        assert(all =~= all + m);
        assert(all =~= m + all);
        law_trim_front_cuts_the_front(all, m, set);
        law_trim_back_cuts_the_back(m, all, set);
        law_trim_back_cuts_the_back(m, m, set);
        assert(m + m =~= m);
    } else {
        assert(a + m + b =~= a + (m + b));
        assert((m + b)[0] == m[0]);
        law_trim_front_cuts_the_front(a, m + b, set);
        law_trim_back_cuts_the_back(m, b, set);
        law_trim_back_cuts_the_back(a + m, b, set);
        law_trim_front_cuts_the_front(a, m, set);
        assert((a + m).last() == m.last());
    }
}

/// A text begins with a prefix, ends with a suffix and holds an infix exactly where it can be
/// written so, and taking the prefix or suffix off leaves the rest.
pub proof fn law_parts_of_a_text(a: Seq<char>, m: Seq<char>, b: Seq<char>)
    ensures
        has_prefix(m + b, m) && without_prefix(m + b, m) == Some(b),
        has_suffix(a + m, m) && without_suffix(a + m, m) == Some(a),
        has_infix(a + m + b, m),
{
    assert((m + b).take(m.len() as int) =~= m);
    assert((m + b).skip(m.len() as int) =~= b);
    assert((a + m).skip(a.len() as int) =~= m);
    assert((a + m).take(a.len() as int) =~= a);
    assert((a + m + b).subrange(a.len() as int, (a.len() + m.len()) as int) =~= m);
    assert(stands_at(a + m + b, m, a.len() as int));
}

/// Where a text is said to have a part, it can be written with it.
pub proof fn law_found_parts_are_there(s: Seq<char>, p: Seq<char>)
    ensures
        has_prefix(s, p) == (exists|b: Seq<char>| s == #[trigger] (p + b)),
        has_suffix(s, p) == (exists|a: Seq<char>| s == #[trigger] (a + p)),
        has_infix(s, p) == (exists|a: Seq<char>, b: Seq<char>| s == #[trigger] (a + p + b)),
        without_prefix(s, p) matches Some(b) ==> s == p + b,
        without_prefix(s, p) is None ==> !has_prefix(s, p),
        without_suffix(s, p) matches Some(a) ==> s == a + p,
        without_suffix(s, p) is None ==> !has_suffix(s, p),
{
    if has_prefix(s, p) {
        assert(s =~= p + s.skip(p.len() as int));
    }
    if has_suffix(s, p) {
        assert(s =~= s.take(s.len() - p.len()) + p);
    }
    if has_infix(s, p) {
        let i = choose|i: int| stands_at(s, p, i);
        assert(s =~= s.take(i) + p + s.skip(i + p.len()));
    }
    if exists|b: Seq<char>| s == #[trigger] (p + b) {
        let b = choose|b: Seq<char>| s == #[trigger] (p + b);
        law_parts_of_a_text(Seq::empty(), p, b);
    }
    if exists|a: Seq<char>| s == #[trigger] (a + p) {
        let a = choose|a: Seq<char>| s == #[trigger] (a + p);
        law_parts_of_a_text(a, p, Seq::empty());
    }
    if exists|a: Seq<char>, b: Seq<char>| s == #[trigger] (a + p + b) {
        let (a, b) = choose|a: Seq<char>, b: Seq<char>| s == #[trigger] (a + p + b);
        law_parts_of_a_text(a, p, b);
    }
}

/// A separator parts a text: its pieces are those before the separator and those behind it.
pub proof fn law_split_parts_at_separators(a: Seq<char>, c: char, b: Seq<char>, set: CharSet)
    requires
        set.has(c),
    ensures
        split_at_set(a + seq![c] + b, set) == split_at_set(a, set) + split_at_set(b, set),
    decreases b.len(),
{
    let s = a + seq![c] + b;
    if b.len() == 0 {
        assert(s.drop_last() =~= a);
        assert(split_at_set(s, set) =~= split_at_set(a, set) + split_at_set(b, set));
    } else {
        let fewer = b.drop_last();
        law_split_parts_at_separators(a, c, fewer, set);
        assert(s.drop_last() =~= a + seq![c] + fewer);
        assert(s.last() == b.last());
        lemma_split_nonempty(fewer, set);
        let x = split_at_set(a, set);
        let y = split_at_set(fewer, set);
        assert((x + y).last() == y.last());
        assert((x + y).drop_last() =~= x + y.drop_last());
        assert(split_at_set(s, set) =~= x + split_at_set(b, set));
    }
}

/// The pieces of a text, put together with the separator, are the text, and none of them
/// holds the separator.
pub proof fn law_pieces_make_the_text(s: Seq<char>, c: char)
    ensures
        joined(split_at_set(s, CharSet::One(c)), seq![c]) == s,
        split_at_set(s, CharSet::One(c)).len() > 0,
        forall|i: int, k: int|
            0 <= i < split_at_set(s, CharSet::One(c)).len() && 0 <= k < split_at_set(
                s,
                CharSet::One(c),
            )[i].len() ==> #[trigger] split_at_set(s, CharSet::One(c))[i][k] != c,
    decreases s.len(),
{
    let set = CharSet::One(c);
    let all = split_at_set(s, set);
    if s.len() == 0 {
        assert(joined(all, seq![c]) =~= s);
    } else {
        law_pieces_make_the_text(s.drop_last(), c);
        let before = split_at_set(s.drop_last(), set);
        if set.has(s.last()) {
            assert(all.drop_last() =~= before);
            assert(joined(all, seq![c]) =~= s);
        } else {
            assert(all.drop_last() =~= before.drop_last());
            assert(all.last() == before.last().push(s.last()));
            assert(s.drop_last().push(s.last()) =~= s);
            if before.len() == 1 {
                assert(all[0] == before[0].push(s.last()));
            } else {
                let front = joined(before.drop_last(), seq![c]) + seq![c];
                assert(joined(before, seq![c]) == front + before.last());
                assert(joined(all, seq![c]) == front + before.last().push(s.last()));
                assert(front + before.last().push(s.last()) =~= (front + before.last()).push(
                    s.last(),
                ));
            }
        }
        assert forall|i: int, k: int| 0 <= i < all.len() && 0 <= k < all[i].len() implies #[trigger] all[i][k]
            != c by {
            if i < before.len() - 1 || (i < before.len() && k < before[i].len()) {
                assert(all[i][k] == before[i][k]);
            }
        }
    }
}

proof fn lemma_nonempty_concat(a: Seq<Seq<char>>, b: Seq<Seq<char>>)
    ensures
        nonempty_pieces(a + b) == nonempty_pieces(a) + nonempty_pieces(b),
    decreases b.len(),
{
    if b.len() == 0 {
        assert(a + b =~= a);
        assert(nonempty_pieces(a) + nonempty_pieces(b) =~= nonempty_pieces(a));
    } else {
        assert((a + b).drop_last() =~= a + b.drop_last());
        lemma_nonempty_concat(a, b.drop_last());
        assert(nonempty_pieces(a + b) =~= nonempty_pieces(a) + nonempty_pieces(b));
    }
}

/// The words of a text: whitespace parts them, and is no word itself.
pub proof fn law_words_are_parted_by_whitespace(a: Seq<char>, c: char, b: Seq<char>)
    requires
        is_whitespace(c),
    ensures
        words_of(a + seq![c] + b) == words_of(a) + words_of(b),
        words_of(Seq::<char>::empty()) == Seq::<Seq<char>>::empty(),
{
    law_split_parts_at_separators(a, c, b, CharSet::Whitespace);
    lemma_nonempty_concat(
        split_at_set(a, CharSet::Whitespace),
        split_at_set(b, CharSet::Whitespace),
    );
    let none = split_at_set(Seq::<char>::empty(), CharSet::Whitespace);
    assert(none.drop_last().len() == 0);
    assert(nonempty_pieces(none.drop_last()) =~= Seq::<Seq<char>>::empty());
}

/// A text without whitespace is one word.
pub proof fn law_word_is_whole(w: Seq<char>)
    requires
        w.len() > 0,
        forall|i: int| 0 <= i < w.len() ==> !is_whitespace(#[trigger] w[i]),
    ensures
        words_of(w) == seq![w],
{
    lemma_split_whole(w, CharSet::Whitespace);
    let one = seq![w];
    assert(one.drop_last().len() == 0);
    assert(nonempty_pieces(one.drop_last()) =~= Seq::<Seq<char>>::empty());
    assert(words_of(w) =~= seq![w]);
}

/// Joined texts stand one after the other, each once, with one separator between two.
pub proof fn law_joined_texts(a: Seq<Seq<char>>, p: Seq<char>, b: Seq<Seq<char>>, sep: Seq<char>)
    ensures
        joined(Seq::<Seq<char>>::empty(), sep) == Seq::<char>::empty(),
        joined(seq![p], sep) == p,
        a.len() > 0 && b.len() > 0 ==> joined(a + b, sep) == joined(a, sep) + sep + joined(b, sep),
    decreases b.len(),
{
    if a.len() > 0 && b.len() > 0 {
        assert((a + b).drop_last() =~= a + b.drop_last());
        assert((a + b).last() == b.last());
        if b.len() == 1 {
            assert(a + b.drop_last() =~= a);
        } else {
            law_joined_texts(a, p, b.drop_last(), sep);
            assert(joined(a, sep) + sep + (joined(b.drop_last(), sep) + sep + b.last()) =~= joined(
                a,
                sep,
            ) + sep + joined(b.drop_last(), sep) + sep + b.last());
        }
    }
}

/// The value of digits: each counts ten times as much as the one behind it.
pub proof fn law_digits_have_places(s: Seq<char>, d: char)
    requires
        '0' <= d <= '9',
    ensures
        digits_value(s.push(d)) == 10 * digits_value(s) + (d as int - '0' as int),
        digits_value(Seq::<char>::empty()) == 0,
{
    assert(s.push(d).drop_last() =~= s);
}

/// A number is read back from its decimal notation, also behind a `+`, unless it is too
/// large. The notation has no needless zero in front.
pub proof fn law_numbers_read_back(n: nat, max: nat)
    ensures
        digits_up_to(decimal(n), max) == if n <= max {
            Some(n)
        } else {
            None
        },
        unsigned_up_to(decimal(n), max) == digits_up_to(decimal(n), max),
        unsigned_up_to(seq!['+'] + decimal(n), max) == digits_up_to(decimal(n), max),
        n > 0 ==> decimal(n)[0] != '0',
        signed_decimal(n as int) == decimal(n),
        n > 0 ==> signed_decimal(-n) == seq!['-'] + decimal(n),
    decreases n,
{
    lemma_decimal_reads_back(n);
    assert(is_digit(decimal(n)[0]));
    assert((seq!['+'] + decimal(n)).drop_first() =~= decimal(n));
    if n >= 10 {
        law_numbers_read_back(n / 10, max);
        lemma_decimal_reads_back(n / 10);
        assert(decimal(n)[0] == decimal(n / 10)[0]);
    }
}

/// What is no row of digits is no number.
pub proof fn law_other_texts_are_no_numbers(s: Seq<char>, i: int, max: nat)
    requires
        0 <= i < s.len(),
        !('0' <= s[i] <= '9'),
    ensures
        digits_up_to(s, max) is None,
        i > 0 || s[0] != '+' || s.len() == 1 ==> unsigned_up_to(s, max) is None,
        digits_up_to(Seq::<char>::empty(), max) is None,
{
    assert(!is_digit(s[i]));
    if s[0] == '+' && i > 0 {
        assert(s.drop_first()[i - 1] == s[i]);
    }
}

/// Two characters are the same but for their case where they are equal, or one is an ASCII
/// letter and the other the same letter in the other case.
pub proof fn law_case_of_letters(a: Seq<char>, b: Seq<char>)
    ensures
        same_ignoring_case(a, b) == (a.len() == b.len() && forall|i: int|
            0 <= i < a.len() ==> {
                ||| #[trigger] a[i] == b[i]
                ||| 'A' <= a[i] <= 'Z' && b[i] as int == a[i] as int + 32
                ||| 'A' <= b[i] <= 'Z' && a[i] as int == b[i] as int + 32
            }),
        same_ignoring_case(a, a),
{
    assert forall|c: char, d: char|
        (#[trigger] ascii_lower(c) == #[trigger] ascii_lower(d)) == (c == d || ('A' <= c <= 'Z' && d as int
            == c as int + 32) || ('A' <= d <= 'Z' && c as int == d as int + 32)) by {
        lemma_lower_is_another_letter(c);
        lemma_lower_is_another_letter(d);
    }
    if a.len() == b.len() {
        assert forall|i: int| 0 <= i < a.len() implies (ascii_lower(#[trigger] a[i]) == ascii_lower(
            b[i],
        )) == (a[i] == b[i] || ('A' <= a[i] <= 'Z' && b[i] as int == a[i] as int + 32) || ('A'
            <= b[i] <= 'Z' && a[i] as int == b[i] as int + 32)) by {}
    }
}

proof fn lemma_lower_is_another_letter(c: char)
    ensures
        'A' <= c <= 'Z' ==> ascii_lower(c) as int == c as int + 32,
        !('A' <= c <= 'Z') ==> ascii_lower(c) == c,
{
}

/// The code units of a text: one for a character of the basic plane, which is its number,
/// and two for any other, from which its number can be read.
pub proof fn law_units_of_characters(a: Seq<char>, c: char)
    ensures
        utf16(Seq::<char>::empty()).len() == 0,
        ({
            let u = utf16(a.push(c)).skip(utf16(a).len() as int);
            &&& utf16(a.push(c)) == utf16(a) + u
            &&& (c as u32) < 0x10000 ==> u.len() == 1 && u[0] == c as u32
            &&& (c as u32) >= 0x10000 ==> u.len() == 2 && 0xd800 <= u[0] < 0xdc00 && 0xdc00 <= u[1]
                < 0xe000 && c as u32 == 0x10000 + (u[0] - 0xd800) * 0x400 + (u[1] - 0xdc00)
        }),
{
    let n = c as u32;
    assert(n <= 0x10ffff);
    assert(a.push(c).drop_last() =~= a);
    let u = utf16(a.push(c)).skip(utf16(a).len() as int);
    assert(u =~= utf16_char(c));
    assert(utf16(a.push(c)) =~= utf16(a) + u);
    if n >= 0x10000 {
        let m: int = n - 0x10000;
        assert(0 <= m / 0x400 < 0x400 && m == (m / 0x400) * 0x400 + m % 0x400) by (nonlinear_arith)
            requires
                0 <= m < 0x100000,
        ;
    }
}

/// Two rows of code units are the same but for their case where each two are equal, or one
/// is an ASCII letter and the other the same letter in the other case.
pub proof fn law_case_of_units(a: Seq<u16>, b: Seq<u16>)
    ensures
        units_match(a, b) == (a.len() == b.len() && forall|i: int|
            0 <= i < a.len() ==> {
                ||| #[trigger] a[i] == b[i]
                ||| 0x41 <= a[i] <= 0x5a && b[i] == a[i] + 32
                ||| 0x41 <= b[i] <= 0x5a && a[i] == b[i] + 32
            }),
{
    if a.len() == b.len() {
        assert forall|i: int| 0 <= i < a.len() implies (unit_lower(#[trigger] a[i]) == unit_lower(
            b[i],
        )) == (a[i] == b[i] || (0x41 <= a[i] <= 0x5a && b[i] == a[i] + 32) || (0x41 <= b[i] <= 0x5a
            && a[i] == b[i] + 32)) by {}
    }
}

/// The part of a text before the first of a character.
pub proof fn law_text_before_a_character(a: Seq<char>, c: char, b: Seq<char>)
    requires
        forall|i: int| 0 <= i < a.len() ==> #[trigger] a[i] != c,
    ensures
        before_first(a + seq![c] + b, c) == Some(a),
        before_first(a, c) is None,
{
    let s = a + seq![c] + b;
    assert forall|k: int| 0 <= k < a.len() implies #[trigger] s[k] != c by {
        assert(s[k] == a[k]);
    }
    lemma_before_first(s, c, a.len() as int);
    lemma_before_first(a, c, a.len() as int);
    assert(s.take(a.len() as int) =~= a);
}

/// The first characters of a text: as many as are asked for, unless it is shorter.
pub proof fn law_first_characters(a: Seq<char>, b: Seq<char>, n: int)
    requires
        a.len() <= n,
    ensures
        first_chars(a, n) == a,
        a.len() == n ==> first_chars(a + b, n) == a,
{
    assert((a + b).take(a.len() as int) =~= a);
    assert(b.len() == 0 ==> a + b =~= a);
}

/// A text that is short enough is kept whole.
pub proof fn law_short_text_is_kept(s: Seq<char>, max: int)
    requires
        encode_utf8(s).len() <= max,
    ensures
        prefix_within(s, max) == s,
{
    lemma_chars_within(s, max);
    let n = chars_within(s, max);
    if n < s.len() {
        if n + 1 < s.len() {
            lemma_encode_prefix_shorter(s, n + 1);
        } else {
            assert(s.take(n + 1) =~= s);
        }
    }
    assert(s.take(s.len() as int) =~= s);
}

} // verus!
