//! Character-level text helpers: decimal rendering, lexicographic
//! comparison, case folding and in-order subsequence matching.
use std::cmp::Ordering;
use vstd::prelude::*;
use vstd::utf8::{
    decode_utf8, decode_utf8_encode_utf8, encode_utf8, encode_utf8_decode_utf8,
    encode_utf8_valid_utf8, is_char_boundary, is_char_boundary_start_end_of_seq, valid_utf8,
    valid_utf8_split,
};

verus! {

broadcast use vstd::string::group_string_axioms;

/// The characters of a string slice, in order.
pub fn chars_of(s: &str) -> (v: Vec<char>)
    ensures
        v@ == s@,
{
    let mut v: Vec<char> = Vec::new();
    for c in it: s.chars()
        invariant
            v@ == it.seq().take(it.index()),
            it.seq() == s@,
    {
        v.push(c);
    }
    v
}

/// Calls `String::push`. The contract claims that the string afterwards
/// holds its old characters followed by `c`.
#[verifier::external_body]
pub(crate) fn push_char(s: &mut String, c: char)
    ensures
        final(s)@ == old(s)@.push(c),
{
    s.push(c);
}

/// A `String` holding exactly the given characters.
pub fn string_from_chars(v: &Vec<char>) -> (s: String)
    ensures
        s@ == v@,
{
    let mut s = String::new();
    for i in 0..v.len()
        invariant
            s@ == v@.take(i as int),
    {
        push_char(&mut s, v[i]);
        assert(v@.take(i + 1) == v@.take(i as int).push(v@[i as int]));
    }
    assert(v@.take(v.len() as int) == v@);
    s
}

/// What `str::to_lowercase` returns for a string with these characters:
/// the Unicode lower-case mapping of each character, which for a capital
/// sigma depends on its neighbours. The mapping itself is not written out.
pub uninterp spec fn lowercase(s: Seq<char>) -> Seq<char>;

/// All characters are ASCII.
pub open spec fn is_ascii_text(s: Seq<char>) -> bool {
    forall|i: int| 0 <= i < s.len() ==> (#[trigger] s[i] as u32) < 128
}

/// An ASCII capital letter lowered; any other character as it is.
pub open spec fn ascii_lower_char(c: char) -> char {
    if 'A' <= c && c <= 'Z' {
        ((c as u32) + 32) as char
    } else {
        c
    }
}

/// An ASCII small letter raised; any other character as it is.
pub open spec fn ascii_upper_char(c: char) -> char {
    if 'a' <= c && c <= 'z' {
        ((c as u32) - 32) as char
    } else {
        c
    }
}

/// Each ASCII capital letter lowered.
pub open spec fn ascii_lowercase(s: Seq<char>) -> Seq<char> {
    s.map_values(|c: char| ascii_lower_char(c))
}

/// Each ASCII small letter raised (what `str::to_uppercase` gives for ASCII
/// text).
pub open spec fn ascii_uppercase(s: Seq<char>) -> Seq<char> {
    s.map_values(|c: char| ascii_upper_char(c))
}

/// Calls `str::to_lowercase`. The contract claims that the result depends
/// on the characters of `s` alone, as the name `lowercase`, and, as std
/// documents for the Unicode lower-case mapping, that ASCII text (the empty
/// text among it) comes out with each capital letter lowered and every
/// other character as it was. What other characters map to is left unsaid.
#[verifier::external_body]
pub(crate) fn to_lowercase(s: &str) -> (r: String)
    ensures
        r@ == lowercase(s@),
        is_ascii_text(s@) ==> r@ == ascii_lowercase(s@),
{
    s.to_lowercase()
}

/// The character of a decimal digit.
pub open spec fn digit_char(d: nat) -> char {
    if d == 0 {
        '0'
    } else if d == 1 {
        '1'
    } else if d == 2 {
        '2'
    } else if d == 3 {
        '3'
    } else if d == 4 {
        '4'
    } else if d == 5 {
        '5'
    } else if d == 6 {
        '6'
    } else if d == 7 {
        '7'
    } else if d == 8 {
        '8'
    } else {
        '9'
    }
}

/// The decimal text of a natural number, without leading zeros.
pub open spec fn decimal(n: nat) -> Seq<char>
    decreases n,
{
    if n < 10 {
        seq![digit_char(n)]
    } else {
        decimal(n / 10).push(digit_char(n % 10))
    }
}

/// The decimal text of an integer, with a leading '-' when negative.
pub open spec fn signed_decimal(n: int) -> Seq<char> {
    if n < 0 {
        seq!['-'] + decimal((-n) as nat)
    } else {
        decimal(n as nat)
    }
}

fn digit(d: u64) -> (c: char)
    requires
        d < 10,
    ensures
        c == digit_char(d as nat),
{
    match d {
        0 => '0',
        1 => '1',
        2 => '2',
        3 => '3',
        4 => '4',
        5 => '5',
        6 => '6',
        7 => '7',
        8 => '8',
        _ => '9',
    }
}

/// Appends the decimal text of `n` to `s`.
pub fn push_decimal(s: &mut String, n: u64)
    ensures
        final(s)@ == old(s)@ + decimal(n as nat),
    decreases n,
{
    if n >= 10 {
        push_decimal(s, n / 10);
    }
    push_char(s, digit(n % 10));
    assert(old(s)@ + decimal(n as nat) == (if n >= 10 {
        old(s)@ + decimal((n / 10) as nat)
    } else {
        old(s)@
    }).push(digit_char((n % 10) as nat)));
}

/// The decimal text of an unsigned number (`u64::to_string`).
pub fn u64_text(n: u64) -> (s: String)
    ensures
        s@ == decimal(n as nat),
{
    let mut s = String::new();
    push_decimal(&mut s, n);
    assert(s@ == Seq::<char>::empty() + decimal(n as nat));
    s
}

/// The decimal text of a signed number (`i32::to_string`).
pub fn i32_text(n: i32) -> (s: String)
    ensures
        s@ == signed_decimal(n as int),
{
    let mut s = String::new();
    if n < 0 {
        push_char(&mut s, '-');
        let m: i64 = n as i64;
        let mag: u64 = (-m) as u64;
        push_decimal(&mut s, mag);
    } else {
        push_decimal(&mut s, n as u64);
        assert(s@ == Seq::<char>::empty() + decimal(n as nat));
    }
    s
}

/// A character with the Unicode White_Space property (what
/// `char::is_whitespace` and `str::trim` treat as white space).
pub open spec fn is_white_space(c: char) -> bool {
    let n = c as u32;
    ||| (0x9 <= n && n <= 0xD)
    ||| n == 0x20
    ||| n == 0x85
    ||| n == 0xA0
    ||| n == 0x1680
    ||| (0x2000 <= n && n <= 0x200A)
    ||| n == 0x2028
    ||| n == 0x2029
    ||| n == 0x202F
    ||| n == 0x205F
    ||| n == 0x3000
}

fn white_space(c: char) -> (r: bool)
    ensures
        r == is_white_space(c),
{
    let n = c as u32;
    (0x9 <= n && n <= 0xD) || n == 0x20 || n == 0x85 || n == 0xA0 || n == 0x1680 || (0x2000 <= n
        && n <= 0x200A) || n == 0x2028 || n == 0x2029 || n == 0x202F || n == 0x205F || n == 0x3000
}

/// `s` without its leading white space.
pub open spec fn trim_start_text(s: Seq<char>) -> Seq<char>
    decreases s.len(),
{
    if s.len() > 0 && is_white_space(s[0]) {
        trim_start_text(s.drop_first())
    } else {
        s
    }
}

/// `s` without its trailing white space.
pub open spec fn trim_end_text(s: Seq<char>) -> Seq<char>
    decreases s.len(),
{
    if s.len() > 0 && is_white_space(s.last()) {
        trim_end_text(s.drop_last())
    } else {
        s
    }
}

/// `s` without leading and trailing white space.
pub open spec fn trimmed(s: Seq<char>) -> Seq<char> {
    trim_end_text(trim_start_text(s))
}

/// `s` without leading and trailing white space (what `str::trim` gives).
pub fn trim(s: &str) -> (r: String)
    ensures
        r@ == trimmed(s@),
{
    let v = chars_of(s);
    let n = v.len();
    let mut i: usize = 0;
    assert(v@.skip(0) =~= v@);
    while i < n && white_space(v[i])
        invariant
            n == v@.len(),
            i <= n,
            trim_start_text(v@) == trim_start_text(v@.skip(i as int)),
        decreases n - i,
    {
        assert(v@.skip(i as int).drop_first() =~= v@.skip(i + 1));
        i = i + 1;
    }
    assert(trim_start_text(v@) == v@.skip(i as int));
    let mut j: usize = n;
    assert(v@.skip(i as int) =~= v@.subrange(i as int, n as int));
    while j > i && white_space(v[j - 1])
        invariant
            n == v@.len(),
            i <= j <= n,
            trimmed(v@) == trim_end_text(v@.subrange(i as int, j as int)),
        decreases j,
    {
        assert(v@.subrange(i as int, j as int).drop_last() =~= v@.subrange(i as int, j - 1));
        j = j - 1;
    }
    let mut r = String::new();
    for k in i..j
        invariant
            n == v@.len(),
            i <= j <= n,
            r@ == v@.subrange(i as int, k as int),
    {
        push_char(&mut r, v[k]);
        assert(v@.subrange(i as int, k + 1) =~= v@.subrange(i as int, k as int).push(v@[k as int]));
    }
    r
}

/// Whether two strings hold the same characters.
pub fn same_text(a: &str, b: &str) -> (r: bool)
    ensures
        r == (a@ == b@),
{
    let x = chars_of(a);
    let y = chars_of(b);
    if x.len() != y.len() {
        return false;
    }
    let mut i: usize = 0;
    while i < x.len()
        invariant
            x@ == a@,
            y@ == b@,
            x@.len() == y@.len(),
            i <= x@.len(),
            forall|k: int| 0 <= k < i ==> x@[k] == y@[k],
        decreases x.len() - i,
    {
        if x[i] != y[i] {
            return false;
        }
        i = i + 1;
    }
    assert(x@ =~= y@);
    true
}

/// The number of bytes of the UTF-8 encoding of a text, as a `usize`
/// (what `str::len` reports).
pub open spec fn byte_len(s: Seq<char>) -> usize {
    encode_utf8(s).len() as usize
}

/// Byte position `n` of the UTF-8 encoding of `s` starts a character (or
/// is its end).
pub open spec fn at_char_boundary(s: Seq<char>, n: int) -> bool {
    is_char_boundary(encode_utf8(s), n)
}

/// The text of the first `n` bytes of the UTF-8 encoding of `s`.
pub open spec fn byte_prefix(s: Seq<char>, n: int) -> Seq<char> {
    decode_utf8(encode_utf8(s).subrange(0, n))
}

/// The number of bytes of a string (`str::len`).
pub fn byte_count(s: &str) -> (r: usize)
    ensures
        r == byte_len(s@),
{
    s.len()
}

/// Whether byte position `n` of `s` starts a character
/// (`str::is_char_boundary`).
pub fn is_boundary(s: &str, n: usize) -> (r: bool)
    ensures
        r == at_char_boundary(s@, n as int),
{
    s.is_char_boundary(n)
}

/// The first `n` bytes of `s` (`&s[..n]`), which must end on a character.
pub fn prefix_bytes(s: &str, n: usize) -> (r: &str)
    requires
        at_char_boundary(s@, n as int),
    ensures
        r@ == byte_prefix(s@, n as int),
{
    let (a, _b) = s.split_at(n);
    proof {
        encode_utf8_decode_utf8(a@);
    }
    a
}

/// Position 0 always starts a character.
pub proof fn lemma_boundary_at_start(s: Seq<char>)
    ensures
        at_char_boundary(s, 0),
{
    encode_utf8_valid_utf8(s);
    is_char_boundary_start_end_of_seq(encode_utf8(s));
}

/// Encoding a concatenation encodes each part.
pub proof fn lemma_encode_concat(a: Seq<char>, b: Seq<char>)
    ensures
        encode_utf8(a + b) == encode_utf8(a) + encode_utf8(b),
    decreases a.len(),
{
    if a.len() == 0 {
        assert(a + b =~= b);
        assert(encode_utf8(a) =~= Seq::<u8>::empty());
        assert(encode_utf8(a) + encode_utf8(b) =~= encode_utf8(b));
    } else {
        assert((a + b).drop_first() =~= a.drop_first() + b);
        assert((a + b)[0] == a[0]);
        lemma_encode_concat(a.drop_first(), b);
        assert(encode_utf8(a + b) =~= encode_utf8(a) + encode_utf8(b));
    }
}

/// The text of the first `n` bytes, where `n` starts a character, encodes
/// to exactly those `n` bytes.
pub proof fn lemma_byte_prefix_len(s: Seq<char>, n: int)
    requires
        at_char_boundary(s, n),
    ensures
        encode_utf8(byte_prefix(s, n)) == encode_utf8(s).subrange(0, n),
        0 <= n <= encode_utf8(s).len(),
{
    let bytes = encode_utf8(s);
    encode_utf8_valid_utf8(s);
    lemma_boundary_in_range(bytes, n);
    valid_utf8_split(bytes, n);
    decode_utf8_encode_utf8(bytes.subrange(0, n));
}

proof fn lemma_boundary_in_range(bytes: Seq<u8>, n: int)
    requires
        valid_utf8(bytes),
        is_char_boundary(bytes, n),
    ensures
        0 <= n <= bytes.len(),
    decreases bytes.len(),
{
    if n != 0 && n > 0 && n <= bytes.len() {
    }
}

/// "..." takes three bytes.
pub proof fn lemma_ellipsis_bytes()
    ensures
        encode_utf8("..."@).len() == 3,
{
    reveal_strlit("...");
    let d = "..."@;
    assert(d.drop_first().drop_first().drop_first() =~= Seq::<char>::empty());
    reveal_with_fuel(encode_utf8, 4);
}

/// A copy of a string slice as a `String`.
pub fn text_of(s: &str) -> (r: String)
    ensures
        r@ == s@,
{
    s.to_string()
}

/// Character order by code point.
pub open spec fn char_below(a: char, b: char) -> bool {
    (a as u32) < (b as u32)
}

fn char_is_below(a: char, b: char) -> (r: bool)
    ensures
        r == char_below(a, b),
{
    (a as u32) < (b as u32)
}

/// Two characters neither below the other are the same character.
pub proof fn lemma_char_order_total(a: char, b: char)
    ensures
        !char_below(a, b) && !char_below(b, a) ==> a == b,
{
    if !char_below(a, b) && !char_below(b, a) {
        assert((a as u32) == (b as u32));
    }
}

/// The characters of `s` from position `i` on.
pub open spec fn suffix(s: Seq<char>, i: usize) -> Seq<char> {
    s.skip(i as int)
}

/// The length of a suffix.
proof fn lemma_suffix_len(s: Seq<char>, i: usize)
    requires
        i <= s.len(),
    ensures
        suffix(s, i).len() == s.len() - i,
        i == 0 ==> suffix(s, i) == s,
{
    if i == 0 {
        assert(suffix(s, i) =~= s);
    }
}

/// Dropping the first character of a suffix is the next suffix.
proof fn lemma_suffix_step(s: Seq<char>, i: usize)
    requires
        i < s.len(),
        s.len() <= usize::MAX,
    ensures
        suffix(s, i)[0] == s[i as int],
        suffix(s, i).drop_first() == suffix(s, (i + 1) as usize),
        suffix(s, i).len() == s.len() - i,
{
    assert(suffix(s, i).drop_first() =~= suffix(s, (i + 1) as usize));
}

/// Lexicographic order of character sequences (the order of `str`).
pub open spec fn lex_order(a: Seq<char>, b: Seq<char>) -> Ordering
    decreases a.len(),
{
    if a.len() == 0 {
        if b.len() == 0 {
            Ordering::Equal
        } else {
            Ordering::Less
        }
    } else if b.len() == 0 {
        Ordering::Greater
    } else if char_below(a[0], b[0]) {
        Ordering::Less
    } else if char_below(b[0], a[0]) {
        Ordering::Greater
    } else {
        lex_order(a.drop_first(), b.drop_first())
    }
}

/// The reverse of an ordering.
pub open spec fn flipped(o: Ordering) -> Ordering {
    match o {
        Ordering::Less => Ordering::Greater,
        Ordering::Equal => Ordering::Equal,
        Ordering::Greater => Ordering::Less,
    }
}

/// Comparing the other way round gives the reverse ordering, and only
/// equal sequences compare equal.
pub proof fn lemma_lex_order_flip(a: Seq<char>, b: Seq<char>)
    ensures
        lex_order(b, a) == flipped(lex_order(a, b)),
        lex_order(a, b) == Ordering::Equal <==> a == b,
    decreases a.len(),
{
    if a.len() > 0 && b.len() > 0 {
        lemma_lex_order_flip(a.drop_first(), b.drop_first());
        if a[0] == b[0] && a.drop_first() == b.drop_first() {
            assert(a == seq![a[0]] + a.drop_first());
            assert(b == seq![b[0]] + b.drop_first());
        }
        if a == b {
            assert(a.drop_first() == b.drop_first());
        }
        lemma_char_order_total(a[0], b[0]);
    } else if a.len() == 0 && b.len() == 0 {
        assert(a == b);
    }
}

/// Lexicographic `Less` is transitive.
pub proof fn lemma_lex_order_less_trans(a: Seq<char>, b: Seq<char>, c: Seq<char>)
    requires
        lex_order(a, b) == Ordering::Less,
        lex_order(b, c) == Ordering::Less,
    ensures
        lex_order(a, c) == Ordering::Less,
    decreases a.len(),
{
    if a.len() > 0 && b.len() > 0 && c.len() > 0 {
        if !char_below(a[0], b[0]) && !char_below(b[0], a[0]) && !char_below(b[0], c[0])
            && !char_below(c[0], b[0]) {
            lemma_lex_order_less_trans(a.drop_first(), b.drop_first(), c.drop_first());
        }
    }
}

/// `x` is a proper prefix of `y`.
pub open spec fn is_proper_prefix(x: Seq<char>, y: Seq<char>) -> bool {
    x.len() < y.len() && y.take(x.len() as int) == x
}

proof fn lemma_proper_prefix_step(x: Seq<char>, y: Seq<char>)
    requires
        is_proper_prefix(x, y),
        x.len() > 0,
    ensures
        x[0] == y[0],
        is_proper_prefix(x.drop_first(), y.drop_first()),
{
    assert(y.take(x.len() as int)[0] == y[0]);
    assert(y.drop_first().take(x.drop_first().len() as int) =~= x.drop_first()) by {
        assert forall|k: int| 0 <= k < x.drop_first().len() implies y.drop_first().take(
            x.drop_first().len() as int,
        )[k] == x.drop_first()[k] by {
            assert(y.take(x.len() as int)[k + 1] == x[k + 1]);
        }
    }
}

/// Lexicographic order decides at the first difference: equal texts are
/// `Equal`; a proper prefix comes first; otherwise the text whose character
/// is smaller (by code point) at the first position where they differ comes
/// first.
pub proof fn lemma_lex_order_first_difference(x: Seq<char>, y: Seq<char>)
    ensures
        x == y ==> lex_order(x, y) == Ordering::Equal,
        is_proper_prefix(x, y) ==> lex_order(x, y) == Ordering::Less,
        forall|i: int|
            0 <= i < x.len() && i < y.len() && x.take(i) == y.take(i) && char_below(
                #[trigger] x[i],
                y[i],
            ) ==> lex_order(x, y) == Ordering::Less,
    decreases x.len(),
{
    lemma_lex_order_flip(x, y);
    if x.len() > 0 && y.len() > 0 {
        lemma_lex_order_first_difference(x.drop_first(), y.drop_first());
        if is_proper_prefix(x, y) {
            lemma_proper_prefix_step(x, y);
        }
        assert forall|i: int|
            0 <= i < x.len() && i < y.len() && x.take(i) == y.take(i) && char_below(
                #[trigger] x[i],
                y[i],
            ) implies lex_order(x, y) == Ordering::Less by {
            if i > 0 {
                assert(x[0] == x.take(i)[0]);
                assert(y[0] == y.take(i)[0]);
                assert(x.drop_first().take(i - 1) =~= y.drop_first().take(i - 1)) by {
                    assert forall|k: int| 0 <= k < i - 1 implies #[trigger] x.drop_first().take(
                        i - 1,
                    )[k] == y.drop_first().take(i - 1)[k] by {
                        assert(x.take(i)[k + 1] == y.take(i)[k + 1]);
                    }
                }
                assert(x.drop_first()[i - 1] == x[i]);
                assert(y.drop_first()[i - 1] == y[i]);
            }
        }
    } else if x.len() == 0 && y.len() > 0 {
    }
}

/// Compares two strings lexicographically (`str::cmp`).
pub fn compare_text(a: &str, b: &str) -> (o: Ordering)
    ensures
        o == lex_order(a@, b@),
{
    let x = chars_of(a);
    let y = chars_of(b);
    let mut i: usize = 0;
    proof {
        lemma_suffix_len(x@, 0);
        lemma_suffix_len(y@, 0);
    }
    while i < x.len() && i < y.len()
        invariant
            i <= x@.len(),
            i <= y@.len(),
            x@ == a@,
            y@ == b@,
            lex_order(x@, y@) == lex_order(suffix(x@, i), suffix(y@, i)),
        decreases x.len() - i,
    {
        let cx = x[i];
        let cy = y[i];
        proof {
            lemma_suffix_step(x@, i);
            lemma_suffix_step(y@, i);
        }
        if char_is_below(cx, cy) {
            return Ordering::Less;
        }
        if char_is_below(cy, cx) {
            return Ordering::Greater;
        }
        i = i + 1;
    }
    proof {
        lemma_suffix_len(x@, i);
        lemma_suffix_len(y@, i);
    }
    if i < x.len() {
        Ordering::Greater
    } else if i < y.len() {
        Ordering::Less
    } else {
        Ordering::Equal
    }
}

/// Greedy in-order matching: every character of `p` is found in `h`,
/// in order, each one after the previous match.
pub open spec fn in_order_within(p: Seq<char>, h: Seq<char>) -> bool
    decreases h.len(),
{
    if p.len() == 0 {
        true
    } else if h.len() == 0 {
        false
    } else if p[0] == h[0] {
        in_order_within(p.drop_first(), h.drop_first())
    } else {
        in_order_within(p, h.drop_first())
    }
}

/// `pos` picks, strictly increasing, one position of `h` for each
/// character of `p`, holding that character.
pub open spec fn is_embedding(p: Seq<char>, h: Seq<char>, pos: Seq<int>) -> bool {
    &&& pos.len() == p.len()
    &&& forall|i: int| 0 <= i < pos.len() ==> 0 <= #[trigger] pos[i] < h.len()
    &&& forall|i: int| 0 <= i < pos.len() ==> h[#[trigger] pos[i]] == p[i]
    &&& forall|i: int, j: int| 0 <= i < j < pos.len() ==> #[trigger] pos[i] < #[trigger] pos[j]
}

proof fn lemma_greedy_gives_embedding(p: Seq<char>, h: Seq<char>) -> (pos: Seq<int>)
    requires
        in_order_within(p, h),
    ensures
        is_embedding(p, h, pos),
    decreases h.len(),
{
    if p.len() == 0 {
        Seq::empty()
    } else if p[0] == h[0] {
        let r = lemma_greedy_gives_embedding(p.drop_first(), h.drop_first());
        let pos = seq![0int] + r.map_values(|x: int| x + 1);
        assert forall|i: int| 0 <= i < pos.len() implies h[#[trigger] pos[i]] == p[i] by {
            if i > 0 {
                assert(pos[i] == r[i - 1] + 1);
                assert(h.drop_first()[r[i - 1]] == p.drop_first()[i - 1]);
            }
        }
        assert forall|i: int, j: int| 0 <= i < j < pos.len() implies #[trigger] pos[i]
            < #[trigger] pos[j] by {
            if i > 0 {
                assert(r[i - 1] < r[j - 1]);
            } else {
                assert(0 <= r[j - 1]);
            }
        }
        pos
    } else {
        let r = lemma_greedy_gives_embedding(p, h.drop_first());
        let pos = r.map_values(|x: int| x + 1);
        assert forall|i: int| 0 <= i < pos.len() implies h[#[trigger] pos[i]] == p[i] by {
            assert(h.drop_first()[r[i]] == p[i]);
        }
        assert forall|i: int, j: int| 0 <= i < j < pos.len() implies #[trigger] pos[i]
            < #[trigger] pos[j] by {
            assert(r[i] < r[j]);
        }
        pos
    }
}

proof fn lemma_embedding_gives_greedy(p: Seq<char>, h: Seq<char>, pos: Seq<int>)
    requires
        is_embedding(p, h, pos),
    ensures
        in_order_within(p, h),
    decreases h.len(),
{
    if p.len() > 0 {
        assert(0 <= pos[0] < h.len());
        assert forall|i: int| 0 < i < pos.len() implies pos[i] >= 1 by {
            assert(pos[0] < pos[i]);
        }
        if p[0] == h[0] {
            let r = pos.drop_first().map_values(|x: int| x - 1);
            assert forall|i: int| 0 <= i < r.len() implies h.drop_first()[#[trigger] r[i]]
                == p.drop_first()[i] by {
                assert(h[pos[i + 1]] == p[i + 1]);
            }
            assert forall|i: int, j: int| 0 <= i < j < r.len() implies #[trigger] r[i]
                < #[trigger] r[j] by {
                assert(pos[i + 1] < pos[j + 1]);
            }
            assert forall|i: int| 0 <= i < r.len() implies 0 <= #[trigger] r[i] < h.drop_first().len() by {
                assert(pos[i + 1] >= 1);
            }
            lemma_embedding_gives_greedy(p.drop_first(), h.drop_first(), r);
        } else {
            assert(pos[0] != 0);
            assert forall|i: int| 0 <= i < pos.len() implies pos[i] >= 1 by {
                if i > 0 {
                    assert(pos[0] < pos[i]);
                }
            }
            let r = pos.map_values(|x: int| x - 1);
            assert forall|i: int| 0 <= i < r.len() implies h.drop_first()[#[trigger] r[i]]
                == p[i] by {
                assert(h[pos[i]] == p[i]);
            }
            assert forall|i: int, j: int| 0 <= i < j < r.len() implies #[trigger] r[i]
                < #[trigger] r[j] by {
                assert(pos[i] < pos[j]);
            }
            lemma_embedding_gives_greedy(p, h.drop_first(), r);
        }
    }
}

/// Fuzzy matching succeeds exactly when every character of the pattern can
/// be found in the haystack, in order: greedy matching loses no match.
pub proof fn lemma_fuzzy_match_in_order(p: Seq<char>, h: Seq<char>)
    ensures
        in_order_within(p, h) <==> exists|pos: Seq<int>| is_embedding(p, h, pos),
{
    if in_order_within(p, h) {
        let pos = lemma_greedy_gives_embedding(p, h);
        assert(is_embedding(p, h, pos));
    }
    if exists|pos: Seq<int>| is_embedding(p, h, pos) {
        let pos = choose|pos: Seq<int>| is_embedding(p, h, pos);
        lemma_embedding_gives_greedy(p, h, pos);
    }
}

proof fn lemma_in_order_refl(x: Seq<char>)
    ensures
        in_order_within(x, x),
    decreases x.len(),
{
    if x.len() > 0 {
        lemma_in_order_refl(x.drop_first());
    }
}

/// A pattern made of two parts matches in order only where each part does.
pub proof fn lemma_in_order_parts(a: Seq<char>, b: Seq<char>, l: Seq<char>)
    requires
        in_order_within(a + b, l),
    ensures
        in_order_within(a, l),
        in_order_within(b, l),
{
    let ab = a + b;
    lemma_fuzzy_match_in_order(ab, l);
    let pos = choose|pos: Seq<int>| is_embedding(ab, l, pos);
    let pa = pos.take(a.len() as int);
    let pb = pos.skip(a.len() as int);
    assert forall|i: int| 0 <= i < pa.len() implies l[#[trigger] pa[i]] == a[i] by {
        assert(l[pos[i]] == ab[i]);
    }
    assert forall|i: int, j: int| 0 <= i < j < pa.len() implies #[trigger] pa[i] < #[trigger] pa[j] by {
        assert(pos[i] < pos[j]);
    }
    assert forall|i: int| 0 <= i < pa.len() implies 0 <= #[trigger] pa[i] < l.len() by {
        assert(0 <= pos[i] < l.len());
    }
    assert(is_embedding(a, l, pa));
    assert forall|i: int| 0 <= i < pb.len() implies l[#[trigger] pb[i]] == b[i] by {
        assert(l[pos[i + a.len()]] == ab[i + a.len()]);
    }
    assert forall|i: int, j: int| 0 <= i < j < pb.len() implies #[trigger] pb[i] < #[trigger] pb[j] by {
        assert(pos[i + a.len()] < pos[j + a.len()]);
    }
    assert forall|i: int| 0 <= i < pb.len() implies 0 <= #[trigger] pb[i] < l.len() by {
        assert(0 <= pos[i + a.len()] < l.len());
    }
    assert(is_embedding(b, l, pb));
    lemma_fuzzy_match_in_order(a, l);
    lemma_fuzzy_match_in_order(b, l);
}

proof fn lemma_in_order_extend(a: Seq<char>, l: Seq<char>, t: Seq<char>)
    requires
        in_order_within(a, l),
    ensures
        in_order_within(a, l + t),
        in_order_within(a, t + l),
{
    lemma_fuzzy_match_in_order(a, l);
    let pos = choose|pos: Seq<int>| is_embedding(a, l, pos);
    assert forall|i: int| 0 <= i < pos.len() implies (l + t)[#[trigger] pos[i]] == a[i] by {
        assert(l[pos[i]] == a[i]);
    }
    assert(is_embedding(a, l + t, pos));
    let shifted = pos.map_values(|x: int| x + t.len());
    assert forall|i: int| 0 <= i < shifted.len() implies (t + l)[#[trigger] shifted[i]] == a[i] by {
        assert(l[pos[i]] == a[i]);
        assert((t + l)[pos[i] + t.len()] == l[pos[i]]);
    }
    assert forall|i: int, j: int| 0 <= i < j < shifted.len() implies #[trigger] shifted[i]
        < #[trigger] shifted[j] by {
        assert(pos[i] < pos[j]);
    }
    assert forall|i: int| 0 <= i < shifted.len() implies 0 <= #[trigger] shifted[i] < (t
        + l).len() by {
        assert(0 <= pos[i] < l.len());
    }
    assert(is_embedding(a, t + l, shifted));
    lemma_fuzzy_match_in_order(a, l + t);
    lemma_fuzzy_match_in_order(a, t + l);
}

proof fn lemma_ascii_case(p: Seq<char>)
    requires
        is_ascii_text(p),
    ensures
        is_ascii_text(ascii_uppercase(p)),
        ascii_lowercase(ascii_uppercase(p)) == ascii_lowercase(p),
{
    assert forall|i: int| 0 <= i < p.len() implies ascii_lower_char(ascii_upper_char(p[i]))
        == ascii_lower_char(p[i]) && (ascii_upper_char(p[i]) as u32) < 128 by {
        let c = p[i];
        if 'a' <= c && c <= 'z' {
            let u = ((c as u32) - 32) as char;
            assert(u as u32 == (c as u32) - 32);
        }
    }
    assert forall|i: int| 0 <= i < ascii_uppercase(p).len() implies (#[trigger] ascii_uppercase(
        p,
    )[i] as u32) < 128 by {
        assert(ascii_uppercase(p)[i] == ascii_upper_char(p[i]));
    }
    assert(ascii_lowercase(ascii_uppercase(p)) =~= ascii_lowercase(p));
}

/// Fuzzy matching of ASCII texts: the pattern's characters, capital
/// letters lowered, appear in order in the haystack, lowered likewise.
pub open spec fn ascii_fuzzy(p: Seq<char>, h: Seq<char>) -> bool {
    in_order_within(ascii_lowercase(p), ascii_lowercase(h))
}

/// Every text fuzzy-matches itself.
pub proof fn lemma_fuzzy_match_reflexive(h: Seq<char>)
    ensures
        in_order_within(lowercase(h), lowercase(h)),
{
    lemma_in_order_refl(lowercase(h));
}

/// On ASCII texts, fuzzy matching: the empty pattern matches every
/// haystack and every text matches itself; a pattern made of two parts
/// matches only where each part does; a match survives text added before
/// or after the haystack; and matching ignores case.
pub proof fn lemma_ascii_fuzzy_laws(p: Seq<char>, q: Seq<char>, h: Seq<char>, t: Seq<char>)
    requires
        is_ascii_text(p),
        is_ascii_text(q),
        is_ascii_text(h),
        is_ascii_text(t),
    ensures
        ascii_fuzzy(Seq::empty(), h),
        ascii_fuzzy(h, h),
        is_ascii_text(p + q),
        ascii_fuzzy(p + q, h) ==> ascii_fuzzy(p, h) && ascii_fuzzy(q, h),
        is_ascii_text(h + t),
        is_ascii_text(t + h),
        ascii_fuzzy(p, h) ==> ascii_fuzzy(p, h + t) && ascii_fuzzy(p, t + h),
        is_ascii_text(ascii_uppercase(p)),
        is_ascii_text(ascii_uppercase(h)),
        ascii_fuzzy(ascii_uppercase(p), ascii_uppercase(h)) == ascii_fuzzy(p, h),
{
    assert(ascii_lowercase(Seq::<char>::empty()) =~= Seq::<char>::empty());
    lemma_in_order_refl(ascii_lowercase(h));
    assert forall|i: int| 0 <= i < (p + q).len() implies (#[trigger] (p + q)[i] as u32) < 128 by {
        if i < p.len() {
            assert((p + q)[i] == p[i]);
        } else {
            assert((p + q)[i] == q[i - p.len()]);
        }
    }
    assert forall|i: int| 0 <= i < (h + t).len() implies (#[trigger] (h + t)[i] as u32) < 128 by {
        if i < h.len() {
            assert((h + t)[i] == h[i]);
        } else {
            assert((h + t)[i] == t[i - h.len()]);
        }
    }
    assert forall|i: int| 0 <= i < (t + h).len() implies (#[trigger] (t + h)[i] as u32) < 128 by {
        if i < t.len() {
            assert((t + h)[i] == t[i]);
        } else {
            assert((t + h)[i] == h[i - t.len()]);
        }
    }
    assert(ascii_lowercase(p + q) =~= ascii_lowercase(p) + ascii_lowercase(q));
    assert(ascii_lowercase(h + t) =~= ascii_lowercase(h) + ascii_lowercase(t));
    assert(ascii_lowercase(t + h) =~= ascii_lowercase(t) + ascii_lowercase(h));
    if ascii_fuzzy(p + q, h) {
        lemma_in_order_parts(ascii_lowercase(p), ascii_lowercase(q), ascii_lowercase(h));
    }
    if ascii_fuzzy(p, h) {
        lemma_in_order_extend(ascii_lowercase(p), ascii_lowercase(h), ascii_lowercase(t));
    }
    lemma_ascii_case(p);
    lemma_ascii_case(h);
}

/// Whether the characters `p` (a pattern already lower-cased) appear in
/// order in the haystack, lower-cased.
pub fn lowered_pattern_matches(p: &Vec<char>, haystack: &str) -> (r: bool)
    ensures
        r == in_order_within(p@, lowercase(haystack@)),
        is_ascii_text(haystack@) ==> r == in_order_within(p@, ascii_lowercase(haystack@)),
{
    let hl = to_lowercase(haystack);
    let h = chars_of(hl.as_str());
    let mut i: usize = 0;
    let mut j: usize = 0;
    proof {
        lemma_suffix_len(p@, 0);
        lemma_suffix_len(h@, 0);
    }
    while i < p.len()
        invariant
            i <= p@.len(),
            j <= h@.len(),
            h@ == lowercase(haystack@),
            is_ascii_text(haystack@) ==> h@ == ascii_lowercase(haystack@),
            in_order_within(p@, h@) == in_order_within(suffix(p@, i), suffix(h@, j)),
        decreases p.len() - i, h.len() - j,
    {
        if j >= h.len() {
            proof {
                lemma_suffix_len(h@, j);
            }
            return false;
        }
        let pc = p[i];
        let hc = h[j];
        proof {
            lemma_suffix_step(p@, i);
            lemma_suffix_step(h@, j);
        }
        if pc == hc {
            i = i + 1;
        }
        j = j + 1;
    }
    proof {
        lemma_suffix_len(p@, i);
    }
    true
}

/// The characters of a pattern, lower-cased for matching.
pub fn lowered_pattern(pattern: &str) -> (r: Vec<char>)
    ensures
        r@ == lowercase(pattern@),
        is_ascii_text(pattern@) ==> r@ == ascii_lowercase(pattern@),
{
    let pl = to_lowercase(pattern);
    chars_of(pl.as_str())
}

/// Simple fuzzy match: all characters in the pattern appear in order in the
/// haystack. Case-insensitive.
pub fn fuzzy_match(pattern: &str, haystack: &str) -> (r: bool)
    ensures
        r == in_order_within(lowercase(pattern@), lowercase(haystack@)),
        pattern@.len() == 0 ==> r,
        is_ascii_text(pattern@) && is_ascii_text(haystack@) ==> r == ascii_fuzzy(
            pattern@,
            haystack@,
        ),
{
    let p = lowered_pattern(pattern);
    proof {
        if pattern@.len() == 0 {
            assert(is_ascii_text(pattern@));
            assert(p@ =~= Seq::<char>::empty());
        }
    }
    lowered_pattern_matches(&p, haystack)
}

} // verus!
