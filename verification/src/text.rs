//! Text building and reading: decimal and hexadecimal numbers, joining,
//! prefixes, and comparison without regard to ASCII case.
use vstd::prelude::*;
use vstd::string::*;

verus! {

/// The hexadecimal digit of a number below 16, in lower case.
pub open spec fn hex_char(d: int) -> char {
    if 0 <= d < 10 {
        (48 + d) as char
    } else {
        (87 + d) as char
    }
}

/// The hexadecimal digit of a number below 16, in upper case.
pub open spec fn hex_char_upper(d: int) -> char {
    if 0 <= d < 10 {
        (48 + d) as char
    } else {
        (55 + d) as char
    }
}

/// The decimal digits of `n`, without leading zeros.
pub open spec fn dec(n: nat) -> Seq<char>
    decreases n,
{
    if n < 10 {
        seq![hex_char(n as int)]
    } else {
        dec(n / 10).push(hex_char((n % 10) as int))
    }
}

/// A byte as two hexadecimal digits in lower case.
pub open spec fn hex2(b: u8) -> Seq<char> {
    seq![hex_char(b as int / 16), hex_char(b as int % 16)]
}

/// A byte as two hexadecimal digits in upper case.
pub open spec fn hex2_upper(b: u8) -> Seq<char> {
    seq![hex_char_upper(b as int / 16), hex_char_upper(b as int % 16)]
}

fn digit(d: u8) -> (s: &'static str)
    requires
        d < 16,
    ensures
        s@ == seq![hex_char(d as int)],
{
    proof {
        reveal_strlit("0");
        reveal_strlit("1");
        reveal_strlit("2");
        reveal_strlit("3");
        reveal_strlit("4");
        reveal_strlit("5");
        reveal_strlit("6");
        reveal_strlit("7");
        reveal_strlit("8");
        reveal_strlit("9");
        reveal_strlit("a");
        reveal_strlit("b");
        reveal_strlit("c");
        reveal_strlit("d");
        reveal_strlit("e");
        reveal_strlit("f");
    }
    let s: &'static str = match d {
        0 => "0",
        1 => "1",
        2 => "2",
        3 => "3",
        4 => "4",
        5 => "5",
        6 => "6",
        7 => "7",
        8 => "8",
        9 => "9",
        10 => "a",
        11 => "b",
        12 => "c",
        13 => "d",
        14 => "e",
        _ => "f",
    };
    assert(s@ =~= seq![hex_char(d as int)]);
    s
}

fn digit_upper(d: u8) -> (s: &'static str)
    requires
        d < 16,
    ensures
        s@ == seq![hex_char_upper(d as int)],
{
    proof {
        reveal_strlit("A");
        reveal_strlit("B");
        reveal_strlit("C");
        reveal_strlit("D");
        reveal_strlit("E");
        reveal_strlit("F");
    }
    if d < 10 {
        digit(d)
    } else {
        let s: &'static str = match d {
            10 => "A",
            11 => "B",
            12 => "C",
            13 => "D",
            14 => "E",
            _ => "F",
        };
        assert(s@ =~= seq![hex_char_upper(d as int)]);
        s
    }
}

/// The decimal text of a number.
pub fn decimal(n: u64) -> (s: String)
    ensures
        s@ == dec(n as nat),
    decreases n,
{
    if n < 10 {
        digit(n as u8).to_owned()
    } else {
        let head = decimal(n / 10);
        let d: u8 = (n % 10) as u8;
        let s = head.concat(digit(d));
        assert(s@ =~= dec(n as nat));
        s
    }
}

/// Two hexadecimal digits in lower case.
pub fn hex_byte(b: u8) -> (s: String)
    ensures
        s@ == hex2(b),
{
    let s = digit(b / 16).to_owned().concat(digit(b % 16));
    assert(s@ =~= hex2(b));
    s
}

/// Two hexadecimal digits in upper case.
pub fn hex_byte_upper(b: u8) -> (s: String)
    ensures
        s@ == hex2_upper(b),
{
    let s = digit_upper(b / 16).to_owned().concat(digit_upper(b % 16));
    assert(s@ =~= hex2_upper(b));
    s
}

/// The upper-case hexadecimal text of a byte sequence.
pub open spec fn hex_upper(bytes: Seq<u8>) -> Seq<char>
    decreases bytes.len(),
{
    if bytes.len() == 0 {
        Seq::empty()
    } else {
        hex_upper(bytes.drop_last()) + hex2_upper(bytes.last())
    }
}

/// Every byte takes exactly two characters.
pub proof fn law_hex_upper_len(bytes: Seq<u8>)
    ensures
        hex_upper(bytes).len() == 2 * bytes.len(),
    decreases bytes.len(),
{
    if bytes.len() > 0 {
        law_hex_upper_len(bytes.drop_last());
    }
}

/// The upper-case hexadecimal text of some bytes.
pub fn hex_upper_text(bytes: &[u8]) -> (s: String)
    ensures
        s@ == hex_upper(bytes@),
{
    let mut s = String::new();
    let mut i: usize = 0;
    while i < bytes.len()
        invariant
            i <= bytes.len(),
            s@ == hex_upper(bytes@.take(i as int)),
        decreases bytes.len() - i,
    {
        let d = hex_byte_upper(bytes[i]);
        s.append(&d);
        proof {
            assert(bytes@.take(i + 1).drop_last() =~= bytes@.take(i as int));
        }
        i += 1;
    }
    assert(bytes@.take(i as int) =~= bytes@);
    s
}

/// The texts of some strings.
pub open spec fn texts(parts: Seq<String>) -> Seq<Seq<char>> {
    Seq::new(parts.len(), |i: int| parts[i]@)
}

/// The parts in order, with the separator between every two of them.
pub open spec fn joined(parts: Seq<Seq<char>>, sep: Seq<char>) -> Seq<char>
    decreases parts.len(),
{
    if parts.len() == 0 {
        Seq::empty()
    } else if parts.len() == 1 {
        parts[0]
    } else {
        joined(parts.drop_last(), sep) + sep + parts.last()
    }
}

/// Joins the parts with a separator.
pub fn join(parts: &Vec<String>, sep: &str) -> (s: String)
    ensures
        s@ == joined(texts(parts@), sep@),
{
    let mut s = String::new();
    let mut i: usize = 0;
    while i < parts.len()
        invariant
            i <= parts.len(),
            s@ == joined(texts(parts@).take(i as int), sep@),
        decreases parts.len() - i,
    {
        if i > 0 {
            s.append(sep);
        }
        s.append(&parts[i]);
        proof {
            let t = texts(parts@);
            assert(t.take(i + 1).drop_last() =~= t.take(i as int));
            assert(i == 0 ==> s@ =~= t.take(1)[0]);
        }
        i += 1;
    }
    assert(texts(parts@).take(i as int) =~= texts(parts@));
    s
}

/// The debug text of a string, quoted and escaped as the standard library does
/// it.
pub uninterp spec fn quoted_text(s: Seq<char>) -> Seq<char>;

/// The standard library's `{:?}` form of a string: quoted and escaped. The text
/// depends on the string alone; how it is escaped is not stated.
#[verifier::external_body]
fn quoted(s: &str) -> (r: String)
    ensures
        r@ == quoted_text(s@),
{
    format!("{s:?}")
}

/// The debug text of a string, quoted and escaped.
pub fn quote(s: &str) -> (r: String)
    ensures
        r@ == quoted_text(s@),
{
    quoted(s)
}

/// Whether two texts are the same.
pub fn same(a: &str, b: &str) -> (r: bool)
    ensures
        r == (a@ == b@),
{
    a.to_owned() == b.to_owned()
}

/// Whether a text stands before another in the order of characters: by the
/// first in which they differ, and a beginning before the whole.
pub open spec fn precedes(a: Seq<char>, b: Seq<char>) -> bool
    decreases a.len(),
{
    if b.len() == 0 {
        false
    } else if a.len() == 0 {
        true
    } else if a[0] != b[0] {
        (a[0] as int) < b[0] as int
    } else {
        precedes(a.skip(1), b.skip(1))
    }
}

/// Of two different texts exactly one stands before the other.
pub proof fn lemma_precedes_total(a: Seq<char>, b: Seq<char>)
    ensures
        a != b ==> precedes(a, b) != precedes(b, a),
        !precedes(a, a),
    decreases a.len(),
{
    if a.len() > 0 {
        lemma_precedes_total(a.skip(1), a.skip(1));
    }
    if a.len() == 0 {
        if b.len() == 0 {
            assert(a =~= b);
        }
    } else if b.len() > 0 && a[0] == b[0] {
        lemma_precedes_total(a.skip(1), b.skip(1));
        if a.skip(1) == b.skip(1) {
            assert(a =~= seq![a[0]] + a.skip(1));
            assert(b =~= seq![b[0]] + b.skip(1));
        }
    }
}

/// What stands before a text stands before all that follow it.
pub proof fn lemma_precedes_transitive(a: Seq<char>, b: Seq<char>, c: Seq<char>)
    requires
        precedes(a, b),
        precedes(b, c),
    ensures
        precedes(a, c),
    decreases a.len(),
{
    if a.len() > 0 && a[0] == b[0] && b[0] == c[0] {
        lemma_precedes_transitive(a.skip(1), b.skip(1), c.skip(1));
    }
}

/// Whether a text stands before another.
pub fn is_before(a: &str, b: &str) -> (r: bool)
    ensures
        r == precedes(a@, b@),
{
    let n: usize = a.unicode_len();
    let m: usize = b.unicode_len();
    assert(a@.skip(0) =~= a@);
    assert(b@.skip(0) =~= b@);
    let mut i: usize = 0;
    while i < n && i < m
        invariant
            i <= n,
            i <= m,
            n == a@.len(),
            m == b@.len(),
            precedes(a@, b@) == precedes(a@.skip(i as int), b@.skip(i as int)),
        decreases n - i,
    {
        let c = a.get_char(i);
        let d = b.get_char(i);
        assert(a@.skip(i as int)[0] == c);
        assert(b@.skip(i as int)[0] == d);
        if c != d {
            return c < d;
        }
        assert(a@.skip(i as int).skip(1) =~= a@.skip(i + 1));
        assert(b@.skip(i as int).skip(1) =~= b@.skip(i + 1));
        i += 1;
    }
    i < m
}

/// Whether `s` begins with `p`.
pub open spec fn has_prefix(s: Seq<char>, p: Seq<char>) -> bool {
    p.len() <= s.len() && s.subrange(0, p.len() as int) == p
}

/// Whether `s` begins with `p`.
pub fn starts_with(s: &str, p: &str) -> (r: bool)
    ensures
        r == has_prefix(s@, p@),
{
    let n: usize = p.unicode_len();
    if n > s.unicode_len() {
        false
    } else {
        same(s.substring_char(0, n), p)
    }
}

/// What follows the prefix `p` of `s`, where it has one.
pub fn strip_prefix(s: &str, p: &str) -> (r: Option<String>)
    ensures
        r matches Some(t) ==> has_prefix(s@, p@) && t@ == s@.skip(p@.len() as int),
        r is None ==> !has_prefix(s@, p@),
{
    if starts_with(s, p) {
        let n: usize = p.unicode_len();
        let m: usize = s.unicode_len();
        let t = s.substring_char(n, m).to_owned();
        assert(t@ =~= s@.skip(p@.len() as int));
        Some(t)
    } else {
        None
    }
}

/// Whether `p` occurs in `s`.
pub open spec fn occurs(s: Seq<char>, p: Seq<char>) -> bool {
    exists|i: int| #[trigger] occurs_at(s, p, i)
}

/// Whether `p` occurs in `s` at index `i`.
pub open spec fn occurs_at(s: Seq<char>, p: Seq<char>, i: int) -> bool {
    0 <= i && i + p.len() <= s.len() && s.subrange(i, i + p.len()) == p
}

/// Whether `p` occurs in `s`.
pub fn contains(s: &str, p: &str) -> (r: bool)
    ensures
        r == occurs(s@, p@),
{
    let n: usize = p.unicode_len();
    let m: usize = s.unicode_len();
    if n > m {
        return false;
    }
    let mut i: usize = 0;
    loop
        invariant
            n == p@.len(),
            m == s@.len(),
            n <= m,
            i <= m - n,
            forall|j: int| 0 <= j < i ==> !#[trigger] occurs_at(s@, p@, j),
        decreases m - n - i,
    {
        if same(s.substring_char(i, i + n), p) {
            assert(occurs_at(s@, p@, i as int));
            return true;
        }
        if i == m - n {
            return false;
        }
        i += 1;
    }
}

/// A character with ASCII upper-case letters turned to lower case.
pub open spec fn lower(c: char) -> char {
    if 'A' <= c && c <= 'Z' {
        (c as int + 32) as char
    } else {
        c
    }
}

/// The text with ASCII upper-case letters turned to lower case.
pub open spec fn lowered(s: Seq<char>) -> Seq<char> {
    Seq::new(s.len(), |i: int| lower(s[i]))
}

fn lower_char(c: char) -> (r: char)
    ensures
        r == lower(c),
{
    if 'A' <= c && c <= 'Z' {
        ((c as u8) + 32) as char
    } else {
        c
    }
}

/// Whether `s`, in ASCII lower case, is the word `w`.
pub fn is_word(s: &str, w: &str) -> (r: bool)
    ensures
        r == (lowered(s@) == w@),
{
    let n: usize = s.unicode_len();
    if n != w.unicode_len() {
        assert(lowered(s@).len() != w@.len());
        return false;
    }
    let mut i: usize = 0;
    while i < n
        invariant
            n == s@.len(),
            n == w@.len(),
            i <= n,
            forall|j: int| 0 <= j < i ==> lower(#[trigger] s@[j]) == w@[j],
        decreases n - i,
    {
        if lower_char(s.get_char(i)) != w.get_char(i) {
            assert(lowered(s@)[i as int] != w@[i as int]);
            return false;
        }
        i += 1;
    }
    assert(lowered(s@) =~= w@);
    true
}

/// The value of a hexadecimal digit of either case.
pub open spec fn hex_val(c: char) -> Option<int> {
    if '0' <= c && c <= '9' {
        Some(c as int - 48)
    } else if 'a' <= c && c <= 'f' {
        Some(c as int - 87)
    } else if 'A' <= c && c <= 'F' {
        Some(c as int - 55)
    } else {
        None
    }
}

/// The value of a hexadecimal digit of either case.
pub fn hex_value(c: char) -> (r: Option<u8>)
    ensures
        r is Some <==> hex_val(c) is Some,
        r matches Some(v) ==> v < 16 && hex_val(c) == Some(v as int),
{
    if '0' <= c && c <= '9' {
        Some((c as u8) - 48)
    } else if 'a' <= c && c <= 'f' {
        Some((c as u8) - 87)
    } else if 'A' <= c && c <= 'F' {
        Some((c as u8) - 55)
    } else {
        None
    }
}

/// The number that a run of decimal digits spells, where it is one.
pub open spec fn dec_val(s: Seq<char>) -> Option<nat>
    decreases s.len(),
{
    if s.len() == 0 {
        None
    } else if !('0' <= s.last() && s.last() <= '9') {
        None
    } else if s.len() == 1 {
        Some((s.last() as int - 48) as nat)
    } else {
        match dec_val(s.drop_last()) {
            Some(h) => Some((h * 10 + (s.last() as int - 48)) as nat),
            None => None,
        }
    }
}

/// The byte that a decimal text spells: digits with an optional plus sign, up
/// to 255.
pub open spec fn byte_val(s: Seq<char>) -> Option<u8> {
    let digits = if s.len() > 0 && s[0] == '+' {
        s.skip(1)
    } else {
        s
    };
    match dec_val(digits) {
        Some(n) => if n <= 255 {
            Some(n as u8)
        } else {
            None
        },
        None => None,
    }
}

/// A longer run of digits never spells a smaller number.
proof fn lemma_dec_val_grows(s: Seq<char>, i: int)
    requires
        0 < i <= s.len(),
        dec_val(s) is Some,
    ensures
        dec_val(s.take(i)) is Some,
        dec_val(s.take(i)).unwrap() <= dec_val(s).unwrap(),
    decreases s.len(),
{
    if i == s.len() {
        assert(s.take(i) =~= s);
    } else {
        assert(s.drop_last().take(i) =~= s.take(i));
        lemma_dec_val_grows(s.drop_last(), i);
    }
}

/// Digits are required at every place of a run.
proof fn lemma_dec_val_digit(s: Seq<char>, i: int)
    requires
        0 <= i < s.len(),
        dec_val(s) is Some,
    ensures
        '0' <= s[i] && s[i] <= '9',
    decreases s.len(),
{
    if i < s.len() - 1 {
        lemma_dec_val_digit(s.drop_last(), i);
    }
}

/// Reads a byte from its decimal text: digits with an optional plus sign.
pub fn parse_byte(s: &str) -> (r: Option<u8>)
    ensures
        r == byte_val(s@),
{
    let n: usize = s.unicode_len();
    let start: usize = if n > 0 && s.get_char(0) == '+' {
        1
    } else {
        0
    };
    let ghost digits = if s@.len() > 0 && s@[0] == '+' {
        s@.skip(1)
    } else {
        s@
    };
    assert(digits =~= s@.skip(start as int));
    if start == n {
        return None;
    }
    let mut i: usize = start;
    let mut acc: u32 = 0;
    while i < n
        invariant
            start <= i <= n,
            start < n,
            n == s@.len(),
            digits == s@.skip(start as int),
            acc <= 255,
            i == start ==> acc == 0,
            i > start ==> dec_val(digits.take(i - start)) == Some(acc as nat),
            byte_val(s@) == (match dec_val(digits) {
                Some(k) => if k <= 255 {
                    Some(k as u8)
                } else {
                    None
                },
                None => None,
            }),
        decreases n - i,
    {
        let c = s.get_char(i);
        assert(c == digits[i - start]);
        if !('0' <= c && c <= '9') {
            proof {
                if dec_val(digits) is Some {
                    lemma_dec_val_digit(digits, i - start);
                }
            }
            return None;
        }
        let d: u32 = ((c as u8) - 48) as u32;
        acc = acc * 10 + d;
        proof {
            let t = digits.take(i - start + 1);
            assert(t.last() == c);
            assert(t.drop_last() =~= digits.take(i - start));
            assert(dec_val(t) == Some(acc as nat));
            if acc > 255 && dec_val(digits) is Some {
                lemma_dec_val_grows(digits, i - start + 1);
            }
        }
        if acc > 255 {
            return None;
        }
        i += 1;
    }
    assert(digits.take(n - start) =~= digits);
    Some(acc as u8)
}

/// The byte that two hex digits spell; nothing but digits spells one.
pub open spec fn hex_pair(a: u8, b: u8) -> Option<u8> {
    match (hex_val(a as char), hex_val(b as char)) {
        (Some(x), Some(y)) => Some((16 * x + y) as u8),
        _ => None,
    }
}

/// Reads a byte from two hex digits.
pub fn parse_hex_pair(a: u8, b: u8) -> (r: Option<u8>)
    ensures
        r == hex_pair(a, b),
{
    match (hex_value(a as char), hex_value(b as char)) {
        (Some(x), Some(y)) => Some(16 * x + y),
        _ => None,
    }
}

/// Copies some texts.
pub fn copy_texts(v: &Vec<String>) -> (r: Vec<String>)
    ensures
        r@ == v@,
{
    let mut r: Vec<String> = Vec::new();
    let mut i: usize = 0;
    while i < v.len()
        invariant
            i <= v.len(),
            r@ == v@.take(i as int),
        decreases v.len() - i,
    {
        r.push(v[i].clone());
        assert(r@ =~= v@.take(i + 1));
        i += 1;
    }
    assert(v@.take(i as int) =~= v@);
    r
}

/// Copies a text that may be missing.
pub fn copy_text(s: &Option<String>) -> (r: Option<String>)
    ensures
        r == *s,
{
    match s {
        Some(s) => Some(s.clone()),
        None => None,
    }
}

/// Whether a character is white space.
pub open spec fn is_space(c: char) -> bool {
    let n = c as u32;
    ||| 0x9 <= n <= 0xD
    ||| n == 0x20
    ||| n == 0x85
    ||| n == 0xA0
    ||| n == 0x1680
    ||| 0x2000 <= n <= 0x200A
    ||| n == 0x2028
    ||| n == 0x2029
    ||| n == 0x202F
    ||| n == 0x205F
    ||| n == 0x3000
}

/// Whether a character is white space.
pub fn space(c: char) -> (r: bool)
    ensures
        r == is_space(c),
{
    let n: u32 = c as u32;
    (0x9 <= n && n <= 0xD) || n == 0x20 || n == 0x85 || n == 0xA0 || n == 0x1680 || (0x2000 <= n
        && n <= 0x200A) || n == 0x2028 || n == 0x2029 || n == 0x202F || n == 0x205F || n == 0x3000
}

/// Where a text is taken apart.
#[derive(Debug, Clone, Copy, PartialEq, Eq, Structural)]
pub enum Gap {
    /// Between its lines.
    Line,
    /// Between its words.
    Space,
}

/// Whether a text is taken apart at a character.
pub open spec fn parts_at(gap: Gap, c: char) -> bool {
    match gap {
        Gap::Line => c == '\n',
        Gap::Space => is_space(c),
    }
}

/// The piece that stands at the end of a text; empty behind a gap.
pub open spec fn last_piece(s: Seq<char>, gap: Gap) -> Seq<char>
    decreases s.len(),
{
    if s.len() == 0 || parts_at(gap, s.last()) {
        Seq::empty()
    } else {
        last_piece(s.drop_last(), gap).push(s.last())
    }
}

/// The pieces of a text that a gap follows.
pub open spec fn closed_pieces(s: Seq<char>, gap: Gap) -> Seq<Seq<char>>
    decreases s.len(),
{
    if s.len() == 0 {
        Seq::empty()
    } else {
        let before = closed_pieces(s.drop_last(), gap);
        let open = last_piece(s.drop_last(), gap);
        if parts_at(gap, s.last()) && open.len() > 0 {
            before.push(open)
        } else {
            before
        }
    }
}

/// The pieces of a text that are not empty, in order.
pub open spec fn pieces(s: Seq<char>, gap: Gap) -> Seq<Seq<char>> {
    let open = last_piece(s, gap);
    if open.len() > 0 {
        closed_pieces(s, gap).push(open)
    } else {
        closed_pieces(s, gap)
    }
}

/// Takes a text apart into its pieces.
pub fn split(s: &str, gap: Gap) -> (r: Vec<String>)
    ensures
        texts(r@) == pieces(s@, gap),
{
    let n: usize = s.unicode_len();
    let mut out: Vec<String> = Vec::new();
    let mut from: usize = 0;
    let mut i: usize = 0;
    while i < n
        invariant
            n == s@.len(),
            from <= i <= n,
            texts(out@) == closed_pieces(s@.take(i as int), gap),
            last_piece(s@.take(i as int), gap) == s@.subrange(from as int, i as int),
        decreases n - i,
    {
        let c = s.get_char(i);
        let ghost t = s@.take(i + 1);
        let ghost before = texts(out@);
        assert(t.drop_last() =~= s@.take(i as int));
        assert(t.last() == c);
        let gone = match gap {
            Gap::Line => c == '\n',
            Gap::Space => space(c),
        };
        if gone {
            if from < i {
                out.push(s.substring_char(from, i).to_owned());
                assert(texts(out@) =~= before.push(s@.subrange(from as int, i as int)));
            }
            from = i + 1;
            assert(s@.subrange(from as int, i + 1) =~= Seq::<char>::empty());
        } else {
            assert(s@.subrange(from as int, i + 1) =~= s@.subrange(from as int, i as int).push(c));
        }
        i += 1;
    }
    assert(s@.take(i as int) =~= s@);
    let ghost before = texts(out@);
    if from < n {
        out.push(s.substring_char(from, n).to_owned());
        assert(texts(out@) =~= before.push(s@.subrange(from as int, n as int)));
    }
    out
}

/// A text without the white space at its ends.
pub open spec fn trimmed(s: Seq<char>) -> Seq<char>
    decreases s.len(),
{
    if s.len() == 0 {
        s
    } else if is_space(s[0]) {
        trimmed(s.skip(1))
    } else if is_space(s.last()) {
        trimmed(s.drop_last())
    } else {
        s
    }
}

/// A text without the white space at its ends.
pub fn trim(s: &str) -> (r: String)
    ensures
        r@ == trimmed(s@),
{
    let mut from: usize = 0;
    let mut to: usize = s.unicode_len();
    assert(s@.subrange(0, to as int) =~= s@);
    while from < to && space(s.get_char(from))
        invariant
            from <= to == s@.len(),
            trimmed(s@.subrange(from as int, to as int)) == trimmed(s@),
        decreases to - from,
    {
        let ghost t = s@.subrange(from as int, to as int);
        assert(t[0] == s@[from as int]);
        assert(t.skip(1) =~= s@.subrange(from + 1, to as int));
        from += 1;
    }
    while from < to && space(s.get_char(to - 1))
        invariant
            from <= to <= s@.len(),
            from < to ==> !is_space(s@[from as int]),
            trimmed(s@.subrange(from as int, to as int)) == trimmed(s@),
        decreases to - from,
    {
        let ghost t = s@.subrange(from as int, to as int);
        assert(t.last() == s@[to - 1]);
        assert(t[0] == s@[from as int]);
        assert(t.drop_last() =~= s@.subrange(from as int, to - 1));
        to -= 1;
    }
    let ghost t = s@.subrange(from as int, to as int);
    assert(from < to ==> t[0] == s@[from as int] && t.last() == s@[to - 1]);
    s.substring_char(from, to).to_owned()
}

/// A text without the prefixes `p` that it begins with, however many.
pub open spec fn unprefixed(s: Seq<char>, p: Seq<char>) -> Seq<char>
    decreases s.len(),
{
    if p.len() > 0 && has_prefix(s, p) {
        unprefixed(s.skip(p.len() as int), p)
    } else {
        s
    }
}

/// A text without the prefixes `p` that it begins with, however many.
pub fn strip_prefixes(s: &str, p: &str) -> (r: String)
    ensures
        r@ == unprefixed(s@, p@),
{
    let mut t = s.to_owned();
    if p.unicode_len() == 0 {
        return t;
    }
    while starts_with(&t, p)
        invariant
            p@.len() > 0,
            unprefixed(t@, p@) == unprefixed(s@, p@),
        decreases t@.len(),
    {
        let n: usize = p.unicode_len();
        let m: usize = t.as_str().unicode_len();
        let rest = t.as_str().substring_char(n, m).to_owned();
        assert(rest@ =~= t@.skip(p@.len() as int));
        t = rest;
    }
    t
}

/// The number that a run of hexadecimal digits spells, where it is one.
pub open spec fn hex_number(s: Seq<char>) -> Option<nat>
    decreases s.len(),
{
    if s.len() == 0 {
        None
    } else {
        match hex_val(s.last()) {
            None => None,
            Some(d) => if s.len() == 1 {
                Some(d as nat)
            } else {
                match hex_number(s.drop_last()) {
                    Some(h) => Some((h * 16 + d) as nat),
                    None => None,
                }
            },
        }
    }
}

/// The 32-bit number that a hexadecimal text spells: digits with an optional
/// plus sign.
pub open spec fn hex_u32(s: Seq<char>) -> Option<u32> {
    let digits = if s.len() > 0 && s[0] == '+' {
        s.skip(1)
    } else {
        s
    };
    match hex_number(digits) {
        Some(n) => if n <= u32::MAX {
            Some(n as u32)
        } else {
            None
        },
        None => None,
    }
}

/// A longer run of digits never spells a smaller number.
proof fn lemma_hex_number_grows(s: Seq<char>, i: int)
    requires
        0 < i <= s.len(),
        hex_number(s) is Some,
    ensures
        hex_number(s.take(i)) is Some,
        hex_number(s.take(i)).unwrap() <= hex_number(s).unwrap(),
    decreases s.len(),
{
    if i == s.len() {
        assert(s.take(i) =~= s);
    } else {
        assert(s.drop_last().take(i) =~= s.take(i));
        lemma_hex_number_grows(s.drop_last(), i);
    }
}

/// Digits are required at every place of a run.
proof fn lemma_hex_number_digit(s: Seq<char>, i: int)
    requires
        0 <= i < s.len(),
        hex_number(s) is Some,
    ensures
        hex_val(s[i]) is Some,
    decreases s.len(),
{
    if i < s.len() - 1 {
        lemma_hex_number_digit(s.drop_last(), i);
    }
}

/// Reads a 32-bit number from its hexadecimal text.
pub fn parse_hex_u32(s: &str) -> (r: Option<u32>)
    ensures
        r == hex_u32(s@),
{
    let n: usize = s.unicode_len();
    let start: usize = if n > 0 && s.get_char(0) == '+' {
        1
    } else {
        0
    };
    let ghost digits = if s@.len() > 0 && s@[0] == '+' {
        s@.skip(1)
    } else {
        s@
    };
    assert(digits =~= s@.skip(start as int));
    if start == n {
        return None;
    }
    let mut i: usize = start;
    let mut acc: u64 = 0;
    while i < n
        invariant
            start <= i <= n,
            start < n,
            n == s@.len(),
            digits == s@.skip(start as int),
            acc <= u32::MAX,
            i == start ==> acc == 0,
            i > start ==> hex_number(digits.take(i - start)) == Some(acc as nat),
            hex_u32(s@) == (match hex_number(digits) {
                Some(k) => if k <= u32::MAX {
                    Some(k as u32)
                } else {
                    None
                },
                None => None,
            }),
        decreases n - i,
    {
        let c = s.get_char(i);
        assert(c == digits[i - start]);
        match hex_value(c) {
            None => {
                proof {
                    if hex_number(digits) is Some {
                        lemma_hex_number_digit(digits, i - start);
                    }
                }
                return None;
            },
            Some(d) => {
                acc = acc * 16 + d as u64;
                proof {
                    let t = digits.take(i - start + 1);
                    assert(t.last() == c);
                    assert(t.drop_last() =~= digits.take(i - start));
                    assert(hex_number(t) == Some(acc as nat));
                    if acc > u32::MAX && hex_number(digits) is Some {
                        lemma_hex_number_grows(digits, i - start + 1);
                    }
                }
                if acc > 0xffff_ffff {
                    return None;
                }
            },
        }
        i += 1;
    }
    assert(digits.take(n - start) =~= digits);
    Some(acc as u32)
}

/// A hexadecimal digit is the one that stands at its value among the sixteen,
/// in small and in capital letters, and it has that value; no other character
/// has one.
pub proof fn law_digits_have_their_values(d: int, c: char)
    requires
        0 <= d < 16,
    ensures
        hex_char(d) == "0123456789abcdef"@[d],
        hex_char_upper(d) == "0123456789ABCDEF"@[d],
        hex_val(hex_char(d)) == Some(d),
        hex_val(hex_char_upper(d)) == Some(d),
        hex_val(c) matches Some(v) ==> 0 <= v < 16 && (c == hex_char(v) || c == hex_char_upper(v)),
{
    reveal_strlit("0123456789abcdef");
    reveal_strlit("0123456789ABCDEF");
}

/// A number written in decimal digits reads as the number again, also as a
/// byte where it fits one.
pub proof fn law_decimal_reads_back(n: nat)
    ensures
        dec(n).len() > 0,
        dec_val(dec(n)) == Some(n),
        n <= 255 ==> byte_val(dec(n)) == Some(n as u8),
    decreases n,
{
    if n >= 10 {
        law_decimal_reads_back(n / 10);
        let s = dec(n);
        assert(s.drop_last() =~= dec(n / 10));
        assert(s.last() == hex_char((n % 10) as int));
    }
    lemma_decimal_has_no_sign(n);
}

proof fn lemma_decimal_has_no_sign(n: nat)
    ensures
        dec(n).len() > 0,
        dec(n)[0] != '+',
    decreases n,
{
    if n >= 10 {
        lemma_decimal_has_no_sign(n / 10);
        assert(dec(n)[0] == dec(n / 10)[0]);
    }
}

/// A byte is written in two digits, sixteen times the first and the second.
pub proof fn law_byte_is_two_digits(b: u8)
    ensures
        hex2(b).len() == 2,
        hex2_upper(b).len() == 2,
        16 * hex_val(hex2(b)[0])->0 + hex_val(hex2(b)[1])->0 == b,
        16 * hex_val(hex2_upper(b)[0])->0 + hex_val(hex2_upper(b)[1])->0 == b,
        hex2_upper(b) == seq![
            "0123456789ABCDEF"@[b as int / 16],
            "0123456789ABCDEF"@[b as int % 16],
        ],
        hex2(b) == seq!["0123456789abcdef"@[b as int / 16], "0123456789abcdef"@[b as int % 16]],
{
    law_digits_have_their_values(b as int / 16, '0');
    law_digits_have_their_values(b as int % 16, '0');
}

/// Bytes are written one behind the other, two digits each.
pub proof fn law_bytes_are_written_in_order(bytes: Seq<u8>, i: int)
    requires
        0 <= i < bytes.len(),
    ensures
        hex_upper(bytes).len() == 2 * bytes.len(),
        hex_upper(bytes).subrange(2 * i, 2 * i + 2) == hex2_upper(bytes[i]),
    decreases bytes.len(),
{
    law_hex_upper_len(bytes);
    let front = bytes.drop_last();
    law_hex_upper_len(front);
    if i < front.len() {
        law_bytes_are_written_in_order(front, i);
        assert(hex_upper(bytes).subrange(2 * i, 2 * i + 2) =~= hex_upper(front).subrange(
            2 * i,
            2 * i + 2,
        ));
    } else {
        assert(hex_upper(bytes).subrange(2 * i, 2 * i + 2) =~= hex2_upper(bytes.last()));
    }
}

/// A digit more makes a hexadecimal number sixteen times as large and adds the
/// digit; one digit alone is its value, and anything but digits is no number.
pub proof fn law_hex_number_is_positional(s: Seq<char>, c: char)
    ensures
        hex_number(seq![c]) == match hex_val(c) {
            Some(d) => Some(d as nat),
            None => None,
        },
        hex_number(Seq::<char>::empty()) is None,
        s.len() > 0 && hex_number(s) is Some
            && hex_val(c) is Some ==> hex_number(s.push(c)) == Some(
            (16 * hex_number(s)->0 + hex_val(c)->0) as nat,
        ),
        hex_val(c) is None ==> hex_number(s.push(c)) is None,
        s.len() > 0 && hex_number(s) is None ==> hex_number(s.push(c)) is None,
{
    assert(s.push(c).drop_last() =~= s);
    assert(seq![c].last() == c);
}

/// Two lists that are joined are the two joined texts with the separator
/// between them, and a single text is joined as it is.
pub proof fn law_joined_parts_stand_apart(a: Seq<Seq<char>>, b: Seq<Seq<char>>, sep: Seq<char>)
    ensures
        a.len() > 0 && b.len() > 0 ==> joined(a + b, sep) == joined(a, sep) + sep + joined(b, sep),
        a.len() == 1 ==> joined(a, sep) == a[0],
        a.len() == 0 ==> joined(a, sep).len() == 0,
    decreases b.len(),
{
    if a.len() > 0 && b.len() > 0 {
        let front = b.drop_last();
        assert((a + b).drop_last() =~= a + front);
        assert((a + b).last() == b.last());
        if front.len() == 0 {
            assert(a + front =~= a);
            assert(joined(b, sep) == b[0]);
        } else {
            law_joined_parts_stand_apart(a, front, sep);
            assert(joined(a + b, sep) =~= joined(a, sep) + sep + joined(b, sep));
        }
    }
}

/// Each joined text stands in the result.
pub proof fn law_joined_holds_each_part(parts: Seq<Seq<char>>, sep: Seq<char>, i: int)
    requires
        0 <= i < parts.len(),
    ensures
        occurs(joined(parts, sep), parts[i]),
    decreases parts.len(),
{
    let all = joined(parts, sep);
    if parts.len() == 1 {
        assert(all.subrange(0, all.len() as int) =~= parts[0]);
        assert(occurs_at(all, parts[i], 0));
    } else {
        let front = joined(parts.drop_last(), sep);
        if i < parts.len() - 1 {
            law_joined_holds_each_part(parts.drop_last(), sep, i);
            let k = choose|k: int| #[trigger] occurs_at(front, parts[i], k);
            assert(all.subrange(k, k + parts[i].len()) =~= front.subrange(k, k + parts[i].len()));
            assert(occurs_at(all, parts[i], k));
        } else {
            let k: int = (front.len() + sep.len()) as int;
            assert(all.subrange(k, k + parts[i].len()) =~= parts.last());
            assert(occurs_at(all, parts[i], k));
        }
    }
}

/// Of two texts the one with the smaller character at the first difference
/// comes first, and the beginning of a longer text before that text.
pub proof fn law_first_difference_decides(a: Seq<char>, b: Seq<char>, i: int)
    requires
        0 <= i <= a.len(),
        i <= b.len(),
        forall|k: int| 0 <= k < i ==> #[trigger] a[k] == b[k],
        i < a.len() && i < b.len() ==> a[i] != b[i],
    ensures
        i < a.len() && i < b.len() ==> (precedes(a, b) <==> (a[i] as int) < b[i] as int),
        i == a.len() && i < b.len() ==> precedes(a, b),
        i == b.len() ==> !precedes(a, b),
    decreases i,
{
    if i > 0 {
        assert(a[0] == b[0]);
        let x = a.skip(1);
        let y = b.skip(1);
        assert forall|k: int| 0 <= k < i - 1 implies #[trigger] x[k] == y[k] by {
            assert(a[k + 1] == b[k + 1]);
        }
        law_first_difference_decides(x, y, i - 1);
    }
}

/// Lowering changes the capitals of the Latin alphabet into its small letters
/// and nothing else.
pub proof fn law_lowering_maps_the_alphabet(s: Seq<char>, i: int)
    requires
        0 <= i < s.len(),
    ensures
        lowered(s).len() == s.len(),
        'A' <= s[i] && s[i] <= 'Z' ==> lowered(s)[i] == "abcdefghijklmnopqrstuvwxyz"@[s[i] as int
            - 'A' as int],
        !('A' <= s[i] && s[i] <= 'Z') ==> lowered(s)[i] == s[i],
{
    reveal_strlit("abcdefghijklmnopqrstuvwxyz");
}

/// Blanks, tabs and line ends are spaces; nothing that is printed in ASCII is.
pub proof fn law_printed_characters_are_no_spaces(c: char)
    ensures
        c == ' ' || c == '\t' || c == '\n' || c == '\r' ==> is_space(c),
        '!' <= c && c <= '~' ==> !is_space(c),
{
}

/// A gap parts a text: its pieces are those before the gap and those behind
/// it. A text without a gap is one piece, and an empty text has none.
pub proof fn law_gaps_part_a_text(a: Seq<char>, c: char, b: Seq<char>, gap: Gap)
    ensures
        parts_at(gap, c) ==> pieces(a.push(c) + b, gap) == pieces(a, gap) + pieces(b, gap),
        a.len() > 0 && (forall|i: int| 0 <= i < a.len() ==> !parts_at(gap, #[trigger] a[i]))
            ==> pieces(a, gap) == seq![a],
        a.len() == 0 ==> pieces(a, gap).len() == 0,
{
    if parts_at(gap, c) {
        lemma_pieces_behind_a_gap(a, c, b, gap);
        let all = a.push(c) + b;
        if last_piece(b, gap).len() > 0 {
            assert(pieces(all, gap) =~= pieces(a, gap) + pieces(b, gap));
        } else {
            assert(pieces(all, gap) =~= pieces(a, gap) + pieces(b, gap));
        }
    }
    if a.len() > 0 && (forall|i: int| 0 <= i < a.len() ==> !parts_at(gap, #[trigger] a[i])) {
        lemma_one_piece(a, gap);
        assert(pieces(a, gap) =~= seq![a]);
    }
}

proof fn lemma_one_piece(a: Seq<char>, gap: Gap)
    requires
        forall|i: int| 0 <= i < a.len() ==> !parts_at(gap, #[trigger] a[i]),
    ensures
        last_piece(a, gap) == a,
        closed_pieces(a, gap).len() == 0,
    decreases a.len(),
{
    if a.len() > 0 {
        let front = a.drop_last();
        assert forall|i: int| 0 <= i < front.len() implies !parts_at(gap, #[trigger] front[i]) by {
            assert(front[i] == a[i]);
        }
        lemma_one_piece(front, gap);
        assert(!parts_at(gap, a[a.len() - 1]));
        assert(last_piece(a, gap) =~= a);
    }
}

proof fn lemma_pieces_behind_a_gap(a: Seq<char>, c: char, b: Seq<char>, gap: Gap)
    requires
        parts_at(gap, c),
    ensures
        last_piece(a.push(c) + b, gap) == last_piece(b, gap),
        closed_pieces(a.push(c) + b, gap) == pieces(a, gap) + closed_pieces(b, gap),
    decreases b.len(),
{
    let all = a.push(c) + b;
    if b.len() == 0 {
        assert(all =~= a.push(c));
        assert(all.drop_last() =~= a);
        assert(all.last() == c);
        assert(closed_pieces(all, gap) =~= pieces(a, gap) + closed_pieces(b, gap));
    } else {
        lemma_pieces_behind_a_gap(a, c, b.drop_last(), gap);
        assert(all.drop_last() =~= a.push(c) + b.drop_last());
        assert(all.last() == b.last());
        assert(closed_pieces(all, gap) =~= pieces(a, gap) + closed_pieces(b, gap));
    }
}

/// Whether only characters that pass a test stand outside of a stretch of a
/// text.
pub open spec fn all_around(
    s: Seq<char>,
    i: int,
    j: int,
    test: spec_fn(char) -> bool,
) -> bool {
    &&& 0 <= i <= j <= s.len()
    &&& forall|k: int| 0 <= k < i ==> test(#[trigger] s[k])
    &&& forall|k: int| j <= k < s.len() ==> test(#[trigger] s[k])
}

/// The test for a space.
pub open spec fn spaces() -> spec_fn(char) -> bool {
    |c: char| is_space(c)
}

proof fn lemma_around_first(s: Seq<char>, i: int, j: int, test: spec_fn(char) -> bool)
    requires
        s.len() > 0,
        test(s[0]),
        all_around(s.skip(1), i, j, test),
    ensures
        all_around(s, i + 1, j + 1, test),
        s.subrange(i + 1, j + 1) == s.skip(1).subrange(i, j),
{
    let rest = s.skip(1);
    assert forall|k: int| 0 <= k < i + 1 implies test(#[trigger] s[k]) by {
        if k > 0 {
            assert(rest[k - 1] == s[k]);
        }
    }
    assert forall|k: int| j + 1 <= k < s.len() implies test(#[trigger] s[k]) by {
        assert(rest[k - 1] == s[k]);
    }
    assert(s.subrange(i + 1, j + 1) =~= rest.subrange(i, j));
}

proof fn lemma_around_last(s: Seq<char>, i: int, j: int, test: spec_fn(char) -> bool)
    requires
        s.len() > 0,
        test(s.last()),
        all_around(s.drop_last(), i, j, test),
    ensures
        all_around(s, i, j, test),
        s.subrange(i, j) == s.drop_last().subrange(i, j),
{
    let rest = s.drop_last();
    assert forall|k: int| 0 <= k < i implies test(#[trigger] s[k]) by {
        assert(rest[k] == s[k]);
    }
    assert forall|k: int| j <= k < s.len() implies test(#[trigger] s[k]) by {
        if k < s.len() - 1 {
            assert(rest[k] == s[k]);
        }
    }
    assert(s.subrange(i, j) =~= rest.subrange(i, j));
}

/// Where the text that trimming leaves begins and ends.
#[verifier::spinoff_prover]
#[verifier::rlimit(50)]
proof fn lemma_trimmed_bounds(s: Seq<char>) -> (r: (int, int))
    ensures
        all_around(s, r.0, r.1, spaces()),
        trimmed(s) == s.subrange(r.0, r.1),
    decreases s.len(),
{
    if s.len() > 0 && is_space(s[0]) {
        let (i, j) = lemma_trimmed_bounds(s.skip(1));
        assert(spaces()(s[0]));
        lemma_around_first(s, i, j, spaces());
        (i + 1, j + 1)
    } else if s.len() > 0 && is_space(s.last()) {
        let (i, j) = lemma_trimmed_bounds(s.drop_last());
        assert(spaces()(s.last()));
        lemma_around_last(s, i, j, spaces());
        (i, j)
    } else {
        assert(s.subrange(0, s.len() as int) =~= s);
        (0, s.len() as int)
    }
}

proof fn lemma_trimmed_ends(s: Seq<char>)
    ensures
        trimmed(s).len() > 0 ==> !is_space(trimmed(s)[0]) && !is_space(trimmed(s).last()),
    decreases s.len(),
{
    if s.len() > 0 && is_space(s[0]) {
        lemma_trimmed_ends(s.skip(1));
    } else if s.len() > 0 && is_space(s.last()) {
        lemma_trimmed_ends(s.drop_last());
    }
}

/// What trimming leaves is the text without the spaces around it: it neither
/// begins nor ends with one, and only spaces are gone.
pub proof fn law_trimming_takes_spaces_only(s: Seq<char>)
    ensures
        trimmed(s).len() > 0 ==> !is_space(trimmed(s)[0]) && !is_space(trimmed(s).last()),
        exists|i: int, j: int| #[trigger]
            all_around(s, i, j, spaces()) && trimmed(s) == s.subrange(i, j),
{
    lemma_trimmed_ends(s);
    let (i, j) = lemma_trimmed_bounds(s);
    assert(all_around(s, i, j, spaces()) && trimmed(s) == s.subrange(i, j));
}

/// A prefix is taken off as often as it stands in front, and nothing else is.
pub proof fn law_prefixes_are_taken_off(s: Seq<char>, p: Seq<char>)
    requires
        p.len() > 0,
    ensures
        unprefixed(p + s, p) == unprefixed(s, p),
        !has_prefix(s, p) ==> unprefixed(s, p) == s,
        !has_prefix(unprefixed(s, p), p),
    decreases s.len(),
{
    assert((p + s).subrange(0, p.len() as int) =~= p);
    assert((p + s).skip(p.len() as int) =~= s);
    if has_prefix(s, p) {
        law_prefixes_are_taken_off(s.skip(p.len() as int), p);
    }
}

/// A number above 255 in decimal digits is no byte.
pub proof fn law_large_decimal_is_no_byte(n: nat)
    requires
        n > 255,
    ensures
        byte_val(dec(n)) is None,
{
    law_decimal_reads_back(n);
    lemma_decimal_has_no_sign(n);
}

/// A text begins with another if it is that one and something behind it, and
/// the other occurs wherever it stands.
pub proof fn law_prefix_and_part(a: Seq<char>, p: Seq<char>, b: Seq<char>)
    ensures
        has_prefix(p + b, p),
        has_prefix(a, p) ==> a == p + a.skip(p.len() as int),
        occurs(a + p + b, p),
        p.len() > a.len() ==> !has_prefix(a, p) && !occurs(a, p),
{
    assert((p + b).subrange(0, p.len() as int) =~= p);
    if has_prefix(a, p) {
        assert(a =~= a.subrange(0, p.len() as int) + a.skip(p.len() as int));
    }
    let all = a + p + b;
    assert(all.subrange(a.len() as int, (a.len() + p.len()) as int) =~= p);
    assert(occurs_at(all, p, a.len() as int));
}

/// Two digits make a byte: sixteen times the first and the second.
pub proof fn law_two_digits_make_a_byte(a: u8, b: u8)
    ensures
        hex_pair(a, b) is Some <==> hex_val(a as char) is Some && hex_val(b as char) is Some,
        hex_pair(a, b) matches Some(n) ==> n == 16 * hex_val(a as char)->0 + hex_val(
            b as char,
        )->0,
{
}

} // verus!
