//! Text rules shared by every bounded input of the core.
//!
//! Text is modelled as a sequence of characters; its size on the wire is the
//! length of its UTF-8 encoding.
pub mod laws;

use vstd::prelude::*;
use vstd::utf8::encode_utf8;

verus! {


/// Size of a text in bytes once encoded as UTF-8.
pub open spec fn byte_len(text: Seq<char>) -> nat {
    encode_utf8(text).len()
}

/// Unicode general category `Cc`.
pub open spec fn is_control(c: char) -> bool {
    c as u32 <= 0x1f || (0x7f <= c as u32 && c as u32 <= 0x9f)
}

/// Unicode property `White_Space`.
pub open spec fn is_space(c: char) -> bool {
    let n = c as u32;
    ||| 0x09 <= n <= 0x0d
    ||| n == 0x20 || n == 0x85 || n == 0xa0 || n == 0x1680
    ||| 0x2000 <= n <= 0x200a
    ||| n == 0x2028 || n == 0x2029 || n == 0x202f || n == 0x205f || n == 0x3000
}

pub open spec fn is_ascii_letter(c: char) -> bool {
    ('a' as u32 <= c as u32 && c as u32 <= 'z' as u32) || ('A' as u32 <= c as u32 && c as u32 <= 'Z' as u32)
}

pub open spec fn is_ascii_digit(c: char) -> bool {
    '0' as u32 <= c as u32 && c as u32 <= '9' as u32
}

pub open spec fn is_alphanumeric(c: char) -> bool {
    is_ascii_letter(c) || is_ascii_digit(c)
}

/// ASCII characters other than space and control characters.
pub open spec fn is_graphic(c: char) -> bool {
    0x21 <= c as u32 && c as u32 <= 0x7e
}

/// Nothing but white space, or nothing at all.
pub open spec fn is_blank(text: Seq<char>) -> bool {
    forall|i: int| 0 <= i < text.len() ==> is_space(#[trigger] text[i])
}

pub open spec fn has_control(text: Seq<char>) -> bool {
    exists|i: int| 0 <= i < text.len() && is_control(#[trigger] text[i])
}

/// Letters, digits, `.`, `_` and `-`.
pub open spec fn is_name_char(c: char) -> bool {
    is_alphanumeric(c) || c == '.' || c == '_' || c == '-'
}

/// Between one and `max` bytes of name characters.
pub open spec fn is_name(text: Seq<char>, max: nat) -> bool {
    &&& text.len() > 0
    &&& byte_len(text) <= max
    &&& forall|i: int| 0 <= i < text.len() ==> is_name_char(#[trigger] text[i])
}

pub open spec fn starts_with(text: Seq<char>, prefix: Seq<char>) -> bool {
    prefix.len() <= text.len() && text.subrange(0, prefix.len() as int) == prefix
}

pub open spec fn ends_with(text: Seq<char>, suffix: Seq<char>) -> bool {
    suffix.len() <= text.len() && text.subrange(text.len() - suffix.len(), text.len() as int) == suffix
}

/// `part` occurs somewhere in `text`.
pub open spec fn occurs(text: Seq<char>, part: Seq<char>) -> bool {
    exists|at: int| 0 <= at <= text.len() - part.len() && #[trigger] text.subrange(at, at + part.len()) == part
}

/// The first `count` characters, or all of them.
pub open spec fn clipped(text: Seq<char>, count: nat) -> Seq<char> {
    if text.len() <= count { text } else { text.subrange(0, count as int) }
}

/// Lexicographic order by code point.
pub open spec fn less(a: Seq<char>, b: Seq<char>) -> bool
    decreases a.len(),
{
    if b.len() == 0 {
        false
    } else if a.len() == 0 {
        true
    } else if a[0] != b[0] {
        (a[0] as int) < (b[0] as int)
    } else {
        less(a.drop_first(), b.drop_first())
    }
}

/// ASCII letters in lower case; every other character stays.
pub open spec fn ascii_lower(c: char) -> char {
    if 'A' as u32 <= c as u32 && c as u32 <= 'Z' as u32 {
        (c as u32 + 32) as char
    } else {
        c
    }
}

pub open spec fn ascii_upper(c: char) -> char {
    if 'a' as u32 <= c as u32 && c as u32 <= 'z' as u32 {
        (c as u32 - 32) as char
    } else {
        c
    }
}

pub open spec fn lowered(text: Seq<char>) -> Seq<char> {
    text.map_values(|c: char| ascii_lower(c))
}

pub open spec fn uppered(text: Seq<char>) -> Seq<char> {
    text.map_values(|c: char| ascii_upper(c))
}

/// The texts held by a list.
pub open spec fn texts(list: Seq<String>) -> Seq<Seq<char>> {
    list.map_values(|s: String| s@)
}

/// A text optional.
pub open spec fn opt(text: Option<String>) -> Option<Seq<char>> {
    match text {
        Some(s) => Some(s@),
        None => None,
    }
}

/// Whether two texts hold the same characters.
pub(crate) fn same(a: &str, b: &str) -> (r: bool)
    ensures
        r == (a@ == b@),
{
    let x = characters(a);
    let y = characters(b);
    if x.len() != y.len() {
        return false;
    }
    let mut i: usize = 0;
    while i < x.len()
        invariant
            i <= x.len(),
            x.len() == y.len(),
            x@ == a@,
            y@ == b@,
            forall|j: int| 0 <= j < i ==> x@[j] == y@[j],
        decreases x.len() - i,
    {
        if x[i] != y[i] {
            return false;
        }
        i = i + 1;
    }
    assert(a@ =~= b@);
    true
}

/// `String::push`: the character goes behind the text.
#[verifier::external_body]
pub(crate) fn push(text: &mut String, c: char)
    ensures
        final(text)@ == old(text)@.push(c),
{
    text.push(c)
}

pub fn utf8_len(text: &str) -> (n: usize)
    ensures
        n == byte_len(text@),
{
    text.as_bytes().len()
}

/// The characters of a text.
pub fn characters(text: &str) -> (v: Vec<char>)
    ensures
        v@ == text@,
{
    let mut v: Vec<char> = Vec::new();
    for c in iter: text.chars()
        invariant
            iter.seq() == text@,
            v@ == text@.subrange(0, iter.index() as int),
    {
        v.push(c);
        assert(v@ =~= text@.subrange(0, iter.index() + 1));
    }
    assert(text@.subrange(0, text@.len() as int) =~= text@);
    v
}

/// The text made of the characters `list[from..to]`.
pub fn text_of(list: &Vec<char>, from: usize, to: usize) -> (text: String)
    requires
        from <= to <= list.len(),
    ensures
        text@ == list@.subrange(from as int, to as int),
{
    let mut text = String::new();
    let mut i: usize = from;
    assert(list@.subrange(from as int, from as int) =~= Seq::<char>::empty());
    while i < to
        invariant
            from <= i <= to <= list.len(),
            text@ == list@.subrange(from as int, i as int),
        decreases to - i,
    {
        push(&mut text, list[i]);
        assert(list@.subrange(from as int, i as int).push(list@[i as int]) =~= list@.subrange(from as int, i + 1));
        i = i + 1;
    }
    text
}

pub fn control(c: char) -> (r: bool)
    ensures
        r == is_control(c),
{
    let n: u32 = c as u32;
    n <= 0x1f || (0x7f <= n && n <= 0x9f)
}

pub fn space(c: char) -> (r: bool)
    ensures
        r == is_space(c),
{
    let n: u32 = c as u32;
    (0x09 <= n && n <= 0x0d) || n == 0x20 || n == 0x85 || n == 0xa0 || n == 0x1680 || (0x2000 <= n && n <= 0x200a)
        || n == 0x2028 || n == 0x2029 || n == 0x202f || n == 0x205f || n == 0x3000
}

pub fn ascii_letter(c: char) -> (r: bool)
    ensures
        r == is_ascii_letter(c),
{
    ('a' <= c && c <= 'z') || ('A' <= c && c <= 'Z')
}

pub fn alphanumeric(c: char) -> (r: bool)
    ensures
        r == is_alphanumeric(c),
{
    ascii_letter(c) || ('0' <= c && c <= '9')
}

pub fn ascii_digit(c: char) -> (r: bool)
    ensures
        r == is_ascii_digit(c),
{
    '0' <= c && c <= '9'
}

pub proof fn digit_range(c: char)
    requires
        is_ascii_digit(c),
    ensures
        '0' <= c <= '9',
{
}

/// A text of ASCII digits has a byte for each.
pub proof fn digits_are_bytes(text: Seq<char>)
    requires
        forall|i: int| 0 <= i < text.len() ==> is_ascii_digit(#[trigger] text[i]),
    ensures
        byte_len(text) == text.len(),
{
    assert forall|i: int| 0 <= i < text.len() implies '\0' <= #[trigger] text[i] <= '\u{7f}' by {
        digit_range(text[i]);
    }
    vstd::utf8::is_ascii_chars_encode_utf8(text);
}

pub fn name_char(c: char) -> (r: bool)
    ensures
        r == is_name_char(c),
{
    alphanumeric(c) || c == '.' || c == '_' || c == '-'
}

pub fn blank(text: &str) -> (r: bool)
    ensures
        r == is_blank(text@),
{
    let v = characters(text);
    let mut i: usize = 0;
    while i < v.len()
        invariant
            i <= v.len(),
            v@ == text@,
            forall|j: int| 0 <= j < i ==> is_space(#[trigger] text@[j]),
        decreases v.len() - i,
    {
        if !space(v[i]) {
            assert(!is_space(text@[i as int]));
            return false;
        }
        i = i + 1;
    }
    true
}

pub fn controlled(text: &str) -> (r: bool)
    ensures
        r == has_control(text@),
{
    let v = characters(text);
    let mut i: usize = 0;
    while i < v.len()
        invariant
            i <= v.len(),
            v@ == text@,
            forall|j: int| 0 <= j < i ==> !is_control(#[trigger] text@[j]),
        decreases v.len() - i,
    {
        if control(v[i]) {
            assert(is_control(text@[i as int]));
            return true;
        }
        i = i + 1;
    }
    false
}

pub fn contains(text: &str, c: char) -> (r: bool)
    ensures
        r == text@.contains(c),
{
    let v = characters(text);
    let mut i: usize = 0;
    while i < v.len()
        invariant
            i <= v.len(),
            v@ == text@,
            forall|j: int| 0 <= j < i ==> text@[j] != c,
        decreases v.len() - i,
    {
        if v[i] == c {
            assert(text@[i as int] == c);
            return true;
        }
        i = i + 1;
    }
    false
}

pub fn name(text: &str, max: usize) -> (r: bool)
    ensures
        r == is_name(text@, max as nat),
{
    if text.is_empty() || utf8_len(text) > max {
        return false;
    }
    let v = characters(text);
    let mut i: usize = 0;
    while i < v.len()
        invariant
            i <= v.len(),
            v@ == text@,
            forall|j: int| 0 <= j < i ==> is_name_char(#[trigger] text@[j]),
        decreases v.len() - i,
    {
        if !name_char(v[i]) {
            assert(!is_name_char(text@[i as int]));
            return false;
        }
        i = i + 1;
    }
    true
}

/// Whether `list[at..at + part.len()]` holds `part`.
fn part_at(list: &Vec<char>, at: usize, part: &Vec<char>) -> (r: bool)
    requires
        at + part.len() <= list.len(),
    ensures
        r == (list@.subrange(at as int, at + part.len()) == part@),
{
    let mut i: usize = 0;
    while i < part.len()
        invariant
            i <= part.len(),
            at + part.len() <= list.len(),
            forall|j: int| 0 <= j < i ==> list@[at + j] == part@[j],
        decreases part.len() - i,
    {
        if list[at + i] != part[i] {
            assert(list@.subrange(at as int, at + part.len())[i as int] != part@[i as int]);
            return false;
        }
        i = i + 1;
    }
    assert(list@.subrange(at as int, at + part.len()) =~= part@);
    true
}

pub fn begins(text: &str, prefix: &str) -> (r: bool)
    ensures
        r == starts_with(text@, prefix@),
{
    let t = characters(text);
    let p = characters(prefix);
    if p.len() > t.len() {
        return false;
    }
    part_at(&t, 0, &p)
}

pub fn closes(text: &str, suffix: &str) -> (r: bool)
    ensures
        r == ends_with(text@, suffix@),
{
    let t = characters(text);
    let p = characters(suffix);
    if p.len() > t.len() {
        return false;
    }
    part_at(&t, t.len() - p.len(), &p)
}

/// What follows `prefix`, if the text begins with it.
pub fn strip(text: &str, prefix: &str) -> (r: Option<String>)
    ensures
        match r {
            Some(rest) => starts_with(text@, prefix@) && rest@ == text@.subrange(prefix@.len() as int, text@.len() as int),
            None => !starts_with(text@, prefix@),
        },
{
    let t = characters(text);
    let p = characters(prefix);
    if p.len() > t.len() || !part_at(&t, 0, &p) {
        return None;
    }
    Some(text_of(&t, p.len(), t.len()))
}

pub fn holds(text: &str, part: &str) -> (r: bool)
    ensures
        r == occurs(text@, part@),
{
    let t = characters(text);
    let p = characters(part);
    if p.len() > t.len() {
        return false;
    }
    let last: usize = t.len() - p.len();
    let mut at: usize = 0;
    loop
        invariant
            at <= last,
            last == t.len() - p.len(),
            p.len() <= t.len(),
            t@ == text@,
            p@ == part@,
            forall|j: int| 0 <= j < at ==> #[trigger] text@.subrange(j, j + part@.len()) != part@,
        decreases last - at,
    {
        if part_at(&t, at, &p) {
            assert(text@.subrange(at as int, at + part@.len()) == part@);
            return true;
        }
        if at == last {
            return false;
        }
        at = at + 1;
    }
}

pub fn clip(text: &str, count: usize) -> (r: String)
    ensures
        r@ == clipped(text@, count as nat),
{
    let v = characters(text);
    if v.len() <= count {
        assert(v@.subrange(0, v.len() as int) =~= text@);
        return text_of(&v, 0, v.len());
    }
    text_of(&v, 0, count)
}

fn below(a: char, b: char) -> (r: bool)
    ensures
        r == ((a as int) < (b as int)),
{
    a < b
}

pub fn before(a: &str, b: &str) -> (r: bool)
    ensures
        r == less(a@, b@),
{
    let x = characters(a);
    let y = characters(b);
    let mut i: usize = 0;
    assert(x@.subrange(0, x.len() as int) =~= x@);
    assert(y@.subrange(0, y.len() as int) =~= y@);
    while i < x.len() && i < y.len()
        invariant
            i <= x.len(),
            i <= y.len(),
            x@ == a@,
            y@ == b@,
            less(a@, b@) == less(x@.subrange(i as int, x.len() as int), y@.subrange(i as int, y.len() as int)),
        decreases x.len() - i,
    {
        let ghost p = x@.subrange(i as int, x.len() as int);
        let ghost q = y@.subrange(i as int, y.len() as int);
        assert(p[0] == x@[i as int] && q[0] == y@[i as int]);
        if x[i] != y[i] {
            return below(x[i], y[i]);
        }
        assert(p.drop_first() =~= x@.subrange(i + 1, x.len() as int));
        assert(q.drop_first() =~= y@.subrange(i + 1, y.len() as int));
        i = i + 1;
    }
    i < y.len()
}

pub fn lower(text: &str) -> (r: String)
    ensures
        r@ == lowered(text@),
{
    let v = characters(text);
    let mut r = String::new();
    let mut i: usize = 0;
    while i < v.len()
        invariant
            i <= v.len(),
            v@ == text@,
            r@ == lowered(text@.subrange(0, i as int)),
        decreases v.len() - i,
    {
        let c: char = v[i];
        push(&mut r, lower_char(c));
        assert(lowered(text@.subrange(0, i + 1)) =~= lowered(text@.subrange(0, i as int)).push(ascii_lower(c)));
        i = i + 1;
    }
    assert(text@.subrange(0, v.len() as int) =~= text@);
    r
}

fn lower_char(c: char) -> (r: char)
    ensures
        r == ascii_lower(c),
{
    let n: u32 = c as u32;
    if 65 <= n && n <= 90 {
        let b: u8 = n as u8;
        assert(b == n);
        (b + 32) as char
    } else {
        c
    }
}

fn upper_char(c: char) -> (r: char)
    ensures
        r == ascii_upper(c),
{
    let n: u32 = c as u32;
    if 97 <= n && n <= 122 {
        let b: u8 = n as u8;
        assert(b == n);
        (b - 32) as char
    } else {
        c
    }
}

pub fn upper(text: &str) -> (r: String)
    ensures
        r@ == uppered(text@),
{
    let v = characters(text);
    let mut r = String::new();
    let mut i: usize = 0;
    while i < v.len()
        invariant
            i <= v.len(),
            v@ == text@,
            r@ == uppered(text@.subrange(0, i as int)),
        decreases v.len() - i,
    {
        let c: char = v[i];
        push(&mut r, upper_char(c));
        assert(uppered(text@.subrange(0, i + 1)) =~= uppered(text@.subrange(0, i as int)).push(ascii_upper(c)));
        i = i + 1;
    }
    assert(text@.subrange(0, v.len() as int) =~= text@);
    r
}

/// Whether `list` holds `text`.
pub fn listed(list: &Vec<String>, text: &str) -> (r: bool)
    ensures
        r == texts(list@).contains(text@),
{
    let mut i: usize = 0;
    while i < list.len()
        invariant
            i <= list.len(),
            forall|j: int| 0 <= j < i ==> #[trigger] list@[j]@ != text@,
        decreases list.len() - i,
    {
        if same(&list[i], text) {
            assert(texts(list@)[i as int] == text@);
            return true;
        }
        i = i + 1;
    }
    assert forall|j: int| 0 <= j < texts(list@).len() implies texts(list@)[j] != text@ by {
        assert(list@[j]@ != text@);
    }
    false
}

/// One hexadecimal digit, in lower case.
pub open spec fn digit(d: nat) -> char {
    if d < 10 { ('0' as u32 + d) as char } else { ('a' as u32 + d - 10) as char }
}

/// A number in decimal notation, without leading zeros.
pub open spec fn decimal(n: nat) -> Seq<char>
    decreases n,
{
    if n < 10 { seq![digit(n)] } else { decimal(n / 10).push(digit(n % 10)) }
}

/// The lowest `width` hexadecimal digits of a number.
pub open spec fn hex(n: nat, width: nat) -> Seq<char>
    decreases width,
{
    if width == 0 { Seq::empty() } else { hex(n / 16, (width - 1) as nat).push(digit(n % 16)) }
}

fn digit_char(d: u8) -> (c: char)
    requires
        d < 16,
    ensures
        c == digit(d as nat),
{
    if d < 10 { (48 + d) as char } else { (97 + (d - 10)) as char }
}

pub fn decimal_text(n: u64) -> (text: String)
    ensures
        text@ == decimal(n as nat),
    decreases n,
{
    if n < 10 {
        let mut text = String::new();
        push(&mut text, digit_char(n as u8));
        assert(text@ =~= seq![digit(n as nat)]);
        text
    } else {
        let mut text = decimal_text(n / 10);
        push(&mut text, digit_char((n % 10) as u8));
        text
    }
}

pub fn hex_text(n: u64, width: usize) -> (text: String)
    ensures
        text@ == hex(n as nat, width as nat),
    decreases width,
{
    if width == 0 {
        String::new()
    } else {
        let mut text = hex_text(n / 16, width - 1);
        push(&mut text, digit_char((n % 16) as u8));
        text
    }
}

proof fn digit_injective(a: nat, b: nat)
    requires
        a < 16,
        b < 16,
        digit(a) == digit(b),
    ensures
        a == b,
{
    let x: int = if a < 10 { 48 + a as int } else { 97 + a - 10 };
    let y: int = if b < 10 { 48 + b as int } else { 97 + b - 10 };
    assert(digit(a) as u32 == x && digit(b) as u32 == y);
}

/// Numbers with different hexadecimal notations of one width differ, and
/// numbers below `16^width` with one notation are the same number.
pub proof fn hex_injective(a: nat, b: nat, width: nat)
    requires
        hex(a, width) == hex(b, width),
        a < vstd::arithmetic::power::pow(16, width),
        b < vstd::arithmetic::power::pow(16, width),
    ensures
        a == b,
    decreases width,
{
    reveal(vstd::arithmetic::power::pow);
    if width == 0 {
    } else {
        let x = hex(a / 16, (width - 1) as nat);
        let y = hex(b / 16, (width - 1) as nat);
        assert(x.push(digit(a % 16)).last() == y.push(digit(b % 16)).last());
        assert(x.push(digit(a % 16)).drop_last() =~= x);
        assert(y.push(digit(b % 16)).drop_last() =~= y);
        digit_injective(a % 16, b % 16);
        hex_injective(a / 16, b / 16, (width - 1) as nat);
    }
}

/// `less` is irreflexive, transitive and total.
pub proof fn less_irreflexive(a: Seq<char>)
    ensures
        !less(a, a),
    decreases a.len(),
{
    if a.len() > 0 {
        less_irreflexive(a.drop_first());
    }
}

pub proof fn less_transitive(a: Seq<char>, b: Seq<char>, c: Seq<char>)
    requires
        less(a, b),
        less(b, c),
    ensures
        less(a, c),
    decreases a.len(),
{
    if a.len() > 0 && b.len() > 0 && c.len() > 0 && a[0] == b[0] && b[0] == c[0] {
        less_transitive(a.drop_first(), b.drop_first(), c.drop_first());
    }
}

pub proof fn less_total(a: Seq<char>, b: Seq<char>)
    ensures
        less(a, b) || a == b || less(b, a),
    decreases a.len(),
{
    if a.len() > 0 && b.len() > 0 {
        if a[0] == b[0] {
            less_total(a.drop_first(), b.drop_first());
            if a.drop_first() == b.drop_first() {
                assert(a =~= seq![a[0]] + a.drop_first());
                assert(b =~= seq![b[0]] + b.drop_first());
            }
        } else {
            assert(a[0] as int != b[0] as int);
        }
    } else if a.len() == 0 && b.len() == 0 {
        assert(a =~= b);
    }
}

/// The text of `a` followed by that of `b`.
pub fn joined(a: &str, b: &str) -> (r: String)
    ensures
        r@ == a@ + b@,
{
    let mut r = a.to_owned();
    r.append(b);
    r
}

pub fn copied(text: &str) -> (r: String)
    ensures
        r@ == text@,
{
    text.to_owned()
}

/// The pieces between separators; one more than there are separators.
pub open spec fn pieces(text: Seq<char>, separator: char) -> Seq<Seq<char>>
    decreases text.len(),
{
    if text.len() == 0 {
        seq![text]
    } else {
        let front = pieces(text.drop_last(), separator);
        if text.last() == separator {
            front.push(Seq::empty())
        } else {
            front.update(front.len() - 1, front.last().push(text.last()))
        }
    }
}

/// There is always a piece.
pub proof fn pieces_nonempty(text: Seq<char>, separator: char)
    ensures
        pieces(text, separator).len() > 0,
    decreases text.len(),
{
    if text.len() > 0 {
        pieces_nonempty(text.drop_last(), separator);
    }
}

/// Splits a text at every separator.
pub fn split(text: &str, separator: char) -> (r: Vec<String>)
    ensures
        texts(r@) == pieces(text@, separator),
        r@.len() > 0,
{
    let list = characters(text);
    let mut r: Vec<String> = Vec::new();
    let mut piece = String::new();
    let ghost all = text@;
    let mut i: usize = 0;
    assert(all.subrange(0, 0) =~= Seq::<char>::empty());
    assert(texts(r@).push(piece@) =~= pieces(all.subrange(0, 0), separator));
    while i < list.len()
        invariant
            i <= list.len(),
            list@ == all,
            texts(r@).push(piece@) == pieces(all.subrange(0, i as int), separator),
        decreases list.len() - i,
    {
        let ghost before = pieces(all.subrange(0, i as int), separator);
        proof {
            assert(all.subrange(0, i + 1).drop_last() =~= all.subrange(0, i as int));
            assert(all.subrange(0, i + 1).last() == all[i as int]);
        }
        if list[i] == separator {
            let ghost done = texts(r@);
            let ghost last = piece@;
            r.push(piece);
            piece = String::new();
            assert(texts(r@) =~= done.push(last));
            assert(texts(r@).push(piece@) =~= before.push(Seq::empty()));
        } else {
            let ghost done = texts(r@);
            let ghost last = piece@;
            push(&mut piece, list[i]);
            assert(done.push(last.push(all[i as int])) =~= before.update(before.len() - 1, before.last().push(all[i as int])));
        }
        i = i + 1;
    }
    assert(all.subrange(0, i as int) =~= all);
    let ghost done = texts(r@);
    let ghost last = piece@;
    r.push(piece);
    assert(texts(r@) =~= done.push(last));
    r
}

/// What the standard library makes of a text in lower case, all scripts included.
pub uninterp spec fn lowercased(text: Seq<char>) -> Seq<char>;

/// Lower case of a text with `str::to_lowercase`. Its result is named, not described.
#[verifier::external_body]
pub(crate) fn lowercase(text: &str) -> (r: String)
    ensures
        r@ == lowercased(text@),
{
    text.to_lowercase()
}

/// A text without white space at its start.
pub open spec fn front_trimmed(text: Seq<char>) -> Seq<char>
    decreases text.len(),
{
    if text.len() > 0 && is_space(text[0]) { front_trimmed(text.drop_first()) } else { text }
}

/// A text without white space at its end.
pub open spec fn back_trimmed(text: Seq<char>) -> Seq<char>
    decreases text.len(),
{
    if text.len() > 0 && is_space(text.last()) { back_trimmed(text.drop_last()) } else { text }
}

/// A text without white space at either end.
pub open spec fn trimmed(text: Seq<char>) -> Seq<char> {
    back_trimmed(front_trimmed(text))
}

pub fn trim(text: &str) -> (r: String)
    ensures
        r@ == trimmed(text@),
{
    let list = characters(text);
    let ghost all = text@;
    let mut from: usize = 0;
    assert(all.subrange(0, all.len() as int) =~= all);
    while from < list.len() && space(list[from])
        invariant
            from <= list.len(),
            list@ == all,
            front_trimmed(all) == front_trimmed(all.subrange(from as int, all.len() as int)),
        decreases list.len() - from,
    {
        proof {
            let rest = all.subrange(from as int, all.len() as int);
            assert(rest[0] == all[from as int]);
            assert(rest.drop_first() =~= all.subrange(from + 1, all.len() as int));
        }
        from = from + 1;
    }
    let ghost front = all.subrange(from as int, all.len() as int);
    proof {
        if from < list.len() {
            assert(front[0] == all[from as int]);
        }
    }
    let mut to: usize = list.len();
    while to > from && space(list[to - 1])
        invariant
            from <= to <= list.len(),
            list@ == all,
            front == all.subrange(from as int, all.len() as int),
            back_trimmed(front) == back_trimmed(all.subrange(from as int, to as int)),
        decreases to,
    {
        proof {
            let rest = all.subrange(from as int, to as int);
            assert(rest.last() == all[to - 1]);
            assert(rest.drop_last() =~= all.subrange(from as int, to - 1));
        }
        to = to - 1;
    }
    proof {
        let rest = all.subrange(from as int, to as int);
        if to > from {
            assert(rest.last() == all[to - 1]);
        }
    }
    text_of(&list, from, to)
}

/// What the standard library's debug formatting makes of a text: the text in double
/// quotes with escapes.
pub uninterp spec fn debug_quoted(text: Seq<char>) -> Seq<char>;

/// Formats a text with `{:?}` of the standard library. Its result is named, not described.
#[verifier::external_body]
pub(crate) fn debug_quoting(text: &str) -> (r: String)
    ensures
        r@ == debug_quoted(text@),
{
    format!("{:?}", text)
}

/// A copy of every text of a list.
pub fn copied_list(list: &Vec<String>) -> (r: Vec<String>)
    ensures
        texts(r@) == texts(list@),
        r@ == list@,
{
    let mut r: Vec<String> = Vec::new();
    let mut i: usize = 0;
    while i < list.len()
        invariant
            i <= list.len(),
            r@ == list@.subrange(0, i as int),
        decreases list.len() - i,
    {
        r.push(list[i].clone());
        assert(r@ =~= list@.subrange(0, i + 1));
        i = i + 1;
    }
    assert(r@ =~= list@);
    r
}

/// The first place at or behind `from` where `part` stands in `text`.
pub open spec fn place(text: Seq<char>, part: Seq<char>, from: int) -> Option<int>
    decreases text.len() - from + 1,
{
    if from < 0 || from + part.len() > text.len() {
        None
    } else if text.subrange(from, from + part.len()) == part {
        Some(from)
    } else {
        place(text, part, from + 1)
    }
}

/// The text in front of the first `part`, if there is one.
pub open spec fn front(text: Seq<char>, part: Seq<char>) -> Option<Seq<char>> {
    match place(text, part, 0) {
        Some(i) => Some(text.subrange(0, i)),
        None => None,
    }
}

fn stands(t: &Vec<char>, p: &Vec<char>, i: usize) -> (r: bool)
    requires
        i + p.len() <= t.len(),
    ensures
        r == (t@.subrange(i as int, i + p@.len()) == p@),
{
    let mut j: usize = 0;
    while j < p.len()
        invariant
            i + p.len() <= t.len(),
            j <= p.len(),
            t@.subrange(i as int, i + j) == p@.subrange(0, j as int),
        decreases p.len() - j,
    {
        if t[i + j] != p[j] {
            assert(t@.subrange(i as int, i + p@.len())[j as int] != p@[j as int]);
            return false;
        }
        assert(t@.subrange(i as int, i + j + 1) =~= t@.subrange(i as int, i + j).push(t[i + j]));
        assert(p@.subrange(0, j + 1) =~= p@.subrange(0, j as int).push(p[j as int]));
        j = j + 1;
    }
    assert(p@.subrange(0, j as int) =~= p@);
    true
}

pub fn ahead(text: &str, part: &str) -> (r: Option<String>)
    ensures
        match r {
            Some(t) => front(text@, part@) == Some(t@),
            None => front(text@, part@) is None,
        },
{
    let t = characters(text);
    let p = characters(part);
    if p.len() > t.len() {
        return None;
    }
    let mut i: usize = 0;
    while i < t.len() - p.len()
        invariant
            t@ == text@,
            p@ == part@,
            p.len() <= t.len(),
            i <= t.len() - p.len(),
            place(text@, part@, 0) == place(text@, part@, i as int),
        decreases t.len() - i,
    {
        if stands(&t, &p, i) {
            return Some(text_of(&t, 0, i));
        }
        i = i + 1;
    }
    if stands(&t, &p, i) {
        return Some(text_of(&t, 0, i));
    }
    assert(place(text@, part@, i + 1) is None);
    None
}

/// What the standard library's debug formatting makes of a path with this text.
pub uninterp spec fn path_quoted(text: Seq<char>) -> Seq<char>;

/// Formats a path with `{:?}` of the standard library. Its result is named, not described.
#[verifier::external_body]
pub(crate) fn path_quoting(text: &str) -> (r: String)
    ensures
        r@ == path_quoted(text@),
{
    format!("{:?}", std::path::Path::new(text))
}

} // verus!
