//! What holds of texts as such.
use super::{
    ascii_lower, ascii_upper, back_trimmed, clipped, decimal, ends_with, front, front_trimmed, hex, is_ascii_digit, is_blank,
    is_control, is_graphic, is_name, is_name_char, is_space, less, lowered, occurs, pieces, pieces_nonempty, place,
    starts_with, trimmed, uppered,
};
use vstd::prelude::*;

verus! {

/// Texts are ordered by the first character in which they differ, and a beginning stands
/// before the whole.
pub proof fn texts_compare_by_their_first_difference(a: Seq<char>, b: Seq<char>, i: nat)
    requires
        i <= a.len(),
        i <= b.len(),
        forall|j: int| 0 <= j < i ==> #[trigger] a[j] == b[j],
    ensures
        i < a.len() && i < b.len() && a[i as int] != b[i as int] ==> less(a, b) == ((a[i as int] as int) < (b[i as int] as int)),
        i == a.len() && i < b.len() ==> less(a, b) && !less(b, a),
        i == a.len() && i == b.len() ==> !less(a, b),
    decreases i,
{
    if i > 0 {
        let x = a.drop_first();
        let y = b.drop_first();
        assert(a[0] == b[0]);
        assert forall|j: int| 0 <= j < i - 1 implies #[trigger] x[j] == y[j] by {
            assert(a[j + 1] == b[j + 1]);
        }
        texts_compare_by_their_first_difference(x, y, (i - 1) as nat);
        if i < a.len() && i < b.len() {
            assert(x[i - 1] == a[i as int] && y[i - 1] == b[i as int]);
        }
    }
}

/// Lower and upper case reach the Latin letters, one for one, and nothing else.
pub proof fn cases_reach_latin_letters(text: Seq<char>, i: int)
    requires
        0 <= i < text.len(),
    ensures
        lowered(text).len() == text.len(),
        uppered(text).len() == text.len(),
        65 <= text[i] as int <= 90 ==> lowered(text)[i] as int == text[i] as int + 32,
        !(65 <= text[i] as int <= 90) ==> lowered(text)[i] == text[i],
        97 <= text[i] as int <= 122 ==> uppered(text)[i] as int == text[i] as int - 32,
        !(97 <= text[i] as int <= 122) ==> uppered(text)[i] == text[i],
        lowered(lowered(text)) == lowered(text),
        lowered(uppered(text)) == lowered(text),
{
    assert(uppered(text)[i] == ascii_upper(text[i]) && lowered(text)[i] == ascii_lower(text[i]));
    assert(text[i] as int == text[i] as u32);
    assert(lowered(lowered(text)) =~= lowered(text)) by {
        assert forall|k: int| 0 <= k < text.len() implies lowered(lowered(text))[k] == lowered(text)[k] by {}
    }
    assert(lowered(uppered(text)) =~= lowered(text)) by {
        assert forall|k: int| 0 <= k < text.len() implies lowered(uppered(text))[k] == lowered(text)[k] by {}
    }
}

/// What counts as white space, as a control character, and as part of a name.
pub proof fn characters_are_of_their_kind(c: char)
    ensures
        is_space(' ') && is_space('\t') && is_space('\n') && is_space('\r'),
        is_graphic(c) ==> !is_space(c) && !is_control(c),
        is_graphic(c) <==> 33 <= c as int <= 126,
        is_control(c) <==> (c as int) < 32 || 127 <= c as int <= 159,
        is_name_char(c) <==> 97 <= c as int <= 122 || 65 <= c as int <= 90 || 48 <= c as int <= 57 || c == '.' || c == '_' || c
            == '-',
        is_name_char(c) ==> is_graphic(c),
        is_ascii_digit(c) <==> 48 <= c as int <= 57,
{
}

/// A name is not empty and holds letters, digits and three marks only.
pub proof fn names_are_plain(text: Seq<char>, max: nat, i: int)
    requires
        is_name(text, max),
        0 <= i < text.len(),
    ensures
        0 < text.len() <= max,
        33 <= text[i] as int <= 126,
        text[i] != '/' && text[i] != ':' && text[i] != '\\',
{
    characters_are_of_their_kind(text[i]);
    assert(vstd::utf8::is_ascii_chars(text)) by {
        assert forall|k: int| 0 <= k < text.len() implies '\0' <= #[trigger] text[k] <= '\u{7f}' by {
            characters_are_of_their_kind(text[k]);
            assert(text[k] as u32 <= 126);
        }
    }
    vstd::utf8::is_ascii_chars_encode_utf8(text);
}

/// Cutting a text keeps its beginning, up to the limit.
pub proof fn cut_texts_are_beginnings(text: Seq<char>, count: nat)
    ensures
        clipped(text, count).len() <= count,
        clipped(text, count).len() <= text.len(),
        text.len() <= count ==> clipped(text, count) == text,
        text.len() > count ==> clipped(text, count).len() == count,
        forall|i: int| 0 <= i < clipped(text, count).len() ==> clipped(text, count)[i] == text[i],
{
}

/// Trimming cuts white space from both ends and nothing else: what is left begins and ends
/// with another character, or is empty.
pub proof fn trimming_cuts_space_at_the_ends(text: Seq<char>)
    ensures
        trimmed(text).len() > 0 ==> !is_space(trimmed(text)[0]) && !is_space(trimmed(text).last()),
        trimmed(text).len() == 0 <==> is_blank(text),
        exists|i: int, j: int|
            0 <= i <= j <= text.len() && #[trigger] text.subrange(i, j) == trimmed(text) && (forall|k: int|
                0 <= k < i ==> is_space(#[trigger] text[k])) && (forall|k: int|
                j <= k < text.len() ==> is_space(#[trigger] text[k])),
{
    front_is_cut(text);
    let f = front_trimmed(text);
    back_is_cut(f);
    let t = trimmed(text);
    let i = text.len() - f.len();
    let j = i + t.len();
    assert(f =~= text.subrange(i, text.len() as int));
    assert(t =~= f.subrange(0, t.len() as int));
    assert(text.subrange(i, j) =~= t);
    assert forall|k: int| j <= k < text.len() implies is_space(#[trigger] text[k]) by {
        assert(f[k - i] == text[k]);
    }
    if t.len() > 0 {
        assert(t[0] == f[0]);
    }
    if is_blank(text) {
        if t.len() > 0 {
            assert(t[0] == text[i]);
        }
    }
    if t.len() == 0 {
        assert forall|k: int| 0 <= k < text.len() implies is_space(#[trigger] text[k]) by {}
    }
}

proof fn front_is_cut(text: Seq<char>)
    ensures
        front_trimmed(text).len() <= text.len(),
        front_trimmed(text) == text.subrange(text.len() - front_trimmed(text).len(), text.len() as int),
        forall|k: int| 0 <= k < text.len() - front_trimmed(text).len() ==> is_space(#[trigger] text[k]),
        front_trimmed(text).len() > 0 ==> !is_space(front_trimmed(text)[0]),
    decreases text.len(),
{
    if text.len() > 0 && is_space(text[0]) {
        let rest = text.drop_first();
        front_is_cut(rest);
        let f = front_trimmed(text);
        assert(f =~= text.subrange(text.len() - f.len(), text.len() as int));
        assert forall|k: int| 0 <= k < text.len() - f.len() implies is_space(#[trigger] text[k]) by {
            if k > 0 {
                assert(rest[k - 1] == text[k]);
            }
        }
    } else {
        assert(text =~= text.subrange(0, text.len() as int));
    }
}

proof fn back_is_cut(text: Seq<char>)
    ensures
        back_trimmed(text).len() <= text.len(),
        back_trimmed(text) == text.subrange(0, back_trimmed(text).len() as int),
        forall|k: int| back_trimmed(text).len() <= k < text.len() ==> is_space(#[trigger] text[k]),
        back_trimmed(text).len() > 0 ==> !is_space(back_trimmed(text).last()),
    decreases text.len(),
{
    if text.len() > 0 && is_space(text.last()) {
        let rest = text.drop_last();
        back_is_cut(rest);
        let f = back_trimmed(text);
        assert(f =~= text.subrange(0, f.len() as int));
        assert forall|k: int| f.len() <= k < text.len() implies is_space(#[trigger] text[k]) by {
            if k < rest.len() {
                assert(rest[k] == text[k]);
            }
        }
    } else {
        assert(text =~= text.subrange(0, text.len() as int));
    }
}

/// The digits of a number: the last is its remainder, those before it are its tenth, or its
/// sixteenth.
pub proof fn numbers_are_written_in_digits(n: nat, width: nat)
    ensures
        n < 10 ==> decimal(n).len() == 1,
        n >= 10 ==> decimal(n).drop_last() == decimal(n / 10),
        decimal(n).len() > 0,
        decimal(n).last() as int == 48 + n % 10,
        hex(n, 0).len() == 0,
        hex(n, width + 1).drop_last() == hex(n / 16, width),
        hex(n, width + 1).len() > 0,
        n % 16 < 10 ==> hex(n, width + 1).last() as int == 48 + n % 16,
        n % 16 >= 10 ==> hex(n, width + 1).last() as int == 87 + n % 16,
{
    assert(n >= 10 ==> decimal(n).drop_last() =~= decimal(n / 10));
    assert(hex(n, width + 1).drop_last() =~= hex(n / 16, width));
    assert(n < 10 ==> n % 10 == n);
}

/// Pieces put together again, with the separator between them.
pub open spec fn rejoined(list: Seq<Seq<char>>, separator: char) -> Seq<char>
    decreases list.len(),
{
    if list.len() == 0 {
        Seq::empty()
    } else if list.len() == 1 {
        list[0]
    } else {
        rejoined(list.drop_last(), separator).push(separator) + list.last()
    }
}

/// A text falls into the pieces between its separators: none of them holds one, and together
/// again they are the text.
pub proof fn pieces_lie_between_separators(text: Seq<char>, separator: char)
    ensures
        rejoined(pieces(text, separator), separator) == text,
        pieces(text, separator).len() > 0,
        forall|i: int| 0 <= i < pieces(text, separator).len() ==> !(#[trigger] pieces(text, separator)[i]).contains(separator),
    decreases text.len(),
{
    pieces_nonempty(text, separator);
    let all = pieces(text, separator);
    if text.len() > 0 {
        let rest = text.drop_last();
        let before = pieces(rest, separator);
        pieces_lie_between_separators(rest, separator);
        if text.last() == separator {
            assert(all.drop_last() =~= before);
            assert(rejoined(all, separator) =~= text);
        } else {
            let grown = before.last().push(text.last());
            assert(all.drop_last() =~= before.drop_last());
            assert(all.last() == grown && all.len() == before.len());
            assert(text =~= rest.push(text.last()));
            if before.len() == 1 {
                assert(rejoined(before, separator) == before[0]);
                assert(rejoined(all, separator) == grown);
            } else {
                let head = rejoined(before.drop_last(), separator).push(separator);
                assert(rejoined(before, separator) == head + before.last());
                assert(rejoined(all, separator) == head + grown);
                assert(head + grown =~= (head + before.last()).push(text.last()));
            }
            assert(!before[before.len() - 1].contains(separator));
            assert(!grown.contains(separator)) by {
                if grown.contains(separator) {
                    let k = choose|k: int| 0 <= k < grown.len() && grown[k] == separator;
                    assert(before.last()[k] == separator);
                }
            }
            assert forall|i: int| 0 <= i < all.len() implies !(#[trigger] all[i]).contains(separator) by {
                if i < all.len() - 1 {
                    assert(all[i] == before[i]);
                }
            }
        }
    } else {
        assert(!all[0].contains(separator));
    }
}

/// A part is found at its first place, and not where it does not stand.
pub proof fn parts_are_found_first(text: Seq<char>, part: Seq<char>, from: int, at: int)
    requires
        0 <= from <= at,
        at + part.len() <= text.len(),
    ensures
        place(text, part, from) is None ==> text.subrange(at, at + part.len()) != part,
        place(text, part, from) is Some ==> from <= place(text, part, from)->0 && place(text, part, from)->0 + part.len()
            <= text.len() && text.subrange(place(text, part, from)->0, place(text, part, from)->0 + part.len()) == part,
        place(text, part, from) is Some && at < place(text, part, from)->0 ==> text.subrange(at, at + part.len()) != part,
    decreases at - from,
{
    if text.subrange(from, from + part.len()) != part {
        if at > from {
            parts_are_found_first(text, part, from + 1, at);
        } else {
            found_at(text, part, from + 1);
        }
    }
}

proof fn found_at(text: Seq<char>, part: Seq<char>, from: int)
    requires
        0 <= from,
    ensures
        place(text, part, from) is Some ==> from <= place(text, part, from)->0 && place(text, part, from)->0 + part.len()
            <= text.len() && text.subrange(place(text, part, from)->0, place(text, part, from)->0 + part.len()) == part,
    decreases text.len() - from + 1,
{
    if from + part.len() <= text.len() && text.subrange(from, from + part.len()) != part {
        found_at(text, part, from + 1);
    }
}

/// What stands before a part, where the part occurs only at that place or later.
pub proof fn fronts_end_at_the_part(text: Seq<char>, part: Seq<char>)
    ensures
        front(text, part) is Some <==> occurs(text, part),
        front(text, part) is Some ==> starts_with(text, front(text, part)->0 + part),
{
    found_at(text, part, 0);
    if place(text, part, 0) is Some {
        let i = place(text, part, 0)->0;
        assert(text.subrange(i, i + part.len()) == part);
        assert(text.subrange(0, i + part.len()) =~= text.subrange(0, i) + part);
    }
    if occurs(text, part) {
        let at = choose|at: int| 0 <= at <= text.len() - part.len() && #[trigger] text.subrange(at, at + part.len()) == part;
        parts_are_found_first(text, part, 0, at);
    }
}

/// A text begins with its beginning, ends with its end, and holds what lies between.
pub proof fn texts_hold_their_parts(a: Seq<char>, b: Seq<char>, c: Seq<char>)
    ensures
        starts_with(a + b, a),
        ends_with(a + b, b),
        occurs(a + b + c, b),
        a.len() < b.len() ==> !starts_with(a, b) && !ends_with(a, b) && !occurs(a, b),
        starts_with(a, b) ==> forall|i: int| 0 <= i < b.len() ==> a[i] == b[i],
{
    assert((a + b).subrange(0, a.len() as int) =~= a);
    assert((a + b).subrange(a.len() as int, (a + b).len() as int) =~= b);
    let all = a + b + c;
    assert(all.subrange(a.len() as int, a.len() as int + b.len()) =~= b);
    if starts_with(a, b) {
        assert forall|i: int| 0 <= i < b.len() implies a[i] == b[i] by {
            assert(a.subrange(0, b.len() as int)[i] == b[i]);
        }
    }
}

} // verus!
