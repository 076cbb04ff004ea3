//! Texts: trimming them, taking them apart and putting them together.
use vstd::prelude::*;
use vstd::string::StrSliceExecFns;
use vstd::string::StringExecFns;

verus! {

/// The characters with the Unicode property `White_Space`.
pub open spec fn white_space(c: char) -> bool {
    ||| '\u{9}' <= c <= '\u{d}'
    ||| c == '\u{20}'
    ||| c == '\u{85}'
    ||| c == '\u{a0}'
    ||| c == '\u{1680}'
    ||| '\u{2000}' <= c <= '\u{200a}'
    ||| '\u{2028}' <= c <= '\u{2029}'
    ||| c == '\u{202f}'
    ||| c == '\u{205f}'
    ||| c == '\u{3000}'
}

/// Whether `c` has the Unicode property `White_Space`.
pub fn is_white_space(c: char) -> (res: bool)
    ensures
        res == white_space(c),
{
    ('\u{9}' <= c && c <= '\u{d}') || c == '\u{20}' || c == '\u{85}' || c == '\u{a0}' || c
        == '\u{1680}' || ('\u{2000}' <= c && c <= '\u{200a}') || ('\u{2028}' <= c && c
        <= '\u{2029}') || c == '\u{202f}' || c == '\u{205f}' || c == '\u{3000}'
}

/// `s` without the white space in front of it.
pub open spec fn trimmed_start(s: Seq<char>) -> Seq<char>
    decreases s.len(),
{
    if s.len() > 0 && white_space(s.first()) {
        trimmed_start(s.drop_first())
    } else {
        s
    }
}

/// `s` without the white space behind it.
pub open spec fn trimmed_end(s: Seq<char>) -> Seq<char>
    decreases s.len(),
{
    if s.len() > 0 && white_space(s.last()) {
        trimmed_end(s.drop_last())
    } else {
        s
    }
}

/// `s` without the white space around it.
pub open spec fn trimmed(s: Seq<char>) -> Seq<char> {
    trimmed_end(trimmed_start(s))
}

/// The characters of `text`, in order.
pub fn chars_of(text: &str) -> (chars: Vec<char>)
    ensures
        chars@ == text@,
{
    let mut chars: Vec<char> = Vec::new();
    for c in it: text.chars()
        invariant
            it.seq() == text@,
            chars@ == text@.take(it.index() as int),
    {
        chars.push(c);
    }
    assert(text@.take(text@.len() as int) =~= text@);
    chars
}

/// `text` without the white space around it.
pub fn trim<'a>(text: &'a str) -> (res: &'a str)
    ensures
        res@ == trimmed(text@),
{
    let chars = chars_of(text);
    let len = chars.len();
    let ghost s = text@;
    let mut start: usize = 0;
    assert(s.skip(0) =~= s);
    while start < len && is_white_space(chars[start])
        invariant
            s == chars@,
            len == s.len(),
            start <= len,
            trimmed_start(s) == trimmed_start(s.skip(start as int)),
        decreases len - start,
    {
        assert(s.skip(start as int).drop_first() =~= s.skip(start + 1));
        start = start + 1;
    }
    assert(trimmed_start(s) == s.skip(start as int));
    let mut end: usize = len;
    assert(s.subrange(start as int, len as int) =~= s.skip(start as int));
    while end > start && is_white_space(chars[end - 1])
        invariant
            s == chars@,
            len == s.len(),
            start <= end <= len,
            trimmed(s) == trimmed_end(s.subrange(start as int, end as int)),
        decreases end,
    {
        assert(s.subrange(start as int, end as int).drop_last() =~= s.subrange(
            start as int,
            end - 1,
        ));
        end = end - 1;
    }
    text.substring_char(start, end)
}

/// Whether the two texts hold the same characters.
pub fn same_text(a: &str, b: &str) -> (res: bool)
    ensures
        res == (a@ == b@),
{
    a.to_owned() == b.to_owned()
}

/// Whether `text` begins with `prefix`.
pub fn starts_with(text: &str, prefix: &str) -> (res: bool)
    ensures
        res == prefix@.is_prefix_of(text@),
{
    let n: usize = prefix.unicode_len();
    if text.unicode_len() < n {
        return false;
    }
    let front = text.substring_char(0, n);
    let res = same_text(front, prefix);
    proof {
        if prefix@.is_prefix_of(text@) {
            assert(front@ =~= prefix@);
        }
    }
    res
}

/// `text` from character `from` on.
pub fn skip_chars<'a>(text: &'a str, from: usize) -> (res: &'a str)
    requires
        from <= text@.len(),
    ensures
        res@ == text@.skip(from as int),
{
    let len: usize = text.unicode_len();
    let res = text.substring_char(from, len);
    assert(res@ =~= text@.skip(from as int));
    res
}

/// The two texts one after the other.
pub fn followed_by(front: &str, back: &str) -> (res: String)
    ensures
        res@ == front@ + back@,
{
    let mut res = front.to_owned();
    res.append(back);
    res
}

/// The pieces of `s` between its separators, from left to right: one more than
/// there are separators.
pub open spec fn pieces(s: Seq<char>, sep: char) -> Seq<Seq<char>>
    decreases s.len(),
{
    if s.len() == 0 {
        seq![s]
    } else {
        let before = pieces(s.drop_last(), sep);
        if s.last() == sep {
            before.push(Seq::empty())
        } else {
            before.drop_last().push(before.last().push(s.last()))
        }
    }
}

/// The pieces of `s` when `sep` ends a piece rather than parting two: what
/// follows the last separator counts only if it is not empty.
pub open spec fn terminated_pieces(s: Seq<char>, sep: char) -> Seq<Seq<char>> {
    let all = pieces(s, sep);
    if all.last().len() == 0 {
        all.drop_last()
    } else {
        all
    }
}

/// The views of a vector of texts.
pub open spec fn views(texts: Seq<&str>) -> Seq<Seq<char>> {
    Seq::new(texts.len(), |i: int| texts[i]@)
}

proof fn lemma_pieces_nonempty(s: Seq<char>, sep: char)
    ensures
        pieces(s, sep).len() >= 1,
    decreases s.len(),
{
    if s.len() > 0 {
        lemma_pieces_nonempty(s.drop_last(), sep);
    }
}

/// Splits `text` into the pieces that `sep` ends.
pub fn split_terminator<'a>(text: &'a str, sep: char) -> (res: Vec<&'a str>)
    ensures
        views(res@) == terminated_pieces(text@, sep),
{
    let chars = chars_of(text);
    let len = chars.len();
    let ghost s = text@;
    let mut done: Vec<&'a str> = Vec::new();
    let mut start: usize = 0;
    let mut i: usize = 0;
    assert(s.take(0) =~= Seq::empty());
    assert(views(done@).push(s.subrange(0, 0)) =~= pieces(s.take(0), sep));
    while i < len
        invariant
            s == chars@,
            s == text@,
            len == s.len(),
            start <= i <= len,
            views(done@).push(s.subrange(start as int, i as int)) == pieces(s.take(i as int), sep),
        decreases len - i,
    {
        let ghost before = pieces(s.take(i as int), sep);
        assert(s.take(i + 1).drop_last() =~= s.take(i as int));
        if chars[i] == sep {
            let piece = text.substring_char(start, i);
            done.push(piece);
            start = i + 1;
            assert(views(done@) =~= before);
            assert(s.subrange(start as int, i + 1) =~= Seq::empty());
        } else {
            assert(before.drop_last() =~= views(done@));
            assert(s.subrange(start as int, i + 1) =~= s.subrange(start as int, i as int).push(
                s[i as int],
            ));
        }
        i = i + 1;
    }
    assert(s.take(len as int) =~= s);
    if start < len {
        let piece = text.substring_char(start, len);
        let ghost before = views(done@);
        done.push(piece);
        assert(views(done@) =~= before.push(piece@));
    } else {
        assert(pieces(s, sep).drop_last() =~= views(done@));
    }
    done
}

/// The character of a decimal digit.
pub open spec fn digit(d: nat) -> char {
    if d == 0 {
        '0'
    } else if d == 1 {
        '1'
    } else if d == 2 {
        '2'
    } else if d == 3 {
        '3'
    } else if d == 4 {
        '4'
    } else if d == 5 {
        '5'
    } else if d == 6 {
        '6'
    } else if d == 7 {
        '7'
    } else if d == 8 {
        '8'
    } else {
        '9'
    }
}

/// `n` in decimal, without leading zeros.
pub open spec fn decimal(n: nat) -> Seq<char>
    decreases n,
{
    if n < 10 {
        seq![digit(n)]
    } else {
        decimal(n / 10).push(digit(n % 10))
    }
}

/// The text of a decimal digit.
fn digit_text(d: u64) -> (res: &'static str)
    requires
        d < 10,
    ensures
        res@ == seq![digit(d as nat)],
{
    proof {
        reveal_strlit("0");
        reveal_strlit("1");
        reveal_strlit("2");
        reveal_strlit("3");
        reveal_strlit("4");
        reveal_strlit("5");
        reveal_strlit("6");
        reveal_strlit("7");
        reveal_strlit("8");
        reveal_strlit("9");
    }
    let res = match d {
        0 => "0",
        1 => "1",
        2 => "2",
        3 => "3",
        4 => "4",
        5 => "5",
        6 => "6",
        7 => "7",
        8 => "8",
        _ => "9",
    };
    assert(res@ =~= seq![digit(d as nat)]);
    res
}

/// `n` in decimal, without leading zeros.
pub fn decimal_text(n: u64) -> (res: String)
    ensures
        res@ == decimal(n as nat),
    decreases n,
{
    if n < 10 {
        digit_text(n).to_owned()
    } else {
        let mut res = decimal_text(n / 10);
        res.append(digit_text(n % 10));
        assert(res@ =~= decimal((n / 10) as nat).push(digit((n % 10) as nat)));
        res
    }
}

/// The text in which the pieces stand one after the other, parted by `sep`.
pub open spec fn joined(parts: Seq<Seq<char>>, sep: char) -> Seq<char>
    decreases parts.len(),
{
    if parts.len() == 0 {
        Seq::empty()
    } else if parts.len() == 1 {
        parts[0]
    } else {
        joined(parts.drop_last(), sep).push(sep) + parts.last()
    }
}

/// A text without separators is its own and only piece.
pub proof fn law_one_piece(s: Seq<char>, sep: char)
    requires
        !s.contains(sep),
    ensures
        pieces(s, sep) == seq![s],
    decreases s.len(),
{
    if s.len() > 0 {
        assert(s[s.len() - 1] != sep);
        assert forall|i: int| 0 <= i < s.drop_last().len() implies s.drop_last()[i] != sep by {
            assert(s.contains(s[i]));
        }
        law_one_piece(s.drop_last(), sep);
        assert(s.drop_last().push(s.last()) =~= s);
        assert(pieces(s, sep) =~= seq![s]);
    }
}

/// A separator parts what stands before it from what stands behind it.
pub proof fn law_pieces_part_at_separator(front: Seq<char>, back: Seq<char>, sep: char)
    ensures
        pieces(front.push(sep) + back, sep) == pieces(front, sep) + pieces(back, sep),
    decreases back.len(),
{
    let s = front.push(sep) + back;
    if back.len() == 0 {
        assert(s =~= front.push(sep));
        assert(s.drop_last() =~= front);
        assert(back =~= Seq::empty());
        assert(pieces(s, sep) =~= pieces(front, sep) + pieces(back, sep));
    } else {
        assert(s.drop_last() =~= front.push(sep) + back.drop_last());
        assert(s.last() == back.last());
        law_pieces_part_at_separator(front, back.drop_last(), sep);
        lemma_pieces_nonempty(back.drop_last(), sep);
        let before = pieces(front, sep) + pieces(back.drop_last(), sep);
        assert(before.last() == pieces(back.drop_last(), sep).last());
        assert(pieces(s, sep) =~= pieces(front, sep) + pieces(back, sep));
    }
}

/// Joining parts that hold no separator and splitting the text again gives the
/// parts back.
pub proof fn law_pieces_of_joined(parts: Seq<Seq<char>>, sep: char)
    requires
        parts.len() > 0,
        forall|i: int| 0 <= i < parts.len() ==> !(#[trigger] parts[i]).contains(sep),
    ensures
        pieces(joined(parts, sep), sep) == parts,
    decreases parts.len(),
{
    law_one_piece(parts.last(), sep);
    if parts.len() == 1 {
        assert(parts =~= seq![parts[0]]);
    } else {
        let before = parts.drop_last();
        assert forall|i: int| 0 <= i < before.len() implies !(#[trigger] before[i]).contains(
            sep,
        ) by {
            assert(before[i] == parts[i]);
        }
        law_pieces_of_joined(before, sep);
        law_pieces_part_at_separator(joined(before, sep), parts.last(), sep);
        assert(before + seq![parts.last()] =~= parts);
    }
}

/// Splitting a text and joining its pieces gives the text back, and no piece
/// holds a separator.
pub proof fn law_joined_pieces(s: Seq<char>, sep: char)
    ensures
        joined(pieces(s, sep), sep) == s,
        forall|i: int|
            0 <= i < pieces(s, sep).len() ==> !(#[trigger] pieces(s, sep)[i]).contains(sep),
    decreases s.len(),
{
    let all = pieces(s, sep);
    if s.len() > 0 {
        let before = pieces(s.drop_last(), sep);
        law_joined_pieces(s.drop_last(), sep);
        lemma_pieces_nonempty(s.drop_last(), sep);
        if s.last() == sep {
            assert(all.drop_last() =~= before);
            assert(joined(all, sep) =~= s);
        } else {
            assert(all.drop_last() =~= before.drop_last());
            assert(joined(all, sep) =~= joined(before, sep).push(s.last()));
            assert(joined(all, sep) =~= s);
            let last = all.last();
            assert(before[before.len() - 1] == before.last());
            assert forall|i: int| 0 <= i < last.len() implies last[i] != sep by {
                if i < before.last().len() {
                    assert(before.last().contains(before.last()[i]));
                }
            }
            assert forall|i: int| 0 <= i < all.len() implies !(#[trigger] all[i]).contains(sep) by {
                if i < before.len() - 1 {
                    assert(all[i] == before[i]);
                }
            }
        }
    }
}

/// One separator at the end of a text changes nothing where it ends a piece.
pub proof fn law_last_terminator(s: Seq<char>, sep: char)
    requires
        s.len() > 0,
        s.last() != sep,
    ensures
        terminated_pieces(s.push(sep), sep) == terminated_pieces(s, sep),
{
    assert(s.push(sep).drop_last() =~= s);
    lemma_pieces_nonempty(s.drop_last(), sep);
    assert(pieces(s.push(sep), sep).drop_last() =~= pieces(s, sep));
}

/// A text that does not end with a separator and another one behind a separator
/// have the pieces of the first and then those of the second, where a separator
/// ends a piece.
pub proof fn law_terminated_pieces_part_at_separator(front: Seq<char>, back: Seq<char>, sep: char)
    requires
        front.len() > 0,
        front.last() != sep,
    ensures
        terminated_pieces(front.push(sep) + back, sep) == terminated_pieces(front, sep)
            + terminated_pieces(back, sep),
{
    law_pieces_part_at_separator(front, back, sep);
    lemma_pieces_nonempty(front.drop_last(), sep);
    lemma_pieces_nonempty(back, sep);
    let all = pieces(front, sep) + pieces(back, sep);
    assert(pieces(front, sep).last().len() > 0);
    assert(all.last() == pieces(back, sep).last());
    assert(all.drop_last() =~= pieces(front, sep) + pieces(back, sep).drop_last());
}

/// What is left after trimming neither begins nor ends with white space, and
/// trimming it again leaves it as it is.
pub proof fn law_trimmed(s: Seq<char>)
    ensures
        trimmed(s).len() > 0 ==> !white_space(trimmed(s).first()) && !white_space(
            trimmed(s).last(),
        ),
        trimmed(trimmed(s)) == trimmed(s),
{
    lemma_trimmed_start(s);
    lemma_trimmed_end(trimmed_start(s));
    let t = trimmed(s);
    assert(trimmed_start(t) == t);
    assert(trimmed_end(t) == t);
}

proof fn lemma_trimmed_start(s: Seq<char>)
    ensures
        trimmed_start(s).len() > 0 ==> !white_space(trimmed_start(s).first()),
    decreases s.len(),
{
    if s.len() > 0 && white_space(s.first()) {
        lemma_trimmed_start(s.drop_first());
    }
}

proof fn lemma_trimmed_end(s: Seq<char>)
    ensures
        trimmed_end(s).is_prefix_of(s),
        trimmed_end(s).len() > 0 ==> !white_space(trimmed_end(s).last()),
    decreases s.len(),
{
    if s.len() > 0 && white_space(s.last()) {
        lemma_trimmed_end(s.drop_last());
    }
}

/// Whether `s` is white space throughout.
pub open spec fn blank(s: Seq<char>) -> bool {
    forall|i: int| 0 <= i < s.len() ==> white_space(#[trigger] s[i])
}

/// White space around a text that is trimmed already is what trimming takes away.
pub proof fn law_trim_takes_padding(left: Seq<char>, s: Seq<char>, right: Seq<char>)
    requires
        blank(left),
        blank(right),
        trimmed(s) == s,
    ensures
        trimmed(left + s + right) == s,
    decreases left.len() + right.len(),
{
    let t = left + s + right;
    if left.len() > 0 {
        assert(t.first() == left[0]);
        assert(t.drop_first() =~= left.drop_first() + s + right);
        assert forall|i: int| 0 <= i < left.drop_first().len() implies white_space(
            #[trigger] left.drop_first()[i],
        ) by {
            assert(left.drop_first()[i] == left[i + 1]);
        }
        law_trim_takes_padding(left.drop_first(), s, right);
    } else if right.len() > 0 {
        let shorter = right.drop_last();
        assert forall|i: int| 0 <= i < shorter.len() implies white_space(#[trigger] shorter[i]) by {
            assert(shorter[i] == right[i]);
        }
        law_trim_takes_padding(left, s, shorter);
        law_trimmed(s);
        if s.len() == 0 {
            assert(t =~= right);
            assert(left + s + shorter =~= shorter);
            lemma_trimmed_blank(right);
            assert(s =~= Seq::empty());
        } else {
            assert(t.first() == s.first());
            assert(trimmed_start(t) == t);
            assert((left + s + shorter).first() == s.first());
            assert(t.last() == right.last());
            assert(t.drop_last() =~= left + s + shorter);
        }
    } else {
        assert(t =~= s);
    }
}

proof fn lemma_trimmed_blank(s: Seq<char>)
    requires
        blank(s),
    ensures
        trimmed(s) == Seq::<char>::empty(),
    decreases s.len(),
{
    if s.len() > 0 {
        assert(white_space(s[0]));
        let rest = s.drop_first();
        assert forall|i: int| 0 <= i < rest.len() implies white_space(#[trigger] rest[i]) by {
            assert(rest[i] == s[i + 1]);
        }
        lemma_trimmed_blank(rest);
    } else {
        assert(s =~= Seq::<char>::empty());
    }
}

/// The number that a text of decimal digits stands for, read from left to right.
pub open spec fn decimal_value(digits: Seq<char>) -> int
    decreases digits.len(),
{
    if digits.len() == 0 {
        0
    } else {
        10 * decimal_value(digits.drop_last()) + (digits.last() as int - '0' as int)
    }
}

/// A number in decimal reads back as the number. It is made of digits and begins
/// with a zero only where it is zero.
pub proof fn law_decimal_reads_back(n: nat)
    ensures
        decimal_value(decimal(n)) == n,
        decimal(n).len() > 0,
        forall|i: int| 0 <= i < decimal(n).len() ==> '0' <= #[trigger] decimal(n)[i] <= '9',
        decimal(n)[0] == '0' ==> decimal(n).len() == 1,
    decreases n,
{
    let digits = decimal(n);
    if n < 10 {
        assert(digits.drop_last() =~= Seq::empty());
        assert(decimal_value(digits.drop_last()) == 0);
    } else {
        law_decimal_reads_back(n / 10);
        assert(digits.drop_last() =~= decimal(n / 10));
        assert(digits[0] == decimal(n / 10)[0]);
        if digits[0] == '0' {
            assert(decimal(n / 10).len() == 1);
            assert(decimal(n / 10).drop_last() =~= Seq::empty());
            assert(decimal_value(decimal(n / 10).drop_last()) == 0);
            assert(decimal_value(decimal(n / 10)) == 0);
        }
        assert forall|i: int| 0 <= i < digits.len() implies '0' <= #[trigger] digits[i] <= '9' by {
            if i < digits.len() - 1 {
                assert(digits[i] == decimal(n / 10)[i]);
            }
        }
    }
}

/// Different numbers are written differently.
pub proof fn law_decimal_tells_numbers_apart(n: nat, m: nat)
    requires
        decimal(n) == decimal(m),
    ensures
        n == m,
{
    law_decimal_reads_back(n);
    law_decimal_reads_back(m);
}

proof fn lemma_start_trimmed(s: Seq<char>)
    ensures
        trimmed_start(s).len() <= s.len(),
        trimmed_start(s) == s.skip(s.len() - trimmed_start(s).len()),
        blank(s.take(s.len() - trimmed_start(s).len())),
    decreases s.len(),
{
    if s.len() > 0 && white_space(s.first()) {
        let rest = s.drop_first();
        lemma_start_trimmed(rest);
        let n = s.len() - trimmed_start(s).len();
        assert(s.skip(n) =~= rest.skip(n - 1));
        assert forall|i: int| 0 <= i < n implies white_space(#[trigger] s.take(n)[i]) by {
            if i > 0 {
                assert(s.take(n)[i] == rest.take(n - 1)[i - 1]);
            }
        }
    } else {
        assert(s.skip(0) =~= s);
    }
}

proof fn lemma_end_trimmed(s: Seq<char>)
    ensures
        trimmed_end(s).len() <= s.len(),
        trimmed_end(s) == s.take(trimmed_end(s).len() as int),
        blank(s.skip(trimmed_end(s).len() as int)),
    decreases s.len(),
{
    if s.len() > 0 && white_space(s.last()) {
        let rest = s.drop_last();
        lemma_end_trimmed(rest);
        let n = trimmed_end(s).len() as int;
        assert(s.take(n) =~= rest.take(n));
        assert forall|i: int| 0 <= i < s.len() - n implies white_space(#[trigger] s.skip(n)[i]) by {
            if i < rest.len() - n {
                assert(s.skip(n)[i] == rest.skip(n)[i]);
            }
        }
    } else {
        assert(s.take(s.len() as int) =~= s);
    }
}

/// Trimming takes white space from the two ends of a text and nothing else.
pub proof fn law_trim_takes_white_space_only(s: Seq<char>)
    ensures
        exists|left: Seq<char>, right: Seq<char>|
            #[trigger] blank(left) && #[trigger] blank(right) && s == left + trimmed(s) + right,
{
    let start = trimmed_start(s);
    lemma_start_trimmed(s);
    lemma_end_trimmed(start);
    let left = s.take(s.len() - start.len());
    let right = start.skip(trimmed(s).len() as int);
    assert(blank(left) && blank(right));
    assert(s =~= left + trimmed(s) + right);
}

/// A text with white space around it is trimmed to the text, if that has none at
/// its own ends.
pub proof fn law_trimmed_to(left: Seq<char>, s: Seq<char>, right: Seq<char>)
    requires
        blank(left),
        blank(right),
        s.len() > 0 ==> !white_space(s.first()) && !white_space(s.last()),
    ensures
        trimmed(left + s + right) == s,
{
    assert(trimmed(s) == s);
    law_trim_takes_padding(left, s, right);
}

/// What a separator ends is parted at every separator and nowhere else: no piece
/// holds one, and joined by it the pieces are the text again, up to one separator
/// at its end. The empty text has no pieces.
pub proof fn law_terminated_pieces(s: Seq<char>, sep: char)
    ensures
        forall|i: int|
            0 <= i < terminated_pieces(s, sep).len() ==> !(
            #[trigger] terminated_pieces(s, sep)[i]).contains(sep),
        s.len() == 0 <==> terminated_pieces(s, sep).len() == 0,
        s.len() > 0 && s.last() != sep ==> joined(terminated_pieces(s, sep), sep) == s,
        s.len() > 0 && s.last() == sep ==> joined(terminated_pieces(s, sep), sep).push(sep) == s,
{
    law_joined_pieces(s, sep);
    if s.len() > 0 {
        lemma_pieces_nonempty(s.drop_last(), sep);
        if s.last() == sep {
            law_joined_pieces(s.drop_last(), sep);
            assert(terminated_pieces(s, sep) =~= pieces(s.drop_last(), sep));
            assert(s.drop_last().push(sep) =~= s);
        } else {
            assert(terminated_pieces(s, sep) == pieces(s, sep));
        }
    } else {
        assert(terminated_pieces(s, sep) =~= Seq::empty());
    }
}

/// The functions on texts do what their names say: a trimmed text is what stands
/// between white space, a prefix is found at the beginning, what is skipped is gone, and
/// one text follows the other.
pub proof fn law_functions_on_texts(
    text: &str,
    other: &str,
    from: usize,
    inner: &str,
    begins: bool,
    rest: &str,
    both: String,
    same: bool,
    chars: Vec<char>,
)
    requires
        from <= text@.len(),
        call_ensures(trim, (text,), inner),
        call_ensures(starts_with, (text, other), begins),
        call_ensures(skip_chars, (text, from), rest),
        call_ensures(followed_by, (text, other), both),
        call_ensures(same_text, (text, other), same),
        call_ensures(chars_of, (text,), chars),
    ensures
        exists|left: Seq<char>, right: Seq<char>|
            #[trigger] blank(left) && #[trigger] blank(right) && text@ == left + inner@ + right,
        inner@.len() > 0 ==> !white_space(inner@.first()) && !white_space(inner@.last()),
        begins <==> exists|back: Seq<char>| text@ == #[trigger] (other@ + back),
        text@ == text@.take(from as int) + rest@,
        both@ == text@ + other@,
        same <==> text@ == other@,
        chars@ == text@,
{
    law_trim_takes_white_space_only(text@);
    law_trimmed(text@);
    if begins {
        assert(text@ =~= other@ + text@.skip(other@.len() as int));
    }
    if exists|back: Seq<char>| text@ == #[trigger] (other@ + back) {
        let back = choose|back: Seq<char>| text@ == #[trigger] (other@ + back);
        assert(other@ =~= text@.subrange(0, other@.len() as int));
    }
    assert(text@ =~= text@.take(from as int) + rest@);
}

/// A text is split at every separator and nowhere else, and a number is written so that
/// it reads back.
pub proof fn law_split_and_decimal(
    text: &str,
    sep: char,
    parts: Vec<&str>,
    n: u64,
    digits: String,
)
    requires
        call_ensures(split_terminator, (text, sep), parts),
        call_ensures(decimal_text, (n,), digits),
    ensures
        forall|i: int| 0 <= i < parts@.len() ==> !(#[trigger] parts@[i])@.contains(sep),
        text@.len() == 0 <==> parts@.len() == 0,
        text@.len() > 0 && text@.last() != sep ==> joined(views(parts@), sep) == text@,
        text@.len() > 0 && text@.last() == sep ==> joined(views(parts@), sep).push(sep) == text@,
        decimal_value(digits@) == n,
        forall|i: int| 0 <= i < digits@.len() ==> '0' <= #[trigger] digits@[i] <= '9',
{
    law_terminated_pieces(text@, sep);
    law_decimal_reads_back(n as nat);
    assert forall|i: int| 0 <= i < parts@.len() implies !(#[trigger] parts@[i])@.contains(sep) by {
        assert(views(parts@)[i] == parts@[i]@);
    }
}

} // verus!
