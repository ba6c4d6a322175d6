//! Text as sequences of characters: cutting at marks, gluing with a separator,
//! suffixes and decimal numerals, with the executable operations on `&str`
//! that the rest of the crate builds on.

use vstd::prelude::*;

verus! {

/// `str`'s own equality (`PartialEq::eq` of std): two string slices are equal
/// exactly when they hold the same characters in the same order.
pub assume_specification[ <str as PartialEq>::eq ](left: &str, right: &str) -> (same: bool)
    ensures
        same == (left@ == right@),
;

/// What `str::to_lowercase` of std makes of `text`: the lower-case form by
/// the Unicode tables that std carries. It depends on the characters alone.
pub uninterp spec fn lowercase_of(text: Seq<char>) -> Seq<char>;

/// `str::to_lowercase` of std returns a new `String` holding the lower-case
/// form of the slice. Nothing is claimed of that form but that it is
/// [`lowercase_of`] the characters handed in.
pub assume_specification[ str::to_lowercase ](text: &str) -> (folded: String)
    ensures
        folded@ == lowercase_of(text@),
;

/// Two texts that differ at most in the case of their letters.
pub open spec fn same_ignoring_case(left: Seq<char>, right: Seq<char>) -> bool {
    lowercase_of(left) == lowercase_of(right)
}

/// The pieces that `text` falls into when it is cut at every character of
/// `marks`. The marks themselves belong to no piece. There is always at
/// least one piece, and a mark at either end leaves an empty piece there.
pub open spec fn pieces(text: Seq<char>, marks: Set<char>) -> Seq<Seq<char>>
    decreases text.len(),
{
    if text.len() == 0 {
        seq![Seq::<char>::empty()]
    } else {
        let earlier = pieces(text.drop_last(), marks);
        if marks.contains(text.last()) {
            earlier.push(Seq::<char>::empty())
        } else {
            earlier.drop_last().push(earlier.last().push(text.last()))
        }
    }
}

/// `parts` written one after the other with `joint` between each two
/// neighbours.
pub open spec fn glued(parts: Seq<Seq<char>>, joint: Seq<char>) -> Seq<char>
    decreases parts.len(),
{
    if parts.len() >= 2 {
        glued(parts.drop_last(), joint) + joint + parts.last()
    } else if parts.len() == 1 {
        parts.first()
    } else {
        Seq::<char>::empty()
    }
}

/// Where the last piece of `text` begins: just behind the last mark, or at
/// 0 where `text` holds no mark.
pub open spec fn last_piece_start(text: Seq<char>, marks: Set<char>) -> int
    decreases text.len(),
{
    if text.len() == 0 {
        0
    } else if marks.contains(text.last()) {
        text.len() as int
    } else {
        last_piece_start(text.drop_last(), marks)
    }
}

/// `text` holds no character of `marks`.
pub open spec fn free_of(text: Seq<char>, marks: Set<char>) -> bool {
    forall|i: int| 0 <= i < text.len() ==> !marks.contains(#[trigger] text[i])
}

/// `text` ends with `suffix`.
pub open spec fn has_suffix(text: Seq<char>, suffix: Seq<char>) -> bool {
    suffix.len() <= text.len() && text.skip(text.len() - suffix.len()) == suffix
}

/// The ten decimal digits in their order.
pub open spec fn decimal_digits() -> Seq<char> {
    seq!['0', '1', '2', '3', '4', '5', '6', '7', '8', '9']
}

/// The decimal numeral of `n`: no sign, no leading zero, `0` for zero.
pub open spec fn decimal_text(n: nat) -> Seq<char>
    decreases n,
{
    if n < 10 {
        seq![decimal_digits()[n as int]]
    } else {
        decimal_text(n / 10).push(decimal_digits()[(n % 10) as int])
    }
}

/// The last piece starts inside the text, directly behind a mark unless it
/// starts at 0, and holds no mark itself.
pub proof fn lemma_last_piece_start(text: Seq<char>, marks: Set<char>)
    ensures
        0 <= last_piece_start(text, marks) <= text.len(),
        last_piece_start(text, marks) > 0 ==> marks.contains(
            text[last_piece_start(text, marks) - 1],
        ),
        free_of(text.skip(last_piece_start(text, marks)), marks),
        last_piece_start(text, marks) == 0 <==> free_of(text, marks),
    decreases text.len(),
{
    if text.len() > 0 {
        let shorter = text.drop_last();
        lemma_last_piece_start(shorter, marks);
        let start = last_piece_start(text, marks);
        if marks.contains(text.last()) {
            assert(marks.contains(text[text.len() - 1]));
        } else {
            assert forall|i: int| 0 <= i < text.skip(start).len() implies !marks.contains(
                #[trigger] text.skip(start)[i],
            ) by {
                if start + i < shorter.len() {
                    assert(text.skip(start)[i] == shorter.skip(start)[i]);
                }
            }
            if start == 0 {
                assert forall|i: int| 0 <= i < text.len() implies !marks.contains(
                    #[trigger] text[i],
                ) by {
                    if i < shorter.len() {
                        assert(text[i] == shorter[i]);
                    }
                }
            } else {
                assert(shorter[start - 1] == text[start - 1]);
            }
        }
    }
}

/// Cutting yields at least one piece; the last one is the text from
/// [`last_piece_start`] on, and there is more than one piece exactly when
/// the text holds a mark.
pub proof fn lemma_last_piece(text: Seq<char>, marks: Set<char>)
    ensures
        pieces(text, marks).len() >= 1,
        pieces(text, marks).last() == text.skip(last_piece_start(text, marks)),
        pieces(text, marks).len() > 1 <==> last_piece_start(text, marks) > 0,
    decreases text.len(),
{
    if text.len() == 0 {
        assert(text.skip(0) =~= Seq::<char>::empty());
    } else {
        let shorter = text.drop_last();
        lemma_last_piece(shorter, marks);
        lemma_last_piece_start(shorter, marks);
        let start = last_piece_start(text, marks);
        if marks.contains(text.last()) {
            assert(text.skip(start) =~= Seq::<char>::empty());
        } else {
            assert(shorter.skip(start).push(text.last()) =~= text.skip(start));
        }
    }
}

/// A text without marks is one piece: itself.
pub proof fn lemma_pieces_of_unmarked(text: Seq<char>, marks: Set<char>)
    requires
        free_of(text, marks),
    ensures
        pieces(text, marks) == seq![text],
{
    lemma_last_piece_start(text, marks);
    lemma_last_piece(text, marks);
    assert(text.skip(0) =~= text);
    assert(pieces(text, marks) =~= seq![text]);
}

/// Where the text holds a mark, the pieces before the last are the pieces
/// of what stands before the last mark.
pub proof fn lemma_earlier_pieces(text: Seq<char>, marks: Set<char>)
    requires
        last_piece_start(text, marks) > 0,
    ensures
        pieces(text, marks).drop_last() == pieces(
            text.take(last_piece_start(text, marks) - 1),
            marks,
        ),
    decreases text.len(),
{
    let shorter = text.drop_last();
    let start = last_piece_start(text, marks);
    lemma_last_piece(shorter, marks);
    if marks.contains(text.last()) {
        assert(text.take(start - 1) =~= shorter);
        assert(pieces(text, marks).drop_last() =~= pieces(shorter, marks));
    } else {
        lemma_earlier_pieces(shorter, marks);
        lemma_last_piece_start(shorter, marks);
        assert(shorter.take(start - 1) =~= text.take(start - 1));
        assert(pieces(text, marks).drop_last() =~= pieces(shorter, marks).drop_last());
    }
}

/// Cutting a text at one mark and gluing the pieces with that mark gives
/// the text back.
pub proof fn lemma_glue_pieces(text: Seq<char>, mark: char)
    ensures
        glued(pieces(text, set![mark]), seq![mark]) == text,
    decreases text.len(),
{
    let marks = set![mark];
    let joint = seq![mark];
    if text.len() == 0 {
        assert(pieces(text, marks).first() =~= text);
    } else {
        let shorter = text.drop_last();
        let earlier = pieces(shorter, marks);
        lemma_glue_pieces(shorter, mark);
        lemma_last_piece(shorter, marks);
        if marks.contains(text.last()) {
            let all = earlier.push(Seq::<char>::empty());
            assert(all.drop_last() =~= earlier);
            assert(text.last() == mark);
            assert(shorter + joint + Seq::<char>::empty() =~= text);
        } else {
            let grown = earlier.last().push(text.last());
            let all = earlier.drop_last().push(grown);
            assert(all.last() == grown);
            assert(all.drop_last() =~= earlier.drop_last());
            if earlier.len() >= 2 {
                assert(glued(earlier.drop_last(), joint) + joint + grown =~= (glued(
                    earlier.drop_last(),
                    joint,
                ) + joint + earlier.last()).push(text.last()));
            } else {
                assert(all.first() == grown);
            }
            assert(shorter.push(text.last()) =~= text);
        }
    }
}

/// Gluing one more part on costs one joint: the parts so far, the joint,
/// the new part.
pub proof fn lemma_glue_one_more(parts: Seq<Seq<char>>, joint: Seq<char>, part: Seq<char>)
    requires
        parts.len() >= 1,
    ensures
        glued(parts.push(part), joint) == glued(parts, joint) + joint + part,
{
    assert(parts.push(part).drop_last() =~= parts);
}

/// The index, counted in characters, just behind the last occurrence of
/// `first` or `second` in `text`; 0 where neither occurs.
pub fn cut_after_last(text: &str, first: char, second: char) -> (cut: usize)
    ensures
        cut == last_piece_start(text@, set![first, second]),
        cut <= text@.len(),
{
    let length: usize = text.unicode_len();
    let ghost marks = set![first, second];
    let mut cut: usize = 0;
    let mut seen: usize = 0;
    for c in walk: text.chars()
        invariant
            walk.seq() == text@,
            seen == walk.index(),
            seen <= length,
            length == text@.len(),
            marks == set![first, second],
            cut == last_piece_start(text@.take(seen as int), marks),
            cut <= seen,
    {
        proof {
            assert(text@.take(seen + 1).drop_last() =~= text@.take(seen as int));
            assert(text@.take(seen + 1).last() == c);
        }
        seen = seen + 1;
        if c == first || c == second {
            cut = seen;
        }
    }
    proof {
        assert(text@.take(seen as int) =~= text@);
    }
    cut
}

/// Whether `text` ends with `suffix`.
pub fn ends_with(text: &str, suffix: &str) -> (found: bool)
    ensures
        found == has_suffix(text@, suffix@),
{
    let length: usize = text.unicode_len();
    let wanted: usize = suffix.unicode_len();
    if wanted > length {
        false
    } else {
        let tail = text.substring_char(length - wanted, length);
        proof {
            assert(text@.subrange(length - wanted, length as int) =~= text@.skip(length - wanted));
        }
        tail.eq(suffix)
    }
}

/// The decimal numeral of `n`.
pub fn decimal_string(n: u32) -> (numeral: String)
    ensures
        numeral@ == decimal_text(n as nat),
    decreases n,
{
    let digits = "0123456789";
    proof {
        reveal_strlit("0123456789");
        assert(digits@ =~= decimal_digits());
    }
    let mut numeral = if n < 10 {
        String::new()
    } else {
        decimal_string(n / 10)
    };
    let unit: usize = (n % 10) as usize;
    let digit = digits.substring_char(unit, unit + 1);
    proof {
        assert(digit@ =~= seq![decimal_digits()[unit as int]]);
    }
    numeral.append(digit);
    proof {
        if n < 10 {
            assert(numeral@ =~= seq![decimal_digits()[n as int]]);
        } else {
            assert(numeral@ =~= decimal_text((n / 10) as nat).push(
                decimal_digits()[(n % 10) as int],
            ));
        }
    }
    numeral
}

} // verus!
