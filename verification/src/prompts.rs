//! Dealing prompts: from the host's list of prompts to the prompts of a
//! grid.
//!
//! The host keeps its prompts as text, one prompt per line. For a grid the
//! lines are trimmed, blank lines are dropped, the list is filled up with
//! blank prompts to the number of cells, shuffled, and cut to the number
//! of cells.

use crate::bingo::{lemma_cells_bound, BoardPrompts};
use crate::client::ConfPrompts;
use rand::seq::SliceRandom;
use vstd::prelude::*;
use vstd::std_specs::iter::IteratorSpec;
use vstd::string::spec_iter;

verus! {

broadcast use vstd::string::group_string_axioms;

/// Whether the character has the Unicode property `White_Space`: the
/// controls from tab to carriage return, the space, next line, the
/// no-break space, the ogham space mark, the spaces from en quad to hair
/// space, the line and the paragraph separator, the narrow no-break space,
/// the medium mathematical space and the ideographic space.
pub open spec fn is_whitespace(c: char) -> bool {
    let code = c as u32;
    ||| 0x0009 <= code <= 0x000D
    ||| code == 0x0020
    ||| code == 0x0085
    ||| code == 0x00A0
    ||| code == 0x1680
    ||| 0x2000 <= code <= 0x200A
    ||| code == 0x2028
    ||| code == 0x2029
    ||| code == 0x202F
    ||| code == 0x205F
    ||| code == 0x3000
}

/// `char::is_whitespace` of the standard library, which tells whether the
/// character has the Unicode property `White_Space`. The contract claims
/// that these are exactly the characters of [`is_whitespace`].
#[verifier::external_body]
fn char_is_whitespace(c: char) -> (space: bool)
    ensures
        space == is_whitespace(c),
{
    c.is_whitespace()
}

/// `String::push` of the standard library: appends the character to the
/// end of the string.
#[verifier::external_body]
pub(crate) fn push_char(text: &mut String, c: char)
    ensures
        final(text)@ == old(text)@.push(c),
{
    text.push(c)
}

/// `rand::seq::SliceRandom::shuffle` on the items, drawing from
/// `rand::thread_rng()`. The shuffle only ever swaps items, so afterwards
/// the list holds the same texts, each as often as before; nothing is
/// claimed about their order. (The generator panics if the operating
/// system has no randomness for it: when `thread_rng` first seeds it, and
/// when it is due to be seeded again while the shuffle draws from it.)
#[verifier::external_body]
fn shuffle(items: &mut Vec<String>)
    ensures
        texts(final(items)@).to_multiset() == texts(old(items)@).to_multiset(),
{
    items.shuffle(&mut rand::thread_rng());
}

/// The texts of a list of strings.
pub open spec fn texts(items: Seq<String>) -> Seq<Seq<char>> {
    items.map_values(|item: String| item@)
}

/// The lines of a text: the pieces between its newline characters. A text
/// with `n` newlines has `n + 1` lines, some of which may be empty.
pub open spec fn split_lines(text: Seq<char>) -> Seq<Seq<char>>
    decreases text.len(),
{
    if text.len() == 0 {
        seq![Seq::<char>::empty()]
    } else {
        let before = split_lines(text.drop_last());
        if text.last() == '\n' {
            before.push(Seq::<char>::empty())
        } else {
            before.drop_last().push(before.last().push(text.last()))
        }
    }
}

/// The text without the whitespace at its start.
pub open spec fn trim_start(text: Seq<char>) -> Seq<char>
    decreases text.len(),
{
    if text.len() > 0 && is_whitespace(text.first()) {
        trim_start(text.drop_first())
    } else {
        text
    }
}

/// The text without the whitespace at its end.
pub open spec fn trim_end(text: Seq<char>) -> Seq<char>
    decreases text.len(),
{
    if text.len() > 0 && is_whitespace(text.last()) {
        trim_end(text.drop_last())
    } else {
        text
    }
}

/// The text without the whitespace at its start and at its end.
pub open spec fn trimmed(text: Seq<char>) -> Seq<char> {
    trim_end(trim_start(text))
}

/// The lines, each trimmed, without those that are empty then.
pub open spec fn kept(lines: Seq<Seq<char>>) -> Seq<Seq<char>>
    decreases lines.len(),
{
    if lines.len() == 0 {
        Seq::<Seq<char>>::empty()
    } else if trimmed(lines.last()).len() == 0 {
        kept(lines.drop_last())
    } else {
        kept(lines.drop_last()).push(trimmed(lines.last()))
    }
}

/// The prompts that a text holds: its lines, trimmed, without the blank
/// ones, in the order of the text.
pub open spec fn prompt_lines(text: Seq<char>) -> Seq<Seq<char>> {
    kept(split_lines(text))
}

/// The list filled up with blank prompts to at least `cells` entries.
pub open spec fn padded(prompts: Seq<Seq<char>>, cells: nat) -> Seq<Seq<char>> {
    if prompts.len() >= cells {
        prompts
    } else {
        prompts + Seq::new((cells - prompts.len()) as nat, |i: int| Seq::<char>::empty())
    }
}

/// The first `cells` entries of the list, filled up with blank prompts
/// where the list is shorter.
pub open spec fn first_cells(prompts: Seq<Seq<char>>, cells: nat) -> Seq<Seq<char>> {
    padded(prompts, cells).take(cells as int)
}

/// `dealt` is a possible deal of the prompts of `text` on `cells` cells:
/// the first `cells` entries of some rearrangement of the padded list of
/// prompts.
pub open spec fn is_deal(dealt: Seq<Seq<char>>, text: Seq<char>, cells: nat) -> bool {
    exists|order: Seq<Seq<char>>|
        #![trigger order.to_multiset()]
        order.to_multiset() == padded(prompt_lines(text), cells).to_multiset() && dealt
            == order.take(cells as int)
}

/// Where the first `skip` characters are whitespace and the next one, if
/// any, is not, trimming the start removes exactly those.
pub proof fn lemma_trim_start(text: Seq<char>, skip: int)
    requires
        0 <= skip <= text.len(),
        forall|i: int| 0 <= i < skip ==> is_whitespace(#[trigger] text[i]),
        skip < text.len() ==> !is_whitespace(text[skip]),
    ensures
        trim_start(text) == text.skip(skip),
    decreases skip,
{
    if skip == 0 {
        assert(text.skip(0) =~= text);
    } else {
        let rest = text.drop_first();
        assert forall|i: int| 0 <= i < skip - 1 implies is_whitespace(#[trigger] rest[i]) by {
            assert(rest[i] == text[i + 1]);
        }
        lemma_trim_start(rest, skip - 1);
        assert(rest.skip(skip - 1) =~= text.skip(skip));
    }
}

/// Where everything from position `keep` on is whitespace and the
/// character before, if any, is not, trimming the end keeps exactly the
/// first `keep` characters.
pub proof fn lemma_trim_end(text: Seq<char>, keep: int)
    requires
        0 <= keep <= text.len(),
        forall|i: int| keep <= i < text.len() ==> is_whitespace(#[trigger] text[i]),
        keep > 0 ==> !is_whitespace(text[keep - 1]),
    ensures
        trim_end(text) == text.take(keep),
    decreases text.len() - keep,
{
    if keep == text.len() {
        assert(text.take(keep) =~= text);
    } else {
        let rest = text.drop_last();
        lemma_trim_end(rest, keep);
        assert(rest.take(keep) =~= text.take(keep));
    }
}

/// The characters of a text.
fn chars_of(text: &str) -> (chars: Vec<char>)
    ensures
        chars@ == text@,
{
    let mut chars: Vec<char> = Vec::new();
    for c in it: text.chars()
        invariant
            it.seq() == spec_iter(text).remaining(),
            chars.len() == it.index(),
            forall|j: int| 0 <= j < chars.len() ==> chars@[j] == it.seq()[j],
    {
        chars.push(c);
    }
    assert(chars@ =~= text@);
    chars
}

/// The string of the characters from position `from` up to `to`.
fn string_of(chars: &Vec<char>, from: usize, to: usize) -> (text: String)
    requires
        from <= to <= chars.len(),
    ensures
        text@ == chars@.subrange(from as int, to as int),
{
    let mut text = String::new();
    let mut i: usize = from;
    while i < to
        invariant
            from <= i <= to <= chars.len(),
            text@ == chars@.subrange(from as int, i as int),
        decreases to - i,
    {
        push_char(&mut text, chars[i]);
        i += 1;
        assert(text@ =~= chars@.subrange(from as int, i as int));
    }
    assert(chars@.subrange(from as int, from as int) =~= Seq::<char>::empty());
    text
}

/// Where the line from position `from` up to `to` is left after trimming.
fn trim_bounds(chars: &Vec<char>, from: usize, to: usize) -> (bounds: (usize, usize))
    requires
        from <= to <= chars.len(),
    ensures
        from <= bounds.0 <= bounds.1 <= to,
        chars@.subrange(bounds.0 as int, bounds.1 as int) == trimmed(
            chars@.subrange(from as int, to as int),
        ),
{
    let ghost line = chars@.subrange(from as int, to as int);
    let mut start: usize = from;
    while start < to && char_is_whitespace(chars[start])
        invariant
            from <= start <= to <= chars.len(),
            forall|i: int| from <= i < start ==> is_whitespace(#[trigger] chars@[i]),
        decreases to - start,
    {
        start += 1;
    }
    let mut end: usize = to;
    while end > start && char_is_whitespace(chars[end - 1])
        invariant
            start <= end <= to <= chars.len(),
            forall|i: int| end <= i < to ==> is_whitespace(#[trigger] chars@[i]),
        decreases end,
    {
        end -= 1;
    }
    proof {
        assert forall|i: int| 0 <= i < start - from implies is_whitespace(#[trigger] line[i]) by {
            assert(line[i] == chars@[from + i]);
        }
        lemma_trim_start(line, start - from);
        let rest = line.skip(start - from);
        assert(rest =~= chars@.subrange(start as int, to as int));
        assert forall|i: int| end - start <= i < rest.len() implies is_whitespace(
            #[trigger] rest[i],
        ) by {
            assert(rest[i] == chars@[start + i]);
        }
        lemma_trim_end(rest, end - start);
        assert(rest.take(end - start) =~= chars@.subrange(start as int, end as int));
    }
    (start, end)
}

/// The prompts that a text holds, see [`prompt_lines`].
pub fn read_prompts(text: &str) -> (prompts: Vec<String>)
    ensures
        texts(prompts@) == prompt_lines(text@),
{
    let chars = chars_of(text);
    let mut prompts: Vec<String> = Vec::new();
    let ghost mut done: Seq<Seq<char>> = Seq::empty();
    let mut from: usize = 0;
    let mut i: usize = 0;
    assert(chars@.take(0) =~= Seq::<char>::empty());
    assert(chars@.subrange(0, 0) =~= Seq::<char>::empty());
    assert(split_lines(chars@.take(0)) =~= done.push(chars@.subrange(0, 0)));
    assert(texts(prompts@) =~= kept(done));
    while i < chars.len()
        invariant
            from <= i <= chars.len(),
            split_lines(chars@.take(i as int)) == done.push(chars@.subrange(from as int, i as int)),
            texts(prompts@) == kept(done),
        decreases chars.len() - i,
    {
        let ghost line = chars@.subrange(from as int, i as int);
        proof {
            assert(chars@.take(i + 1).drop_last() =~= chars@.take(i as int));
            assert(chars@.take(i + 1).last() == chars@[i as int]);
            assert(done.push(line).drop_last() =~= done);
            assert(done.push(line).last() == line);
        }
        if chars[i] == '\n' {
            let (start, end) = trim_bounds(&chars, from, i);
            if start < end {
                prompts.push(string_of(&chars, start, end));
            }
            proof {
                assert(done.push(line).drop_last() =~= done);
                assert(texts(prompts@) =~= kept(done.push(line)));
                done = done.push(line);
                assert(chars@.subrange(i + 1, i + 1) =~= Seq::<char>::empty());
            }
            from = i + 1;
        } else {
            proof {
                assert(line.push(chars@[i as int]) =~= chars@.subrange(from as int, i + 1));
            }
        }
        i += 1;
    }
    let ghost line = chars@.subrange(from as int, i as int);
    let (start, end) = trim_bounds(&chars, from, i);
    if start < end {
        prompts.push(string_of(&chars, start, end));
    }
    proof {
        assert(chars@.take(i as int) =~= chars@);
        assert(done.push(line).drop_last() =~= done);
        assert(texts(prompts@) =~= kept(done.push(line)));
    }
    prompts
}

/// Fills the list up with blank prompts to at least `cells` entries.
pub fn pad_prompts(prompts: &mut Vec<String>, cells: usize)
    ensures
        texts(final(prompts)@) == padded(texts(old(prompts)@), cells as nat),
{
    let ghost before = texts(prompts@);
    while prompts.len() < cells
        invariant
            texts(prompts@).len() == prompts.len(),
            before.len() <= prompts.len(),
            before.len() < cells ==> prompts.len() <= cells,
            before.len() >= cells ==> texts(prompts@) == before,
            texts(prompts@) == before + Seq::new(
                (prompts.len() - before.len()) as nat,
                |i: int| Seq::<char>::empty(),
            ),
        decreases cells - prompts.len(),
    {
        let ghost so_far = texts(prompts@);
        prompts.push(String::new());
        assert(texts(prompts@) =~= so_far.push(Seq::<char>::empty()));
        assert(texts(prompts@) =~= before + Seq::new(
            (prompts.len() - before.len()) as nat,
            |i: int| Seq::<char>::empty(),
        ));
    }
    assert(before.len() >= cells ==> prompts.len() == before.len());
}

impl BoardPrompts {
    /// The prompts of a grid from a list that is already in the order in
    /// which it is to be dealt: the grid takes the first entries, one per
    /// cell, and blank prompts where the list runs out.
    pub fn deal(x_size: u8, y_size: u8, ordered: Vec<String>) -> (prompts: BoardPrompts)
        ensures
            prompts.x_size == x_size,
            prompts.y_size == y_size,
            prompts@.prompts == first_cells(texts(ordered@), (x_size * y_size) as nat),
            prompts.wf(),
    {
        proof {
            lemma_cells_bound(x_size, y_size);
        }
        let cells = x_size as usize * y_size as usize;
        let mut list = ordered;
        pad_prompts(&mut list, cells);
        list.truncate(cells);
        let prompts = BoardPrompts { x_size, y_size, prompts: list };
        assert(prompts@.prompts =~= first_cells(texts(ordered@), cells as nat));
        prompts
    }
}

impl ConfPrompts {
    /// Sets the size of the draft and deals the prompts of `text` anew: the
    /// list of prompts, filled up with blank ones to the number of cells, is
    /// shuffled and its first entries are dealt on the cells. The draft
    /// counts as edited.
    pub fn randomize(&mut self, x_size: u8, y_size: u8, text: &str)
        ensures
            final(self).prompts.x_size == x_size,
            final(self).prompts.y_size == y_size,
            final(self).prompts.wf(),
            is_deal(final(self).prompts@.prompts, text@, (x_size * y_size) as nat),
            final(self).changed,
    {
        proof {
            lemma_cells_bound(x_size, y_size);
        }
        let cells = x_size as usize * y_size as usize;
        let mut list = read_prompts(text);
        pad_prompts(&mut list, cells);
        shuffle(&mut list);
        let ghost order = texts(list@);
        self.prompts = BoardPrompts::deal(x_size, y_size, list);
        self.changed = true;
        proof {
            let full = padded(prompt_lines(text@), cells as nat);
            assert(order.to_multiset() == full.to_multiset());
            vstd::seq_lib::to_multiset_len(order);
            vstd::seq_lib::to_multiset_len(full);
            assert(order.len() == full.len());
            assert(padded(order, cells as nat) == order);
        }
    }
}

} // verus!
