//! The picture of a parcel as text: the glyphs of its cells, row by row.

use vstd::prelude::*;

use crate::building::BuildingType;

verus! {

/// Whether `c` is a space or a line break.
pub open spec fn is_blank(c: char) -> bool {
    c == ' ' || c == '\n'
}

/// `text` without the spaces and line breaks at its end.
pub open spec fn trimmed(text: Seq<char>) -> Seq<char>
    decreases text.len(),
{
    if text.len() > 0 && is_blank(text.last()) {
        trimmed(text.drop_last())
    } else {
        text
    }
}

/// The text of cell `k`: its glyph, and a line break after the last cell of
/// a row.
pub open spec fn cell_text(cells: Seq<BuildingType>, k: int) -> Seq<char> {
    cells[k].symbol_spec() + if k % 8 == 7 {
        seq!['\n']
    } else {
        Seq::empty()
    }
}

/// The text of the first `n` cells.
pub open spec fn text_upto(cells: Seq<BuildingType>, n: nat) -> Seq<char>
    decreases n,
{
    if n == 0 {
        Seq::empty()
    } else {
        text_upto(cells, (n - 1) as nat) + cell_text(cells, n - 1)
    }
}

/// The picture of a parcel: the text of all its cells, without the spaces
/// and line breaks at its end.
pub open spec fn picture(cells: Seq<BuildingType>) -> Seq<char> {
    trimmed(text_upto(cells, 64))
}

/// Blanks at the end of a text do not show in what is left of it.
pub proof fn lemma_trimmed_blanks(text: Seq<char>, blanks: Seq<char>)
    requires
        forall|i: int| 0 <= i < blanks.len() ==> is_blank(blanks[i]),
    ensures
        trimmed(text + blanks) == trimmed(text),
    decreases blanks.len(),
{
    if blanks.len() == 0 {
        assert(text + blanks =~= text);
    } else {
        assert((text + blanks).last() == blanks.last());
        assert((text + blanks).drop_last() =~= text + blanks.drop_last());
        lemma_trimmed_blanks(text, blanks.drop_last());
    }
}

/// Empty cells at the end of a parcel do not show in its picture.
pub proof fn lemma_trimmed_ground(cells: Seq<BuildingType>, m: nat, n: nat)
    requires
        m <= n <= 64,
        forall|k: int| m <= k < n ==> cells[k] == BuildingType::Ground,
    ensures
        trimmed(text_upto(cells, n)) == trimmed(text_upto(cells, m)),
    decreases n,
{
    if n > m {
        lemma_trimmed_ground(cells, m, (n - 1) as nat);
        assert(cells[n - 1] == BuildingType::Ground);
        lemma_trimmed_blanks(text_upto(cells, (n - 1) as nat), cell_text(cells, n - 1));
    }
}

/// The picture of a parcel ends with the glyph of its last building.
pub proof fn lemma_picture(cells: Seq<BuildingType>, m: nat)
    requires
        m <= 64,
        forall|k: int| m <= k < 64 ==> cells[k] == BuildingType::Ground,
        m > 0 ==> cells[m - 1] != BuildingType::Ground,
    ensures
        picture(cells) == if m == 0 {
            Seq::<char>::empty()
        } else {
            text_upto(cells, (m - 1) as nat) + cells[m - 1].symbol_spec()
        },
{
    lemma_trimmed_ground(cells, m, 64);
    if m > 0 {
        let before = text_upto(cells, (m - 1) as nat);
        let glyph = cells[m - 1].symbol_spec();
        let shown = before + glyph;
        assert(glyph.len() == 1 && !is_blank(glyph[0]));
        assert(shown.last() == glyph[0]);
        assert(trimmed(shown) == shown);
        if (m - 1) % 8 == 7 {
            assert(text_upto(cells, m) =~= shown + seq!['\n']);
            lemma_trimmed_blanks(shown, seq!['\n']);
        } else {
            assert(text_upto(cells, m) =~= shown);
        }
    }
}

} // verus!
