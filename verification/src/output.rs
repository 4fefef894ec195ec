//! Formatting of a finished pack: one line per chosen card, a quantity
//! marker, the display name and a parenthesized rarity glyph, emitted in
//! ascending catalog order.

use vstd::prelude::*;
use crate::cards::{Card, Rarity};
use crate::catalog::Catalog;
use crate::text::push_str;

verus! {

/// The glyph printed for each rarity tier.
pub open spec fn spec_glyph(r: Rarity) -> Seq<char> {
    match r {
        Rarity::Agenda => "⭐"@,
        Rarity::Rare => "🌕"@,
        Rarity::Uncommon => "🌖"@,
        Rarity::Common => "🌘"@,
    }
}

/// The output line of one card.
pub open spec fn spec_line(c: Card) -> Seq<char> {
    "1 "@ + c.name@ + " ("@ + spec_glyph(c.rarity) + ")"@
}

/// The lines of a pack, restricted to card indexes below `n`, in ascending
/// index order.
pub open spec fn spec_pack_lines(cards: Seq<Card>, pack: Seq<usize>, n: int) -> Seq<Seq<char>>
    decreases n,
{
    if n <= 0 {
        Seq::empty()
    } else {
        let p = spec_pack_lines(cards, pack, n - 1);
        if pack.contains((n - 1) as usize) {
            p.push(spec_line(cards[n - 1]))
        } else {
            p
        }
    }
}

/// The rarity glyph of one tier.
pub fn rarity_glyph(r: Rarity) -> (g: &'static str)
    ensures
        g@ == spec_glyph(r),
{
    match r {
        Rarity::Agenda => "⭐",
        Rarity::Rare => "🌕",
        Rarity::Uncommon => "🌖",
        Rarity::Common => "🌘",
    }
}

/// Format the output line of one card.
pub fn format_card_line(c: &Card) -> (s: String)
    ensures
        s@ == spec_line(*c),
{
    let mut s = String::new();
    push_str(&mut s, "1 ");
    push_str(&mut s, c.name.as_str());
    push_str(&mut s, " (");
    push_str(&mut s, rarity_glyph(c.rarity));
    push_str(&mut s, ")");
    s
}

/// Whether the pack contains card index `i`.
pub fn pack_contains(pack: &Vec<usize>, i: usize) -> (b: bool)
    ensures
        b == pack@.contains(i),
{
    let mut j: usize = 0;
    while j < pack.len()
        invariant
            0 <= j <= pack@.len(),
            forall|k: int| 0 <= k < j ==> pack@[k] != i,
        decreases pack@.len() - j,
    {
        if pack[j] == i {
            return true;
        }
        j = j + 1;
    }
    proof {
        if pack@.contains(i) {
            let k = choose|k: int| 0 <= k < pack@.len() && pack@[k] == i;
            assert(pack@[k] != i);
        }
    }
    false
}

impl Catalog {
    /// The output lines of one pack, in ascending card-index order.
    pub fn format_pack(&self, pack: &Vec<usize>) -> (lines: Vec<String>)
        ensures
            lines@.len() == spec_pack_lines(self.cards@, pack@, self.cards@.len() as int).len(),
            forall|j: int|
                0 <= j < lines@.len() ==> (#[trigger] lines@[j])@ == spec_pack_lines(
                    self.cards@,
                    pack@,
                    self.cards@.len() as int,
                )[j],
    {
        let mut lines: Vec<String> = Vec::new();
        let mut i: usize = 0;
        while i < self.cards.len()
            invariant
                0 <= i <= self.cards@.len(),
                lines@.len() == spec_pack_lines(self.cards@, pack@, i as int).len(),
                forall|j: int|
                    0 <= j < lines@.len() ==> (#[trigger] lines@[j])@ == spec_pack_lines(
                        self.cards@,
                        pack@,
                        i as int,
                    )[j],
            decreases self.cards@.len() - i,
        {
            if pack_contains(pack, i) {
                lines.push(format_card_line(&self.cards[i]));
            }
            i = i + 1;
        }
        lines
    }
}

} // verus!
