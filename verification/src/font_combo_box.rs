//! Font family selection (`QFontComboBox`): a combo box listing the font
//! families that pass its filter.
//!
//! The families come from the font database of the machine, which the
//! caller queries (all, monospaced or proportional ones, after the filter)
//! and hands in; when it knows none, a fixed list of common families stands
//! in. A family counts as monospaced when it is Consolas or Courier New, or
//! its name holds "mono", ignoring ASCII case.

use vstd::prelude::*;

use crate::combo_box::{ComboBox, ComboView, MatchFlags, current_text_of, first_match, fresh_combo, spec_clear, spec_insert_item, spec_set_current_index};
use crate::combo_box::{has_infix, match_kind};
use crate::text::{ascii_lower, chars_of, string_of};

verus! {

/// Filter for font family selection (`QFontComboBox::FontFilter`).
#[derive(Debug, Clone, Copy, PartialEq, Eq, Structural, Hash)]
pub enum FontFilter {
    AllFonts,
    MonospacedFonts,
    ProportionalFonts,
}

impl Default for FontFilter {
    fn default() -> (r: FontFilter)
        ensures
            r == FontFilter::AllFonts,
    {
        FontFilter::AllFonts
    }
}

/// `s` with ASCII capitals made small.
pub open spec fn lower_ascii(s: Seq<char>) -> Seq<char> {
    s.map_values(|c: char| ascii_lower(c))
}

/// Whether a family is taken for monospaced.
pub open spec fn is_monospace_family(f: Seq<char>) -> bool {
    let l = lower_ascii(f);
    l == "consolas"@ || l == "courier new"@ || has_infix(l, "mono"@)
}

/// Whether a family passes `filter`.
pub open spec fn passes_filter(filter: FontFilter, f: Seq<char>) -> bool {
    match filter {
        FontFilter::AllFonts => true,
        FontFilter::MonospacedFonts => is_monospace_family(f),
        FontFilter::ProportionalFonts => !is_monospace_family(f),
    }
}

/// The families listed when the database knows none.
pub open spec fn fallback_families() -> Seq<Seq<char>> {
    seq![
        "Arial"@,
        "Calibri"@,
        "Consolas"@,
        "Courier New"@,
        "Georgia"@,
        "Segoe UI"@,
        "Tahoma"@,
        "Times New Roman"@,
        "Trebuchet MS"@,
        "Verdana"@,
    ]
}

/// The combo box after appending, in order, each family that passes `filter`.
pub open spec fn added_families(v: ComboView, fams: Seq<Seq<char>>, filter: FontFilter) -> ComboView
    decreases fams.len(),
{
    if fams.len() == 0 {
        v
    } else {
        let w = added_families(v, fams.drop_last(), filter);
        if passes_filter(filter, fams.last()) {
            spec_insert_item(w, w.items.len() as int, fams.last(), None)
        } else {
            w
        }
    }
}

/// The combo box filled from the database's `families`: emptied, then the
/// families (or the fallback list) that pass `filter` appended.
pub open spec fn populated(v: ComboView, families: Seq<Seq<char>>, filter: FontFilter) -> ComboView {
    let fams = if families.len() == 0 {
        fallback_families()
    } else {
        families
    };
    added_families(spec_clear(v), fams, filter)
}

/// Texts of a sequence of strings.
pub open spec fn family_texts(s: Seq<String>) -> Seq<Seq<char>> {
    s.map_values(|t: String| t@)
}

/// The family of the current font: the current text, or "Segoe UI" when
/// there is none.
pub open spec fn current_family_of(v: ComboView) -> Seq<char> {
    if current_text_of(v).len() == 0 {
        "Segoe UI"@
    } else {
        current_text_of(v)
    }
}

/// A combo box of font families.
pub struct FontComboBox {
    combo: ComboBox,
    font_filter: FontFilter,
}

/// Whether `family` is taken for monospaced.
pub fn is_monospace(family: &str) -> (r: bool)
    ensures
        r == is_monospace_family(family@),
{
    let chars = chars_of(family);
    let mut lowered: Vec<char> = Vec::new();
    let mut j: usize = 0;
    while j < chars.len()
        invariant
            0 <= j <= chars@.len(),
            lowered@ == chars@.subrange(0, j as int).map_values(|c: char| ascii_lower(c)),
        decreases chars@.len() - j,
    {
        let c = chars[j];
        let l = if (c as u32) >= 0x41 && (c as u32) <= 0x5A {
            (((c as u32) + 0x20) as u8) as char
        } else {
            c
        };
        lowered.push(l);
        j = j + 1;
        assert(lowered@ =~= chars@.subrange(0, j as int).map_values(|c: char| ascii_lower(c)));
    }
    assert(chars@.subrange(0, j as int) =~= chars@);
    let l = string_of(&lowered);
    match_kind(0, l.as_str(), "consolas") || match_kind(0, l.as_str(), "courier new") || match_kind(
        1,
        l.as_str(),
        "mono",
    )
}

fn fallback_list() -> (r: Vec<String>)
    ensures
        family_texts(r@) == fallback_families(),
{
    let r = vec![
        "Arial".to_owned(),
        "Calibri".to_owned(),
        "Consolas".to_owned(),
        "Courier New".to_owned(),
        "Georgia".to_owned(),
        "Segoe UI".to_owned(),
        "Tahoma".to_owned(),
        "Times New Roman".to_owned(),
        "Trebuchet MS".to_owned(),
        "Verdana".to_owned(),
    ];
    assert(family_texts(r@) =~= fallback_families());
    r
}

impl FontComboBox {
    /// The combo box listing the families.
    pub closed spec fn spec_combo(&self) -> &ComboBox {
        &self.combo
    }

    /// The filter in force.
    pub closed spec fn spec_filter(&self) -> FontFilter {
        self.font_filter
    }

    /// The invariant: that of the combo box.
    pub open spec fn wf(&self) -> bool {
        self.spec_combo().wf()
    }

    /// Empties the combo box and appends the families that pass the filter.
    fn populate_fonts(&mut self, families: &[String])
        requires
            old(self).wf(),
        ensures
            final(self).wf(),
            final(self).spec_filter() == old(self).spec_filter(),
            final(self).spec_combo()@ == populated(old(self).spec_combo()@, family_texts(families@), old(self).spec_filter()),
    {
        let fallback = fallback_list();
        let fams: &[String] = if families.len() == 0 {
            fallback.as_slice()
        } else {
            families
        };
        let ghost all = family_texts(fams@);
        self.combo.clear();
        let ghost start = self.combo@;
        let mut k: usize = 0;
        while k < fams.len()
            invariant
                0 <= k <= fams@.len(),
                all == family_texts(fams@),
                self.font_filter == old(self).font_filter,
                start == spec_clear(old(self).combo@),
                all == (if families@.len() == 0 {
                    fallback_families()
                } else {
                    family_texts(families@)
                }),
                self.combo.wf(),
                self.combo@ == added_families(start, all.subrange(0, k as int), self.font_filter),
            decreases fams@.len() - k,
        {
            let fam = &fams[k];
            proof {
                let s = all.subrange(0, k + 1);
                assert(s.drop_last() =~= all.subrange(0, k as int));
                assert(s.last() == fam@);
            }
            let mono = is_monospace(fam.as_str());
            let matches = match self.font_filter {
                FontFilter::AllFonts => true,
                FontFilter::MonospacedFonts => mono,
                FontFilter::ProportionalFonts => !mono,
            };
            if matches {
                self.combo.add_item(fam.as_str());
            }
            k = k + 1;
        }
        assert(all.subrange(0, k as int) =~= all);
    }

    /// A combo box of every family in `families` (the font database's list).
    pub fn new(families: &[String]) -> (r: Self)
        ensures
            r.wf(),
            r.spec_filter() == FontFilter::AllFonts,
            r.spec_combo()@ == populated(fresh_combo(), family_texts(families@), FontFilter::AllFonts),
    {
        let mut combo = ComboBox::new();
        combo.set_editable(false);
        let mut f = FontComboBox { combo, font_filter: FontFilter::AllFonts };
        f.populate_fonts(families);
        f
    }

    /// The filter in force.
    pub fn font_filters(&self) -> (r: FontFilter)
        ensures
            r == self.spec_filter(),
    {
        self.font_filter
    }

    /// Changes the filter and lists the families again from `families` (the
    /// database's list for the new filter); nothing changes for the same filter.
    pub fn set_font_filters(&mut self, filter: FontFilter, families: &[String])
        requires
            old(self).wf(),
        ensures
            final(self).wf(),
            final(self).spec_filter() == filter,
            final(self).spec_combo()@ == (if filter == old(self).spec_filter() {
                old(self).spec_combo()@
            } else {
                populated(old(self).spec_combo()@, family_texts(families@), filter)
            }),
    {
        if self.font_filter != filter {
            self.font_filter = filter;
            self.populate_fonts(families);
        }
    }

    /// The family of the current font.
    pub fn current_font_family(&self) -> (r: String)
        ensures
            r@ == current_family_of(self.spec_combo()@),
    {
        let family = self.combo.current_text();
        if family.as_str().is_empty() {
            "Segoe UI".to_owned()
        } else {
            family
        }
    }

    /// Selects the item of exactly `family`; returns whether it was found
    /// (the current font then changes).
    pub fn set_current_font(&mut self, family: &str) -> (changed: bool)
        requires
            old(self).wf(),
        ensures
            final(self).wf(),
            final(self).spec_filter() == old(self).spec_filter(),
            ({
                let i = first_match(old(self).spec_combo()@.items, family@, MatchFlags(16), 0);
                &&& changed == (i >= 0)
                &&& final(self).spec_combo()@ == (if i >= 0 {
                    spec_set_current_index(old(self).spec_combo()@, i)
                } else {
                    old(self).spec_combo()@
                })
            }),
    {
        let idx = self.combo.find_text(family, MatchFlags::default());
        if idx >= 0 {
            self.combo.set_current_index(idx);
            true
        } else {
            false
        }
    }

    /// The combo box.
    pub fn combo(&self) -> (r: &ComboBox)
        ensures
            r == self.spec_combo(),
    {
        &self.combo
    }
}

} // verus!
