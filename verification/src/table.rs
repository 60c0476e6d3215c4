//! The style table: fonts and fills without repetition, the custom number
//! formats, and one cell format for each declaration that was added.

use vstd::prelude::*;
use vstd::string::*;
use crate::declaration::{lookup, Measures, MeasuresView, Style};
use crate::format::{get_format_code, Registry, FIRST_CUSTOM_CODE};
use crate::props::{
    align_views, default_font, fill_views, font_views, props_of, style_to_props, Align, AlignView,
    Fill, FillView, Font, FontView, Props,
};
use crate::text::str_eq;

verus! {

/// One cell format: where its font and its fill stand in the table, the
/// code of its number format, and its alignments.
#[derive(Debug, PartialEq, Eq)]
pub struct CellFormat {
    pub font_index: Option<usize>,
    pub fill_index: Option<usize>,
    pub format_code: Option<u32>,
    pub aligns: Vec<Align>,
}

/// The model of a [`CellFormat`].
pub struct CellFormatView {
    pub font_index: Option<int>,
    pub fill_index: Option<int>,
    pub format_code: Option<int>,
    pub aligns: Seq<AlignView>,
}

impl View for CellFormat {
    type V = CellFormatView;

    open spec fn view(&self) -> CellFormatView {
        CellFormatView {
            font_index: match self.font_index {
                Some(i) => Some(i as int),
                None => None,
            },
            fill_index: match self.fill_index {
                Some(i) => Some(i as int),
                None => None,
            },
            format_code: match self.format_code {
                Some(c) => Some(c as int),
                None => None,
            },
            aligns: align_views(self.aligns@),
        }
    }
}

/// The models of the cell formats of `xfs`.
pub open spec fn cell_format_views(xfs: Seq<CellFormat>) -> Seq<CellFormatView> {
    xfs.map_values(|x: CellFormat| x@)
}

/// Whether `i` is the first position of `x` in `s`.
pub open spec fn is_first_index<T>(s: Seq<T>, x: T, i: int) -> bool {
    &&& 0 <= i < s.len()
    &&& s[i] == x
    &&& forall|j: int| 0 <= j < i ==> s[j] != x
}

/// Where `x` stands once it is entered in `s`: at its first position in
/// `s`, or behind the last item of `s` where `s` does not hold it.
pub open spec fn slot_of<T>(s: Seq<T>, x: T) -> int {
    if s.contains(x) {
        choose|i: int| is_first_index(s, x, i)
    } else {
        s.len() as int
    }
}

/// `s` once `x` is entered in it: `s` itself where it holds `x`, else `s`
/// with `x` behind its last item.
pub open spec fn with_entry<T>(s: Seq<T>, x: T) -> Seq<T> {
    if s.contains(x) {
        s
    } else {
        s.push(x)
    }
}

/// The fill that stands first in every table.
pub open spec fn no_fill() -> FillView {
    FillView { pattern_type: "none"@, color: None }
}

/// The fill that stands second in every table.
pub open spec fn gray_fill() -> FillView {
    FillView { pattern_type: "gray125"@, color: None }
}

/// The cell format of a table that was built without declarations.
pub open spec fn default_cell_format() -> CellFormatView {
    CellFormatView {
        font_index: Some(0int),
        fill_index: Some(0int),
        format_code: None,
        aligns: Seq::empty(),
    }
}

/// Whether an index of a cell format, if it is there, is one of a list
/// with `len` items.
pub open spec fn index_within(index: Option<int>, len: nat) -> bool {
    match index {
        Some(i) => 0 <= i < len,
        None => true,
    }
}

/// Whether the cell format at `index` of `table` names the font and the
/// fill of `props`: its font index is that of a font of the table equal to
/// the font of `props`, and its fill index is that of such a fill, or is
/// absent where `props` has no fill.
pub open spec fn names_props(table: TableView, index: int, props: Props) -> bool {
    &&& 0 <= index < table.xfs.len()
    &&& table.xfs[index].font_index matches Some(i)
    &&& 0 <= i < table.fonts.len()
    &&& table.fonts[i] == props.font
    &&& match props.fill {
        Some(f) => {
            &&& table.xfs[index].fill_index matches Some(j)
            &&& 0 <= j < table.fills.len()
            &&& table.fills[j] == f
        },
        None => table.xfs[index].fill_index is None,
    }
    &&& table.xfs[index].aligns == props.aligns
}

/// The model of a [`StyleTable`].
pub struct TableView {
    pub fonts: Seq<FontView>,
    pub fills: Seq<FillView>,
    pub xfs: Seq<CellFormatView>,
    pub formats: Registry,
}

impl TableView {
    /// The table before anything is added: the default font, the two
    /// fills that every table starts with, no cell format and no custom
    /// number format.
    pub open spec fn seed() -> TableView {
        TableView {
            fonts: seq![default_font()],
            fills: seq![no_fill(), gray_fill()],
            xfs: Seq::empty(),
            formats: Registry::empty(),
        }
    }

    /// The table with the default cell format behind its cell formats.
    pub open spec fn with_default_cell_format(self) -> TableView {
        TableView { xfs: self.xfs.push(default_cell_format()), ..self }
    }

    /// What holds of every table: it starts with the default font and the
    /// two fixed fills, no font and no fill stands in it twice, the font
    /// and the fill of every cell format are in the table, every code of a
    /// cell format is one that was given out, and the registry is in
    /// order.
    pub open spec fn wf(self) -> bool {
        &&& self.fonts.len() >= 1
        &&& self.fonts[0] == default_font()
        &&& self.fills.len() >= 2
        &&& self.fills[0] == no_fill()
        &&& self.fills[1] == gray_fill()
        &&& self.fonts.no_duplicates()
        &&& self.fills.no_duplicates()
        &&& forall|k: int|
            0 <= k < self.xfs.len() ==> {
                &&& index_within((#[trigger] self.xfs[k]).font_index, self.fonts.len())
                &&& index_within(self.xfs[k].fill_index, self.fills.len())
                &&& self.xfs[k].format_code matches Some(c) ==> 0 <= c < self.formats.next
            }
        &&& self.formats.wf()
    }

    /// The cell format that a declaration gets: the slots of its font and
    /// of its fill, and the code of its number format.
    pub open spec fn cell_format_for(self, props: Props, format: Option<Seq<char>>) -> CellFormatView {
        CellFormatView {
            font_index: Some(slot_of(self.fonts, props.font)),
            fill_index: match props.fill {
                Some(f) => Some(slot_of(self.fills, f)),
                None => None,
            },
            format_code: match format {
                Some(p) => Some(self.formats.code_of(p)),
                None => None,
            },
            aligns: props.aligns,
        }
    }

    /// The table after a declaration was added that says `props` and has
    /// the number format `format`: the font and the fill are entered, the
    /// format is resolved, and the cell format of the declaration stands
    /// behind the others.
    pub open spec fn added(self, props: Props, format: Option<Seq<char>>) -> TableView {
        TableView {
            fonts: with_entry(self.fonts, props.font),
            fills: match props.fill {
                Some(f) => with_entry(self.fills, f),
                None => self.fills,
            },
            xfs: self.xfs.push(self.cell_format_for(props, format)),
            formats: match format {
                Some(p) => self.formats.resolved(p),
                None => self.formats,
            },
        }
    }

    /// Whether the table has a code left for the number format of a
    /// declaration, should it need a new one.
    pub open spec fn has_room_for(self, format: Option<Seq<char>>) -> bool {
        format matches Some(p) && self.formats.is_new(p) ==> self.formats.next < u32::MAX
    }
}

/// The table after the declarations of `list` were added to `table`, one
/// after the other.
pub open spec fn added_all(
    table: TableView,
    list: Seq<(Map<Seq<char>, Seq<char>>, MeasuresView)>,
) -> TableView
    decreases list.len(),
{
    if list.len() == 0 {
        table
    } else {
        let (style, measures) = list.last();
        added_all(table, list.drop_last()).added(
            props_of(style, measures),
            lookup(style, "format"@),
        )
    }
}

/// The models of the declarations of `list` with their measures.
pub open spec fn declaration_views(list: Seq<(Style, Measures)>) -> Seq<
    (Map<Seq<char>, Seq<char>>, MeasuresView),
> {
    list.map_values(|d: (Style, Measures)| (d.0@, d.1@))
}

/// The patterns with their codes that the entries of a registry stand for.
pub open spec fn codes_of(entries: Seq<(String, u32)>) -> Map<Seq<char>, int> {
    Map::new(
        |p: Seq<char>| exists|i: int| 0 <= i < entries.len() && (#[trigger] entries[i]).0@ == p,
        |p: Seq<char>|
            entries[choose|i: int| 0 <= i < entries.len() && (#[trigger] entries[i]).0@ == p].1 as int,
    )
}

/// Whether the entries of a registry have the codes from 164 on, one after
/// the other.
pub open spec fn codes_in_a_row(entries: Seq<(String, u32)>) -> bool {
    forall|i: int| 0 <= i < entries.len() ==> (#[trigger] entries[i]).1 == FIRST_CUSTOM_CODE + i
}

/// Whether no pattern stands twice in the entries of a registry.
pub open spec fn distinct_patterns(entries: Seq<(String, u32)>) -> bool {
    forall|i: int, j: int|
        0 <= i < j < entries.len() ==> (#[trigger] entries[i]).0@ != (#[trigger] entries[j]).0@
}

/// Where `x` stands in `s`, some position of `s` is the first at which it
/// stands.
pub proof fn lemma_first_index_exists<T>(s: Seq<T>, x: T, k: int)
    requires
        0 <= k < s.len(),
        s[k] == x,
    ensures
        exists|i: int| is_first_index(s, x, i),
    decreases k,
{
    if forall|j: int| 0 <= j < k ==> s[j] != x {
        assert(is_first_index(s, x, k));
    } else {
        let j = choose|j: int| 0 <= j < k && s[j] == x;
        lemma_first_index_exists(s, x, j);
    }
}

/// The slot of `x` is a position of the list in which `x` was entered, and
/// `x` stands there. The list keeps what it held, and holds nothing twice
/// where it held nothing twice before.
pub proof fn lemma_slot_of<T>(s: Seq<T>, x: T)
    ensures
        0 <= slot_of(s, x) < with_entry(s, x).len(),
        with_entry(s, x)[slot_of(s, x)] == x,
        s.contains(x) ==> is_first_index(s, x, slot_of(s, x)),
        s.is_prefix_of(with_entry(s, x)),
        s.no_duplicates() ==> with_entry(s, x).no_duplicates(),
{
    if s.contains(x) {
        let k = choose|k: int| 0 <= k < s.len() && s[k] == x;
        lemma_first_index_exists(s, x, k);
    }
}

/// Adding a declaration keeps a table in order, and the cell format that
/// it gets names the very font and fill of the declaration.
pub proof fn lemma_added_wf(table: TableView, props: Props, format: Option<Seq<char>>)
    requires
        table.wf(),
    ensures
        table.added(props, format).wf(),
        table.added(props, format).xfs.len() == table.xfs.len() + 1,
        table.added(props, format).fonts[slot_of(table.fonts, props.font)] == props.font,
        props.fill matches Some(f) ==> table.added(props, format).fills[slot_of(table.fills, f)]
            == f,
{
    let after = table.added(props, format);
    lemma_slot_of(table.fonts, props.font);
    match props.fill {
        Some(f) => {
            lemma_slot_of(table.fills, f);
        },
        None => {},
    }
    match format {
        Some(p) => {
            crate::format::lemma_resolved_wf(table.formats, p);
        },
        None => {},
    }
    assert forall|k: int| 0 <= k < after.xfs.len() implies {
        &&& index_within((#[trigger] after.xfs[k]).font_index, after.fonts.len())
        &&& index_within(after.xfs[k].fill_index, after.fills.len())
        &&& after.xfs[k].format_code matches Some(c) ==> 0 <= c < after.formats.next
    } by {
        if k < table.xfs.len() {
            assert(after.xfs[k] == table.xfs[k]);
        }
    }
}

/// What holds of a table after the declarations of `list` were added to
/// the table `base`: it is in order, it has one more cell format for each
/// declaration, in their order, and each of these names the very font and
/// fill of its declaration.
pub proof fn lemma_added_all(
    base: TableView,
    list: Seq<(Map<Seq<char>, Seq<char>>, MeasuresView)>,
)
    requires
        base.wf(),
    ensures
        added_all(base, list).wf(),
        added_all(base, list).xfs.len() == base.xfs.len() + list.len(),
        base.fonts.is_prefix_of(added_all(base, list).fonts),
        base.fills.is_prefix_of(added_all(base, list).fills),
        base.xfs.is_prefix_of(added_all(base, list).xfs),
        forall|k: int|
            0 <= k < list.len() ==> names_props(
                added_all(base, list),
                base.xfs.len() + k,
                #[trigger] props_of(list[k].0, list[k].1),
            ),
    decreases list.len(),
{
    if list.len() > 0 {
        let front = list.drop_last();
        let (style, measures) = list.last();
        let before = added_all(base, front);
        let props = props_of(style, measures);
        let format = lookup(style, "format"@);
        let after = before.added(props, format);
        lemma_added_all(base, front);
        lemma_added_wf(before, props, format);
        lemma_slot_of(before.fonts, props.font);
        match props.fill {
            Some(f) => {
                lemma_slot_of(before.fills, f);
            },
            None => {},
        }
        assert forall|k: int| 0 <= k < list.len() implies names_props(
            after,
            base.xfs.len() + k,
            #[trigger] props_of(list[k].0, list[k].1),
        ) by {
            if k < front.len() {
                assert(front[k] == list[k]);
                assert(names_props(before, base.xfs.len() + k, props_of(front[k].0, front[k].1)));
                assert(after.xfs[base.xfs.len() + k] == before.xfs[base.xfs.len() + k]);
            }
        }
    }
}

/// Declarations with equal fonts share one font of the table, and
/// declarations with different fonts do not; the same holds of the fills of
/// declarations that have one.
pub proof fn lemma_equal_props_share_an_index(
    base: TableView,
    list: Seq<(Map<Seq<char>, Seq<char>>, MeasuresView)>,
    i: int,
    j: int,
)
    requires
        base.wf(),
        0 <= i < list.len(),
        0 <= j < list.len(),
    ensures
        ({
            let table = added_all(base, list);
            let a = props_of(list[i].0, list[i].1);
            let b = props_of(list[j].0, list[j].1);
            let x = table.xfs[base.xfs.len() + i];
            let y = table.xfs[base.xfs.len() + j];
            &&& a.font == b.font <==> x.font_index == y.font_index
            &&& a.fill is Some && b.fill is Some ==> (a.fill == b.fill <==> x.fill_index
                == y.fill_index)
            &&& a.fill is None <==> x.fill_index is None
        }),
{
    lemma_added_all(base, list);
    let table = added_all(base, list);
    assert(names_props(table, base.xfs.len() + i, props_of(list[i].0, list[i].1)));
    assert(names_props(table, base.xfs.len() + j, props_of(list[j].0, list[j].1)));
}

/// A style table.
pub struct StyleTable {
    fonts: Vec<Font>,
    fills: Vec<Fill>,
    xfs: Vec<CellFormat>,
    custom_formats: Vec<(String, u32)>,
    next_custom_format: u32,
}

impl View for StyleTable {
    type V = TableView;

    closed spec fn view(&self) -> TableView {
        TableView {
            fonts: font_views(self.fonts@),
            fills: fill_views(self.fills@),
            xfs: cell_format_views(self.xfs@),
            formats: Registry {
                codes: codes_of(self.custom_formats@),
                next: self.next_custom_format as int,
            },
        }
    }
}

/// The first position in `fonts` of a font that agrees with `font`.
fn find_font(fonts: &Vec<Font>, font: &Font) -> (r: Option<usize>)
    ensures
        match r {
            Some(i) => is_first_index(font_views(fonts@), font@, i as int),
            None => !font_views(fonts@).contains(font@),
        },
{
    let mut i: usize = 0;
    while i < fonts.len()
        invariant
            i <= fonts.len(),
            forall|j: int| 0 <= j < i ==> font_views(fonts@)[j] != font@,
        decreases fonts.len() - i,
    {
        if fonts[i].same_as(font) {
            return Some(i);
        }
        i = i + 1;
    }
    None
}

/// The first position in `fills` of a fill that agrees with `fill`.
fn find_fill(fills: &Vec<Fill>, fill: &Fill) -> (r: Option<usize>)
    ensures
        match r {
            Some(i) => is_first_index(fill_views(fills@), fill@, i as int),
            None => !fill_views(fills@).contains(fill@),
        },
{
    let mut i: usize = 0;
    while i < fills.len()
        invariant
            i <= fills.len(),
            forall|j: int| 0 <= j < i ==> fill_views(fills@)[j] != fill@,
        decreases fills.len() - i,
    {
        if fills[i].same_as(fill) {
            return Some(i);
        }
        i = i + 1;
    }
    None
}

/// Enters `font` in `fonts` and gives its position.
fn intern_font(fonts: &mut Vec<Font>, font: Font) -> (r: usize)
    ensures
        font_views(final(fonts)@) == with_entry(font_views(old(fonts)@), font@),
        r == slot_of(font_views(old(fonts)@), font@),
        r < final(fonts).len(),
{
    match find_font(fonts, &font) {
        Some(i) => i,
        None => {
            fonts.push(font);
            assert(font_views(fonts@) =~= font_views(old(fonts)@).push(font@));
            fonts.len() - 1
        },
    }
}

/// Enters `fill` in `fills` and gives its position.
fn intern_fill(fills: &mut Vec<Fill>, fill: Fill) -> (r: usize)
    ensures
        fill_views(final(fills)@) == with_entry(fill_views(old(fills)@), fill@),
        r == slot_of(fill_views(old(fills)@), fill@),
        r < final(fills).len(),
{
    match find_fill(fills, &fill) {
        Some(i) => i,
        None => {
            fills.push(fill);
            assert(fill_views(fills@) =~= fill_views(old(fills)@).push(fill@));
            fills.len() - 1
        },
    }
}

/// The code that `entries` holds for `pattern`.
fn find_code(entries: &Vec<(String, u32)>, pattern: &str) -> (r: Option<u32>)
    requires
        distinct_patterns(entries@),
    ensures
        match r {
            Some(c) => codes_of(entries@).contains_key(pattern@) && codes_of(entries@)[pattern@]
                == c,
            None => !codes_of(entries@).contains_key(pattern@),
        },
{
    let mut i: usize = 0;
    while i < entries.len()
        invariant
            i <= entries.len(),
            distinct_patterns(entries@),
            forall|j: int| 0 <= j < i ==> (#[trigger] entries[j]).0@ != pattern@,
        decreases entries.len() - i,
    {
        if str_eq(entries[i].0.as_str(), pattern) {
            proof {
                assert(entries@[i as int].0@ == pattern@);
                let j = choose|j: int|
                    0 <= j < entries.len() && (#[trigger] entries[j]).0@ == pattern@;
                assert(j == i);
            }
            return Some(entries[i].1);
        }
        i = i + 1;
    }
    None
}

impl StyleTable {
    /// Whether the entries of the registry stand in the order in which
    /// their codes were given out, each pattern once.
    pub closed spec fn registry_in_order(&self) -> bool {
        &&& distinct_patterns(self.custom_formats@)
        &&& codes_in_a_row(self.custom_formats@)
        &&& self.next_custom_format == FIRST_CUSTOM_CODE + self.custom_formats.len()
    }

    /// What holds of every table that this crate hands out.
    pub open spec fn wf(&self) -> bool {
        &&& self@.wf()
        &&& self.registry_in_order()
    }

    /// Whether the table can resolve `pattern`: it can unless the pattern
    /// needs a new code and the last code that 32 bits hold is the next.
    pub fn can_resolve(&self, pattern: &str) -> (r: bool)
        requires
            self.wf(),
        ensures
            r == self@.has_room_for(Some(pattern@)),
    {
        if self.next_custom_format < u32::MAX {
            return true;
        }
        match get_format_code(pattern) {
            Some(_) => true,
            None => find_code(&self.custom_formats, pattern).is_some(),
        }
    }

    /// Whether the table can take the declaration `style`: it can unless
    /// the number format of `style` cannot be resolved.
    pub fn can_add(&self, style: &Style) -> (r: bool)
        requires
            self.wf(),
        ensures
            r == self@.has_room_for(lookup(style@, "format"@)),
    {
        match style.get("format") {
            Some(pattern) => self.can_resolve(pattern.as_str()),
            None => true,
        }
    }

    /// The code of the number format `pattern`: that of the built-in
    /// table, else the one the pattern was given before, else the next
    /// free one, which the pattern then keeps.
    pub fn resolve_format(&mut self, pattern: &str) -> (code: u32)
        requires
            old(self).wf(),
            old(self)@.has_room_for(Some(pattern@)),
        ensures
            final(self).wf(),
            code == old(self)@.formats.code_of(pattern@),
            final(self)@ == (TableView {
                formats: old(self)@.formats.resolved(pattern@),
                ..old(self)@
            }),
    {
        match get_format_code(pattern) {
            Some(code) => code,
            None => match find_code(&self.custom_formats, pattern) {
                Some(code) => code,
                None => {
                    let code: u32 = self.next_custom_format;
                    let ghost before = self.custom_formats@;
                    self.custom_formats.push((String::from_str(pattern), code));
                    self.next_custom_format = code + 1;
                    proof {
                        let after = self.custom_formats@;
                        assert(after[before.len() as int].0@ == pattern@);
                        assert forall|p: Seq<char>| #[trigger]
                            codes_of(after).contains_key(p) <==> codes_of(before).insert(
                                pattern@,
                                code as int,
                            ).contains_key(p) by {
                            if codes_of(after).contains_key(p) {
                                let i = choose|i: int|
                                    0 <= i < after.len() && (#[trigger] after[i]).0@ == p;
                                if i < before.len() {
                                    assert(before[i].0@ == p);
                                }
                            }
                            if codes_of(before).contains_key(p) {
                                let i = choose|i: int|
                                    0 <= i < before.len() && (#[trigger] before[i]).0@ == p;
                                assert(after[i].0@ == p);
                            }
                        }
                        assert forall|p: Seq<char>| #[trigger]
                            codes_of(after).contains_key(p) implies codes_of(after)[p]
                            == codes_of(before).insert(pattern@, code as int)[p] by {
                            let i = choose|i: int|
                                0 <= i < after.len() && (#[trigger] after[i]).0@ == p;
                            if p != pattern@ {
                                assert(i < before.len());
                                assert(before[i].0@ == p);
                                let j = choose|j: int|
                                    0 <= j < before.len() && (#[trigger] before[j]).0@ == p;
                                assert(i == j);
                            } else {
                                if i < before.len() {
                                    assert(before[i].0@ == pattern@);
                                }
                            }
                        }
                        assert(codes_of(after) =~= codes_of(before).insert(pattern@, code as int));
                        crate::format::lemma_resolved_wf(old(self)@.formats, pattern@);
                    }
                    code
                },
            },
        }
    }

    /// Adds one declaration and gives the index of its cell format.
    /// `measures` holds what the evaluation of `style.numeric_texts()`
    /// gave.
    ///
    /// The font of the declaration is entered in the fonts unless an equal
    /// one stands there, and so is its fill, if it has one; its number
    /// format, if it has one, is resolved; and one cell format is put
    /// behind the others.
    pub fn add(&mut self, style: Style, measures: Measures) -> (index: usize)
        requires
            old(self).wf(),
            old(self)@.has_room_for(lookup(style@, "format"@)),
        ensures
            final(self).wf(),
            final(self)@ == old(self)@.added(
                props_of(style@, measures@),
                lookup(style@, "format"@),
            ),
            final(self)@.xfs.len() == old(self)@.xfs.len() + 1,
            index == old(self)@.xfs.len(),
    {
        let (font, fill, aligns) = style_to_props(&style, &measures);
        let format_code = match style.get("format") {
            Some(pattern) => Some(self.resolve_format(pattern.as_str())),
            None => None,
        };
        let font_index = intern_font(&mut self.fonts, font);
        let fill_index = match fill {
            Some(f) => Some(intern_fill(&mut self.fills, f)),
            None => None,
        };
        let record = CellFormat { font_index: Some(font_index), fill_index, format_code, aligns };
        proof {
            let props = props_of(style@, measures@);
            let format = lookup(style@, "format"@);
            assert(record@ == old(self)@.cell_format_for(props, format));
            assert(cell_format_views(self.xfs@.push(record)) =~= cell_format_views(self.xfs@).push(
                record@,
            ));
            lemma_added_wf(old(self)@, props, format);
        }
        self.xfs.push(record);
        self.xfs.len() - 1
    }

    /// Builds a table. Without declarations it holds the default cell
    /// format alone; with declarations it holds one cell format for each,
    /// in their order.
    pub fn new(css: Option<Vec<(Style, Measures)>>) -> (table: StyleTable)
        requires
            css matches Some(list) ==> list.len() <= u32::MAX - FIRST_CUSTOM_CODE,
        ensures
            table.wf(),
            table@ == match css {
                Some(list) => added_all(TableView::seed(), declaration_views(list@)),
                None => TableView::seed().with_default_cell_format(),
            },
            table@.xfs.len() == match css {
                Some(list) => list.len(),
                None => 1,
            },
    {
        let mut fonts: Vec<Font> = Vec::new();
        fonts.push(Font::new());
        let mut fills: Vec<Fill> = Vec::new();
        fills.push(Fill::new(None, "none"));
        fills.push(Fill::new(None, "gray125"));
        let mut table = StyleTable {
            fonts,
            fills,
            xfs: Vec::new(),
            custom_formats: Vec::new(),
            next_custom_format: FIRST_CUSTOM_CODE,
        };
        proof {
            assert(table@.fonts =~= TableView::seed().fonts);
            assert(table@.fills =~= TableView::seed().fills);
            assert(table@.xfs =~= TableView::seed().xfs);
            assert(table@.formats.codes =~= Registry::empty().codes);
            reveal_strlit("none");
            reveal_strlit("gray125");
            assert(no_fill() != gray_fill()) by {
                assert("none"@.len() != "gray125"@.len());
            }
        }
        match css {
            Some(list) => {
                let ghost all = list@;
                for item in it: list
                    invariant
                        it.seq() == all,
                        all.len() <= u32::MAX - FIRST_CUSTOM_CODE,
                        table.wf(),
                        table@ == added_all(
                            TableView::seed(),
                            declaration_views(all.take(it.index() as int)),
                        ),
                        table@.xfs.len() == it.index(),
                        table@.formats.next <= FIRST_CUSTOM_CODE + it.index(),
                {
                    proof {
                        let done = declaration_views(all.take(it.index() as int));
                        let next = declaration_views(all.take(it.index() + 1));
                        assert(next.drop_last() =~= done);
                        assert(next.last() == (item.0@, item.1@));
                    }
                    let (style, measures) = item;
                    table.add(style, measures);
                }
                assert(all.take(all.len() as int) =~= all);
            },
            None => {
                let record = CellFormat {
                    font_index: Some(0),
                    fill_index: Some(0),
                    format_code: None,
                    aligns: Vec::new(),
                };
                proof {
                    assert(record@.aligns =~= Seq::<AlignView>::empty());
                    assert(cell_format_views(table.xfs@.push(record)) =~= cell_format_views(
                        table.xfs@,
                    ).push(record@));
                }
                table.xfs.push(record);
            },
        }
        table
    }

    /// The fonts of the table, each at its index.
    pub fn fonts(&self) -> (r: &Vec<Font>)
        ensures
            font_views(r@) == self@.fonts,
    {
        &self.fonts
    }

    /// The fills of the table, each at its index.
    pub fn fills(&self) -> (r: &Vec<Fill>)
        ensures
            fill_views(r@) == self@.fills,
    {
        &self.fills
    }

    /// The cell formats of the table, each at its index.
    pub fn xfs(&self) -> (r: &Vec<CellFormat>)
        ensures
            cell_format_views(r@) == self@.xfs,
    {
        &self.xfs
    }

    /// The custom number formats of the table with their codes, in the
    /// order in which they were given out.
    pub fn custom_formats(&self) -> (r: &Vec<(String, u32)>)
        ensures
            codes_of(r@) == self@.formats.codes,
            self.wf() ==> distinct_patterns(r@) && codes_in_a_row(r@),
    {
        &self.custom_formats
    }
}

} // verus!
