//! Fonts, fills and alignments, and how a declaration is read into them.

use vstd::prelude::*;
use vstd::string::*;
use crate::color::{alpha_part, argb, color_to_argb, lemma_alpha_counts_only_where_asked};
use crate::declaration::{lookup, numeric_texts_of, Measures, MeasuresView, Style};
use crate::text::{contains, contains_text, opt_view, str_eq, to_chars};
use crate::units::{points_of, px_to_pt};

verus! {

/// A font: size in points and colour as text, and four switches.
#[derive(Debug, PartialEq, Eq)]
pub struct Font {
    pub size: Option<String>,
    pub color: Option<String>,
    pub bold: bool,
    pub italic: bool,
    pub underline: bool,
    pub strike: bool,
}

/// A fill: the name of its pattern, and its colour.
#[derive(Debug, PartialEq, Eq)]
pub struct Fill {
    pub pattern_type: String,
    pub color: Option<String>,
}

/// An alignment: `horizontal` or `vertical`, and the CSS keyword as given.
#[derive(Debug, PartialEq, Eq)]
pub struct Align {
    pub direction: String,
    pub alignment: String,
}

/// The model of a [`Font`].
pub struct FontView {
    pub size: Option<Seq<char>>,
    pub color: Option<Seq<char>>,
    pub bold: bool,
    pub italic: bool,
    pub underline: bool,
    pub strike: bool,
}

/// The model of a [`Fill`].
pub struct FillView {
    pub pattern_type: Seq<char>,
    pub color: Option<Seq<char>>,
}

/// The model of an [`Align`].
pub struct AlignView {
    pub direction: Seq<char>,
    pub alignment: Seq<char>,
}

impl View for Font {
    type V = FontView;

    open spec fn view(&self) -> FontView {
        FontView {
            size: opt_view(self.size),
            color: opt_view(self.color),
            bold: self.bold,
            italic: self.italic,
            underline: self.underline,
            strike: self.strike,
        }
    }
}

impl View for Fill {
    type V = FillView;

    open spec fn view(&self) -> FillView {
        FillView { pattern_type: self.pattern_type@, color: opt_view(self.color) }
    }
}

impl View for Align {
    type V = AlignView;

    open spec fn view(&self) -> AlignView {
        AlignView { direction: self.direction@, alignment: self.alignment@ }
    }
}

/// The font of a declaration that says nothing about fonts.
pub open spec fn default_font() -> FontView {
    FontView { size: None, color: None, bold: false, italic: false, underline: false, strike: false }
}

/// The models of the fonts of `fonts`.
pub open spec fn font_views(fonts: Seq<Font>) -> Seq<FontView> {
    fonts.map_values(|f: Font| f@)
}

/// The models of the fills of `fills`.
pub open spec fn fill_views(fills: Seq<Fill>) -> Seq<FillView> {
    fills.map_values(|f: Fill| f@)
}

/// The models of the alignments of `aligns`.
pub open spec fn align_views(aligns: Seq<Align>) -> Seq<AlignView> {
    aligns.map_values(|a: Align| a@)
}

/// The model of an optional fill.
pub open spec fn opt_fill_view(fill: Option<Fill>) -> Option<FillView> {
    match fill {
        Some(f) => Some(f@),
        None => None,
    }
}

/// What a declaration says about a cell: its font, its fill if it has one,
/// and its alignments.
pub struct Props {
    pub font: FontView,
    pub fill: Option<FillView>,
    pub aligns: Seq<AlignView>,
}

/// The font of a declaration. `fontSize` gives the size and `color` the
/// colour, each where its value can be read; `fontWeight` is bold where it
/// is `bold`, `fontStyle` italic where it is `italic`; `textDecoration`
/// underlines where it holds `underline` and strikes where it holds
/// `line-through`.
pub open spec fn font_of(style: Map<Seq<char>, Seq<char>>, measures: MeasuresView) -> FontView {
    FontView {
        size: match lookup(style, "fontSize"@) {
            Some(v) => points_of(v, measures.font_points),
            None => None,
        },
        color: match lookup(style, "color"@) {
            Some(v) => argb(v, measures.color_alpha),
            None => None,
        },
        bold: lookup(style, "fontWeight"@) == Some("bold"@),
        italic: lookup(style, "fontStyle"@) == Some("italic"@),
        underline: match lookup(style, "textDecoration"@) {
            Some(v) => contains_text(v, "underline"@),
            None => false,
        },
        strike: match lookup(style, "textDecoration"@) {
            Some(v) => contains_text(v, "line-through"@),
            None => false,
        },
    }
}

/// The fill of a declaration: a solid one in the colour of `background`,
/// where that colour can be read.
pub open spec fn fill_of(style: Map<Seq<char>, Seq<char>>, measures: MeasuresView) -> Option<
    FillView,
> {
    match lookup(style, "background"@) {
        Some(v) => match argb(v, measures.background_alpha) {
            Some(c) => Some(FillView { pattern_type: "solid"@, color: Some(c) }),
            None => None,
        },
        None => None,
    }
}

/// The alignments of a declaration: that of `textAlign`, then that of
/// `verticalAlign`, each where the declaration has the property.
pub open spec fn aligns_of(style: Map<Seq<char>, Seq<char>>) -> Seq<AlignView> {
    let horizontal = match lookup(style, "textAlign"@) {
        Some(v) => seq![AlignView { direction: "horizontal"@, alignment: v }],
        None => Seq::empty(),
    };
    let vertical = match lookup(style, "verticalAlign"@) {
        Some(v) => seq![AlignView { direction: "vertical"@, alignment: v }],
        None => Seq::empty(),
    };
    horizontal + vertical
}

/// What the declaration `style` says, given the results `measures` of
/// evaluating its numeric texts.
pub open spec fn props_of(style: Map<Seq<char>, Seq<char>>, measures: MeasuresView) -> Props {
    Props {
        font: font_of(style, measures),
        fill: fill_of(style, measures),
        aligns: aligns_of(style),
    }
}

/// Two sets of measures that agree on every numeric text that a
/// declaration holds give the same reading of it: a measure of a text that
/// is not there decides nothing.
pub proof fn lemma_measures_count_only_where_asked(
    style: Map<Seq<char>, Seq<char>>,
    a: MeasuresView,
    b: MeasuresView,
)
    requires
        numeric_texts_of(style).background_alpha is Some ==> a.background_alpha
            == b.background_alpha,
        numeric_texts_of(style).color_alpha is Some ==> a.color_alpha == b.color_alpha,
        numeric_texts_of(style).font_pixels is Some ==> a.font_points == b.font_points,
    ensures
        props_of(style, a) == props_of(style, b),
{
    match lookup(style, "background"@) {
        Some(v) => {
            if alpha_part(v) is None {
                lemma_alpha_counts_only_where_asked(v, a.background_alpha, b.background_alpha);
            }
        },
        None => {},
    }
    match lookup(style, "color"@) {
        Some(v) => {
            if alpha_part(v) is None {
                lemma_alpha_counts_only_where_asked(v, a.color_alpha, b.color_alpha);
            }
        },
        None => {},
    }
}

/// Whether two optional strings hold the same.
pub fn opt_str_eq(a: &Option<String>, b: &Option<String>) -> (r: bool)
    ensures
        r == (opt_view(*a) == opt_view(*b)),
{
    match (a, b) {
        (Some(x), Some(y)) => str_eq(x.as_str(), y.as_str()),
        (None, None) => true,
        _ => false,
    }
}

impl Font {
    /// The default font: no size, no colour, every switch off.
    pub fn new() -> (r: Font)
        ensures
            r@ == default_font(),
    {
        Font {
            size: None,
            color: None,
            bold: false,
            italic: false,
            underline: false,
            strike: false,
        }
    }

    /// Whether this font and `other` agree in every field.
    pub fn same_as(&self, other: &Font) -> (r: bool)
        ensures
            r == (self@ == other@),
    {
        opt_str_eq(&self.size, &other.size) && opt_str_eq(&self.color, &other.color) && self.bold
            == other.bold && self.italic == other.italic && self.underline == other.underline
            && self.strike == other.strike
    }
}

impl Fill {
    /// A fill with the given colour and pattern.
    pub fn new(color: Option<String>, pattern_type: &str) -> (r: Fill)
        ensures
            r@ == (FillView { pattern_type: pattern_type@, color: opt_view(color) }),
    {
        Fill { pattern_type: String::from_str(pattern_type), color: color }
    }

    /// Whether this fill and `other` agree in every field.
    pub fn same_as(&self, other: &Fill) -> (r: bool)
        ensures
            r == (self@ == other@),
    {
        str_eq(self.pattern_type.as_str(), other.pattern_type.as_str()) && opt_str_eq(
            &self.color,
            &other.color,
        )
    }
}

/// Reads a declaration into a font, a fill where it has a background that
/// can be read, and its alignments. `measures` holds what the evaluation of
/// `style.numeric_texts()` gave. Properties that are not known are passed
/// over, and a value that cannot be read leaves its field unset.
pub fn style_to_props(style: &Style, measures: &Measures) -> (r: (Font, Option<Fill>, Vec<Align>))
    ensures
        r.0@ == font_of(style@, measures@),
        opt_fill_view(r.1) == fill_of(style@, measures@),
        align_views(r.2@) == aligns_of(style@),
{
    let mut font = Font::new();
    let mut fill: Option<Fill> = None;
    let mut aligns: Vec<Align> = Vec::new();
    match style.get("background") {
        Some(value) => match color_to_argb(value.as_str(), measures.background_alpha) {
            Some(v) => {
                fill = Some(Fill::new(Some(v), "solid"));
            },
            None => {},
        },
        None => {},
    }
    match style.get("color") {
        Some(value) => {
            font.color = color_to_argb(value.as_str(), measures.color_alpha);
        },
        None => {},
    }
    match style.get("fontWeight") {
        Some(value) => {
            font.bold = str_eq(value.as_str(), "bold");
        },
        None => {},
    }
    match style.get("fontStyle") {
        Some(value) => {
            font.italic = str_eq(value.as_str(), "italic");
        },
        None => {},
    }
    match style.get("textDecoration") {
        Some(value) => {
            let chars = to_chars(value.as_str());
            font.underline = contains(&chars, &to_chars("underline"));
            font.strike = contains(&chars, &to_chars("line-through"));
        },
        None => {},
    }
    match style.get("textAlign") {
        Some(value) => {
            aligns.push(
                Align { direction: String::from_str("horizontal"), alignment: value.clone() },
            );
        },
        None => {},
    }
    match style.get("verticalAlign") {
        Some(value) => {
            aligns.push(
                Align { direction: String::from_str("vertical"), alignment: value.clone() },
            );
        },
        None => {},
    }
    match style.get("fontSize") {
        Some(value) => {
            let evaluated = match &measures.font_points {
                Some(p) => Some(p.clone()),
                None => None,
            };
            font.size = px_to_pt(value.as_str(), evaluated);
        },
        None => {},
    }
    (font, fill, aligns)
}

} // verus!
