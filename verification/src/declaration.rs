//! Style declarations: what a caller hands to the style table.
//!
//! A declaration maps property names to raw CSS values. Two of the values
//! hold real numbers, the alpha part of an `rgba(..)` colour and a font size
//! in pixels. Their evaluation needs floating-point arithmetic, which is done
//! outside this crate: [`Style::numeric_texts`] hands out the texts to
//! evaluate, and the caller hands back a [`Measures`] with the results.

use vstd::prelude::*;
use vstd::hash_map::StringHashMap;
use crate::color::{alpha_part, alpha_text};
use crate::text::opt_view;
use crate::units::{pixel_part, px_text};

verus! {

/// The value that `style` gives to the property `key`.
pub open spec fn lookup(style: Map<Seq<char>, Seq<char>>, key: Seq<char>) -> Option<Seq<char>> {
    if style.contains_key(key) {
        Some(style[key])
    } else {
        None
    }
}

/// One style declaration: property names with their values, each name at
/// most once.
pub struct Style {
    map: StringHashMap<String>,
}

impl View for Style {
    type V = Map<Seq<char>, Seq<char>>;

    closed spec fn view(&self) -> Map<Seq<char>, Seq<char>> {
        self.map@.map_values(|v: String| v@)
    }
}

/// The numeric texts of a declaration, as far as it holds them.
pub struct NumericTexts {
    /// The alpha part of the `background` colour.
    pub background_alpha: Option<String>,
    /// The alpha part of the `color` colour.
    pub color_alpha: Option<String>,
    /// The number of the `fontSize`, without its `px`.
    pub font_pixels: Option<String>,
}

/// What the evaluation of the numeric texts of a declaration gave. A field
/// is `None` where the declaration has no such text, or the text is no
/// number.
pub struct Measures {
    /// The alpha of the `background` colour, scaled by 255 and cut to an
    /// integer.
    pub background_alpha: Option<u32>,
    /// The alpha of the `color` colour, scaled by 255 and cut to an integer.
    pub color_alpha: Option<u32>,
    /// Three quarters of the `fontSize` number, as text.
    pub font_points: Option<String>,
}

/// The model of [`NumericTexts`].
pub struct NumericTextsView {
    pub background_alpha: Option<Seq<char>>,
    pub color_alpha: Option<Seq<char>>,
    pub font_pixels: Option<Seq<char>>,
}

/// The model of [`Measures`].
pub struct MeasuresView {
    pub background_alpha: Option<u32>,
    pub color_alpha: Option<u32>,
    pub font_points: Option<Seq<char>>,
}

impl View for NumericTexts {
    type V = NumericTextsView;

    open spec fn view(&self) -> NumericTextsView {
        NumericTextsView {
            background_alpha: opt_view(self.background_alpha),
            color_alpha: opt_view(self.color_alpha),
            font_pixels: opt_view(self.font_pixels),
        }
    }
}

impl View for Measures {
    type V = MeasuresView;

    open spec fn view(&self) -> MeasuresView {
        MeasuresView {
            background_alpha: self.background_alpha,
            color_alpha: self.color_alpha,
            font_points: opt_view(self.font_points),
        }
    }
}

/// The numeric texts that `style` holds.
pub open spec fn numeric_texts_of(style: Map<Seq<char>, Seq<char>>) -> NumericTextsView {
    NumericTextsView {
        background_alpha: match lookup(style, "background"@) {
            Some(v) => alpha_part(v),
            None => None,
        },
        color_alpha: match lookup(style, "color"@) {
            Some(v) => alpha_part(v),
            None => None,
        },
        font_pixels: match lookup(style, "fontSize"@) {
            Some(v) => pixel_part(v),
            None => None,
        },
    }
}

impl Measures {
    /// The measures of a declaration without numeric texts.
    pub fn none() -> (r: Measures)
        ensures
            r@ == (MeasuresView { background_alpha: None, color_alpha: None, font_points: None }),
    {
        Measures { background_alpha: None, color_alpha: None, font_points: None }
    }
}

impl Style {
    /// A declaration without properties.
    pub fn new() -> (r: Style)
        ensures
            r@ == Map::<Seq<char>, Seq<char>>::empty(),
    {
        let r = Style { map: StringHashMap::new() };
        r
    }

    /// Gives the property `key` the value `value`, in place of the value it
    /// had, if any.
    pub fn insert(&mut self, key: String, value: String)
        ensures
            final(self)@ == old(self)@.insert(key@, value@),
    {
        self.map.insert(key, value);
    }

    /// The value of the property `key`.
    pub fn get(&self, key: &str) -> (r: Option<&String>)
        ensures
            match r {
                Some(v) => lookup(self@, key@) == Some(v@),
                None => lookup(self@, key@) is None,
            },
    {
        self.map.get(key)
    }

    /// The numeric texts of this declaration, for evaluation.
    pub fn numeric_texts(&self) -> (r: NumericTexts)
        ensures
            r@ == numeric_texts_of(self@),
    {
        let background_alpha = match self.get("background") {
            Some(v) => alpha_text(v.as_str()),
            None => None,
        };
        let color_alpha = match self.get("color") {
            Some(v) => alpha_text(v.as_str()),
            None => None,
        };
        let font_pixels = match self.get("fontSize") {
            Some(v) => px_text(v.as_str()),
            None => None,
        };
        NumericTexts { background_alpha, color_alpha, font_pixels }
    }
}

} // verus!
