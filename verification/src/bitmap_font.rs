//! Grid-based bitmap font atlases: a `.font.toml` document defines the
//! texture, glyph grid dimensions and character range, and each character
//! maps to one cell of the grid.

use vstd::prelude::*;
use crate::toml_doc::{TomlValue, parse_toml, toml_document, toml_get, value_get};

verus! {

/// The integer layout of a bitmap font: texture, cell size, grid width and
/// the run of character codes the atlas holds.
#[derive(Debug)]
pub struct FontGrid {
    /// Texture name (used as key in the texture cache)
    pub texture: String,
    /// Glyph cell width in pixels
    pub glyph_width: u32,
    /// Glyph cell height in pixels
    pub glyph_height: u32,
    /// Number of columns in the atlas grid
    pub columns: u32,
    /// Code of the first glyph in the atlas
    pub first_char: u32,
    /// Number of glyphs in the atlas
    pub char_count: u32,
}

/// The same layout as plain values.
pub struct FontGridView {
    pub texture: Seq<char>,
    pub glyph_width: u32,
    pub glyph_height: u32,
    pub columns: u32,
    pub first_char: u32,
    pub char_count: u32,
}

impl View for FontGrid {
    type V = FontGridView;

    open spec fn view(&self) -> FontGridView {
        FontGridView {
            texture: self.texture@,
            glyph_width: self.glyph_width,
            glyph_height: self.glyph_height,
            columns: self.columns,
            first_char: self.first_char,
            char_count: self.char_count,
        }
    }
}

/// An integer entry of the font table, truncated to `u32`.
pub open spec fn int_field(font: TomlValue, key: Seq<char>) -> Option<u32> {
    match value_get(font, key) {
        Some(TomlValue::Integer(i)) => Some(i as u32),
        _ => None,
    }
}

/// An integer entry with a default for when it is absent or not an integer.
pub open spec fn int_field_or(font: TomlValue, key: Seq<char>, default: u32) -> u32 {
    match int_field(font, key) {
        Some(v) => v,
        None => default,
    }
}

/// The font grid a parsed document describes: its `font` table needs a
/// `texture` string and integer `glyph_width`, `glyph_height` and `columns`;
/// `first_char` defaults to 32 (space) and `char_count` to 95 (printable ASCII).
pub open spec fn font_grid_of(doc: TomlValue) -> Option<FontGridView> {
    match value_get(doc, "font"@) {
        None => None,
        Some(font) => match (
            value_get(font, "texture"@),
            int_field(font, "glyph_width"@),
            int_field(font, "glyph_height"@),
            int_field(font, "columns"@),
        ) {
            (Some(TomlValue::String(t)), Some(w), Some(h), Some(c)) => Some(
                FontGridView {
                    texture: t@,
                    glyph_width: w,
                    glyph_height: h,
                    columns: c,
                    first_char: int_field_or(font, "first_char"@, 32),
                    char_count: int_field_or(font, "char_count"@, 95),
                },
            ),
            _ => None,
        },
    }
}

/// Whether the grid arithmetic of every glyph stays within `u32`, and the grid
/// has at least one column.
pub open spec fn grid_fits(g: FontGridView) -> bool {
    &&& g.columns > 0
    &&& g.first_char + g.char_count <= u32::MAX
    &&& g.columns * g.glyph_width <= u32::MAX
    &&& (g.char_count / g.columns + 1) * g.glyph_height <= u32::MAX
}

/// The pixel rectangle `[x_min, y_min, x_max, y_max]` of a character's cell,
/// or `None` for a character outside the atlas's range. Cells are laid out
/// row by row, `columns` to a row.
pub open spec fn glyph_cell_of(g: FontGridView, ch: char) -> Option<[u32; 4]> {
    let code = ch as u32;
    if code < g.first_char || code >= g.first_char + g.char_count {
        None
    } else {
        let index = (code - g.first_char) as u32;
        let col = (index % g.columns) as u32;
        let row = (index / g.columns) as u32;
        Some(
            [
                (col * g.glyph_width) as u32,
                (row * g.glyph_height) as u32,
                ((col + 1) * g.glyph_width) as u32,
                ((row + 1) * g.glyph_height) as u32,
            ],
        )
    }
}

fn int_entry(font: &TomlValue, key: &str) -> (r: Option<u32>)
    ensures
        r == int_field(*font, key@),
{
    match toml_get(font, key) {
        Some(TomlValue::Integer(i)) => Some(*i as u32),
        _ => None,
    }
}

impl FontGrid {
    /// Read the grid from a parsed `.font.toml` document; `None` when a
    /// required entry is missing or of the wrong kind.
    pub fn from_toml_value(doc: &TomlValue) -> (r: Option<FontGrid>)
        ensures
            match r {
                Some(g) => font_grid_of(*doc) == Some(g@),
                None => font_grid_of(*doc) is None,
            },
    {
        let font = match toml_get(doc, "font") {
            Some(f) => f,
            None => {
                return None;
            },
        };
        let texture = match toml_get(font, "texture") {
            Some(TomlValue::String(t)) => t.clone(),
            _ => {
                return None;
            },
        };
        let glyph_width = match int_entry(font, "glyph_width") {
            Some(v) => v,
            None => {
                return None;
            },
        };
        let glyph_height = match int_entry(font, "glyph_height") {
            Some(v) => v,
            None => {
                return None;
            },
        };
        let columns = match int_entry(font, "columns") {
            Some(v) => v,
            None => {
                return None;
            },
        };
        let first_char = match int_entry(font, "first_char") {
            Some(v) => v,
            None => 32,
        };
        let char_count = match int_entry(font, "char_count") {
            Some(v) => v,
            None => 95,
        };
        Some(FontGrid { texture, glyph_width, glyph_height, columns, first_char, char_count })
    }

    /// Read the grid from the text of a `.font.toml` file; `None` when the text
    /// is not TOML or lacks a required entry.
    pub fn from_toml(text: &str) -> (r: Option<FontGrid>)
        ensures
            match r {
                Some(g) => toml_document(text@) matches Ok(doc) && font_grid_of(doc) == Some(g@),
                None => match toml_document(text@) {
                    Ok(doc) => font_grid_of(doc) is None,
                    Err(_) => true,
                },
            },
    {
        match parse_toml(text) {
            Ok(doc) => FontGrid::from_toml_value(&doc),
            Err(_) => None,
        }
    }

    /// Whether the grid has columns and its cell arithmetic fits `u32`.
    pub fn layout_fits(&self) -> (r: bool)
        ensures
            r == grid_fits(self@),
    {
        if self.columns == 0 {
            return false;
        }
        let first = self.first_char as u64;
        let count = self.char_count as u64;
        assert((self.columns as u64) * (self.glyph_width as u64) <= 0xFFFF_FFFF * 0xFFFF_FFFF) by (nonlinear_arith)
            requires
                self.columns <= 0xFFFF_FFFF,
                self.glyph_width <= 0xFFFF_FFFF,
        ;
        let width = (self.columns as u64) * (self.glyph_width as u64);
        let rows = (self.char_count / self.columns) as u64 + 1;
        assert(rows * (self.glyph_height as u64) <= 0x1_0000_0000 * 0x1_0000_0000) by (nonlinear_arith)
            requires
                rows <= 0x1_0000_0000,
                self.glyph_height < 0x1_0000_0000,
        ;
        let height = (rows as u128) * (self.glyph_height as u128);
        first + count <= 0xFFFF_FFFF && width <= 0xFFFF_FFFF && height <= 0xFFFF_FFFF
    }

    /// The pixel rectangle of a character's cell in the atlas.
    pub fn glyph_cell(&self, ch: char) -> (r: Option<[u32; 4]>)
        requires
            grid_fits(self@),
        ensures
            r == glyph_cell_of(self@, ch),
    {
        let code = ch as u32;
        if code < self.first_char || code >= self.first_char + self.char_count {
            return None;
        }
        let index = code - self.first_char;
        let col = index % self.columns;
        let row = index / self.columns;
        proof {
            let c = self.columns as int;
            let w = self.glyph_width as int;
            let h = self.glyph_height as int;
            assert(col < c);
            assert((col + 1) * w <= c * w) by (nonlinear_arith)
                requires
                    col + 1 <= c,
                    w >= 0,
            ;
            assert(index < self.char_count);
            assert(row <= self.char_count / self.columns) by (nonlinear_arith)
                requires
                    row == index / self.columns,
                    index < self.char_count,
                    self.columns > 0,
            ;
            assert((row + 1) * h <= (self.char_count / self.columns + 1) * h) by (nonlinear_arith)
                requires
                    row <= self.char_count / self.columns,
                    h >= 0,
            ;
            assert(col * w <= (col + 1) * w) by (nonlinear_arith)
                requires
                    w >= 0,
            ;
            assert(row * h <= (row + 1) * h) by (nonlinear_arith)
                requires
                    h >= 0,
            ;
        }
        Some(
            [
                col * self.glyph_width,
                row * self.glyph_height,
                (col + 1) * self.glyph_width,
                (row + 1) * self.glyph_height,
            ],
        )
    }
}

/// Characters in the atlas's range have cells of exactly one glyph's size,
/// inside the grid; distinct characters have distinct cells when glyphs have a
/// size; characters outside the range have none.
pub proof fn law_glyph_cells(g: FontGridView, a: char, b: char)
    requires
        grid_fits(g),
    ensures
        glyph_cell_of(g, a) matches Some(r) ==> r[2] - r[0] == g.glyph_width && r[3] - r[1]
            == g.glyph_height && r[2] <= g.columns * g.glyph_width,
        (glyph_cell_of(g, a) is Some) <==> (g.first_char <= (a as u32) < g.first_char
            + g.char_count),
        g.glyph_width > 0 && g.glyph_height > 0 && a != b && glyph_cell_of(g, a) is Some
            && glyph_cell_of(g, b) is Some ==> glyph_cell_of(g, a) != glyph_cell_of(g, b),
{
    let c = g.columns as int;
    let w = g.glyph_width as int;
    let h = g.glyph_height as int;
    if glyph_cell_of(g, a) is Some {
        let ia = (a as u32 - g.first_char) as int;
        let col = ia % c;
        let row = ia / c;
        assert(0 <= col < c);
        assert((col + 1) * w <= c * w) by (nonlinear_arith)
            requires
                col + 1 <= c,
                w >= 0,
        ;
        assert(row <= (g.char_count as int) / c) by (nonlinear_arith)
            requires
                row == ia / c,
                ia < g.char_count,
                c > 0,
                ia >= 0,
        ;
        assert((row + 1) * h <= ((g.char_count as int) / c + 1) * h) by (nonlinear_arith)
            requires
                row <= (g.char_count as int) / c,
                h >= 0,
                row >= 0,
        ;
        assert((col + 1) * w - col * w == w) by (nonlinear_arith);
        assert((row + 1) * h - row * h == h) by (nonlinear_arith);
        assert(col * w <= (col + 1) * w) by (nonlinear_arith)
            requires
                w >= 0,
        ;
        assert(row * h <= (row + 1) * h) by (nonlinear_arith)
            requires
                h >= 0,
        ;
        assert(0 <= col * w) by (nonlinear_arith)
            requires
                w >= 0,
                col >= 0,
        ;
        assert(0 <= row * h) by (nonlinear_arith)
            requires
                h >= 0,
                row >= 0,
        ;
        if g.glyph_width > 0 && g.glyph_height > 0 && a != b && glyph_cell_of(g, b) is Some {
            let ib = (b as u32 - g.first_char) as int;
            let colb = ib % c;
            let rowb = ib / c;
            assert(0 <= colb < c);
            assert(rowb >= 0);
            assert((colb + 1) * w <= c * w) by (nonlinear_arith)
                requires
                    colb + 1 <= c,
                    w >= 0,
            ;
            assert(rowb <= (g.char_count as int) / c) by (nonlinear_arith)
                requires
                    rowb == ib / c,
                    ib < g.char_count,
                    c > 0,
                    ib >= 0,
            ;
            assert((rowb + 1) * h <= ((g.char_count as int) / c + 1) * h) by (nonlinear_arith)
                requires
                    rowb <= (g.char_count as int) / c,
                    h >= 0,
                    rowb >= 0,
            ;
            assert(0 <= colb * w && colb * w <= (colb + 1) * w) by (nonlinear_arith)
                requires
                    w >= 0,
                    colb >= 0,
            ;
            assert(0 <= rowb * h && rowb * h <= (rowb + 1) * h) by (nonlinear_arith)
                requires
                    h >= 0,
                    rowb >= 0,
            ;
            assert(a as u32 != b as u32);
            assert(ia != ib);
            assert(ia == row * c + col && ib == rowb * c + colb) by (nonlinear_arith)
                requires
                    c > 0,
                    col == ia % c,
                    row == ia / c,
                    colb == ib % c,
                    rowb == ib / c,
            ;
            if col * w == colb * w && row * h == rowb * h {
                assert(col == colb) by (nonlinear_arith)
                    requires
                        col * w == colb * w,
                        w > 0,
                ;
                assert(row == rowb) by (nonlinear_arith)
                    requires
                        row * h == rowb * h,
                        h > 0,
                ;
            }
        }
    }
}

/// The character run of a font grid comes from its own entries alone: an
/// integer `char_count` (or `first_char`) entry is taken, truncated to `u32`;
/// without one, `char_count` is 95 and `first_char` 32, whatever the other is.
pub proof fn law_char_run_defaults(doc: TomlValue, font: TomlValue)
    requires
        value_get(doc, "font"@) == Some(font),
        font_grid_of(doc) is Some,
    ensures
        value_get(font, "char_count"@) matches Some(TomlValue::Integer(i)) ==> font_grid_of(
            doc,
        ).unwrap().char_count == i as u32,
        !(value_get(font, "char_count"@) matches Some(TomlValue::Integer(_))) ==> font_grid_of(
            doc,
        ).unwrap().char_count == 95,
        value_get(font, "first_char"@) matches Some(TomlValue::Integer(i)) ==> font_grid_of(
            doc,
        ).unwrap().first_char == i as u32,
        !(value_get(font, "first_char"@) matches Some(TomlValue::Integer(_))) ==> font_grid_of(
            doc,
        ).unwrap().first_char == 32,
{
}

} // verus!
