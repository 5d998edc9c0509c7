//! Font atlases: reading a cell size from a font's file name, deriving the
//! cell geometry of an atlas, and the loading state of the console's font.
use vstd::prelude::*;

use crate::text::chars_of;

verus! {

/// The number of glyph columns and rows of an atlas without an explicit
/// cell size.
pub const ATLAS_GLYPHS: u32 = 16;

/// The index of the last `c` in `s`, or `-1` if none.
pub open spec fn last_index_of(s: Seq<char>, c: char) -> int
    decreases s.len(),
{
    if s.len() == 0 {
        -1
    } else if s.last() == c {
        s.len() - 1
    } else {
        last_index_of(s.drop_last(), c)
    }
}

pub open spec fn is_digit(c: char) -> bool {
    '0' <= c <= '9'
}

/// The number that the decimal digits `s` write.
pub open spec fn decimal(s: Seq<char>) -> nat
    decreases s.len(),
{
    if s.len() == 0 {
        0
    } else {
        decimal(s.drop_last()) * 10 + ((s.last() as u32 - '0' as u32) as nat)
    }
}

/// `s` is a decimal number from 1 to `u32::MAX`.
pub open spec fn is_size(s: Seq<char>) -> bool {
    &&& s.len() > 0
    &&& forall|i: int| 0 <= i < s.len() ==> is_digit(#[trigger] s[i])
    &&& 0 < decimal(s) <= u32::MAX
}

/// The cell size written `WxH` in `s`, if `s` is exactly that.
pub open spec fn parse_cell_size(s: Seq<char>) -> Option<(u32, u32)> {
    let k = last_index_of(s, 'x');
    if 0 <= k && is_size(s.take(k)) && is_size(s.skip(k + 1)) {
        Some((decimal(s.take(k)) as u32, decimal(s.skip(k + 1)) as u32))
    } else {
        None
    }
}

/// The cell size that a font file named like `name_8x12.png` declares:
/// what stands between the last `_` and the last `.`.
pub open spec fn name_cell_size(path: Seq<char>) -> Option<(u32, u32)> {
    let s = last_index_of(path, '_');
    let e = last_index_of(path, '.');
    if 0 < s && s < e {
        parse_cell_size(path.subrange(s + 1, e))
    } else {
        None
    }
}

proof fn lemma_last_index_bounds(s: Seq<char>, c: char)
    ensures
        -1 <= last_index_of(s, c) < s.len(),
        0 <= last_index_of(s, c) ==> s[last_index_of(s, c)] == c,
    decreases s.len(),
{
    if s.len() > 0 && s.last() != c {
        lemma_last_index_bounds(s.drop_last(), c);
    }
}

proof fn lemma_decimal_grows(s: Seq<char>, i: int)
    requires
        0 <= i <= s.len(),
    ensures
        decimal(s.take(i)) <= decimal(s),
    decreases s.len() - i,
{
    if i < s.len() {
        lemma_decimal_grows(s, i + 1);
        assert(s.take(i + 1).drop_last() =~= s.take(i));
        assert(decimal(s.take(i)) <= decimal(s.take(i + 1)));
    } else {
        assert(s.take(i) =~= s);
    }
}

/// The index of the last `c` in `v[from..to]`, relative to `from`, if any.
fn last_index_in(v: &Vec<char>, from: usize, to: usize, c: char) -> (r: Option<usize>)
    requires
        from <= to <= v@.len(),
    ensures
        ({
            let i = last_index_of(v@.subrange(from as int, to as int), c);
            r == if i >= 0 { Some(i as usize) } else { None::<usize> }
        }),
{
    let ghost s = v@.subrange(from as int, to as int);
    let mut j: usize = to;
    assert(s.take(to - from) =~= s);
    while j > from
        invariant
            from <= j <= to,
            to <= v@.len(),
            s == v@.subrange(from as int, to as int),
            last_index_of(s, c) == last_index_of(s.take(j - from), c),
        decreases j,
    {
        assert(s.take(j - from).drop_last() =~= s.take(j - from - 1));
        assert(s.take(j - from).last() == v@[j - 1]);
        if v[j - 1] == c {
            return Some(j - 1 - from);
        }
        j = j - 1;
    }
    assert(s.take(0) =~= Seq::<char>::empty());
    None
}

/// The decimal number `v[from..to]`, if it is one from 1 to `u32::MAX`.
fn parse_size(v: &Vec<char>, from: usize, to: usize) -> (r: Option<u32>)
    requires
        from <= to <= v@.len(),
    ensures
        ({
            let s = v@.subrange(from as int, to as int);
            r == if is_size(s) { Some(decimal(s) as u32) } else { None::<u32> }
        }),
{
    let ghost s = v@.subrange(from as int, to as int);
    if from == to {
        return None;
    }
    let mut value: u64 = 0;
    let mut i: usize = from;
    while i < to
        invariant
            from <= i <= to,
            to <= v@.len(),
            s == v@.subrange(from as int, to as int),
            value == decimal(s.take(i - from)),
            value <= u32::MAX,
            forall|k: int| 0 <= k < i - from ==> is_digit(#[trigger] s[k]),
        decreases to - i,
    {
        let c = v[i];
        assert(s.take(i - from + 1).drop_last() =~= s.take(i - from));
        if !('0' <= c && c <= '9') {
            assert(!is_digit(s[i - from]));
            return None;
        }
        value = value * 10 + ((c as u32 - '0' as u32) as u64);
        i = i + 1;
        if value > u32::MAX as u64 {
            proof {
                lemma_decimal_grows(s, i - from);
            }
            return None;
        }
    }
    assert(s.take(to - from) =~= s);
    if value == 0 {
        return None;
    }
    Some(value as u32)
}

/// The cell size that the file name `path` declares, as in
/// `terminal_8x8.png`, if it declares one.
pub fn cell_size_from_name(path: &str) -> (r: Option<(u32, u32)>)
    ensures
        r == name_cell_size(path@),
{
    let v = chars_of(path);
    let n = v.len();
    let s = last_index_in(&v, 0, n, '_');
    let e = last_index_in(&v, 0, n, '.');
    assert(v@.subrange(0, n as int) =~= path@);
    proof {
        lemma_last_index_bounds(path@, '_');
        lemma_last_index_bounds(path@, '.');
    }
    let (s, e) = match (s, e) {
        (Some(s), Some(e)) => (s, e),
        _ => return None,
    };
    if !(0 < s && s < e) {
        return None;
    }
    let from = s + 1;
    let to = e;
    let ghost sub = path@.subrange(from as int, to as int);
    let k = last_index_in(&v, from, to, 'x');
    proof {
        lemma_last_index_bounds(sub, 'x');
    }
    let k = match k {
        Some(k) => k,
        None => return None,
    };
    let mid = from + k as usize;
    let w = parse_size(&v, from, mid);
    let h = parse_size(&v, mid + 1, to);
    assert(sub.take(k as int) =~= v@.subrange(from as int, mid as int));
    assert(sub.skip(k + 1) =~= v@.subrange(mid + 1, to as int));
    match (w, h) {
        (Some(w), Some(h)) => Some((w, h)),
        _ => None,
    }
}

/// A decoded font atlas: its size in pixels, its RGBA pixels and the cell
/// size that its file name declares, if any.
pub struct Font {
    pub width: u32,
    pub height: u32,
    pub pixels: Vec<u8>,
    pub cell_size: Option<(u32, u32)>,
}

impl Font {
    /// An atlas from decoded pixels, with no declared cell size.
    pub fn new_from_rgba(width: u32, height: u32, pixels: Vec<u8>) -> (r: Font)
        ensures
            r.width == width,
            r.height == height,
            r.pixels@ == pixels@,
            r.cell_size == None::<(u32, u32)>,
    {
        Font { width, height, pixels, cell_size: None }
    }

    /// Takes the cell size from the file name `path`, as in
    /// `terminal_8x8.png`; a name that declares none clears it.
    pub fn set_size_from_name(&mut self, path: &str)
        ensures
            final(self).cell_size == name_cell_size(path@),
            final(self).width == old(self).width,
            final(self).height == old(self).height,
            final(self).pixels@ == old(self).pixels@,
    {
        self.cell_size = cell_size_from_name(path);
    }
}

/// Reads font atlases from image files.
pub struct FontLoader;

impl FontLoader {
    /// The file extensions of the images this loader reads.
    pub fn extensions(&self) -> (r: Vec<&'static str>)
        ensures
            r@.len() == 1,
            r@[0]@ == "png"@,
    {
        let mut r: Vec<&'static str> = Vec::new();
        r.push("png");
        r
    }

    /// The font asset of the image at `path`, once decoded to `width ×
    /// height` RGBA pixels; its cell size is the one the name declares.
    pub fn load(&self, path: &str, width: u32, height: u32, pixels: Vec<u8>) -> (r: Font)
        ensures
            r.width == width,
            r.height == height,
            r.pixels@ == pixels@,
            r.cell_size == name_cell_size(path@),
    {
        let mut font = Font::new_from_rgba(width, height, pixels);
        font.set_size_from_name(path);
        font
    }
}

/// The size of a font atlas and of each of its glyph cells, in pixels.
#[derive(Clone, Copy, PartialEq, Eq, Debug)]
pub struct FontGeometry {
    pub font_width: u32,
    pub font_height: u32,
    pub char_width: u32,
    pub char_height: u32,
}

/// Why a font could not be taken into use.
#[derive(Clone, Copy, PartialEq, Eq, Debug)]
pub enum FontError {
    /// No font load was under way.
    NotLoading,
    /// The atlas declares no cell size and its sides are not multiples of
    /// the glyph grid.
    UnevenAtlas,
}

/// The geometry of a `width × height` atlas: the declared cell size if
/// there is one, else a sixteenth of each side.
pub open spec fn atlas_geometry_of(width: u32, height: u32, cell_size: Option<(u32, u32)>) -> Result<FontGeometry, FontError> {
    match cell_size {
        Some((cw, ch)) => Ok(FontGeometry { font_width: width, font_height: height, char_width: cw, char_height: ch }),
        None => if width % 16 == 0 && height % 16 == 0 {
            Ok(
                FontGeometry {
                    font_width: width,
                    font_height: height,
                    char_width: width / 16,
                    char_height: height / 16,
                },
            )
        } else {
            Err(FontError::UnevenAtlas)
        },
    }
}

/// Computes the geometry of a `width × height` atlas.
pub fn atlas_geometry(width: u32, height: u32, cell_size: Option<(u32, u32)>) -> (r: Result<FontGeometry, FontError>)
    ensures
        r == atlas_geometry_of(width, height, cell_size),
{
    match cell_size {
        Some((cw, ch)) => Ok(FontGeometry { font_width: width, font_height: height, char_width: cw, char_height: ch }),
        None => if width % ATLAS_GLYPHS == 0 && height % ATLAS_GLYPHS == 0 {
            Ok(
                FontGeometry {
                    font_width: width,
                    font_height: height,
                    char_width: width / ATLAS_GLYPHS,
                    char_height: height / ATLAS_GLYPHS,
                },
            )
        } else {
            Err(FontError::UnevenAtlas)
        },
    }
}

/// Where the console's font is in its loading.
#[derive(Clone, Copy, PartialEq, Eq, Debug)]
pub enum FontState {
    /// No font was asked for.
    Unloaded,
    /// A font was asked for under the given asset handle and has not been
    /// taken into use.
    Loading(u64),
    /// A font is in use with this geometry.
    Loaded(FontGeometry),
}

/// Whether a geometry allows drawing: every size is positive.
pub open spec fn drawable(g: FontGeometry) -> bool {
    g.font_width > 0 && g.font_height > 0 && g.char_width > 0 && g.char_height > 0
}

impl FontState {
    /// Starts loading the font behind `handle`.
    pub fn request_load(&mut self, handle: u64)
        ensures
            *final(self) == FontState::Loading(handle),
    {
        *self = FontState::Loading(handle);
    }

    /// Takes into use the font whose load has finished. On success the state
    /// is `Loaded` with the atlas's geometry; otherwise it is unchanged.
    pub fn asset_ready(&mut self, font: &Font) -> (r: Result<FontGeometry, FontError>)
        ensures
            match *old(self) {
                FontState::Loading(_) => r == atlas_geometry_of(font.width, font.height, font.cell_size),
                _ => r == Err::<FontGeometry, FontError>(FontError::NotLoading),
            },
            match r {
                Ok(g) => *final(self) == FontState::Loaded(g),
                Err(_) => *final(self) == *old(self),
            },
    {
        match *self {
            FontState::Loading(_) => {
                let r = atlas_geometry(font.width, font.height, font.cell_size);
                if let Ok(g) = r {
                    *self = FontState::Loaded(g);
                }
                r
            },
            _ => Err(FontError::NotLoading),
        }
    }

    /// The handle of the load under way, if any.
    pub fn loading_handle(&self) -> (r: Option<u64>)
        ensures
            r == match *self {
                FontState::Loading(h) => Some(h),
                _ => None::<u64>,
            },
    {
        match *self {
            FontState::Loading(h) => Some(h),
            _ => None,
        }
    }

    /// Whether the font allows drawing: it is loaded with positive sizes.
    pub fn can_draw(&self) -> (r: bool)
        ensures
            r == match *self {
                FontState::Loaded(g) => drawable(g),
                _ => false,
            },
    {
        match *self {
            FontState::Loaded(g) => g.font_width > 0 && g.font_height > 0 && g.char_width > 0 && g.char_height > 0,
            _ => false,
        }
    }
}

} // verus!
