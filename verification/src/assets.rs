//! Where the bundled assets and the launcher's data live, which fonts serve
//! which text, and the decoding of the bundled images.

use vstd::prelude::*;

use crate::path::FsPath;

verus! {

/// A location that may be unknown, as a value.
pub open spec fn opt_path(p: Option<FsPath>) -> Option<Seq<Seq<char>>> {
    match p {
        Some(x) => Some(x@),
        None => None,
    }
}

/// The places probed for the `assets` directory, in order: below the
/// working directory, next to the executable, two levels above the
/// executable's directory, and below the package directory recorded at
/// build time; a place is skipped when its base is unknown.
pub open spec fn candidate_dirs(
    cwd: Option<Seq<Seq<char>>>,
    exe_dir: Option<Seq<Seq<char>>>,
    exe_grandparent: Option<Seq<Seq<char>>>,
    package_dir: Seq<Seq<char>>,
) -> Seq<Seq<Seq<char>>> {
    let a = match cwd {
        Some(c) => seq![c.push("assets"@)],
        None => Seq::empty(),
    };
    let b = match exe_dir {
        Some(d) => seq![d.push("assets"@)] + match exe_grandparent {
            Some(u) => seq![u.push("assets"@)],
            None => Seq::empty(),
        },
        None => Seq::empty(),
    };
    a + b + seq![package_dir.push("assets"@)]
}

/// The locations of a list, as values.
pub open spec fn paths_view(v: Seq<FsPath>) -> Seq<Seq<Seq<char>>> {
    Seq::new(v.len(), |i: int| v[i]@)
}

/// The places probed for the `assets` directory, in order.
pub fn assets_dir_candidates(
    cwd: Option<FsPath>,
    exe_dir: Option<FsPath>,
    exe_grandparent: Option<FsPath>,
    package_dir: FsPath,
) -> (r: Vec<FsPath>)
    ensures
        paths_view(r@) == candidate_dirs(
            opt_path(cwd),
            opt_path(exe_dir),
            opt_path(exe_grandparent),
            package_dir@,
        ),
{
    let mut r: Vec<FsPath> = Vec::new();
    let ghost a: Seq<Seq<Seq<char>>> = match opt_path(cwd) {
        Some(c) => seq![c.push("assets"@)],
        None => Seq::empty(),
    };
    let ghost b: Seq<Seq<Seq<char>>> = match opt_path(exe_dir) {
        Some(d) => seq![d.push("assets"@)] + match opt_path(exe_grandparent) {
            Some(u) => seq![u.push("assets"@)],
            None => Seq::empty(),
        },
        None => Seq::empty(),
    };
    if let Some(c) = &cwd {
        r.push(c.join("assets"));
    }
    assert(paths_view(r@) =~= a);
    if let Some(d) = &exe_dir {
        r.push(d.join("assets"));
        if let Some(u) = &exe_grandparent {
            r.push(u.join("assets"));
        }
    }
    assert(paths_view(r@) =~= a + b);
    r.push(package_dir.join("assets"));
    assert(paths_view(r@) =~= a + b + seq![package_dir@.push("assets"@)]);
    r
}

/// The first probed place that is a directory, if any.
pub open spec fn first_existing(probes: Seq<(FsPath, bool)>) -> Option<Seq<Seq<char>>>
    decreases probes.len(),
{
    if probes.len() == 0 {
        None
    } else if probes[0].1 {
        Some(probes[0].0@)
    } else {
        first_existing(probes.drop_first())
    }
}

/// The `assets` directory: the first probed place that is a directory,
/// otherwise the relative path `assets`.
pub fn pick_assets_dir(probes: &Vec<(FsPath, bool)>) -> (r: FsPath)
    ensures
        r@ == match first_existing(probes@) {
            Some(p) => p,
            None => seq!["assets"@],
        },
{
    let mut i: usize = 0;
    assert(probes@.skip(0) =~= probes@);
    while i < probes.len()
        invariant
            i <= probes@.len(),
            first_existing(probes@.skip(i as int)) == first_existing(probes@),
        decreases probes.len() - i,
    {
        let ghost rest = probes@.skip(i as int);
        assert(rest[0] == probes@[i as int]);
        if probes[i].1 {
            return probes[i].0.duplicate();
        }
        assert(rest.drop_first() =~= probes@.skip(i + 1));
        i += 1;
    }
    assert(probes@.skip(i as int) =~= Seq::<(FsPath, bool)>::empty());
    FsPath::from_str("assets")
}

/// The launcher's base directory (where `versions/` will live): the parent
/// of the `assets` directory, or `.` when it has none.
pub fn base_dir(assets: &FsPath) -> (r: FsPath)
    ensures
        r@ == if assets@.len() > 0 {
            assets@.drop_last()
        } else {
            seq!["."@]
        },
{
    let n = assets.depth();
    if n == 0 {
        return FsPath::from_str(".");
    }
    let mut r = FsPath::empty();
    let mut i: usize = 0;
    while i < n - 1
        invariant
            n == assets@.len(),
            i <= n - 1,
            r@ == assets@.take(i as int),
        decreases n - 1 - i,
    {
        r = r.join(assets.parts[i].as_str());
        i += 1;
        assert(r@ =~= assets@.take(i as int));
    }
    assert(assets@.take(n - 1) =~= assets@.drop_last());
    r
}

// ---------------------------------------------------------------------------
// Fonts
// ---------------------------------------------------------------------------

/// The named font family used for the Latin brand title.
pub const BRAND_FAMILY: &'static str = "brand";

/// The fonts the launcher installs.
#[derive(PartialEq, Eq, Structural, Clone, Copy)]
pub enum FontName {
    /// A Windows CJK font, for correct Chinese text.
    Cjk,
    /// The bundled Phigros font, for the Latin brand title.
    Phigros,
}

/// Which fonts serve which text.
pub struct FontPlan {
    /// The font put first in the proportional (body) family.
    pub body_first: Option<FontName>,
    /// Whether the CJK font is added at the end of the monospace family.
    pub mono_cjk: bool,
    /// The brand family, in order; it is registered only when non-empty.
    pub brand: Vec<FontName>,
}

/// Body text uses the CJK font first (the Phigros font only without one);
/// monospace falls back to the CJK font; the brand title uses the Phigros
/// font first and the CJK font after it.
pub fn font_plan(have_cjk: bool, have_phigros: bool) -> (r: FontPlan)
    ensures
        r.body_first == if have_cjk {
            Some(FontName::Cjk)
        } else if have_phigros {
            Some(FontName::Phigros)
        } else {
            None
        },
        r.mono_cjk == have_cjk,
        r.brand@ == (if have_phigros {
            seq![FontName::Phigros]
        } else {
            Seq::empty()
        }) + (if have_cjk {
            seq![FontName::Cjk]
        } else {
            Seq::empty()
        }),
{
    let body_first = if have_cjk {
        Some(FontName::Cjk)
    } else if have_phigros {
        Some(FontName::Phigros)
    } else {
        None
    };
    let mut brand = Vec::new();
    if have_phigros {
        brand.push(FontName::Phigros);
    }
    if have_cjk {
        brand.push(FontName::Cjk);
    }
    let r = FontPlan { body_first, mono_cjk: have_cjk, brand };
    assert(r.brand@ =~= (if have_phigros {
        seq![FontName::Phigros]
    } else {
        Seq::empty()
    }) + (if have_cjk {
        seq![FontName::Cjk]
    } else {
        Seq::empty()
    }));
    r
}

/// The Windows CJK fonts tried in order (single-file fonts first).
pub fn cjk_font_candidates() -> (r: Vec<&'static str>)
    ensures
        r@.len() == 4,
        r@[0]@ == "C:\\Windows\\Fonts\\deng.ttf"@,
        r@[1]@ == "C:\\Windows\\Fonts\\simhei.ttf"@,
        r@[2]@ == "C:\\Windows\\Fonts\\msyh.ttc"@,
        r@[3]@ == "C:\\Windows\\Fonts\\simsun.ttc"@,
{
    let mut r = Vec::new();
    r.push("C:\\Windows\\Fonts\\deng.ttf");
    r.push("C:\\Windows\\Fonts\\simhei.ttf");
    r.push("C:\\Windows\\Fonts\\msyh.ttc");
    r.push("C:\\Windows\\Fonts\\simsun.ttc");
    r
}

/// The bundled brand-font files tried in order.
pub fn brand_font_files() -> (r: Vec<&'static str>)
    ensures
        r@.len() == 3,
        r@[0]@ == "phigros.ttf"@,
        r@[1]@ == "font.ttf"@,
        r@[2]@ == "bold.ttf"@,
{
    let mut r = Vec::new();
    r.push("phigros.ttf");
    r.push("font.ttf");
    r.push("bold.ttf");
    r
}

// ---------------------------------------------------------------------------
// Images
// ---------------------------------------------------------------------------

/// An 8-bit RGBA image: `width * height` pixels, row by row, four bytes
/// each.
pub struct RgbaImage {
    width: u32,
    height: u32,
    pixels: Vec<u8>,
}

impl View for RgbaImage {
    type V = (u32, u32, Seq<u8>);

    closed spec fn view(&self) -> (u32, u32, Seq<u8>) {
        (self.width, self.height, self.pixels@)
    }
}

impl RgbaImage {
    /// There are exactly four bytes for each pixel.
    #[verifier::type_invariant]
    spec fn pixel_bytes_match(self) -> bool {
        self.pixels@.len() == 4 * (self.width as int) * (self.height as int)
    }

    /// The width in pixels.
    pub fn width(&self) -> (r: u32)
        ensures
            r == self@.0,
    {
        self.width
    }

    /// The height in pixels.
    pub fn height(&self) -> (r: u32)
        ensures
            r == self@.1,
    {
        self.height
    }

    /// The pixel bytes, row by row, four per pixel.
    pub fn into_pixels(self) -> (r: Vec<u8>)
        ensures
            r@ == self@.2,
            r@.len() == 4 * (self@.0 as int) * (self@.1 as int),
    {
        proof {
            use_type_invariant(&self);
        }
        self.pixels
    }
}

/// Names what the `image` crate decodes from an encoded image, converted to
/// 8-bit RGBA: (width, height, pixel bytes), or none when it cannot decode
/// the bytes.
pub uninterp spec fn spec_decode_rgba(bytes: Seq<u8>) -> Option<(u32, u32, Seq<u8>)>;

/// Decodes with `image::load_from_memory` and converts with
/// `DynamicImage::into_rgba8`, handing out the dimensions and the raw bytes.
/// The contract claims only that the result is the named decoding, the same
/// for the same bytes.
#[verifier::external_body]
fn decode_rgba_raw(bytes: &[u8]) -> (r: Option<(u32, u32, Vec<u8>)>)
    ensures
        r matches Some(t) ==> spec_decode_rgba(bytes@) == Some((t.0, t.1, t.2@)),
        r is None ==> spec_decode_rgba(bytes@) is None,
{
    match image::load_from_memory(bytes) {
        Ok(img) => {
            let rgba = img.into_rgba8();
            let (w, h) = rgba.dimensions();
            Some((w, h, rgba.into_raw()))
        },
        Err(_) => None,
    }
}

/// Decodes an encoded image (PNG, JPEG) into 8-bit RGBA; none when the
/// bytes do not decode, or decode to pixel data of the wrong length.
pub fn decode_rgba(bytes: &[u8]) -> (r: Option<RgbaImage>)
    ensures
        match spec_decode_rgba(bytes@) {
            Some((w, h, p)) => if p.len() == 4 * (w as int) * (h as int) {
                r matches Some(i) && i@ == (w, h, p)
            } else {
                r is None
            },
            None => r is None,
        },
{
    match decode_rgba_raw(bytes) {
        Some((w, h, pixels)) => {
            assert((w as int) * (h as int) <= 0xffff_ffff * 0xffff_ffff) by (nonlinear_arith)
                requires
                    0 <= w <= 0xffff_ffff,
                    0 <= h <= 0xffff_ffff,
            ;
            let area: u128 = (w as u128) * (h as u128);
            assert(4 * (area as int) == 4 * (w as int) * (h as int)) by (nonlinear_arith)
                requires
                    area as int == (w as int) * (h as int),
            ;
            if (pixels.len() as u128) == 4 * area {
                Some(RgbaImage { width: w, height: h, pixels })
            } else {
                None
            }
        },
        None => None,
    }
}

} // verus!
