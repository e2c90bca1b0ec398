use vstd::prelude::*;
use vstd::string::StringExecFns;
use svg::node::element::{Circle, SVG};
use crate::config::{HalftoneStyle, PixelatorConfig, RenderMode};
use crate::decimal::{decimal, micro_string, micro_text, push_decimal, push_micro};
use crate::error::Result;
use crate::processor::{PixelData, LUMA_FULL};
use crate::raster::Rgba;

verus! {

/// Attribute names and values of an element, as text.
pub type Attributes = Map<Seq<char>, Seq<char>>;

/// The root `svg` element of the `svg` crate.
#[verifier::external_type_specification]
#[verifier::external_body]
pub struct ExSvg(SVG);

/// The `circle` element of the `svg` crate.
#[verifier::external_type_specification]
#[verifier::external_body]
pub struct ExCircle(Circle);

/// The attributes that a root element holds.
pub uninterp spec fn svg_attributes(d: SVG) -> Map<Seq<char>, Seq<char>>;

/// The attributes of each circle that a root element holds, in order.
pub uninterp spec fn svg_children(d: SVG) -> Seq<Map<Seq<char>, Seq<char>>>;

/// The attributes that a circle element holds.
pub uninterp spec fn circle_attributes(c: Circle) -> Map<Seq<char>, Seq<char>>;

/// The markup of a root element with these attributes and these circles.
pub uninterp spec fn svg_markup(attrs: Map<Seq<char>, Seq<char>>, circles: Seq<Map<Seq<char>, Seq<char>>>) -> Seq<char>;

/// Relies on `svg::node::element::SVG::new`: an element that holds the
/// `xmlns` attribute of SVG and no child.
#[verifier::external_body]
fn svg_new() -> (r: SVG)
    ensures
        svg_attributes(r) == Attributes::empty().insert(
            "xmlns"@,
            "http://www.w3.org/2000/svg"@,
        ),
        svg_children(r) == Seq::<Attributes>::empty(),
{
    SVG::new()
}

/// Relies on `SVG::set`: the attribute is inserted, replacing any of that
/// name; the children stay.
#[verifier::external_body]
fn svg_set(d: SVG, name: &str, value: &str) -> (r: SVG)
    ensures
        svg_attributes(r) == svg_attributes(d).insert(name@, value@),
        svg_children(r) == svg_children(d),
{
    d.set(name, value)
}

/// Relies on `SVG::add`: the circle is appended to the children.
#[verifier::external_body]
fn svg_add(d: SVG, c: Circle) -> (r: SVG)
    ensures
        svg_attributes(r) == svg_attributes(d),
        svg_children(r) == svg_children(d).push(circle_attributes(c)),
{
    d.add(c)
}

/// Relies on `Display` for `SVG`: the markup depends on the attributes and
/// the children alone (attributes are written sorted by name).
#[verifier::external_body]
fn svg_to_text(d: &SVG) -> (r: String)
    ensures
        r@ == svg_markup(svg_attributes(*d), svg_children(*d)),
{
    d.to_string()
}

/// Relies on `svg::node::element::Circle::new`: an element with no attribute.
#[verifier::external_body]
fn circle_new() -> (r: Circle)
    ensures
        circle_attributes(r) == Attributes::empty(),
{
    Circle::new()
}

/// Relies on `Circle::set`: the attribute is inserted, replacing any of that name.
#[verifier::external_body]
fn circle_set(c: Circle, name: &str, value: &str) -> (r: Circle)
    ensures
        circle_attributes(r) == circle_attributes(c).insert(name@, value@),
{
    c.set(name, value)
}

/// Halftone dots smaller than half a pixel (in the unit of
/// `PixelData::dot_size`) are not drawn.
pub const MIN_DRAWN_DOT: u64 = 500 * LUMA_FULL;

/// Fill color text of a color: `rgb(R,G,B)`.
pub open spec fn rgb_text(c: Rgba) -> Seq<char> {
    "rgb("@ + decimal(c.r as nat) + ","@ + decimal(c.g as nat) + ","@ + decimal(c.b as nat) + ")"@
}

/// Opacity text of an alpha value: `alpha / 255`, to the millionth.
pub open spec fn opacity_text(a: u8) -> Seq<char> {
    micro_text((a * 1_000_000 / 255) as nat)
}

/// Declared size of the canvas along one axis: the physical size in
/// millimetres where one is configured, else the raster's size in pixels.
pub open spec fn size_text(mm: Option<u32>, px: u32) -> Seq<char> {
    match mm {
        Some(v) => micro_text((v * 1000) as nat) + "mm"@,
        None => decimal(px as nat),
    }
}

/// Background of the document: the configured one in color mode, the
/// style's paper in halftone mode.
pub open spec fn background(cfg: PixelatorConfig) -> Option<Seq<char>> {
    match cfg.render_mode {
        RenderMode::Color => match cfg.background_color {
            Some(b) => Some(b@),
            None => None,
        },
        RenderMode::Halftone(HalftoneStyle::BlackOnWhite) => Some("white"@),
        RenderMode::Halftone(HalftoneStyle::WhiteOnBlack) => Some("black"@),
    }
}

/// Ink of the halftone dots of a style.
pub open spec fn dot_color(style: HalftoneStyle) -> Seq<char> {
    match style {
        HalftoneStyle::BlackOnWhite => "black"@,
        HalftoneStyle::WhiteOnBlack => "white"@,
    }
}

/// `viewBox` of a raster: `0 0 W H`.
pub open spec fn view_box_text(w: u32, h: u32) -> Seq<char> {
    "0 0 "@ + decimal(w as nat) + " "@ + decimal(h as nat)
}

/// Attributes of the root element for a raster of `w` by `h` pixels.
pub open spec fn canvas_attributes(cfg: PixelatorConfig, w: u32, h: u32) -> Attributes {
    let base = Attributes::empty().insert("xmlns"@, "http://www.w3.org/2000/svg"@).insert(
        "width"@,
        size_text(cfg.output_width_mm, w),
    ).insert("height"@, size_text(cfg.output_height_mm, h)).insert("viewBox"@, view_box_text(w, h)).insert(
        "xmlns:xlink"@,
        "http://www.w3.org/1999/xlink"@,
    );
    match background(cfg) {
        Some(b) => base.insert("style"@, "background-color: "@ + b),
        None => base,
    }
}

/// The circle drawn for a sample, if any: in color mode a circle of the
/// configured diameter in the sample's color and opacity; in halftone mode
/// a dot of the sample's size in the style's ink, unless it is smaller than
/// half a pixel.
pub open spec fn circle_of(cfg: PixelatorConfig, p: PixelData) -> Option<Attributes> {
    match cfg.render_mode {
        RenderMode::Color => Some(
            Attributes::empty().insert("cx"@, micro_text(p.x as nat)).insert("cy"@, micro_text(p.y as nat)).insert(
                "r"@,
                micro_text((cfg.circle_diameter * 500) as nat),
            ).insert("fill"@, rgb_text(p.color)).insert("fill-opacity"@, opacity_text(p.color.a)),
        ),
        RenderMode::Halftone(style) => if p.dot_size < MIN_DRAWN_DOT {
            None
        } else {
            Some(
                Attributes::empty().insert("cx"@, micro_text(p.x as nat)).insert("cy"@, micro_text(p.y as nat)).insert(
                    "r"@,
                    micro_text((p.dot_size * 500 / (LUMA_FULL as int)) as nat),
                ).insert("fill"@, dot_color(style)),
            )
        },
    }
}

/// The circles drawn for a sequence of samples, in order.
pub open spec fn circles(cfg: PixelatorConfig, ps: Seq<PixelData>) -> Seq<Attributes>
    decreases ps.len(),
{
    if ps.len() == 0 {
        Seq::empty()
    } else {
        let prev = circles(cfg, ps.drop_last());
        match circle_of(cfg, ps.last()) {
            Some(c) => prev.push(c),
            None => prev,
        }
    }
}

/// The document text for samples `ps` of a `w` by `h` raster.
pub open spec fn document_text(cfg: PixelatorConfig, ps: Seq<PixelData>, w: u32, h: u32) -> Seq<char> {
    svg_markup(canvas_attributes(cfg, w, h), circles(cfg, ps))
}

/// The fill color text of a color.
fn rgb_string(c: &Rgba) -> (r: String)
    ensures
        r@ == rgb_text(*c),
{
    let mut s = String::new();
    s.append("rgb(");
    push_decimal(&mut s, c.r as u64);
    s.append(",");
    push_decimal(&mut s, c.g as u64);
    s.append(",");
    push_decimal(&mut s, c.b as u64);
    s.append(")");
    proof {
        assert(s@ =~= rgb_text(*c));
    }
    s
}

/// The declared size of the canvas along one axis.
fn size_string(mm: Option<u32>, px: u32) -> (r: String)
    ensures
        r@ == size_text(mm, px),
{
    let mut s = String::new();
    match mm {
        Some(v) => {
            push_micro(&mut s, v as u64 * 1000);
            s.append("mm");
        },
        None => push_decimal(&mut s, px as u64),
    }
    proof {
        assert(s@ =~= size_text(mm, px));
    }
    s
}

/// The `viewBox` text of a raster.
fn view_box_string(w: u32, h: u32) -> (r: String)
    ensures
        r@ == view_box_text(w, h),
{
    let mut s = String::new();
    s.append("0 0 ");
    push_decimal(&mut s, w as u64);
    s.append(" ");
    push_decimal(&mut s, h as u64);
    proof {
        assert(s@ =~= view_box_text(w, h));
    }
    s
}

/// Generates the vector document from sampled pixel data.
pub struct SvgGenerator<'a> {
    pub config: &'a PixelatorConfig,
}

impl<'a> SvgGenerator<'a> {
    /// Creates a generator with the given configuration.
    pub fn new(config: &'a PixelatorConfig) -> (r: Self)
        ensures
            r.config == config,
    {
        SvgGenerator { config }
    }

    /// The circle drawn for a sample, if any.
    fn circle(&self, p: &PixelData) -> (r: Option<Circle>)
        ensures
            match circle_of(*self.config, *p) {
                Some(m) => r matches Some(c) && circle_attributes(c) == m,
                None => r is None,
            },
    {
        let cfg = self.config;
        let radius = match cfg.render_mode {
            RenderMode::Color => micro_string(cfg.circle_diameter as u64 * 500),
            RenderMode::Halftone(_) => {
                if p.dot_size < MIN_DRAWN_DOT {
                    return None;
                }
                let q = p.dot_size / LUMA_FULL;
                let m = p.dot_size % LUMA_FULL;
                proof {
                    vstd::arithmetic::div_mod::lemma_fundamental_div_mod(p.dot_size as int, LUMA_FULL as int);
                    assert((p.dot_size * 500) / (LUMA_FULL as int) == q * 500 + (m * 500) / (LUMA_FULL as int)) by {
                        vstd::arithmetic::div_mod::lemma_fundamental_div_mod_converse(
                            p.dot_size * 500,
                            LUMA_FULL as int,
                            q * 500 + (m * 500) / (LUMA_FULL as int),
                            (m * 500) % (LUMA_FULL as int),
                        );
                        vstd::arithmetic::div_mod::lemma_fundamental_div_mod(m * 500, LUMA_FULL as int);
                    }
                }
                micro_string(q * 500 + m * 500 / LUMA_FULL)
            },
        };
        let c = circle_new();
        let c = circle_set(c, "cx", micro_string(p.x).as_str());
        let c = circle_set(c, "cy", micro_string(p.y).as_str());
        let c = circle_set(c, "r", radius.as_str());
        match cfg.render_mode {
            RenderMode::Color => {
                let c = circle_set(c, "fill", rgb_string(&p.color).as_str());
                let c = circle_set(c, "fill-opacity", micro_string(p.color.a as u64 * 1_000_000 / 255).as_str());
                Some(c)
            },
            RenderMode::Halftone(style) => {
                let ink = match style {
                    HalftoneStyle::BlackOnWhite => "black",
                    HalftoneStyle::WhiteOnBlack => "white",
                };
                Some(circle_set(c, "fill", ink))
            },
        }
    }

    /// Generates the vector document for samples of a raster of
    /// `original_width` by `original_height` pixels. The `viewBox` spans the
    /// raster in pixels; the declared size is the configured physical size,
    /// where there is one.
    pub fn generate_svg(&self, pixels: &[PixelData], original_width: u32, original_height: u32) -> (r: Result<String>)
        ensures
            r matches Ok(t) && t@ == document_text(*self.config, pixels@, original_width, original_height),
    {
        let cfg = self.config;
        let mut doc = svg_new();
        doc = svg_set(doc, "width", size_string(cfg.output_width_mm, original_width).as_str());
        doc = svg_set(doc, "height", size_string(cfg.output_height_mm, original_height).as_str());
        doc = svg_set(doc, "viewBox", view_box_string(original_width, original_height).as_str());
        doc = svg_set(doc, "xmlns:xlink", "http://www.w3.org/1999/xlink");
        let background: Option<String> = match cfg.render_mode {
            RenderMode::Color => match &cfg.background_color {
                Some(b) => Some(b.clone()),
                None => None,
            },
            RenderMode::Halftone(HalftoneStyle::BlackOnWhite) => Some(String::from_str("white")),
            RenderMode::Halftone(HalftoneStyle::WhiteOnBlack) => Some(String::from_str("black")),
        };
        match background {
            Some(b) => {
                let mut style = String::from_str("background-color: ");
                style.append(b.as_str());
                doc = svg_set(doc, "style", style.as_str());
            },
            None => {},
        }
        let ghost attrs = canvas_attributes(*cfg, original_width, original_height);
        assert(svg_attributes(doc) == attrs);
        let mut i: usize = 0;
        while i < pixels.len()
            invariant
                i <= pixels@.len(),
                svg_attributes(doc) == attrs,
                svg_children(doc) == circles(*self.config, pixels@.take(i as int)),
            decreases pixels@.len() - i,
        {
            proof {
                assert(pixels@.take(i + 1).drop_last() =~= pixels@.take(i as int));
                assert(pixels@.take(i + 1).last() == pixels@[i as int]);
            }
            match self.circle(&pixels[i]) {
                Some(c) => {
                    doc = svg_add(doc, c);
                },
                None => {},
            }
            i = i + 1;
        }
        assert(pixels@.take(i as int) =~= pixels@);
        Ok(svg_to_text(&doc))
    }
}

/// An empty sample sequence gives a document without circles whose root
/// still declares its size and its `viewBox`.
pub proof fn lemma_empty_document(cfg: PixelatorConfig, w: u32, h: u32)
    ensures
        circles(cfg, Seq::<PixelData>::empty()).len() == 0,
        canvas_attributes(cfg, w, h)["width"@] == size_text(cfg.output_width_mm, w),
        canvas_attributes(cfg, w, h)["height"@] == size_text(cfg.output_height_mm, h),
        canvas_attributes(cfg, w, h)["viewBox"@] == view_box_text(w, h),
        canvas_attributes(cfg, w, h)["xmlns"@] == "http://www.w3.org/2000/svg"@,
{
    reveal_strlit("width");
    reveal_strlit("height");
    reveal_strlit("viewBox");
    reveal_strlit("xmlns");
    reveal_strlit("xmlns:xlink");
    reveal_strlit("style");
    let base = Attributes::empty().insert("xmlns"@, "http://www.w3.org/2000/svg"@).insert(
        "width"@,
        size_text(cfg.output_width_mm, w),
    ).insert("height"@, size_text(cfg.output_height_mm, h)).insert("viewBox"@, view_box_text(w, h)).insert(
        "xmlns:xlink"@,
        "http://www.w3.org/1999/xlink"@,
    );
    assert("style"@[0] != "width"@[0]);
    assert("style"@ != "width"@);
    assert("style"@.len() != "height"@.len());
    assert("style"@ != "height"@);
    assert("style"@ != "viewBox"@);
    assert("style"@[0] != "xmlns"@[0]);
    assert("style"@ != "xmlns"@);
    assert("xmlns:xlink"@ != "width"@);
    assert("xmlns:xlink"@ != "height"@);
    assert("xmlns:xlink"@.len() != "viewBox"@.len());
    assert("xmlns:xlink"@ != "viewBox"@);
    assert("xmlns:xlink"@.len() != "xmlns"@.len());
    assert("xmlns:xlink"@ != "xmlns"@);
    assert("viewBox"@ != "width"@);
    assert("viewBox"@ != "height"@);
    assert("viewBox"@ != "xmlns"@);
    assert("height"@ != "width"@);
    assert("height"@ != "xmlns"@);
    assert("width"@[0] != "xmlns"@[0]);
    assert("width"@ != "xmlns"@);
}

/// In color mode, samples that share one color give one circle each, all
/// filled with that color's text.
pub proof fn lemma_shared_color_circles(cfg: PixelatorConfig, ps: Seq<PixelData>, c: Rgba)
    requires
        cfg.render_mode == RenderMode::Color,
        forall|i: int| 0 <= i < ps.len() ==> #[trigger] ps[i].color == c,
    ensures
        circles(cfg, ps).len() == ps.len(),
        forall|i: int| 0 <= i < ps.len() ==> #[trigger] circles(cfg, ps)[i]["fill"@] == rgb_text(c),
    decreases ps.len(),
{
    reveal_strlit("fill");
    reveal_strlit("fill-opacity");
    assert("fill"@.len() != "fill-opacity"@.len());
    assert("fill"@ != "fill-opacity"@);
    if ps.len() > 0 {
        let prev = ps.drop_last();
        assert forall|i: int| 0 <= i < prev.len() implies #[trigger] prev[i].color == c by {
            assert(prev[i] == ps[i]);
        }
        lemma_shared_color_circles(cfg, prev, c);
        assert(ps.last() == ps[ps.len() - 1]);
        assert forall|i: int| 0 <= i < ps.len() implies #[trigger] circles(cfg, ps)[i]["fill"@] == rgb_text(c) by {
            if i < prev.len() {
                assert(circles(cfg, ps)[i] == circles(cfg, prev)[i]);
            }
        }
    }
}

} // verus!
