//! The region rasteriser: a bitmap is described by an ordered list of
//! regions, each with a colour, over a background. A pixel takes the colour
//! of the first region that holds it.

use vstd::prelude::*;
use crate::geometry::{ellipse_contains, ellipse_test, rect_contains};

verus! {

/// A region given by one membership test.
#[derive(Clone, Copy, Debug)]
pub enum Primitive {
    /// The rectangle from `(x1, y1)` to `(x2, y2)`, ends included.
    Rect { x1: i32, y1: i32, x2: i32, y2: i32 },
    /// The ellipse about `(cx, cy)` with semi-axes `a` and `b`.
    Ellipse { cx: i32, cy: i32, a: i32, b: i32 },
}

/// A region: a primitive, a primitive tested at shifted coordinates, or a
/// combination of regions.
#[derive(Debug)]
pub enum Shape {
    /// The points of a primitive.
    Plain(Primitive),
    /// The points `(x, y)` for which the primitive holds `(x - dx, y - dy)`:
    /// the test coordinates are shifted, not the primitive.
    Offset { dx: i32, dy: i32, of: Primitive },
    /// The points of either region.
    Union(Box<Shape>, Box<Shape>),
    /// The points of both regions.
    Intersection(Box<Shape>, Box<Shape>),
    /// The points of the first region that are not in the second.
    Difference(Box<Shape>, Box<Shape>),
}

/// A region and the colour that it paints.
#[derive(Debug)]
pub struct Region {
    pub shape: Shape,
    pub color: u16,
}

/// An ordered list of regions, front-most first, over a background colour.
#[derive(Debug)]
pub struct RegionSet {
    pub regions: Vec<Region>,
    pub background: u16,
}

/// A rendered bitmap: `width * height` pixels, row by row. Once rendered it
/// does not change.
#[derive(Debug)]
pub struct Bitmap {
    width: u16,
    height: u16,
    pixels: Vec<u16>,
}

impl View for Bitmap {
    type V = Seq<u16>;

    /// The pixels, row by row.
    closed spec fn view(&self) -> Seq<u16> {
        self.pixels@
    }
}

/// Whether a primitive holds the point `(x, y)`.
pub open spec fn primitive_holds(p: Primitive, x: int, y: int) -> bool {
    match p {
        Primitive::Rect { x1, y1, x2, y2 } => rect_contains(
            x,
            y,
            x1 as int,
            y1 as int,
            x2 as int,
            y2 as int,
        ),
        Primitive::Ellipse { cx, cy, a, b } => ellipse_contains(
            x,
            y,
            cx as int,
            cy as int,
            a as int,
            b as int,
        ),
    }
}

/// Whether a region holds the point `(x, y)`.
pub open spec fn shape_holds(s: Shape, x: int, y: int) -> bool
    decreases s,
{
    match s {
        Shape::Plain(p) => primitive_holds(p, x, y),
        Shape::Offset { dx, dy, of } => primitive_holds(of, x - dx, y - dy),
        Shape::Union(l, r) => shape_holds(*l, x, y) || shape_holds(*r, x, y),
        Shape::Intersection(l, r) => shape_holds(*l, x, y) && shape_holds(*r, x, y),
        Shape::Difference(l, r) => shape_holds(*l, x, y) && !shape_holds(*r, x, y),
    }
}

/// The colour of `(x, y)` as decided by the regions from index `from` on:
/// that of the first one that holds the point, else the background.
pub open spec fn color_from(regions: Seq<Region>, background: u16, from: int, x: int, y: int) -> u16
    decreases regions.len() - from,
{
    if from < 0 || from >= regions.len() {
        background
    } else if shape_holds(regions[from].shape, x, y) {
        regions[from].color
    } else {
        color_from(regions, background, from + 1, x, y)
    }
}

/// Whether any region of the list holds `(x, y)`.
pub open spec fn covered(regions: Seq<Region>, x: int, y: int) -> bool {
    exists|i: int| 0 <= i < regions.len() && shape_holds(#[trigger] regions[i].shape, x, y)
}

impl RegionSet {
    /// The colour that the set gives the point `(x, y)`.
    pub open spec fn color_at(&self, x: int, y: int) -> u16 {
        color_from(self.regions@, self.background, 0, x, y)
    }
}

impl Bitmap {
    #[verifier::type_invariant]
    spec fn inv(self) -> bool {
        self.pixels@.len() == self.width * self.height
    }

    /// The number of pixels in a row.
    pub closed spec fn cols(&self) -> int {
        self.width as int
    }

    /// The number of rows.
    pub closed spec fn rows(&self) -> int {
        self.height as int
    }

    /// The pixel of the point `(x, y)`.
    pub open spec fn at(&self, x: int, y: int) -> u16 {
        self@[y * self.cols() + x]
    }
}

/// A point that none of the regions from `from` on holds has the background
/// colour.
pub proof fn lemma_uncovered_is_background(
    regions: Seq<Region>,
    background: u16,
    from: int,
    x: int,
    y: int,
)
    requires
        0 <= from,
        forall|i: int| from <= i < regions.len() ==> !shape_holds(#[trigger] regions[i].shape, x, y),
    ensures
        color_from(regions, background, from, x, y) == background,
    decreases regions.len() - from,
{
    if from < regions.len() {
        lemma_uncovered_is_background(regions, background, from + 1, x, y);
    }
}

/// The first region that holds a point decides its colour: the order of the
/// list is the order from front to back.
pub proof fn lemma_first_match_wins(
    regions: Seq<Region>,
    background: u16,
    from: int,
    hit: int,
    x: int,
    y: int,
)
    requires
        0 <= from <= hit < regions.len(),
        shape_holds(regions[hit].shape, x, y),
        forall|i: int| from <= i < hit ==> !shape_holds(#[trigger] regions[i].shape, x, y),
    ensures
        color_from(regions, background, from, x, y) == regions[hit].color,
    decreases hit - from,
{
    if from < hit {
        lemma_first_match_wins(regions, background, from + 1, hit, x, y);
    }
}

/// The background shows wherever no region is declared.
pub proof fn lemma_background_outside_regions(set: RegionSet, x: int, y: int)
    requires
        !covered(set.regions@, x, y),
    ensures
        set.color_at(x, y) == set.background,
{
    lemma_uncovered_is_background(set.regions@, set.background, 0, x, y);
}

impl Primitive {
    /// Whether the primitive holds `(x, y)`, for coordinates of up to 34 bits.
    fn holds(&self, x: i64, y: i64) -> (r: bool)
        requires
            -0x2_0000_0000 <= x <= 0x2_0000_0000,
            -0x2_0000_0000 <= y <= 0x2_0000_0000,
        ensures
            r == primitive_holds(*self, x as int, y as int),
    {
        match *self {
            Primitive::Rect { x1, y1, x2, y2 } => {
                x >= x1 as i64 && x <= x2 as i64 && y >= y1 as i64 && y <= y2 as i64
            },
            Primitive::Ellipse { cx, cy, a, b } => ellipse_test(x - cx as i64, y - cy as i64, a, b),
        }
    }
}

impl Shape {
    /// The rectangle from `(x1, y1)` to `(x2, y2)`, ends included.
    pub fn rect(x1: i32, y1: i32, x2: i32, y2: i32) -> (s: Shape)
        ensures
            s == Shape::Plain(Primitive::Rect { x1, y1, x2, y2 }),
            forall|x: int, y: int| #[trigger]
                shape_holds(s, x, y) == rect_contains(
                    x,
                    y,
                    x1 as int,
                    y1 as int,
                    x2 as int,
                    y2 as int,
                ),
    {
        Shape::Plain(Primitive::Rect { x1, y1, x2, y2 })
    }

    /// The ellipse about `(cx, cy)` with semi-axes `a` and `b`.
    pub fn ellipse(cx: i32, cy: i32, a: i32, b: i32) -> (s: Shape)
        ensures
            s == Shape::Plain(Primitive::Ellipse { cx, cy, a, b }),
            forall|x: int, y: int| #[trigger]
                shape_holds(s, x, y) == ellipse_contains(
                    x,
                    y,
                    cx as int,
                    cy as int,
                    a as int,
                    b as int,
                ),
    {
        Shape::Plain(Primitive::Ellipse { cx, cy, a, b })
    }

    /// The primitive `of`, tested at `(x - dx, y - dy)`.
    pub fn offset(dx: i32, dy: i32, of: Primitive) -> (s: Shape)
        ensures
            s == (Shape::Offset { dx, dy, of }),
            forall|x: int, y: int| #[trigger]
                shape_holds(s, x, y) == primitive_holds(of, x - dx, y - dy),
    {
        Shape::Offset { dx, dy, of }
    }

    /// The points of either region.
    pub fn union(self, other: Shape) -> (s: Shape)
        ensures
            s == Shape::Union(Box::new(self), Box::new(other)),
            forall|x: int, y: int| #[trigger]
                shape_holds(s, x, y) == (shape_holds(self, x, y) || shape_holds(other, x, y)),
    {
        Shape::Union(Box::new(self), Box::new(other))
    }

    /// The points of both regions.
    pub fn intersection(self, other: Shape) -> (s: Shape)
        ensures
            s == Shape::Intersection(Box::new(self), Box::new(other)),
            forall|x: int, y: int| #[trigger]
                shape_holds(s, x, y) == (shape_holds(self, x, y) && shape_holds(other, x, y)),
    {
        Shape::Intersection(Box::new(self), Box::new(other))
    }

    /// The points of this region that are not in `other`.
    pub fn difference(self, other: Shape) -> (s: Shape)
        ensures
            s == Shape::Difference(Box::new(self), Box::new(other)),
            forall|x: int, y: int| #[trigger]
                shape_holds(s, x, y) == (shape_holds(self, x, y) && !shape_holds(other, x, y)),
    {
        Shape::Difference(Box::new(self), Box::new(other))
    }

    /// Whether the region holds the point `(x, y)`.
    pub fn contains(&self, x: i32, y: i32) -> (r: bool)
        ensures
            r == shape_holds(*self, x as int, y as int),
        decreases self,
    {
        match self {
            Shape::Plain(p) => p.holds(x as i64, y as i64),
            Shape::Offset { dx, dy, of } => of.holds(x as i64 - *dx as i64, y as i64 - *dy as i64),
            Shape::Union(l, r) => l.contains(x, y) || r.contains(x, y),
            Shape::Intersection(l, r) => l.contains(x, y) && r.contains(x, y),
            Shape::Difference(l, r) => l.contains(x, y) && !r.contains(x, y),
        }
    }
}

impl RegionSet {
    /// A set without regions: every point has the background colour.
    pub fn new(background: u16) -> (set: Self)
        ensures
            set.regions@.len() == 0,
            set.background == background,
    {
        RegionSet { regions: Vec::new(), background }
    }

    /// Declares one more region, behind those declared so far.
    pub fn push(&mut self, shape: Shape, color: u16)
        ensures
            final(self).background == old(self).background,
            final(self).regions@ == old(self).regions@.push(Region { shape, color }),
    {
        self.regions.push(Region { shape, color });
    }

    /// The colour of the point `(x, y)`: that of the first region that holds
    /// it, or the background where none does.
    pub fn pixel_at(&self, x: i32, y: i32) -> (px: u16)
        ensures
            px == self.color_at(x as int, y as int),
            !covered(self.regions@, x as int, y as int) ==> px == self.background,
    {
        proof {
            if !covered(self.regions@, x as int, y as int) {
                lemma_background_outside_regions(*self, x as int, y as int);
            }
        }
        let mut i: usize = 0;
        while i < self.regions.len()
            invariant
                i <= self.regions.len(),
                self.color_at(x as int, y as int) == color_from(
                    self.regions@,
                    self.background,
                    i as int,
                    x as int,
                    y as int,
                ),
            decreases self.regions.len() - i,
        {
            if self.regions[i].shape.contains(x, y) {
                return self.regions[i].color;
            }
            i += 1;
        }
        self.background
    }
}

/// What a rendering of `set` holds: the pixel of each point of the frame is
/// the colour that the set gives the point.
pub open spec fn is_rendering(b: Bitmap, width: u16, height: u16, set: RegionSet) -> bool {
    &&& b.cols() == width
    &&& b.rows() == height
    &&& b@.len() == width * height
    &&& forall|x: int, y: int|
        0 <= x < width && 0 <= y < height ==> #[trigger] b.at(x, y) == set.color_at(x, y)
}

/// In a rendering, every point of the frame outside all regions has the
/// background colour.
pub proof fn lemma_rendering_background(b: Bitmap, width: u16, height: u16, set: RegionSet, x: int, y: int)
    requires
        is_rendering(b, width, height, set),
        0 <= x < width,
        0 <= y < height,
        !covered(set.regions@, x, y),
    ensures
        b.at(x, y) == set.background,
{
    lemma_background_outside_regions(set, x, y);
    assert(b.at(x, y) == set.color_at(x, y));
}

/// A rendering is determined by the set and the size of the frame: two
/// renderings of one set at one size hold the same pixels.
pub proof fn lemma_rendering_unique(a: Bitmap, b: Bitmap, width: u16, height: u16, set: RegionSet)
    requires
        is_rendering(a, width, height, set),
        is_rendering(b, width, height, set),
    ensures
        a@ == b@,
{
    assert forall|k: int| 0 <= k < a@.len() implies a@[k] == b@[k] by {
        let x = k % (width as int);
        let y = k / (width as int);
        if width == 0 {
            assert(width * height == 0) by (nonlinear_arith)
                requires
                    width == 0,
            ;
        } else {
            vstd::arithmetic::div_mod::lemma_fundamental_div_mod(k, width as int);
            vstd::arithmetic::div_mod::lemma_mod_bound(k, width as int);
            vstd::arithmetic::div_mod::lemma_div_pos_is_pos(k, width as int);
            assert(width * y == y * width) by (nonlinear_arith);
            if y >= height {
                assert(y * width >= height * width) by (nonlinear_arith)
                    requires
                        y >= height,
                        width >= 0,
                ;
            }
            assert(height * width == width * height) by (nonlinear_arith);
            assert(0 <= x < width && 0 <= y < height);
            assert(y * a.cols() + x == k);
            assert(y * b.cols() + x == k);
            assert(a.at(x, y) == set.color_at(x, y));
            assert(b.at(x, y) == set.color_at(x, y));
        }
    }
    assert(a@ =~= b@);
}

/// Renders the frame of `width` by `height` pixels that `set` describes.
pub fn render(width: u16, height: u16, set: &RegionSet) -> (b: Bitmap)
    ensures
        is_rendering(b, width, height, *set),
        forall|x: int, y: int|
            0 <= x < width && 0 <= y < height && !covered(set.regions@, x, y) ==> #[trigger] b.at(
                x,
                y,
            ) == set.background,
{
    let mut pixels: Vec<u16> = Vec::new();
    let mut y: u16 = 0;
    while y < height
        invariant
            y <= height,
            pixels@.len() == y * width,
            forall|k: int|
                0 <= k < pixels@.len() ==> #[trigger] pixels@[k] == set.color_at(
                    k % (width as int),
                    k / (width as int),
                ),
        decreases height - y,
    {
        let mut x: u16 = 0;
        while x < width
            invariant
                y < height,
                x <= width,
                pixels@.len() == y * width + x,
                forall|k: int|
                    0 <= k < pixels@.len() ==> #[trigger] pixels@[k] == set.color_at(
                        k % (width as int),
                        k / (width as int),
                    ),
            decreases width - x,
        {
            let px = set.pixel_at(x as i32, y as i32);
            proof {
                vstd::arithmetic::div_mod::lemma_fundamental_div_mod_converse(
                    y * width + x,
                    width as int,
                    y as int,
                    x as int,
                );
            }
            pixels.push(px);
            x += 1;
        }
        proof {
            assert(y * width + width == (y + 1) * width) by (nonlinear_arith);
        }
        y += 1;
    }
    assert(height * width == width * height) by (nonlinear_arith);
    let b = Bitmap { width, height, pixels };
    proof {
        assert forall|x: int, y: int| 0 <= x < width && 0 <= y < height implies #[trigger] b.at(
            x,
            y,
        ) == set.color_at(x, y) by {
            let k = y * width + x;
            vstd::arithmetic::div_mod::lemma_fundamental_div_mod_converse(k, width as int, y, x);
            assert(k < height * width) by (nonlinear_arith)
                requires
                    k == y * width + x,
                    0 <= x < width,
                    0 <= y < height,
            ;
            assert(0 <= k) by (nonlinear_arith)
                requires
                    k == y * width + x,
                    0 <= x,
                    0 <= y,
                    width >= 0,
            ;
        }
        assert forall|x: int, y: int|
            0 <= x < width && 0 <= y < height && !covered(set.regions@, x, y) implies #[trigger] b.at(
            x,
            y,
        ) == set.background by {
            lemma_rendering_background(b, width, height, *set, x, y);
        }
    }
    b
}

impl Bitmap {
    /// The number of pixels in a row.
    pub fn width(&self) -> (w: u16)
        ensures
            w == self.cols(),
    {
        self.width
    }

    /// The number of rows.
    pub fn height(&self) -> (h: u16)
        ensures
            h == self.rows(),
    {
        self.height
    }

    /// The pixels, row by row.
    pub fn pixels(&self) -> (p: &Vec<u16>)
        ensures
            p@ == self@,
            p@.len() == self.cols() * self.rows(),
    {
        proof {
            use_type_invariant(self);
        }
        &self.pixels
    }

    /// Gives up the bitmap for its pixels, row by row.
    pub fn into_pixels(self) -> (p: Vec<u16>)
        ensures
            p@ == self@,
            p@.len() == self.cols() * self.rows(),
    {
        proof {
            use_type_invariant(&self);
        }
        self.pixels
    }

    /// The pixel of the point `(x, y)` of the frame.
    pub fn get(&self, x: u16, y: u16) -> (px: u16)
        requires
            x < self.cols(),
            y < self.rows(),
        ensures
            px == self.at(x as int, y as int),
    {
        proof {
            use_type_invariant(self);
            assert(self.height * self.width == self.width * self.height) by (nonlinear_arith);
            assert(y * self.width + x < self.height * self.width) by (nonlinear_arith)
                requires
                    0 <= x < self.width,
                    0 <= y < self.height,
            ;
            assert(0 <= y * self.width <= 0xFFFF * 0xFFFF) by (nonlinear_arith)
                requires
                    0 <= y <= 0xFFFF,
                    0 <= self.width <= 0xFFFF,
            ;
        }
        let k: usize = (y as usize) * (self.width as usize) + (x as usize);
        self.pixels[k]
    }
}

} // verus!
