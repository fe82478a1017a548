//! The camera's discrete state: the size of the image, the order in which
//! its pixels are produced, and the bounce budget of a light path.

use vstd::prelude::*;
use vstd::string::*;
use crate::color::{decimal, to_decimal};
use crate::interval::Interval;
use crate::ordinal::to_u32;
use crate::thresholds::SHADOW_ACNE;

verus! {

/// The window in which a hit counts for a light path: above 0.001, and
/// below infinity.
pub open spec fn spec_hit_window() -> Interval {
    Interval { min: SHADOW_ACNE, max: i64::MAX }
}

/// The window in which a hit counts for a light path.
#[verifier::when_used_as_spec(spec_hit_window)]
pub fn hit_window() -> (r: Interval)
    ensures
        r == spec_hit_window(),
{
    Interval::new(SHADOW_ACNE, i64::MAX)
}

/// A place in the image: `column` counts from the left edge, `row` from the top.
#[derive(Clone, Copy, Debug, PartialEq, Eq, Structural)]
pub struct Pixel {
    pub column: u32,
    pub row: u32,
}

/// What became of a ray on one leg of its path, as the scene and the
/// material of the surface it hit report it.
#[derive(Clone, Copy, Debug, PartialEq, Eq, Structural)]
pub enum Bounce {
    /// The ray hit nothing.
    Miss,
    /// The ray hit a surface that did not scatter it.
    Absorbed,
    /// The ray hit a surface that scattered it.
    Scattered,
}

/// Where a light path stands. Its colour is the product of the attenuations
/// of its scattered legs, times the sky's colour where it escaped and times
/// black where it was absorbed or ran out of budget.
#[derive(Clone, Copy, Debug, PartialEq, Eq, Structural)]
pub enum Path {
    /// The path goes on: the scene is asked once more. After this leg the
    /// budget allows `remaining` more.
    Tracing { remaining: u32 },
    /// The budget ran out: black, and the scene is not asked.
    Exhausted,
    /// A surface absorbed the ray: black.
    Absorbed,
    /// The ray left the scene: the sky's colour.
    Escaped,
}

impl Path {
    /// A path with a budget of `depth` legs.
    pub open spec fn spec_start(depth: u32) -> Path {
        if depth == 0 {
            Path::Exhausted
        } else {
            Path::Tracing { remaining: (depth - 1) as u32 }
        }
    }

    /// Whether the path has ended.
    pub open spec fn spec_is_over(&self) -> bool {
        !(*self is Tracing)
    }

    /// The legs that the path may still take.
    pub open spec fn legs_left(self) -> nat {
        match self {
            Path::Tracing { remaining } => (remaining + 1) as nat,
            _ => 0,
        }
    }

    /// The path after one more leg. A path that has ended stays as it is.
    pub open spec fn spec_advance(self, bounce: Bounce) -> Path {
        match self {
            Path::Tracing { remaining } => match bounce {
                Bounce::Miss => Path::Escaped,
                Bounce::Absorbed => Path::Absorbed,
                Bounce::Scattered => Path::spec_start(remaining),
            },
            over => over,
        }
    }

    /// The path after the legs `bounces`, taken in order.
    pub open spec fn after(self, bounces: Seq<Bounce>) -> Path
        decreases bounces.len(),
    {
        if bounces.len() == 0 {
            self
        } else {
            self.spec_advance(bounces[0]).after(bounces.drop_first())
        }
    }

    /// Begins a path with a budget of `depth` legs. With no budget the path
    /// is over before the scene is asked.
    #[verifier::when_used_as_spec(spec_start)]
    pub fn start(depth: u32) -> (r: Path)
        ensures
            r == Path::spec_start(depth),
            r.legs_left() == depth,
            r.is_over() <==> depth == 0,
    {
        if depth == 0 {
            Path::Exhausted
        } else {
            Path::Tracing { remaining: depth - 1 }
        }
    }

    #[verifier::when_used_as_spec(spec_is_over)]
    pub fn is_over(&self) -> (r: bool)
        ensures
            r == self.spec_is_over(),
            r == (self.legs_left() == 0),
    {
        match *self {
            Path::Tracing { .. } => false,
            _ => true,
        }
    }

    /// Takes one leg. A miss ends the path in the sky and an absorption ends
    /// it in black; a scattered ray goes on with one leg less, and is
    /// exhausted when none is left. A path that has ended is returned as it is.
    #[verifier::when_used_as_spec(spec_advance)]
    pub fn advance(self, bounce: Bounce) -> (r: Path)
        ensures
            r == self.spec_advance(bounce),
            !self.is_over() ==> r.legs_left() < self.legs_left(),
            self.is_over() ==> r == self,
    {
        match self {
            Path::Tracing { remaining } => match bounce {
                Bounce::Miss => Path::Escaped,
                Bounce::Absorbed => Path::Absorbed,
                Bounce::Scattered => Path::start(remaining),
            },
            over => over,
        }
    }

    /// A path ends within its budget: after as many legs as it had left, or
    /// more, it is over, whatever the rays met.
    pub proof fn lemma_ends_within_budget(self, bounces: Seq<Bounce>)
        requires
            bounces.len() >= self.legs_left(),
        ensures
            self.after(bounces).is_over(),
        decreases bounces.len(),
    {
        if bounces.len() > 0 {
            self.spec_advance(bounces[0]).lemma_ends_within_budget(bounces.drop_first());
        }
    }

    /// A path that has ended takes no further leg: it stays as it is.
    pub proof fn lemma_over_is_final(self, bounces: Seq<Bounce>)
        requires
            self.is_over(),
        ensures
            self.after(bounces) == self,
        decreases bounces.len(),
    {
        if bounces.len() > 0 {
            self.spec_advance(bounces[0]).lemma_over_is_final(bounces.drop_first());
        }
    }

    /// A path whose ray is scattered on every leg of its budget ends
    /// exhausted: it carries no light.
    pub proof fn lemma_all_scattered_is_exhausted(depth: u32, bounces: Seq<Bounce>)
        requires
            bounces.len() == depth,
            forall|i: int| 0 <= i < bounces.len() ==> bounces[i] == Bounce::Scattered,
        ensures
            Path::start(depth).after(bounces) == Path::Exhausted,
        decreases depth,
    {
        if depth > 0 {
            let rest = bounces.drop_first();
            assert(bounces[0] == Bounce::Scattered);
            assert forall|i: int| 0 <= i < rest.len() implies rest[i] == Bounce::Scattered by {
                assert(rest[i] == bounces[i + 1]);
            }
            Self::lemma_all_scattered_is_exhausted((depth - 1) as u32, rest);
        }
    }

    /// Light comes from the sky alone: a path that ends escaped took a miss
    /// on one of its legs.
    pub proof fn lemma_escaped_took_a_miss(self, bounces: Seq<Bounce>)
        requires
            self != Path::Escaped,
            self.after(bounces) == Path::Escaped,
        ensures
            exists|i: int| 0 <= i < bounces.len() && bounces[i] == Bounce::Miss,
        decreases bounces.len(),
    {
        if bounces.len() > 0 {
            let next = self.spec_advance(bounces[0]);
            let rest = bounces.drop_first();
            if next == Path::Escaped {
                assert(bounces[0] == Bounce::Miss);
            } else {
                next.lemma_escaped_took_a_miss(rest);
                let i = choose|i: int| 0 <= i < rest.len() && rest[i] == Bounce::Miss;
                assert(bounces[i + 1] == Bounce::Miss);
            }
        }
    }
}

/// The integer side of a camera: what is fixed once by `setup` and read,
/// never changed, while an image is rendered.
#[derive(Clone, Copy, Debug, PartialEq, Eq, Structural)]
pub struct Camera {
    image_width: u32,
    image_height: u32,
    samples_per_pixel: u32,
    max_depth: u32,
}

impl Camera {
    #[verifier::type_invariant]
    spec fn has_a_row(self) -> bool {
        self.image_height >= 1
    }

    pub closed spec fn spec_image_width(&self) -> u32 {
        self.image_width
    }

    pub closed spec fn spec_image_height(&self) -> u32 {
        self.image_height
    }

    pub closed spec fn spec_samples_per_pixel(&self) -> u32 {
        self.samples_per_pixel
    }

    pub closed spec fn spec_max_depth(&self) -> u32 {
        self.max_depth
    }

    /// The height of an image for which the width divided by the aspect
    /// ratio is `quotient`: the quotient cut to a whole number, but never
    /// less than one row.
    pub open spec fn height_for(quotient: Option<i64>) -> u32 {
        if to_u32(quotient) < 1 {
            1
        } else {
            to_u32(quotient)
        }
    }

    /// The camera that `setup` makes of a configuration.
    pub closed spec fn configured(
        image_width: u32,
        quotient: Option<i64>,
        samples_per_pixel: u32,
        max_depth: u32,
    ) -> Camera {
        Camera {
            image_width,
            image_height: Self::height_for(quotient),
            samples_per_pixel,
            max_depth,
        }
    }

    /// Fixes the camera's state. `quotient` is the image width divided by
    /// the aspect ratio. The state is a function of the arguments: setting
    /// up twice from one configuration gives one state.
    pub fn setup(
        image_width: u32,
        quotient: Option<i64>,
        samples_per_pixel: u32,
        max_depth: u32,
    ) -> (r: Self)
        ensures
            r == Self::configured(image_width, quotient, samples_per_pixel, max_depth),
            r.image_width() == image_width,
            r.image_height() == Self::height_for(quotient),
            r.image_height() >= 1,
            r.samples_per_pixel() == samples_per_pixel,
            r.max_depth() == max_depth,
    {
        let floored: u32 = to_u32(quotient);
        let image_height: u32 = if floored < 1 {
            1
        } else {
            floored
        };
        Camera { image_width, image_height, samples_per_pixel, max_depth }
    }

    /// The number of pixels of the image.
    pub open spec fn spec_pixel_count(&self) -> u64 {
        (self.image_width() * self.image_height()) as u64
    }

    /// The pixel produced at place `k` of the rendering order: row after row
    /// from the top, and each row from the left.
    pub open spec fn spec_pixel(&self, k: int) -> Pixel {
        Pixel {
            column: (k % (self.image_width() as int)) as u32,
            row: (k / (self.image_width() as int)) as u32,
        }
    }

    /// Whether `pixel` lies in the image.
    pub open spec fn shows(&self, pixel: Pixel) -> bool {
        pixel.column < self.image_width() && pixel.row < self.image_height()
    }

    /// The head of the image's text: the line `P3`, a line with the width
    /// and the height in decimal, a space between them, and the line `255`.
    pub open spec fn spec_header(&self) -> Seq<char> {
        seq!['P', '3', '\n'] + decimal(self.image_width() as nat) + seq![' '] + decimal(
            self.image_height() as nat,
        ) + seq!['\n', '2', '5', '5', '\n']
    }

    /// Writes the head of the image's text. The pixels follow it, one line
    /// each, in the order of `pixel`.
    pub fn header(&self) -> (r: String)
        ensures
            r@ == self.spec_header(),
    {
        proof {
            reveal_strlit("P3\n");
            reveal_strlit(" ");
            reveal_strlit("\n255\n");
            assert("P3\n"@ =~= seq!['P', '3', '\n']);
            assert(" "@ =~= seq![' ']);
            assert("\n255\n"@ =~= seq!['\n', '2', '5', '5', '\n']);
        }
        let mut text = "P3\n".to_owned();
        text.append(to_decimal(self.image_width as u64).as_str());
        text.append(" ");
        text.append(to_decimal(self.image_height as u64).as_str());
        text.append("\n255\n");
        text
    }

    #[verifier::when_used_as_spec(spec_pixel_count)]
    pub fn pixel_count(&self) -> (r: u64)
        ensures
            r == self.image_width() * self.image_height(),
            r == self.spec_pixel_count(),
    {
        let width: u64 = self.image_width as u64;
        let height: u64 = self.image_height as u64;
        assert(width * height <= 0xFFFF_FFFF * 0xFFFF_FFFF) by (nonlinear_arith)
            requires
                width <= 0xFFFF_FFFF,
                height <= 0xFFFF_FFFF,
        ;
        width * height
    }

    /// The pixel at place `k` of the rendering order, or `None` when the
    /// image has no such place.
    pub fn pixel(&self, k: u64) -> (r: Option<Pixel>)
        ensures
            r is Some <==> k < self.pixel_count(),
            r matches Some(pixel) ==> {
                &&& pixel == self.spec_pixel(k as int)
                &&& self.shows(pixel)
                &&& k == pixel.row * self.image_width() + pixel.column
            },
    {
        if k >= self.pixel_count() {
            return None;
        }
        let width: u64 = self.image_width as u64;
        proof {
            self.lemma_pixel_in_image(k as int);
        }
        let column: u64 = k % width;
        let row: u64 = k / width;
        Some(Pixel { column: column as u32, row: row as u32 })
    }

    /// Every place of the rendering order is a pixel of the image, and the
    /// place is the pixel's row times the width plus its column.
    pub proof fn lemma_pixel_in_image(&self, k: int)
        requires
            0 <= k < self.pixel_count(),
        ensures
            self.image_width() > 0,
            self.shows(self.spec_pixel(k)),
            0 <= k % (self.image_width() as int) < self.image_width(),
            0 <= k / (self.image_width() as int) < self.image_height(),
            k == self.spec_pixel(k).row * self.image_width() + self.spec_pixel(k).column,
    {
        let w = self.image_width() as int;
        let h = self.image_height() as int;
        assert(w * h <= 0xFFFF_FFFF * 0xFFFF_FFFF) by (nonlinear_arith)
            requires
                0 <= w <= 0xFFFF_FFFF,
                0 <= h <= 0xFFFF_FFFF,
        ;
        assert(w > 0) by (nonlinear_arith)
            requires
                0 <= k < w * h,
                w >= 0,
        ;
        assert(0 <= k % w < w && k == (k / w) * w + k % w) by (nonlinear_arith)
            requires
                w > 0,
        ;
        assert(0 <= k / w < h) by (nonlinear_arith)
            requires
                w > 0,
                0 <= k < w * h,
                k == (k / w) * w + k % w,
                0 <= k % w < w,
        ;
    }

    /// Every pixel of the image has exactly one place in the rendering
    /// order: its row times the width plus its column.
    pub proof fn lemma_every_pixel_once(&self, pixel: Pixel)
        requires
            self.shows(pixel),
        ensures
            0 <= pixel.row * self.image_width() + pixel.column < self.pixel_count(),
            self.spec_pixel(pixel.row * self.image_width() + pixel.column) == pixel,
            forall|k: int|
                0 <= k < self.pixel_count() && self.spec_pixel(k) == pixel ==> k == pixel.row
                    * self.image_width() + pixel.column,
    {
        let w = self.image_width() as int;
        let h = self.image_height() as int;
        let c = pixel.column as int;
        let r = pixel.row as int;
        assert(w * h <= 0xFFFF_FFFF * 0xFFFF_FFFF) by (nonlinear_arith)
            requires
                0 <= w <= 0xFFFF_FFFF,
                0 <= h <= 0xFFFF_FFFF,
        ;
        assert(0 <= r * w + c < w * h) by (nonlinear_arith)
            requires
                0 <= c < w,
                0 <= r < h,
        ;
        assert((r * w + c) / w == r && (r * w + c) % w == c) by {
            vstd::arithmetic::div_mod::lemma_fundamental_div_mod_converse(r * w + c, w, r, c);
        }
        assert forall|k: int| 0 <= k < self.pixel_count() && self.spec_pixel(k) == pixel implies k
            == r * w + c by {
            assert(0 <= k % w < w && k == (k / w) * w + k % w) by (nonlinear_arith)
                requires
                    w > 0,
            ;
            assert(0 <= k / w < h) by (nonlinear_arith)
                requires
                    w > 0,
                    0 <= k < w * h,
                    k == (k / w) * w + k % w,
                    0 <= k % w < w,
            ;
        }
    }

    /// Rows come top to bottom and, within a row, columns left to right: of
    /// two places, the earlier one holds a pixel of a higher row, or of the
    /// same row and further left.
    pub proof fn lemma_scanline_order(&self, j: int, k: int)
        requires
            0 <= j < k < self.pixel_count(),
        ensures
            self.spec_pixel(j).row < self.spec_pixel(k).row || (self.spec_pixel(j).row
                == self.spec_pixel(k).row && self.spec_pixel(j).column < self.spec_pixel(
                k,
            ).column),
    {
        let w = self.image_width() as int;
        self.lemma_pixel_in_image(j);
        self.lemma_pixel_in_image(k);
        assert(j / w <= k / w) by (nonlinear_arith)
            requires
                w > 0,
                0 <= j < k,
                j == (j / w) * w + j % w,
                k == (k / w) * w + k % w,
                0 <= j % w < w,
                0 <= k % w < w,
        ;
    }

    #[verifier::when_used_as_spec(spec_image_width)]
    pub fn image_width(&self) -> (r: u32)
        ensures
            r == self.image_width(),
    {
        self.image_width
    }

    #[verifier::when_used_as_spec(spec_image_height)]
    pub fn image_height(&self) -> (r: u32)
        ensures
            r == self.image_height(),
            r >= 1,
    {
        proof {
            use_type_invariant(self);
        }
        self.image_height
    }

    #[verifier::when_used_as_spec(spec_samples_per_pixel)]
    pub fn samples_per_pixel(&self) -> (r: u32)
        ensures
            r == self.samples_per_pixel(),
    {
        self.samples_per_pixel
    }

    #[verifier::when_used_as_spec(spec_max_depth)]
    pub fn max_depth(&self) -> (r: u32)
        ensures
            r == self.max_depth(),
    {
        self.max_depth
    }
}

} // verus!
