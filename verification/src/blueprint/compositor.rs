//! Painting the layers of a template onto its canvas.

use vstd::prelude::*;

use crate::blueprint::imaging::{
    blended, encode_png, overlaid, overlay_image, png_of, resizable, resize_image,
};
use crate::blueprint::bindings::{bound, Binding};
use crate::blueprint::locator::Locator;
use crate::blueprint::raster::{
    faded, framed, lemma_framed_pixel, lemma_offset_bounds, lemma_same_pixels,
    lemma_zero_fade_hides, transparent, Raster, RasterView,
};
use crate::models::templates::{
    Degrees, Layer, LayerView, Scale, Template, Transform, FULL_TURN, UNIT,
};

verus! {

/// The length of the diagonal of a `width` by `height` rectangle, rounded
/// up: the least `side` whose square reaches `width² + height²`.
pub open spec fn is_diagonal(width: int, height: int, side: int) -> bool {
    &&& 0 <= side
    &&& side * side >= width * width + height * height
    &&& side > 0 ==> (side - 1) * (side - 1) < width * width + height * height
}

/// The diagonal is no shorter than either side.
pub proof fn lemma_diagonal_spans(width: int, height: int, side: int)
    requires
        0 <= width,
        0 <= height,
        is_diagonal(width, height, side),
    ensures
        width <= side,
        height <= side,
{
    if side < width {
        assert(side * side < width * width + height * height) by (nonlinear_arith)
            requires
                0 <= side < width,
        ;
    }
    if side < height {
        assert(side * side < width * width + height * height) by (nonlinear_arith)
            requires
                0 <= side < height,
        ;
    }
}

/// The diagonal of a `width` by `height` rectangle, rounded up.
pub fn diagonal(width: u32, height: u32) -> (side: u64)
    ensures
        is_diagonal(width as int, height as int, side as int),
        side <= width + height,
{
    let w = width as u128;
    let h = height as u128;
    assert(w * w <= 0xffff_ffff * 0xffff_ffff && h * h <= 0xffff_ffff * 0xffff_ffff) by (nonlinear_arith)
        requires
            0 <= w <= 0xffff_ffff,
            0 <= h <= 0xffff_ffff,
    ;
    let target: u128 = w * w + h * h;
    let mut low: u64 = 0;
    let mut high: u64 = width as u64 + height as u64;
    assert(high * high >= target) by (nonlinear_arith)
        requires
            high == w + h,
            target == w * w + h * h,
            0 <= w,
            0 <= h,
    ;
    while low < high
        invariant
            low <= high <= width + height,
            high * high >= target,
            low > 0 ==> (low - 1) * (low - 1) < target,
            target == width * width + height * height,
        decreases high - low,
    {
        let middle: u64 = low + (high - low) / 2;
        assert(middle * middle <= 0x1_ffff_fffe * 0x1_ffff_fffe) by (nonlinear_arith)
            requires
                0 <= middle <= 0x1_ffff_fffe,
        ;
        let square: u128 = middle as u128 * middle as u128;
        if square >= target {
            high = middle;
        } else {
            low = middle + 1;
        }
    }
    high
}

/// The diagonal is one number.
pub proof fn lemma_diagonal_unique(width: int, height: int, one: int, other: int)
    requires
        is_diagonal(width, height, one),
        is_diagonal(width, height, other),
    ensures
        one == other,
{
    if one < other {
        assert(one * one <= (other - 1) * (other - 1)) by (nonlinear_arith)
            requires
                0 <= one <= other - 1,
        ;
    }
    if other < one {
        assert(other * other <= (one - 1) * (one - 1)) by (nonlinear_arith)
            requires
                0 <= other <= one - 1,
        ;
    }
}

/// The side of the square on which a `width` by `height` raster can turn
/// without losing a pixel: its diagonal, rounded up.
pub open spec fn square_side(width: nat, height: nat) -> int {
    choose|side: int| is_diagonal(width as int, height as int, side)
}

/// The column (or row) at which the smaller of two rasters begins when the
/// midpoints of both are to meet.
pub open spec fn centred(outer: nat, inner: nat) -> int {
    outer / 2 - inner / 2
}

/// A number kept within 64 bits.
pub open spec fn clamped(value: int) -> int {
    if value < i64::MIN {
        i64::MIN as int
    } else if value > i64::MAX {
        i64::MAX as int
    } else {
        value
    }
}

/// The length of a side of `side` pixels after scaling, cut off below and
/// kept within 32 bits.
pub open spec fn scaled_side(side: nat, scale: Scale) -> nat {
    if side * scale.0 / (UNIT as int) > u32::MAX {
        u32::MAX as nat
    } else {
        (side * scale.0 / (UNIT as int)) as nat
    }
}

/// The raster `back` with `top` blended over it, the corner of `top` at
/// `(x, y)`.
pub open spec fn over(back: RasterView, top: RasterView, x: int, y: int) -> RasterView {
    RasterView { width: back.width, height: back.height, pixels: overlaid(back, top, x, y) }
}

/// The raster in the middle of an empty square whose side is the raster's
/// diagonal, so that a turn about the centre loses nothing. Every pixel of
/// the raster is in the square as it was.
pub open spec fn squared(image: RasterView) -> RasterView {
    let side = square_side(image.width, image.height) as nat;
    framed(
        image,
        side,
        side,
        centred(side, image.width) as nat,
        centred(side, image.height) as nat,
    )
}

/// The square holds the raster in its middle and nothing else: its side is
/// the raster's diagonal, every pixel of the raster lies in it unchanged,
/// moved by one offset, and every other pixel of the square is four bytes
/// of 0.
pub open spec fn recentred(image: RasterView, square: RasterView) -> bool {
    let left = centred(square.width, image.width);
    let top = centred(square.height, image.height);
    &&& square.wf()
    &&& square.height == square.width
    &&& is_diagonal(image.width as int, image.height as int, square.width as int)
    &&& 0 <= left
    &&& left + image.width <= square.width
    &&& 0 <= top
    &&& top + image.height <= square.height
    &&& forall|x: int, y: int|
        square.covers(x, y) ==> #[trigger] square.pixel(x, y) == if image.covers(x - left, y - top) {
            image.pixel(x - left, y - top)
        } else {
            seq![0u8, 0u8, 0u8, 0u8]
        }
}

/// Every rectangle has a diagonal: below any side that reaches across it
/// lies the least one that does.
pub proof fn lemma_diagonal_exists(width: int, height: int, reach: int)
    requires
        0 <= reach,
        reach * reach >= width * width + height * height,
    ensures
        exists|side: int| is_diagonal(width, height, side),
    decreases reach,
{
    if reach > 0 && (reach - 1) * (reach - 1) >= width * width + height * height {
        lemma_diagonal_exists(width, height, reach - 1);
    } else {
        assert(is_diagonal(width, height, reach));
    }
}

/// Centring a raster on its square crops nothing, whatever the raster and
/// whatever the turn that follows: the square's side is the raster's
/// diagonal, the raster lies within the square, every pixel of the raster
/// is in the square unchanged, moved by one offset, and nothing shows
/// around them.
pub proof fn law_square_keeps_every_pixel(image: RasterView)
    requires
        image.wf(),
    ensures
        ({
            let square = squared(image);
            let left = centred(square.width, image.width);
            let top = centred(square.height, image.height);
            &&& square.height == square.width
            &&& is_diagonal(image.width as int, image.height as int, square.width as int)
            &&& 0 <= left
            &&& left + image.width <= square.width
            &&& 0 <= top
            &&& top + image.height <= square.height
            &&& forall|x: int, y: int|
                image.covers(x, y) ==> square.covers(x + left, y + top) && #[trigger] square.pixel(
                    x + left,
                    y + top,
                ) == image.pixel(x, y)
            &&& forall|x: int, y: int|
                square.covers(x, y) && !image.covers(x - left, y - top) ==> #[trigger] square.pixel(
                    x,
                    y,
                ) == seq![0u8, 0u8, 0u8, 0u8]
        }),
{
    let width = image.width as int;
    let height = image.height as int;
    assert((width + height) * (width + height) >= width * width + height * height)
        by (nonlinear_arith)
        requires
            0 <= width,
            0 <= height,
    ;
    lemma_diagonal_exists(width, height, width + height);
    let side = square_side(image.width, image.height);
    lemma_diagonal_spans(width, height, side);
    let square = squared(image);
    let left = centred(side as nat, image.width);
    let top = centred(side as nat, image.height);
    assert forall|x: int, y: int| image.covers(x, y) implies square.covers(x + left, y + top)
        && #[trigger] square.pixel(x + left, y + top) == image.pixel(x, y) by {
        lemma_framed_pixel(
            image,
            side as nat,
            side as nat,
            left as nat,
            top as nat,
            x + left,
            y + top,
        );
    }
    assert forall|x: int, y: int|
        square.covers(x, y) && !image.covers(x - left, y - top) implies #[trigger] square.pixel(
        x,
        y,
    ) == seq![0u8, 0u8, 0u8, 0u8] by {
        lemma_framed_pixel(image, side as nat, side as nat, left as nat, top as nat, x, y);
    }
}

/// A turn by a whole number of full turns, either way round, ends where it
/// began: nothing of it is left to turn.
pub proof fn law_whole_turns_turn_nothing(turns: int)
    requires
        i64::MIN <= turns * FULL_TURN <= i64::MAX,
    ensures
        Degrees((turns * FULL_TURN) as i64).spec_normalized() == 0,
{
    vstd::arithmetic::div_mod::lemma_mod_multiples_basic(turns, FULL_TURN as int);
}

/// Puts the raster in the middle of an empty square whose side is the
/// raster's diagonal. No pixel of the raster falls outside the square, and
/// none is changed.
pub fn center_on_square(image: &Raster) -> (square: Raster)
    requires
        image.wf(),
        4 * (square_side(image@.width, image@.height) * square_side(image@.width, image@.height))
            <= usize::MAX,
    ensures
        square.wf(),
        square@ == squared(image@),
        square@.width == square_side(image@.width, image@.height),
        recentred(image@, square@),
{
    let long = diagonal(image.width(), image.height());
    proof {
        let side = square_side(image@.width, image@.height);
        lemma_diagonal_unique(image@.width as int, image@.height as int, long as int, side);
        lemma_diagonal_spans(image@.width as int, image@.height as int, long as int);
        assert(long <= 0xffff_ffff) by (nonlinear_arith)
            requires
                4 * (long * long) <= 0xffff_ffff_ffff_ffff,
                0 <= long,
        ;
    }
    let side = long as u32;
    let left = side / 2 - image.width() / 2;
    let top = side / 2 - image.height() / 2;
    let square = image.framed(side, side, left, top);
    proof {
        assert forall|x: int, y: int| square@.covers(x, y) implies #[trigger] square@.pixel(x, y)
            == if image@.covers(x - left, y - top) {
            image@.pixel(x - left, y - top)
        } else {
            seq![0u8, 0u8, 0u8, 0u8]
        } by {
            lemma_framed_pixel(image@, side as nat, side as nat, left as nat, top as nat, x, y);
        }
    }
    square
}

/// Resizes the raster by the scale: both sides grow by the same factor.
/// At the factor one the raster is copied as it is.
pub fn scale(image: &Raster, factor: Scale) -> (sized: Raster)
    requires
        image.wf(),
        resizable(
            image@,
            scaled_side(image@.width, factor),
            scaled_side(image@.height, factor),
        ),
    ensures
        sized.wf(),
        sized@.width == scaled_side(image@.width, factor),
        sized@.height == scaled_side(image@.height, factor),
        sized@.width == image@.width && sized@.height == image@.height ==> sized@ == image@,
        factor.0 == UNIT ==> sized@ == image@,
{
    let width = scale_side(image.width(), factor);
    let height = scale_side(image.height(), factor);
    resize_image(image, width, height)
}

/// The length of a side after scaling.
pub fn scale_side(side: u32, scale: Scale) -> (grown: u32)
    ensures
        grown == scaled_side(side as nat, scale),
        scale.0 == UNIT ==> grown == side,
{
    assert(0 <= side * scale.0 <= 0xffff_ffff * 0xffff_ffff) by (nonlinear_arith)
        requires
            0 <= side <= 0xffff_ffff,
            0 <= scale.0 <= 0xffff_ffff,
    ;
    assert(side * 65536 / 65536 == side) by (nonlinear_arith);
    let grown: u64 = side as u64 * scale.0 as u64 / 65536;
    if grown > u32::MAX as u64 {
        u32::MAX
    } else {
        grown as u32
    }
}

/// The column (or row) of the canvas at which a layer begins: the midpoints
/// meet, and the offset is added.
pub open spec fn placed(canvas_side: nat, layer_side: nat, offset: i64) -> int {
    clamped(offset + centred(canvas_side, layer_side))
}

/// Where a layer begins on the canvas.
pub fn place(canvas_side: u32, layer_side: u32, offset: i64) -> (at: i64)
    ensures
        at == placed(canvas_side as nat, layer_side as nat, offset),
{
    let middle: i128 = (canvas_side / 2) as i128 - (layer_side / 2) as i128;
    let at: i128 = offset as i128 + middle;
    if at < i64::MIN as i128 {
        i64::MIN
    } else if at > i64::MAX as i128 {
        i64::MAX
    } else {
        at as i64
    }
}

/// Blends the layer over the canvas so that the midpoints of both meet, and
/// then moved by the offset. What falls outside the canvas is dropped.
pub fn place_layer(canvas: &mut Raster, layer: &Raster, offset: (i64, i64))
    requires
        old(canvas).wf(),
        layer.wf(),
    ensures
        final(canvas).wf(),
        final(canvas)@ == over(
            old(canvas)@,
            layer@,
            placed(old(canvas)@.width, layer@.width, offset.0),
            placed(old(canvas)@.height, layer@.height, offset.1),
        ),
        blended(
            old(canvas)@,
            layer@,
            placed(old(canvas)@.width, layer@.width, offset.0),
            placed(old(canvas)@.height, layer@.height, offset.1),
            final(canvas)@,
        ),
{
    let x = place(canvas.width(), layer.width(), offset.0);
    let y = place(canvas.height(), layer.height(), offset.1);
    overlay_image(canvas, layer, x, y);
}

/// What is left to do once a layer is scaled and centred on its square.
pub enum Rotation {
    /// The layer turns by whole turns only: the square is ready as it is.
    Upright(Raster),
    /// The square is to be turned clockwise about its centre by so many
    /// thousandths of a degree, more than none and less than a full turn.
    Turn { square: Raster, thousandths: i64 },
}

impl Rotation {
    /// The square on which the layer was centred.
    pub open spec fn square(self) -> Raster {
        match self {
            Rotation::Upright(square) => square,
            Rotation::Turn { square, .. } => square,
        }
    }

    /// The turn that is left, in thousandths of a degree.
    pub open spec fn turn(self) -> int {
        match self {
            Rotation::Upright(_) => 0,
            Rotation::Turn { thousandths, .. } => thousandths as int,
        }
    }
}

/// Centres the raster on a square that a turn about the centre cannot
/// leave, and says by how much the square is to be turned. A turn by whole
/// turns changes nothing: the square is then ready. At every angle the
/// square's side is the raster's diagonal, every pixel of the raster lies
/// in it unchanged, and nothing shows around them.
pub fn rot(image: &Raster, degrees: Degrees) -> (step: Rotation)
    requires
        image.wf(),
        4 * (square_side(image@.width, image@.height) * square_side(image@.width, image@.height))
            <= usize::MAX,
    ensures
        step is Upright <==> degrees.spec_normalized() == 0,
        step.turn() == degrees.spec_normalized(),
        step.square().wf(),
        step.square()@ == squared(image@),
        step.square()@.width == square_side(image@.width, image@.height),
        recentred(image@, step.square()@),
{
    let square = center_on_square(image);
    let thousandths = degrees.normalized();
    if thousandths == 0 {
        Rotation::Upright(square)
    } else {
        Rotation::Turn { square, thousandths }
    }
}

/// The canvas after a prepared layer was painted on it: the layer is faded
/// by its opacity and blended over the canvas, midpoint on midpoint, moved
/// by its offset.
pub open spec fn painted(canvas: RasterView, prepared: RasterView, layer: LayerView) -> RasterView {
    over(
        canvas,
        faded(prepared, layer.opacity.0),
        placed(canvas.width, prepared.width, layer.transform.offset.0),
        placed(canvas.height, prepared.height, layer.transform.offset.1),
    )
}

/// Paints a layer that is already scaled and turned: it is faded by its
/// opacity and blended over the canvas, midpoint on midpoint, moved by its
/// offset. A layer of opacity nought leaves the canvas as it was.
pub fn paint_layer(canvas: &mut Raster, prepared: &Raster, layer: &Layer)
    requires
        old(canvas).wf(),
        prepared.wf(),
    ensures
        final(canvas).wf(),
        final(canvas)@ == painted(old(canvas)@, prepared@, layer@),
        layer.opacity.0 == 0 ==> final(canvas)@ == old(canvas)@,
        blended(
            old(canvas)@,
            faded(prepared@, layer.opacity.0),
            placed(old(canvas)@.width, prepared@.width, layer.transform.offset.0),
            placed(old(canvas)@.height, prepared@.height, layer.transform.offset.1),
            final(canvas)@,
        ),
{
    let mut shown = prepared.duplicate();
    shown.fade(layer.opacity.0);
    place_layer(canvas, &shown, layer.transform.offset);
    proof {
        if layer.opacity.0 == 0 {
            let left = placed(old(canvas)@.width, prepared@.width, layer.transform.offset.0);
            let top = placed(old(canvas)@.height, prepared@.height, layer.transform.offset.1);
            assert forall|x: int, y: int| canvas@.covers(x, y) implies #[trigger] canvas@.pixel(
                x,
                y,
            ) == old(canvas)@.pixel(x, y) by {
                if shown@.covers(x - left, y - top) {
                    lemma_zero_fade_hides(prepared@, x - left, y - top);
                }
            }
            lemma_same_pixels(canvas@, old(canvas)@);
        }
    }
}

/// The canvas after the first `count` prepared layers were painted on it,
/// the first layer first.
pub open spec fn painted_all(
    canvas: RasterView,
    prepared: Seq<RasterView>,
    layers: Seq<LayerView>,
    count: nat,
) -> RasterView
    decreases count,
{
    if count == 0 {
        canvas
    } else {
        painted(
            painted_all(canvas, prepared, layers, (count - 1) as nat),
            prepared[count - 1],
            layers[count - 1],
        )
    }
}

/// Each of the first `count` layers was blended over what the layers before
/// it had painted: what blending keeps exact holds of every step.
pub open spec fn each_blended(
    canvas: RasterView,
    prepared: Seq<RasterView>,
    layers: Seq<LayerView>,
    count: nat,
) -> bool
    decreases count,
{
    count == 0 || {
        let before = painted_all(canvas, prepared, layers, (count - 1) as nat);
        &&& each_blended(canvas, prepared, layers, (count - 1) as nat)
        &&& blended(
            before,
            faded(prepared[count - 1], layers[count - 1].opacity.0),
            placed(before.width, prepared[count - 1].width, layers[count - 1].transform.offset.0),
            placed(before.height, prepared[count - 1].height, layers[count - 1].transform.offset.1),
            painted_all(canvas, prepared, layers, count),
        )
    }
}

/// The rasters as plain values.
pub open spec fn raster_views(rasters: Seq<Raster>) -> Seq<RasterView> {
    Seq::new(rasters.len(), |i: int| rasters[i]@)
}

/// Why an instance could not be composited.
#[derive(Debug, Clone, Copy, PartialEq, Eq, Structural)]
pub enum CompositeError {
    /// The layer with this number refers to an alias that the binding does
    /// not know.
    UnboundReference { layer: usize },
    /// The canvas has no PNG file.
    Unencodable,
}

/// The PNG file of a rendered instance. A canvas that has none gives
/// `Unencodable`.
pub fn encode_instance(canvas: &Raster) -> (file: Result<Vec<u8>, CompositeError>)
    requires
        canvas.wf(),
    ensures
        match file {
            Ok(bytes) => png_of(canvas@) == Some(bytes@),
            Err(error) => error == CompositeError::Unencodable && png_of(canvas@) is None,
        },
{
    match encode_png(canvas) {
        Ok(bytes) => Ok(bytes),
        Err(_) => Err(CompositeError::Unencodable),
    }
}

impl Template {
    /// Whether an instance can be composited from the prepared layers on
    /// this machine: there is one for each layer, and the canvas fits in
    /// memory.
    pub open spec fn appliable(&self, prepared: Seq<Raster>) -> bool {
        &&& prepared.len() == self.layers@.len()
        &&& 4 * (self.canvas_size.0 * self.canvas_size.1) <= usize::MAX
    }

    /// Whether an instance can be composited from the prepared layers on
    /// this machine.
    pub fn can_apply(&self, prepared: &Vec<Raster>) -> (possible: bool)
        ensures
            possible == self.appliable(prepared@),
    {
        assert(0 <= self.canvas_size.0 * self.canvas_size.1 <= 0xffff_ffff * 0xffff_ffff)
            by (nonlinear_arith)
            requires
                0 <= self.canvas_size.0 <= 0xffff_ffff,
                0 <= self.canvas_size.1 <= 0xffff_ffff,
        ;
        let bytes: u128 = 4 * (self.canvas_size.0 as u128 * self.canvas_size.1 as u128);
        prepared.len() == self.layers.len() && bytes <= usize::MAX as u128
    }

    /// Composites one instance: on an empty canvas of the template's size
    /// the prepared layers are painted in their order, later ones over
    /// earlier ones. `prepared` holds for each layer its asset, scaled and
    /// turned. Of every step it holds what blending keeps exact.
    pub fn apply(&self, prepared: &Vec<Raster>) -> (canvas: Raster)
        requires
            self.appliable(prepared@),
            forall|i: int| 0 <= i < prepared@.len() ==> (#[trigger] prepared@[i]).wf(),
        ensures
            canvas.wf(),
            canvas@ == painted_all(
                transparent(self.canvas_size.0 as nat, self.canvas_size.1 as nat),
                raster_views(prepared@),
                self@.layers,
                self@.layers.len(),
            ),
            canvas@.width == self.canvas_size.0,
            canvas@.height == self.canvas_size.1,
            each_blended(
                transparent(self.canvas_size.0 as nat, self.canvas_size.1 as nat),
                raster_views(prepared@),
                self@.layers,
                self@.layers.len(),
            ),
    {
        let mut canvas = Raster::new(self.canvas_size.0, self.canvas_size.1);
        let mut i: usize = 0;
        while i < self.layers.len()
            invariant
                i <= self.layers@.len(),
                prepared@.len() == self.layers@.len(),
                forall|i: int| 0 <= i < prepared@.len() ==> (#[trigger] prepared@[i]).wf(),
                canvas.wf(),
                canvas@ == painted_all(
                    transparent(self.canvas_size.0 as nat, self.canvas_size.1 as nat),
                    raster_views(prepared@),
                    self@.layers,
                    i as nat,
                ),
                canvas@.width == self.canvas_size.0,
                canvas@.height == self.canvas_size.1,
                each_blended(
                    transparent(self.canvas_size.0 as nat, self.canvas_size.1 as nat),
                    raster_views(prepared@),
                    self@.layers,
                    i as nat,
                ),
            decreases self.layers@.len() - i,
        {
            paint_layer(&mut canvas, &prepared[i], &self.layers[i]);
            i += 1;
        }
        canvas
    }

    /// The asset that the binding gives each layer, in the layers' order.
    /// The first layer whose alias the binding does not know ends the
    /// instance with `UnboundReference`.
    pub fn layer_locators(&self, binding: &Binding) -> (found: Result<Vec<Locator>, CompositeError>)
        ensures
            match found {
                Ok(locators) => {
                    &&& locators@.len() == self@.layers.len()
                    &&& forall|i: int|
                        0 <= i < locators@.len() ==> bound(binding@, self@.layers[i].reference)
                            == Some((#[trigger] locators@[i])@)
                },
                Err(CompositeError::Unencodable) => false,
                Err(CompositeError::UnboundReference { layer }) => {
                    &&& layer < self@.layers.len()
                    &&& bound(binding@, self@.layers[layer as int].reference) is None
                    &&& forall|i: int|
                        0 <= i < layer ==> (#[trigger] bound(
                            binding@,
                            self@.layers[i].reference,
                        )) is Some
                },
            },
    {
        let mut locators: Vec<Locator> = Vec::new();
        let mut i: usize = 0;
        while i < self.layers.len()
            invariant
                i <= self.layers@.len(),
                locators@.len() == i,
                forall|k: int|
                    0 <= k < i ==> bound(binding@, self@.layers[k].reference) == Some(
                        (#[trigger] locators@[k])@,
                    ),
            decreases self.layers@.len() - i,
        {
            match binding.get(self.layers[i].reference.as_str()) {
                Some(locator) => locators.push(locator.duplicate()),
                None => {
                    assert forall|k: int| 0 <= k < i implies (#[trigger] bound(
                        binding@,
                        self@.layers[k].reference,
                    )) is Some by {
                        assert(bound(binding@, self@.layers[k].reference) == Some(locators@[k]@));
                    }
                    return Err(CompositeError::UnboundReference { layer: i });
                },
            }
            i += 1;
        }
        Ok(locators)
    }
}

/// A single layer that is as large as the canvas, shown in full, neither
/// scaled nor turned nor moved, comes out as it went in: every opaque pixel
/// is on the canvas as it was, and where the layer shows nothing the canvas
/// shows nothing. So a layer whose pixels are all opaque or nothing at all
/// is the canvas. `square` is what preparing the layer gives, `canvas` what
/// painting `square` on the empty canvas gives.
pub proof fn law_round_trip(
    image: RasterView,
    layer: LayerView,
    square: RasterView,
    canvas: RasterView,
)
    requires
        image.wf(),
        layer.opacity.0 == UNIT,
        layer.transform.offset == (0i64, 0i64),
        recentred(image, square),
        blended(
            transparent(image.width, image.height),
            faded(square, layer.opacity.0),
            placed(image.width, square.width, layer.transform.offset.0),
            placed(image.height, square.height, layer.transform.offset.1),
            canvas,
        ),
    ensures
        canvas.width == image.width,
        canvas.height == image.height,
        forall|x: int, y: int|
            image.covers(x, y) && image.alpha(x, y) == 255 ==> #[trigger] canvas.pixel(x, y)
                == image.pixel(x, y),
        forall|x: int, y: int|
            image.covers(x, y) && image.alpha(x, y) == 0 ==> #[trigger] canvas.pixel(x, y)
                == seq![0u8, 0u8, 0u8, 0u8],
        image.solid() ==> canvas == image,
{
    let side = square.width;
    let left = centred(side, image.width);
    let top = centred(side, image.height);
    assert forall|x: int, y: int| image.covers(x, y) implies (image.alpha(x, y) == 255
        ==> #[trigger] canvas.pixel(x, y) == image.pixel(x, y)) && (image.alpha(x, y) == 0
        ==> canvas.pixel(x, y) == seq![0u8, 0u8, 0u8, 0u8]) by {
        // The pixel lies at `(x + left, y + top)` of the square, and the
        // square's corner at `(-left, -top)` of the canvas.
        let sx = x + left;
        let sy = y + top;
        lemma_offset_bounds(square, sx, sy);
        lemma_offset_bounds(image, x, y);
        assert(square.alpha(sx, sy) == square.pixel(sx, sy)[3]);
    }
    if image.solid() {
        assert forall|x: int, y: int| canvas.covers(x, y) implies #[trigger] canvas.pixel(x, y)
            == image.pixel(x, y) by {
            lemma_offset_bounds(image, x, y);
        }
        lemma_same_pixels(canvas, image);
    }
}

/// Whether the layer's asset can be prepared on this machine: the scaled
/// raster and the square on which it turns fit in memory.
pub open spec fn preparable(image: RasterView, transform: Transform) -> bool {
    &&& resizable(
        image,
        scaled_side(image.width, transform.scale),
        scaled_side(image.height, transform.scale),
    )
    &&& 4 * (square_side(
        scaled_side(image.width, transform.scale),
        scaled_side(image.height, transform.scale),
    ) * square_side(
        scaled_side(image.width, transform.scale),
        scaled_side(image.height, transform.scale),
    )) <= usize::MAX
}

/// Whether the layer's asset can be prepared on this machine.
pub fn can_prepare(image: &Raster, transform: &Transform) -> (possible: bool)
    requires
        image.wf(),
    ensures
        possible == preparable(image@, *transform),
{
    let width = scale_side(image.width(), transform.scale) as u128;
    let height = scale_side(image.height(), transform.scale) as u128;
    let wide = image.width() as u128;
    assert(0 <= wide * height <= 0xffff_ffff * 0xffff_ffff && 0 <= width * height <= 0xffff_ffff
        * 0xffff_ffff) by (nonlinear_arith)
        requires
            0 <= wide <= 0xffff_ffff,
            0 <= width <= 0xffff_ffff,
            0 <= height <= 0xffff_ffff,
    ;
    if 16 * (wide * height) > isize::MAX as u128 || 16 * (width * height) > isize::MAX as u128 {
        return false;
    }
    let side = diagonal(width as u32, height as u32) as u128;
    proof {
        lemma_diagonal_unique(
            width as int,
            height as int,
            side as int,
            square_side(width as nat, height as nat),
        );
    }
    assert(0 <= side * side <= 0x1_ffff_fffe * 0x1_ffff_fffe) by (nonlinear_arith)
        requires
            0 <= side <= 0x1_ffff_fffe,
    ;
    4 * (side * side) <= usize::MAX as u128
}

/// Scales a layer's asset and centres it on the square on which it turns.
/// What comes back says by how much the square is still to be turned.
pub fn prepare_layer(image: &Raster, transform: &Transform) -> (step: Rotation)
    requires
        image.wf(),
        preparable(image@, *transform),
    ensures
        step is Upright <==> transform.rotate.spec_normalized() == 0,
        step.turn() == transform.rotate.spec_normalized(),
        step.square().wf(),
        step.square()@.width == square_side(
            scaled_side(image@.width, transform.scale),
            scaled_side(image@.height, transform.scale),
        ),
        step.square()@.height == step.square()@.width,
        exists|sized: RasterView|
            {
                &&& sized.wf()
                &&& sized.width == scaled_side(image@.width, transform.scale)
                &&& sized.height == scaled_side(image@.height, transform.scale)
                &&& sized.width == image@.width && sized.height == image@.height ==> sized
                    == image@
                &&& step.square()@ == #[trigger] squared(sized)
                &&& recentred(sized, step.square()@)
            },
        transform.scale.0 == UNIT ==> step.square()@ == squared(image@) && recentred(
            image@,
            step.square()@,
        ),
{
    let sized = scale(image, transform.scale);
    rot(&sized, transform.rotate)
}

} // verus!
