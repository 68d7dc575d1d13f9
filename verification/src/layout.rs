//! The grid in which the images of the stages are shown.
//!
//! Every stage has a column, and every image of a stage a cell in it, all of
//! the size of a frame. Columns follow the order of the stages and cells the
//! order of a stage's images, so the same stages always give the same grid.

use vstd::prelude::*;
use crate::blob::Point;
use crate::pipeline::Stage;

verus! {

/// The height at which a stage's name is written, in pixels from the top.
pub const LABEL_BASELINE: i32 = 50;

/// The key that switches between all stages and the result alone: space.
pub const KEY_TOGGLE: i32 = 32;

/// The key that ends the show: `q`.
pub const KEY_QUIT: i32 = 113;

/// The place of one image in the grid: the rows from `top` up to `bottom`
/// and the columns from `left` up to `right`, the ends not included.
#[derive(Clone, Copy, Debug, PartialEq, Eq, Structural)]
pub struct Cell {
    /// The position of the stage among the stages shown.
    pub stage: usize,
    /// The position of the image among the images of its stage.
    pub image: usize,
    pub left: i32,
    pub top: i32,
    pub right: i32,
    pub bottom: i32,
}

/// A grid of cells and the size of the canvas that holds them.
pub struct GridLayout {
    pub rows: i32,
    pub cols: i32,
    /// The cells, by stage and then by image.
    pub cells: Vec<Cell>,
    /// Where the name of each stage is written.
    pub labels: Vec<Point>,
}

/// What a key press asks for.
#[derive(Clone, Copy, Debug, PartialEq, Eq, Structural)]
pub enum KeyAction {
    /// Switch between all stages and the result alone.
    ToggleResultOnly,
    /// Stop.
    Quit,
    /// Nothing.
    Ignore,
}

/// The cell of image `image` of stage `stage` in a grid of frames of the
/// given size.
pub open spec fn cell_at(stage: int, image: int, width: int, height: int) -> Cell {
    Cell {
        stage: stage as usize,
        image: image as usize,
        left: (stage * width) as i32,
        top: (image * height) as i32,
        right: ((stage + 1) * width) as i32,
        bottom: ((image + 1) * height) as i32,
    }
}

/// The cells of the first `n` stages, by stage and then by image.
pub open spec fn cells_of(counts: Seq<usize>, width: int, height: int, n: nat) -> Seq<Cell>
    decreases n,
{
    if n == 0 {
        Seq::empty()
    } else {
        cells_of(counts, width, height, (n - 1) as nat) + Seq::new(
            counts[n - 1] as nat,
            |image: int| cell_at(n - 1, image, width, height),
        )
    }
}

/// The greatest of the first `n` counts; zero of none.
pub open spec fn tallest(counts: Seq<usize>, n: nat) -> nat
    decreases n,
{
    if n == 0 {
        0
    } else {
        let before = tallest(counts, (n - 1) as nat);
        if counts[n - 1] > before {
            counts[n - 1] as nat
        } else {
            before
        }
    }
}

/// Whether a grid for stages of these image counts fits a canvas: there is a
/// stage, a frame has a width and a height, and the canvas is no wider and no
/// higher than an image can be.
pub open spec fn grid_fits(counts: Seq<usize>, width: int, height: int) -> bool {
    &&& counts.len() > 0
    &&& width > 0
    &&& height > 0
    &&& counts.len() * width <= i32::MAX
    &&& tallest(counts, counts.len()) * height <= i32::MAX
}

/// The greatest count is no less than any count, and is one of them.
pub proof fn lemma_tallest_is_greatest(counts: Seq<usize>, n: nat)
    requires
        n <= counts.len(),
    ensures
        forall|i: int| 0 <= i < n ==> counts[i] <= tallest(counts, n),
        n > 0 ==> exists|i: int| 0 <= i < n && counts[i] == tallest(counts, n),
    decreases n,
{
    if n > 0 {
        lemma_tallest_is_greatest(counts, (n - 1) as nat);
        if counts[n - 1] > tallest(counts, (n - 1) as nat) || n == 1 {
            assert(counts[n - 1] == tallest(counts, n));
        } else {
            let i = choose|i: int| 0 <= i < n - 1 && counts[i] == tallest(counts, (n - 1) as nat);
            assert(counts[i] == tallest(counts, n));
        }
    }
}

/// The stages to show: all of them, or the last alone.
pub fn visible_stages(stages: &Vec<Stage>, only_result: bool) -> (r: Vec<Stage>)
    ensures
        r@ == (if only_result && stages@.len() > 0 {
            seq![stages@.last()]
        } else {
            stages@
        }),
{
    let mut shown: Vec<Stage> = Vec::new();
    if only_result && stages.len() > 0 {
        shown.push(stages[stages.len() - 1]);
        assert(shown@ =~= seq![stages@.last()]);
        return shown;
    }
    let mut i: usize = 0;
    while i < stages.len()
        invariant
            i <= stages.len(),
            shown@ =~= stages@.take(i as int),
        decreases stages.len() - i,
    {
        shown.push(stages[i]);
        i += 1;
    }
    assert(stages@.take(stages@.len() as int) =~= stages@);
    shown
}

/// The grid for stages that show `counts[i]` images each, in frames of the
/// given size. There is none where the grid does not fit a canvas.
pub fn grid_layout(counts: &Vec<usize>, width: i32, height: i32) -> (r: Option<GridLayout>)
    ensures
        r is Some <==> grid_fits(counts@, width as int, height as int),
        r matches Some(grid) ==> {
            &&& grid.cols == counts@.len() * width
            &&& grid.rows == tallest(counts@, counts@.len()) * height
            &&& grid.cells@ == cells_of(counts@, width as int, height as int, counts@.len())
            &&& grid.labels@ == Seq::new(
                counts@.len(),
                |stage: int| Point { x: (stage * width) as i32, y: LABEL_BASELINE },
            )
        },
{
    let n = counts.len();
    if n == 0 || width <= 0 || height <= 0 {
        return None;
    }
    let mut most: usize = 0;
    let mut i: usize = 0;
    while i < n
        invariant
            i <= n,
            n == counts.len(),
            most == tallest(counts@, i as nat),
        decreases n - i,
    {
        if counts[i] > most {
            most = counts[i];
        }
        i += 1;
    }
    let limit: u64 = 0x7fff_ffff;
    let w: u64 = width as u64;
    let h: u64 = height as u64;
    if n as u64 > limit / w || most as u64 > limit / h {
        proof {
            assert(n > limit / w ==> n * width > i32::MAX) by (nonlinear_arith)
                requires
                    w == width,
                    w > 0,
                    limit == i32::MAX,
            ;
            assert(most > limit / h ==> most * height > i32::MAX) by (nonlinear_arith)
                requires
                    h == height,
                    h > 0,
                    limit == i32::MAX,
            ;
        }
        return None;
    }
    proof {
        assert(n * width <= i32::MAX) by (nonlinear_arith)
            requires
                n <= limit / w,
                w == width,
                w > 0,
                limit == i32::MAX,
        ;
        assert(most * height <= i32::MAX) by (nonlinear_arith)
            requires
                most <= limit / h,
                h == height,
                h > 0,
                limit == i32::MAX,
        ;
        lemma_tallest_is_greatest(counts@, n as nat);
    }
    let cols: i32 = (n as u64 * w) as i32;
    let rows: i32 = (most as u64 * h) as i32;
    let mut cells: Vec<Cell> = Vec::new();
    let mut labels: Vec<Point> = Vec::new();
    let mut stage: usize = 0;
    while stage < n
        invariant
            stage <= n,
            n == counts.len(),
            width > 0,
            height > 0,
            w == width,
            h == height,
            n * width <= i32::MAX,
            most * height <= i32::MAX,
            forall|i: int| 0 <= i < n ==> counts@[i] <= most,
            cells@ == cells_of(counts@, width as int, height as int, stage as nat),
            labels@ =~= Seq::new(
                stage as nat,
                |s: int| Point { x: (s * width) as i32, y: LABEL_BASELINE },
            ),
        decreases n - stage,
    {
        proof {
            assert((stage + 1) * width <= n * width) by (nonlinear_arith)
                requires
                    stage + 1 <= n,
                    width > 0,
            ;
            assert(0 <= stage * width <= (stage + 1) * width) by (nonlinear_arith)
                requires
                    stage >= 0,
                    width > 0,
            ;
        }
        let left: i32 = (stage as u64 * w) as i32;
        let right: i32 = ((stage as u64 + 1) * w) as i32;
        labels.push(Point { x: left, y: LABEL_BASELINE });
        let count = counts[stage];
        let ghost before = cells@;
        let mut image: usize = 0;
        while image < count
            invariant
                image <= count,
                count <= most,
                height > 0,
                h == height,
                most * height <= i32::MAX,
                left == stage * width,
                right == (stage + 1) * width,
                cells@ =~= before + Seq::new(
                    image as nat,
                    |y: int| cell_at(stage as int, y, width as int, height as int),
                ),
            decreases count - image,
        {
            proof {
                assert((image + 1) * height <= most * height) by (nonlinear_arith)
                    requires
                        image + 1 <= most,
                        height > 0,
                ;
                assert(0 <= image * height <= (image + 1) * height) by (nonlinear_arith)
                    requires
                        image >= 0,
                        height > 0,
                ;
            }
            let top: i32 = (image as u64 * h) as i32;
            let bottom: i32 = ((image as u64 + 1) * h) as i32;
            cells.push(Cell { stage, image, left, top, right, bottom });
            image += 1;
        }
        stage += 1;
    }
    Some(GridLayout { rows, cols, cells, labels })
}

/// What the key with the given code asks for.
pub fn key_action(key: i32) -> (r: KeyAction)
    ensures
        r == (if key == KEY_TOGGLE {
            KeyAction::ToggleResultOnly
        } else if key == KEY_QUIT {
            KeyAction::Quit
        } else {
            KeyAction::Ignore
        }),
{
    if key == KEY_TOGGLE {
        KeyAction::ToggleResultOnly
    } else if key == KEY_QUIT {
        KeyAction::Quit
    } else {
        KeyAction::Ignore
    }
}

} // verus!
