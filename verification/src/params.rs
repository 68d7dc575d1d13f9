//! The parameters that an operator tunes while frames are processed.
//!
//! A [`TunableParameters`] is a snapshot: a frame is processed against one
//! value of it from start to end. Every way to make or change one checks the
//! ranges, so a value that exists is one that scoring can use.

use vstd::prelude::*;
use crate::error::ConfigurationError;
use crate::rational::{quotient, Rational};

verus! {

/// The slider position that stands for a weight of one.
pub const WEIGHT_SLIDER_UNIT: i32 = 50;

/// The slider position that stands for a similarity cap of one.
pub const CAP_SLIDER_UNIT: i32 = 100;

/// What a [`TunableParameters`] holds, as numbers.
pub ghost struct ParametersView {
    pub min_blob_area: int,
    pub close_kernel_size: int,
    pub close_iterations: int,
    /// The weights of area similarity, x alignment, y distance to height and
    /// squareness, in this order.
    pub component_weights: Seq<real>,
    pub similarity_cap: real,
}

impl ParametersView {
    /// Whether every parameter is in the range it may take.
    pub open spec fn valid(self) -> bool {
        &&& self.min_blob_area >= 0
        &&& self.close_kernel_size >= 1
        &&& self.close_iterations >= 0
        &&& self.component_weights.len() == 4
        &&& forall|i: int|
            0 <= i < 4 ==> 0real <= #[trigger] self.component_weights[i] <= 1real
        &&& 0real <= self.similarity_cap <= 1real
    }
}

/// The positions of the eight sliders that an operator moves.
#[derive(Clone, Copy, Debug, PartialEq, Eq, Structural)]
pub struct SliderPositions {
    pub min_pixels: i32,
    pub kernel_size: i32,
    pub iterations: i32,
    pub weight_areas: i32,
    pub weight_xpos: i32,
    pub weight_y_to_height: i32,
    pub weight_square: i32,
    pub similarity_cap: i32,
}

impl SliderPositions {
    /// The parameters that the positions stand for: the three counts as they
    /// are, each weight in units of [`WEIGHT_SLIDER_UNIT`] and the cap in
    /// units of [`CAP_SLIDER_UNIT`].
    pub open spec fn parameters(self) -> ParametersView {
        ParametersView {
            min_blob_area: self.min_pixels as int,
            close_kernel_size: self.kernel_size as int,
            close_iterations: self.iterations as int,
            component_weights: seq![
                quotient(self.weight_areas as int, WEIGHT_SLIDER_UNIT as int),
                quotient(self.weight_xpos as int, WEIGHT_SLIDER_UNIT as int),
                quotient(self.weight_y_to_height as int, WEIGHT_SLIDER_UNIT as int),
                quotient(self.weight_square as int, WEIGHT_SLIDER_UNIT as int),
            ],
            similarity_cap: quotient(self.similarity_cap as int, CAP_SLIDER_UNIT as int),
        }
    }
}

/// One of the sliders.
#[derive(Clone, Copy, Debug, PartialEq, Eq, Structural)]
pub enum Slider {
    MinPixels,
    KernelSize,
    Iterations,
    WeightAreas,
    WeightXpos,
    WeightYToHeight,
    WeightSquare,
    SimilarityCap,
}

/// The name that a slider is shown under.
pub open spec fn slider_label(slider: Slider) -> Seq<char> {
    match slider {
        Slider::MinPixels => "min pixels"@,
        Slider::KernelSize => "kernel size"@,
        Slider::Iterations => "iterations"@,
        Slider::WeightAreas => "W           areas"@,
        Slider::WeightXpos => "W            xpos"@,
        Slider::WeightYToHeight => "W y to height"@,
        Slider::WeightSquare => "W          square"@,
        Slider::SimilarityCap => "similarity cap"@,
    }
}

/// The lowest position of a slider.
pub open spec fn slider_lowest(slider: Slider) -> int {
    match slider {
        Slider::KernelSize => 1,
        _ => 0,
    }
}

/// The highest position of a slider.
pub open spec fn slider_highest(slider: Slider) -> int {
    match slider {
        Slider::MinPixels => 1000,
        Slider::KernelSize => 20,
        Slider::Iterations => 10,
        Slider::WeightAreas => WEIGHT_SLIDER_UNIT as int,
        Slider::WeightXpos => WEIGHT_SLIDER_UNIT as int,
        Slider::WeightYToHeight => WEIGHT_SLIDER_UNIT as int,
        Slider::WeightSquare => WEIGHT_SLIDER_UNIT as int,
        Slider::SimilarityCap => CAP_SLIDER_UNIT as int,
    }
}

/// The position at which a slider starts.
pub open spec fn slider_initial(slider: Slider) -> int {
    match slider {
        Slider::MinPixels => 30,
        Slider::KernelSize => 5,
        Slider::Iterations => 1,
        Slider::WeightAreas => 50,
        Slider::WeightXpos => 50,
        Slider::WeightYToHeight => 50,
        Slider::WeightSquare => 50,
        Slider::SimilarityCap => 50,
    }
}

/// The sliders in the order in which they are shown.
pub open spec fn slider_order() -> Seq<Slider> {
    seq![
        Slider::MinPixels,
        Slider::KernelSize,
        Slider::Iterations,
        Slider::WeightAreas,
        Slider::WeightXpos,
        Slider::WeightYToHeight,
        Slider::WeightSquare,
        Slider::SimilarityCap,
    ]
}

/// The name that a slider is shown under.
pub fn slider_name(slider: Slider) -> (r: &'static str)
    ensures
        r@ == slider_label(slider),
{
    match slider {
        Slider::MinPixels => "min pixels",
        Slider::KernelSize => "kernel size",
        Slider::Iterations => "iterations",
        Slider::WeightAreas => "W           areas",
        Slider::WeightXpos => "W            xpos",
        Slider::WeightYToHeight => "W y to height",
        Slider::WeightSquare => "W          square",
        Slider::SimilarityCap => "similarity cap",
    }
}

/// The lowest position of a slider.
pub fn slider_min(slider: Slider) -> (r: i32)
    ensures
        r == slider_lowest(slider),
{
    match slider {
        Slider::KernelSize => 1,
        _ => 0,
    }
}

/// The highest position of a slider.
pub fn slider_max(slider: Slider) -> (r: i32)
    ensures
        r == slider_highest(slider),
{
    match slider {
        Slider::MinPixels => 1000,
        Slider::KernelSize => 20,
        Slider::Iterations => 10,
        Slider::WeightAreas | Slider::WeightXpos | Slider::WeightYToHeight
        | Slider::WeightSquare => WEIGHT_SLIDER_UNIT,
        Slider::SimilarityCap => CAP_SLIDER_UNIT,
    }
}

/// The position at which a slider starts.
pub fn slider_start(slider: Slider) -> (r: i32)
    ensures
        r == slider_initial(slider),
{
    match slider {
        Slider::MinPixels => 30,
        Slider::KernelSize => 5,
        Slider::Iterations => 1,
        _ => 50,
    }
}

/// The sliders in the order in which they are shown.
pub fn sliders() -> (r: Vec<Slider>)
    ensures
        r@ == slider_order(),
{
    let mut all: Vec<Slider> = Vec::new();
    all.push(Slider::MinPixels);
    all.push(Slider::KernelSize);
    all.push(Slider::Iterations);
    all.push(Slider::WeightAreas);
    all.push(Slider::WeightXpos);
    all.push(Slider::WeightYToHeight);
    all.push(Slider::WeightSquare);
    all.push(Slider::SimilarityCap);
    assert(all@ =~= slider_order());
    all
}

impl SliderPositions {
    /// The position of one slider.
    pub open spec fn position(self, slider: Slider) -> int {
        match slider {
            Slider::MinPixels => self.min_pixels as int,
            Slider::KernelSize => self.kernel_size as int,
            Slider::Iterations => self.iterations as int,
            Slider::WeightAreas => self.weight_areas as int,
            Slider::WeightXpos => self.weight_xpos as int,
            Slider::WeightYToHeight => self.weight_y_to_height as int,
            Slider::WeightSquare => self.weight_square as int,
            Slider::SimilarityCap => self.similarity_cap as int,
        }
    }

    /// Whether every slider is between its lowest and its highest position.
    pub open spec fn within_limits(self) -> bool {
        forall|slider: Slider|
            slider_lowest(slider) <= #[trigger] self.position(slider) <= slider_highest(slider)
    }

    /// Every slider at the position at which it starts.
    pub open spec fn starting() -> SliderPositions {
        SliderPositions {
            min_pixels: 30,
            kernel_size: 5,
            iterations: 1,
            weight_areas: 50,
            weight_xpos: 50,
            weight_y_to_height: 50,
            weight_square: 50,
            similarity_cap: 50,
        }
    }

    /// Every slider at the position at which it starts.
    pub fn start() -> (r: SliderPositions)
        ensures
            r == SliderPositions::starting(),
            forall|slider: Slider| #[trigger] r.position(slider) == slider_initial(slider),
    {
        SliderPositions {
            min_pixels: 30,
            kernel_size: 5,
            iterations: 1,
            weight_areas: 50,
            weight_xpos: 50,
            weight_y_to_height: 50,
            weight_square: 50,
            similarity_cap: 50,
        }
    }

    /// The position of one slider.
    pub fn get(&self, slider: Slider) -> (r: i32)
        ensures
            r == self.position(slider),
    {
        match slider {
            Slider::MinPixels => self.min_pixels,
            Slider::KernelSize => self.kernel_size,
            Slider::Iterations => self.iterations,
            Slider::WeightAreas => self.weight_areas,
            Slider::WeightXpos => self.weight_xpos,
            Slider::WeightYToHeight => self.weight_y_to_height,
            Slider::WeightSquare => self.weight_square,
            Slider::SimilarityCap => self.similarity_cap,
        }
    }

    /// Moves one slider and leaves the others where they are.
    pub fn set(&mut self, slider: Slider, position: i32)
        ensures
            final(self).position(slider) == position,
            forall|other: Slider|
                other != slider ==> #[trigger] final(self).position(other) == old(self).position(
                    other,
                ),
    {
        match slider {
            Slider::MinPixels => self.min_pixels = position,
            Slider::KernelSize => self.kernel_size = position,
            Slider::Iterations => self.iterations = position,
            Slider::WeightAreas => self.weight_areas = position,
            Slider::WeightXpos => self.weight_xpos = position,
            Slider::WeightYToHeight => self.weight_y_to_height = position,
            Slider::WeightSquare => self.weight_square = position,
            Slider::SimilarityCap => self.similarity_cap = position,
        }
    }
}

proof fn lemma_unit_fraction(position: int, unit: int)
    by (nonlinear_arith)
    requires
        unit > 0,
    ensures
        (0real <= quotient(position, unit)) == (0 <= position),
        (quotient(position, unit) <= 1real) == (position <= unit),
{
}

/// Sliders within their limits stand for valid parameters. Valid parameters
/// come only from sliders at or above their lowest position and, for the
/// weights and the cap, at or below their highest.
pub proof fn lemma_sliders_within_limits_are_valid(positions: SliderPositions)
    ensures
        positions.within_limits() ==> positions.parameters().valid(),
        positions.parameters().valid() ==> forall|slider: Slider|
            slider_lowest(slider) <= #[trigger] positions.position(slider) && (slider
                == Slider::MinPixels || slider == Slider::KernelSize || slider
                == Slider::Iterations || positions.position(slider) <= slider_highest(slider)),
{
    let p = positions.parameters();
    lemma_unit_fraction(positions.weight_areas as int, WEIGHT_SLIDER_UNIT as int);
    lemma_unit_fraction(positions.weight_xpos as int, WEIGHT_SLIDER_UNIT as int);
    lemma_unit_fraction(positions.weight_y_to_height as int, WEIGHT_SLIDER_UNIT as int);
    lemma_unit_fraction(positions.weight_square as int, WEIGHT_SLIDER_UNIT as int);
    lemma_unit_fraction(positions.similarity_cap as int, CAP_SLIDER_UNIT as int);
    if positions.within_limits() {
        assert(slider_lowest(Slider::MinPixels) <= positions.position(Slider::MinPixels));
        assert(slider_lowest(Slider::KernelSize) <= positions.position(Slider::KernelSize));
        assert(slider_lowest(Slider::Iterations) <= positions.position(Slider::Iterations));
        assert(slider_lowest(Slider::WeightAreas) <= positions.position(Slider::WeightAreas)
            <= slider_highest(Slider::WeightAreas));
        assert(slider_lowest(Slider::WeightXpos) <= positions.position(Slider::WeightXpos)
            <= slider_highest(Slider::WeightXpos));
        assert(slider_lowest(Slider::WeightYToHeight) <= positions.position(
            Slider::WeightYToHeight,
        ) <= slider_highest(Slider::WeightYToHeight));
        assert(slider_lowest(Slider::WeightSquare) <= positions.position(Slider::WeightSquare)
            <= slider_highest(Slider::WeightSquare));
        assert(slider_lowest(Slider::SimilarityCap) <= positions.position(Slider::SimilarityCap)
            <= slider_highest(Slider::SimilarityCap));
        assert(p.valid());
    }
    if p.valid() {
        assert(0real <= p.component_weights[0] <= 1real);
        assert(0real <= p.component_weights[1] <= 1real);
        assert(0real <= p.component_weights[2] <= 1real);
        assert(0real <= p.component_weights[3] <= 1real);
    }
}

/// The parameters of one frame's processing.
pub struct TunableParameters {
    min_blob_area: i32,
    close_kernel_size: i32,
    close_iterations: i32,
    weight_area: Rational,
    weight_xpos: Rational,
    weight_y_to_height: Rational,
    weight_square: Rational,
    similarity_cap: Rational,
}

impl View for TunableParameters {
    type V = ParametersView;

    closed spec fn view(&self) -> ParametersView {
        ParametersView {
            min_blob_area: self.min_blob_area as int,
            close_kernel_size: self.close_kernel_size as int,
            close_iterations: self.close_iterations as int,
            component_weights: seq![
                self.weight_area@,
                self.weight_xpos@,
                self.weight_y_to_height@,
                self.weight_square@,
            ],
            similarity_cap: self.similarity_cap@,
        }
    }
}

/// Whether `x` lies between zero and one, both included.
fn in_unit_interval(x: &Rational) -> (r: bool)
    ensures
        r == (0real <= x@ <= 1real),
{
    let one = Rational::from_int(1);
    !x.is_negative() && !one.less_than(x)
}

impl TunableParameters {
    #[verifier::type_invariant]
    spec fn well_formed(self) -> bool {
        self@.valid()
    }

    /// The parameters with the given values, where each is in its range: the
    /// area and the iterations not negative, the kernel size at least one, and
    /// the weights and the cap between zero and one.
    pub fn new(
        min_blob_area: i32,
        close_kernel_size: i32,
        close_iterations: i32,
        weight_area: Rational,
        weight_xpos: Rational,
        weight_y_to_height: Rational,
        weight_square: Rational,
        similarity_cap: Rational,
    ) -> (r: Result<TunableParameters, ConfigurationError>)
        ensures
            r is Ok <==> (ParametersView {
                min_blob_area: min_blob_area as int,
                close_kernel_size: close_kernel_size as int,
                close_iterations: close_iterations as int,
                component_weights: seq![
                    weight_area@,
                    weight_xpos@,
                    weight_y_to_height@,
                    weight_square@,
                ],
                similarity_cap: similarity_cap@,
            }).valid(),
            r matches Ok(p) ==> p@ == (ParametersView {
                min_blob_area: min_blob_area as int,
                close_kernel_size: close_kernel_size as int,
                close_iterations: close_iterations as int,
                component_weights: seq![
                    weight_area@,
                    weight_xpos@,
                    weight_y_to_height@,
                    weight_square@,
                ],
                similarity_cap: similarity_cap@,
            }),
            r matches Err(e) ==> e == ConfigurationError::OutOfRange,
    {
        let ghost target = ParametersView {
            min_blob_area: min_blob_area as int,
            close_kernel_size: close_kernel_size as int,
            close_iterations: close_iterations as int,
            component_weights: seq![
                weight_area@,
                weight_xpos@,
                weight_y_to_height@,
                weight_square@,
            ],
            similarity_cap: similarity_cap@,
        };
        let in_range = min_blob_area >= 0 && close_kernel_size >= 1 && close_iterations >= 0
            && in_unit_interval(&weight_area) && in_unit_interval(&weight_xpos)
            && in_unit_interval(&weight_y_to_height) && in_unit_interval(&weight_square)
            && in_unit_interval(&similarity_cap);
        proof {
            assert(target.component_weights[0] == weight_area@);
            assert(target.component_weights[1] == weight_xpos@);
            assert(target.component_weights[2] == weight_y_to_height@);
            assert(target.component_weights[3] == weight_square@);
        }
        if in_range {
            Ok(
                TunableParameters {
                    min_blob_area,
                    close_kernel_size,
                    close_iterations,
                    weight_area,
                    weight_xpos,
                    weight_y_to_height,
                    weight_square,
                    similarity_cap,
                },
            )
        } else {
            Err(ConfigurationError::OutOfRange)
        }
    }

    /// The parameters that the slider positions stand for, where each is in
    /// its range.
    pub fn from_sliders(positions: &SliderPositions) -> (r: Result<
        TunableParameters,
        ConfigurationError,
    >)
        ensures
            r is Ok <==> positions.parameters().valid(),
            r matches Ok(p) ==> p@ == positions.parameters(),
            r matches Err(e) ==> e == ConfigurationError::OutOfRange,
    {
        let unit: i64 = WEIGHT_SLIDER_UNIT as i64;
        let cap_unit: i64 = CAP_SLIDER_UNIT as i64;
        TunableParameters::new(
            positions.min_pixels,
            positions.kernel_size,
            positions.iterations,
            Rational::new(positions.weight_areas as i64, unit).unwrap(),
            Rational::new(positions.weight_xpos as i64, unit).unwrap(),
            Rational::new(positions.weight_y_to_height as i64, unit).unwrap(),
            Rational::new(positions.weight_square as i64, unit).unwrap(),
            Rational::new(positions.similarity_cap as i64, cap_unit).unwrap(),
        )
    }

    /// The parameters that processing starts with: those of the sliders at
    /// their starting positions.
    pub fn init() -> (r: TunableParameters)
        ensures
            r@ == SliderPositions::starting().parameters(),
    {
        let start = SliderPositions::start();
        proof {
            assert(start.position(Slider::MinPixels) == 30);
            assert(start.position(Slider::KernelSize) == 5);
            assert(start.position(Slider::Iterations) == 1);
            assert(start.position(Slider::WeightAreas) == 50);
            assert(start.position(Slider::WeightXpos) == 50);
            assert(start.position(Slider::WeightYToHeight) == 50);
            assert(start.position(Slider::WeightSquare) == 50);
            assert(start.position(Slider::SimilarityCap) == 50);
            assert(start.within_limits());
            lemma_sliders_within_limits_are_valid(start);
        }
        TunableParameters::from_sliders(&start).unwrap()
    }

    /// The smallest area, in pixels, of a region that is kept as a blob.
    pub fn min_blob_area(&self) -> (r: i32)
        ensures
            r == self@.min_blob_area,
            r >= 0,
    {
        proof {
            use_type_invariant(self);
        }
        self.min_blob_area
    }

    /// The side of the square kernel that closes the masks.
    pub fn close_kernel_size(&self) -> (r: i32)
        ensures
            r == self@.close_kernel_size,
            r >= 1,
    {
        proof {
            use_type_invariant(self);
        }
        self.close_kernel_size
    }

    /// How many times the masks are closed.
    pub fn close_iterations(&self) -> (r: i32)
        ensures
            r == self@.close_iterations,
            r >= 0,
    {
        proof {
            use_type_invariant(self);
        }
        self.close_iterations
    }

    /// The weight of area similarity.
    pub fn weight_area(&self) -> (r: &Rational)
        ensures
            r@ == self@.component_weights[0],
            0real <= r@ <= 1real,
    {
        proof {
            use_type_invariant(self);
        }
        &self.weight_area
    }

    /// The weight of x alignment.
    pub fn weight_xpos(&self) -> (r: &Rational)
        ensures
            r@ == self@.component_weights[1],
            0real <= r@ <= 1real,
    {
        proof {
            use_type_invariant(self);
        }
        &self.weight_xpos
    }

    /// The weight of the ratio of y distance to height.
    pub fn weight_y_to_height(&self) -> (r: &Rational)
        ensures
            r@ == self@.component_weights[2],
            0real <= r@ <= 1real,
    {
        proof {
            use_type_invariant(self);
        }
        &self.weight_y_to_height
    }

    /// The weight of squareness.
    pub fn weight_square(&self) -> (r: &Rational)
        ensures
            r@ == self@.component_weights[3],
            0real <= r@ <= 1real,
    {
        proof {
            use_type_invariant(self);
        }
        &self.weight_square
    }

    /// The least aggregate similarity at which a pair is accepted.
    pub fn similarity_cap(&self) -> (r: &Rational)
        ensures
            r@ == self@.similarity_cap,
            0real <= r@ <= 1real,
    {
        proof {
            use_type_invariant(self);
        }
        &self.similarity_cap
    }

    /// Sets the smallest area of a blob, which must not be negative.
    pub fn set_min_blob_area(&mut self, value: i32) -> (r: Result<(), ConfigurationError>)
        ensures
            r is Ok <==> value >= 0,
            r is Ok ==> final(self)@ == (ParametersView { min_blob_area: value as int, ..old(self)@ }),
            r matches Err(e) ==> e == ConfigurationError::OutOfRange && final(self)@ == old(self)@,
    {
        proof {
            use_type_invariant(&*self);
        }
        if value >= 0 {
            self.min_blob_area = value;
            Ok(())
        } else {
            Err(ConfigurationError::OutOfRange)
        }
    }

    /// Sets the side of the closing kernel, which must be at least one.
    pub fn set_close_kernel_size(&mut self, value: i32) -> (r: Result<(), ConfigurationError>)
        ensures
            r is Ok <==> value >= 1,
            r is Ok ==> final(self)@ == (ParametersView {
                close_kernel_size: value as int,
                ..old(self)@
            }),
            r matches Err(e) ==> e == ConfigurationError::OutOfRange && final(self)@ == old(self)@,
    {
        proof {
            use_type_invariant(&*self);
        }
        if value >= 1 {
            self.close_kernel_size = value;
            Ok(())
        } else {
            Err(ConfigurationError::OutOfRange)
        }
    }

    /// Sets the number of closing iterations, which must not be negative.
    pub fn set_close_iterations(&mut self, value: i32) -> (r: Result<(), ConfigurationError>)
        ensures
            r is Ok <==> value >= 0,
            r is Ok ==> final(self)@ == (ParametersView {
                close_iterations: value as int,
                ..old(self)@
            }),
            r matches Err(e) ==> e == ConfigurationError::OutOfRange && final(self)@ == old(self)@,
    {
        proof {
            use_type_invariant(&*self);
        }
        if value >= 0 {
            self.close_iterations = value;
            Ok(())
        } else {
            Err(ConfigurationError::OutOfRange)
        }
    }

    /// Sets the weight of component `index`, counted as in
    /// [`ParametersView::component_weights`]. The index must be below four
    /// and the weight between zero and one.
    pub fn set_component_weight(&mut self, index: usize, value: Rational) -> (r: Result<
        (),
        ConfigurationError,
    >)
        ensures
            r is Ok <==> index < 4 && 0real <= value@ <= 1real,
            r is Ok ==> final(self)@ == (ParametersView {
                component_weights: old(self)@.component_weights.update(index as int, value@),
                ..old(self)@
            }),
            r matches Err(e) ==> e == ConfigurationError::OutOfRange && final(self)@ == old(self)@,
    {
        proof {
            use_type_invariant(&*self);
        }
        if index >= 4 || !in_unit_interval(&value) {
            return Err(ConfigurationError::OutOfRange);
        }
        let ghost before = self@.component_weights;
        if index == 0 {
            self.weight_area = value;
        } else if index == 1 {
            self.weight_xpos = value;
        } else if index == 2 {
            self.weight_y_to_height = value;
        } else {
            self.weight_square = value;
        }
        proof {
            let after = self@.component_weights;
            assert(after =~= before.update(index as int, value@));
            assert forall|i: int| 0 <= i < 4 implies 0real <= #[trigger] after[i] <= 1real by {
                assert(0real <= before[i] <= 1real);
            }
        }
        Ok(())
    }

    /// Sets the similarity cap, which must lie between zero and one.
    pub fn set_similarity_cap(&mut self, value: Rational) -> (r: Result<(), ConfigurationError>)
        ensures
            r is Ok <==> 0real <= value@ <= 1real,
            r is Ok ==> final(self)@ == (ParametersView { similarity_cap: value@, ..old(self)@ }),
            r matches Err(e) ==> e == ConfigurationError::OutOfRange && final(self)@ == old(self)@,
    {
        proof {
            use_type_invariant(&*self);
        }
        if in_unit_interval(&value) {
            self.similarity_cap = value;
            Ok(())
        } else {
            Err(ConfigurationError::OutOfRange)
        }
    }
}

} // verus!
