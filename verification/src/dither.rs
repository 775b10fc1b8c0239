//! The dithering pass: every pixel of a luminance grid becomes one of two
//! colours, by comparing its luminance with the threshold that the matrix,
//! repeated over the grid, holds at the pixel's place.

use crate::bayer::{bayer_cells, bayer_side};
use crate::config::{config_error, resized_height, resized_width, scale_length, Config, Resize};
use crate::error::DitherError;
use crate::grid::{Grid, GridView, LumaGrid, PixelGrid, Rgb};
use crate::matrix::{tile_value, BayerMatrix};
use crate::threshold::{classify, tone_of, Tone};
use vstd::arithmetic::div_mod::{lemma_fundamental_div_mod, lemma_mod_multiples_vanish};
use vstd::prelude::*;

verus! {

/// The tone of the pixel `(x, y)` of luminance `luma / LUMA_ONE` under the
/// matrix of a level: its luminance against the threshold at
/// `(y mod side, x mod side)`.
pub open spec fn pixel_tone(level: nat, x: int, y: int, luma: int) -> Tone {
    tone_of(luma, tile_value(level, x, y), bayer_cells(level) as int)
}

/// The colour of a tone.
pub open spec fn tone_color(tone: Tone, highlights: Rgb, shadows: Rgb) -> Rgb {
    match tone {
        Tone::Highlight => highlights,
        Tone::Shadow => shadows,
    }
}

/// The colour that the pixel `(x, y)` of luminance `luma / LUMA_ONE` gets.
pub open spec fn dithered_pixel(
    level: nat,
    highlights: Rgb,
    shadows: Rgb,
    x: int,
    y: int,
    luma: int,
) -> Rgb {
    tone_color(pixel_tone(level, x, y, luma), highlights, shadows)
}

/// The output for an input grid: a grid of the same size, in which each
/// pixel has the colour that `dithered_pixel` gives it at its place.
pub open spec fn dithered(level: nat, highlights: Rgb, shadows: Rgb, input: GridView<u64>)
    -> GridView<Rgb> {
    GridView {
        width: input.width,
        height: input.height,
        cells: Seq::new(
            input.cells.len(),
            |i: int|
                dithered_pixel(
                    level,
                    highlights,
                    shadows,
                    i % (input.width as int),
                    i / (input.width as int),
                    input.cells[i] as int,
                ),
        ),
    }
}

/// What `generate` answers for a configuration and an input grid: the error
/// of the configuration if it has one, `SizeMismatch` if the grid does not
/// have the configured size, and the dithered grid otherwise.
pub open spec fn generated(config: Config, input: GridView<u64>) -> Result<
    GridView<Rgb>,
    DitherError,
> {
    match config_error(config) {
        Some(e) => Err(e),
        None => if input.width != config.width || input.height != config.height {
            Err(DitherError::SizeMismatch)
        } else {
            Ok(dithered(config.level as nat, config.highlights, config.shadows, input))
        },
    }
}

/// `made` is the answer that `generated` names.
pub open spec fn is_generated(
    config: Config,
    input: GridView<u64>,
    made: Result<PixelGrid, DitherError>,
) -> bool {
    match made {
        Ok(out) => generated(config, input) == Ok::<GridView<Rgb>, DitherError>(out@),
        Err(e) => generated(config, input) == Err::<GridView<Rgb>, DitherError>(e),
    }
}

/// The colour of the pixel `(x, y)` of luminance `luma / LUMA_ONE`.
pub fn dither_pixel(
    matrix: &BayerMatrix,
    highlights: Rgb,
    shadows: Rgb,
    x: u32,
    y: u32,
    luma: u64,
) -> (color: Rgb)
    ensures
        color == dithered_pixel(matrix@, highlights, shadows, x as int, y as int, luma as int),
{
    let entry = matrix.tile_entry(x, y);
    let cells = matrix.entries();
    match classify(luma, entry, cells) {
        Tone::Highlight => highlights,
        Tone::Shadow => shadows,
    }
}

/// Dithers every pixel of `input` with `matrix` and the two colours of
/// `config`. Each pixel is worked out from its own sample alone.
pub fn process(input: &LumaGrid, matrix: &BayerMatrix, config: &Config) -> (out: PixelGrid)
    ensures
        out@ == dithered(matrix@, config.highlights, config.shadows, input@),
{
    let width = input.width();
    let height = input.height();
    let samples = input.cells();
    let count = samples.len();
    let mut pixels: Vec<Rgb> = Vec::new();
    let mut i: usize = 0;
    while i < count
        invariant
            i <= count,
            count == samples@.len(),
            samples@ == input@.cells,
            count == width * height,
            width == input@.width,
            height == input@.height,
            pixels@.len() == i,
            forall|j: int|
                0 <= j < i ==> pixels@[j] == dithered_pixel(
                    matrix@,
                    config.highlights,
                    config.shadows,
                    j % (width as int),
                    j / (width as int),
                    samples@[j] as int,
                ),
        decreases count - i,
    {
        proof {
            assert(width > 0 && (i as int) / (width as int) < height) by (nonlinear_arith)
                requires
                    0 <= i < width * height,
                    0 <= width,
                    0 <= height,
            ;
            lemma_fundamental_div_mod(i as int, width as int);
        }
        let x = (i % (width as usize)) as u32;
        let y = (i / (width as usize)) as u32;
        pixels.push(dither_pixel(matrix, config.highlights, config.shadows, x, y, samples[i]));
        i += 1;
    }
    proof {
        assert(pixels@ =~= dithered(
            matrix@,
            config.highlights,
            config.shadows,
            input@,
        ).cells);
    }
    Grid::new(width, height, pixels).unwrap()
}

/// Collects the options of a dithering run and carries it out. Its view is
/// the configuration that the options so far amount to.
pub struct DitherBuilder {
    config: Config,
}

impl View for DitherBuilder {
    type V = Config;

    closed spec fn view(&self) -> Config {
        self.config
    }
}

impl DitherBuilder {
    /// Starts from an image of the given size: the output is as large as the
    /// image, the level is 2, highlights are white and shadows black.
    pub fn new(width: u32, height: u32) -> (builder: DitherBuilder)
        ensures
            builder@ == (Config {
                width,
                height,
                level: 2,
                highlights: Rgb(255, 255, 255),
                shadows: Rgb(0, 0, 0),
            }),
    {
        DitherBuilder { config: Config::new(width, height) }
    }

    /// Sets the level of the threshold matrix.
    pub fn level(self, level: u8) -> (builder: DitherBuilder)
        ensures
            builder@ == (Config { level, ..self@ }),
    {
        DitherBuilder { config: Config { level, ..self.config } }
    }

    /// Sets the width of the output.
    pub fn width(self, width: u32) -> (builder: DitherBuilder)
        ensures
            builder@ == (Config { width, ..self@ }),
    {
        DitherBuilder { config: Config { width, ..self.config } }
    }

    /// Sets the height of the output.
    pub fn height(self, height: u32) -> (builder: DitherBuilder)
        ensures
            builder@ == (Config { height, ..self@ }),
    {
        DitherBuilder { config: Config { height, ..self.config } }
    }

    /// Sets the size of the output, to a resolution or by scaling the size
    /// set so far.
    pub fn resize(self, resize: Resize) -> (builder: DitherBuilder)
        ensures
            builder@ == (Config {
                width: resized_width(self@.width, resize),
                height: resized_height(self@.height, resize),
                ..self@
            }),
    {
        match resize {
            Resize::Scale { numerator, denominator } => DitherBuilder {
                config: Config {
                    width: scale_length(self.config.width, numerator, denominator),
                    height: scale_length(self.config.height, numerator, denominator),
                    ..self.config
                },
            },
            Resize::Resolution { width, height } => DitherBuilder {
                config: Config { width, height, ..self.config },
            },
        }
    }

    /// Sets the colour of the pixels that are brighter than their threshold.
    pub fn highlights(self, highlights: Rgb) -> (builder: DitherBuilder)
        ensures
            builder@ == (Config { highlights, ..self@ }),
    {
        DitherBuilder { config: Config { highlights, ..self.config } }
    }

    /// Sets the colour of the other pixels.
    pub fn shadows(self, shadows: Rgb) -> (builder: DitherBuilder)
        ensures
            builder@ == (Config { shadows, ..self@ }),
    {
        DitherBuilder { config: Config { shadows, ..self.config } }
    }

    /// The configuration that the options amount to, checked.
    pub fn config(&self) -> (checked: Result<Config, DitherError>)
        ensures
            checked == (match config_error(self@) {
                Some(e) => Err::<Config, DitherError>(e),
                None => Ok::<Config, DitherError>(self@),
            }),
    {
        match self.config.validate() {
            Ok(()) => Ok(self.config),
            Err(e) => Err(e),
        }
    }

    /// Dithers `input`, the luminance of the image in grey and at the
    /// configured size. The configuration is checked first, then the size of
    /// `input`; only then is the matrix made, once, and every pixel dithered.
    pub fn generate(self, input: &LumaGrid) -> (made: Result<PixelGrid, DitherError>)
        ensures
            is_generated(self@, input@, made),
    {
        let config = match self.config() {
            Ok(config) => config,
            Err(e) => { return Err(e); },
        };
        if input.width() != config.width || input.height() != config.height {
            return Err(DitherError::SizeMismatch);
        }
        match BayerMatrix::generate(config.level) {
            Ok(matrix) => Ok(process(input, &matrix, &config)),
            Err(e) => Err(e),
        }
    }
}

/// The output has the size of the input, and each of its pixels is either
/// the highlight colour or the shadow colour: no third colour appears.
pub proof fn lemma_two_colors(level: nat, highlights: Rgb, shadows: Rgb, input: GridView<u64>)
    ensures
        dithered(level, highlights, shadows, input).width == input.width,
        dithered(level, highlights, shadows, input).height == input.height,
        dithered(level, highlights, shadows, input).cells.len() == input.cells.len(),
        forall|i: int|
            0 <= i < input.cells.len() ==> (#[trigger] dithered(
                level,
                highlights,
                shadows,
                input,
            ).cells[i] == highlights || dithered(level, highlights, shadows, input).cells[i]
                == shadows),
{
}

/// The colour of a pixel depends on its place only through the place's
/// remainders by the side of the matrix.
pub proof fn lemma_same_remainders(
    level: nat,
    highlights: Rgb,
    shadows: Rgb,
    x1: int,
    y1: int,
    x2: int,
    y2: int,
    luma: int,
)
    requires
        x1 % (bayer_side(level) as int) == x2 % (bayer_side(level) as int),
        y1 % (bayer_side(level) as int) == y2 % (bayer_side(level) as int),
    ensures
        dithered_pixel(level, highlights, shadows, x1, y1, luma) == dithered_pixel(
            level,
            highlights,
            shadows,
            x2,
            y2,
            luma,
        ),
{
}

/// Moving a pixel by whole multiples of the side of the matrix, `dx` sides
/// across and `dy` sides down, leaves its colour as it is.
pub proof fn lemma_periodic(
    level: nat,
    highlights: Rgb,
    shadows: Rgb,
    x: int,
    y: int,
    dx: int,
    dy: int,
    luma: int,
)
    ensures
        dithered_pixel(
            level,
            highlights,
            shadows,
            x + dx * bayer_side(level),
            y + dy * bayer_side(level),
            luma,
        ) == dithered_pixel(level, highlights, shadows, x, y, luma),
{
    let side = bayer_side(level) as int;
    vstd::arithmetic::power2::lemma_pow2_pos(level);
    lemma_mod_multiples_vanish(dx, x, side);
    lemma_mod_multiples_vanish(dy, y, side);
    assert(x + dx * side == side * dx + x && y + dy * side == side * dy + y) by (nonlinear_arith);
}

/// Two runs on the same configuration and the same input give the same
/// answer: both fail with the same error, or both give the same grid.
pub proof fn lemma_generate_deterministic(
    config: Config,
    input: GridView<u64>,
    first: Result<PixelGrid, DitherError>,
    second: Result<PixelGrid, DitherError>,
)
    requires
        is_generated(config, input, first),
        is_generated(config, input, second),
    ensures
        first is Ok <==> second is Ok,
        first matches Ok(a) ==> (second matches Ok(b) && a@ == b@),
        first matches Err(e) ==> second == Err::<PixelGrid, DitherError>(e),
{
}

} // verus!
