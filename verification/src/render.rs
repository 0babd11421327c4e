//! The renderer: the bounce loop that follows one ray through the scene,
//! the background it ends in, and the averaging of samples into pixels.
use crate::materials::{scatter_spec, white_spec};
use crate::model::Model;
use crate::sampling::{
    advanced, in_unit_ball, is_unit_draw, lemma_centre_in_unit_ball, most_ball_words,
    RandomSource,
};
use crate::scalar::{
    add_spec, clamp, div_wide, mul_spec, sqrt_spec, sub_spec, trunc_div, Scalar, ONE_RAW,
};
use crate::vec3::{
    dot_spec, rgb_spec, unit_spec, v3_add, v3_mul, v3_scale, v3_sub, Ray, RayV, Rgb, Vec3, V3,
};
use vstd::prelude::*;

verus! {

/// The number of bounces after which a path is cut off.
pub const MAX_DEPTH: u32 = 50;

/// One half, as a raw scalar.
pub const HALF_RAW: i64 = 32768;

/// Three tenths, as a raw scalar.
pub const THREE_TENTHS_RAW: i64 = 19661;

/// Seven tenths, as a raw scalar.
pub const SEVEN_TENTHS_RAW: i64 = 45875;

/// The cosine of five degrees, as a raw scalar: the angular radius of the sun.
pub const COS_SUN_RAW: i64 = 65287;

/// The mathematical value of a camera.
pub struct CameraV {
    pub origin: V3,
    pub lower_left_corner: V3,
    pub horizontal: V3,
    pub vertical: V3,
}

/// A pinhole camera: the eye, and the image plane given by its lower left
/// corner and the two vectors that span it.
pub struct Camera {
    pub origin: Vec3,
    pub lower_left_corner: Vec3,
    pub horizontal: Vec3,
    pub vertical: Vec3,
}

impl View for Camera {
    type V = CameraV;

    open spec fn view(&self) -> CameraV {
        CameraV {
            origin: self.origin@,
            lower_left_corner: self.lower_left_corner@,
            horizontal: self.horizontal@,
            vertical: self.vertical@,
        }
    }
}

/// The ray from the eye through the point `(u, v)` of the image plane.
pub open spec fn camera_ray_spec(camera: CameraV, u: int, v: int) -> RayV {
    let on_plane = v3_add(
        v3_add(camera.lower_left_corner, v3_scale(u, camera.horizontal)),
        v3_scale(v, camera.vertical),
    );
    RayV { origin: camera.origin, direction: v3_sub(on_plane, camera.origin) }
}

impl Camera {
    pub fn get_ray(&self, u: Scalar, v: Scalar) -> (r: Ray)
        ensures
            r@ == camera_ray_spec(self@, u@, v@),
    {
        let on_plane = self.lower_left_corner.add(self.horizontal.scale(u)).add(
            self.vertical.scale(v),
        );
        Ray::new(self.origin, on_plane.sub(self.origin))
    }
}

/// The unit vector toward the sun.
pub open spec fn sun_direction_spec() -> V3 {
    unit_spec(white_spec())
}

/// The radiance of the sun's disc.
pub open spec fn sun_color_spec() -> V3 {
    V3 { x: 5 * ONE_RAW, y: 5 * ONE_RAW, z: 3 * ONE_RAW }
}

/// The colour of the sky overhead: `0.3 * (0.5, 0.7, 1.0) + 0.7 * white`.
pub open spec fn sky_blue_spec() -> V3 {
    v3_add(
        v3_scale(
            THREE_TENTHS_RAW as int,
            V3 { x: HALF_RAW as int, y: SEVEN_TENTHS_RAW as int, z: ONE_RAW as int },
        ),
        v3_scale(SEVEN_TENTHS_RAW as int, white_spec()),
    )
}

/// The light that arrives along a ray that has left the scene: the sun
/// within five degrees of its direction, else a blend from white at the
/// bottom to sky blue at the top; either way tinted by `attenuation`.
pub open spec fn background_spec(direction: V3, attenuation: V3) -> V3 {
    let u = unit_spec(direction);
    if dot_spec(sun_direction_spec(), u) >= COS_SUN_RAW {
        v3_mul(sun_color_spec(), attenuation)
    } else {
        let t = mul_spec(HALF_RAW as int, add_spec(u.y, ONE_RAW as int));
        let sky = v3_add(
            v3_scale(sub_spec(ONE_RAW as int, t), white_spec()),
            v3_scale(t, sky_blue_spec()),
        );
        v3_mul(sky, attenuation)
    }
}

pub fn background(direction: Vec3, attenuation: Vec3) -> (c: Vec3)
    ensures
        c@ == background_spec(direction@, attenuation@),
{
    let sun_direction = Vec3::white().to_unit_vector();
    let unit_direction = direction.to_unit_vector();
    if sun_direction.dot(&unit_direction).raw() >= COS_SUN_RAW {
        let sun = Vec3(Scalar::from_raw(327680), Scalar::from_raw(327680), Scalar::from_raw(196608));
        sun.mul(attenuation)
    } else {
        let one = Scalar::one();
        let three_tenths = Scalar::from_raw(THREE_TENTHS_RAW);
        let seven_tenths = Scalar::from_raw(SEVEN_TENTHS_RAW);
        let sky_blue = Vec3(Scalar::from_raw(HALF_RAW), seven_tenths, one).scale(three_tenths).add(
            Vec3::white().scale(seven_tenths),
        );
        let t = Scalar::from_raw(HALF_RAW).mul(unit_direction.y().add(one));
        let sky = Vec3::white().scale(one.sub(t)).add(sky_blue.scale(t));
        sky.mul(attenuation)
    }
}

/// The state of a path: the ray it currently follows, the attenuation it
/// has gathered, and whether it is still bouncing.
pub struct TraceV {
    pub ray: RayV,
    pub attenuation: V3,
    pub live: bool,
}

/// One bounce. A path that misses the scene stops as it is. One that hits
/// gathers the attenuation of the surface, and goes on along the
/// scattered ray or, if it was absorbed, stops on the ray it came by.
pub open spec fn bounce_spec(model: Model, state: TraceV, sample: V3, draw: int) -> TraceV {
    if !state.live {
        state
    } else {
        match model.hit_spec(state.ray) {
            None => TraceV { ray: state.ray, attenuation: state.attenuation, live: false },
            Some(hit) => {
                let scattered = scatter_spec(hit.material, state.ray, hit, sample, draw);
                let attenuation = v3_mul(state.attenuation, scattered.color);
                match scattered.ray {
                    Some(next) => TraceV { ray: next, attenuation, live: true },
                    None => TraceV { ray: state.ray, attenuation, live: false },
                }
            },
        }
    }
}

/// The state of the path that starts along `ray`, after one bounce for
/// each pair of random values.
pub open spec fn trace_spec(model: Model, ray: RayV, samples: Seq<V3>, draws: Seq<int>) -> TraceV
    decreases samples.len(),
{
    if samples.len() == 0 {
        TraceV { ray, attenuation: white_spec(), live: true }
    } else {
        bounce_spec(
            model,
            trace_spec(model, ray, samples.drop_last(), draws.drop_last()),
            samples.last(),
            draws.last(),
        )
    }
}

/// Whether the sequences hold `len` admissible random values each:
/// points of the unit ball, and draws from `[0, 1)`.
pub open spec fn admissible(samples: Seq<V3>, draws: Seq<int>, len: nat) -> bool {
    &&& samples.len() == len
    &&& draws.len() == len
    &&& forall|i: int| 0 <= i < len ==> in_unit_ball(#[trigger] samples[i])
    &&& forall|i: int| 0 <= i < len ==> is_unit_draw(#[trigger] draws[i])
}

/// The radiance that arrives along `ray`, for the given random values:
/// the background seen by the path after `MAX_DEPTH` bounces, by which
/// time it has either stopped or is cut off.
pub open spec fn color_spec(model: Model, ray: RayV, samples: Seq<V3>, draws: Seq<int>) -> V3 {
    let end = trace_spec(model, ray, samples, draws);
    background_spec(end.ray.direction, end.attenuation)
}

/// Whether `c` is the radiance along `ray` for some admissible random
/// values, one pair for each of the `MAX_DEPTH` bounces.
pub open spec fn possible_color(model: Model, ray: RayV, c: V3) -> bool {
    exists|samples: Seq<V3>, draws: Seq<int>|
        admissible(samples, draws, MAX_DEPTH as nat) && c == #[trigger] color_spec(
            model,
            ray,
            samples,
            draws,
        )
}

/// A path that has stopped stays as it is, whatever random values follow.
pub proof fn lemma_stopped_path_stays(
    model: Model,
    ray: RayV,
    samples: Seq<V3>,
    draws: Seq<int>,
) -> (padded: (Seq<V3>, Seq<int>))
    requires
        samples.len() <= MAX_DEPTH,
        admissible(samples, draws, samples.len()),
        !trace_spec(model, ray, samples, draws).live,
    ensures
        admissible(padded.0, padded.1, MAX_DEPTH as nat),
        trace_spec(model, ray, padded.0, padded.1) == trace_spec(model, ray, samples, draws),
    decreases MAX_DEPTH - samples.len(),
{
    if samples.len() == MAX_DEPTH {
        (samples, draws)
    } else {
        let centre = V3 { x: 0, y: 0, z: 0 };
        let more_samples = samples.push(centre);
        let more_draws = draws.push(0);
        assert(more_samples.drop_last() =~= samples);
        assert(more_draws.drop_last() =~= draws);
        lemma_centre_in_unit_ball();
        lemma_stopped_path_stays(model, ray, more_samples, more_draws)
    }
}

/// The most words that one path can take: those of a point of the unit
/// ball for each of its `MAX_DEPTH` bounces.
pub open spec fn most_path_words() -> nat {
    9600
}

/// Follows a ray through the scene for at most `MAX_DEPTH` bounces and
/// returns the light that arrives along it.
pub fn color(ray: Ray, model: &Model, rng: &mut RandomSource) -> (c: Vec3)
    ensures
        possible_color(*model, ray@, c@),
        advanced(old(rng)@, final(rng)@, 0, most_path_words()),
{
    let ghost before = rng@;
    let ghost mut samples: Seq<V3> = Seq::empty();
    let ghost mut draws: Seq<int> = Seq::empty();
    let mut current = ray;
    let mut attenuation = Vec3::white();
    let mut depth: u32 = 0;
    let mut live = true;
    while live && depth < MAX_DEPTH
        invariant
            depth <= MAX_DEPTH,
            samples.len() <= MAX_DEPTH,
            live ==> samples.len() == depth,
            admissible(samples, draws, samples.len()),
            before == old(rng)@,
            advanced(before, rng@, 0, most_ball_words() * samples.len()),
            trace_spec(*model, ray@, samples, draws) == (TraceV {
                ray: current@,
                attenuation: attenuation@,
                live,
            }),
        decreases MAX_DEPTH - depth + (if live { 1int } else { 0int }),
    {
        let ghost earlier_samples = samples;
        let ghost earlier_draws = draws;
        match model.hit(&current) {
            None => {
                live = false;
                proof {
                    let centre = V3 { x: 0, y: 0, z: 0 };
                    lemma_centre_in_unit_ball();
                    samples = samples.push(centre);
                    draws = draws.push(0);
                }
            },
            Some(hit) => {
                let scattered = hit.material.scatter(&current, &hit, rng);
                proof {
                    let (sample, draw) = choose|sample: V3, draw: int|
                        in_unit_ball(sample) && is_unit_draw(draw) && scattered@
                            == #[trigger] scatter_spec(
                            hit@.material,
                            current@,
                            hit@,
                            sample,
                            draw,
                        );
                    samples = samples.push(sample);
                    draws = draws.push(draw);
                }
                attenuation = attenuation.mul(scattered.color);
                match scattered.ray {
                    Some(bounce) => {
                        current = bounce;
                        depth = depth + 1;
                    },
                    None => {
                        live = false;
                    },
                }
            },
        }
        proof {
            assert(samples.drop_last() =~= earlier_samples);
            assert(draws.drop_last() =~= earlier_draws);
        }
    }
    let c = background(current.direction, attenuation);
    proof {
        if live {
            assert(c@ == color_spec(*model, ray@, samples, draws));
        } else {
            let padded = lemma_stopped_path_stays(*model, ray@, samples, draws);
            assert(c@ == color_spec(*model, ray@, padded.0, padded.1));
        }
    }
    c
}

/// The image coordinate of a sample: `(index + xi) / extent`, where `xi`
/// is the jitter within the pixel.
pub open spec fn jitter_spec(index: int, xi: int, extent: int) -> int {
    trunc_div(index * ONE_RAW + xi, extent)
}

/// The image coordinate in `[0, 1)` of a sample in column or row `index`
/// of `extent`.
pub fn jitter(index: usize, xi: Scalar, extent: usize) -> (s: Scalar)
    requires
        index < extent,
        is_unit_draw(xi@),
    ensures
        s@ == jitter_spec(index as int, xi@, extent as int),
        is_unit_draw(s@),
{
    let numerator: i128 = (index as i128) * 65536 + xi.raw() as i128;
    let quotient: i128 = div_wide(numerator, extent as i128);
    assert(0 <= quotient < 65536) by (nonlinear_arith)
        requires
            0 <= numerator < extent * 65536,
            extent > 0,
            quotient == (numerator as int) / (extent as int),
    ;
    Scalar::from_wide(quotient)
}

/// The ray of a sample in column `i` and camera row `j`, for the two
/// jitters of the sample.
pub open spec fn sample_ray_spec(
    camera: CameraV,
    width: int,
    height: int,
    i: int,
    j: int,
    xi_u: int,
    xi_v: int,
) -> RayV {
    camera_ray_spec(camera, jitter_spec(i, xi_u, width), jitter_spec(j, xi_v, height))
}

/// Whether `c` is the radiance of some sample in column `i` and camera
/// row `j`.
pub open spec fn possible_sample(
    scene: Model,
    camera: CameraV,
    width: int,
    height: int,
    i: int,
    j: int,
    c: V3,
) -> bool {
    exists|xi_u: int, xi_v: int|
        is_unit_draw(xi_u) && is_unit_draw(xi_v) && possible_color(
            scene,
            #[trigger] sample_ray_spec(camera, width, height, i, j, xi_u, xi_v),
            c,
        )
}

/// The component-wise sum of colours, not saturated.
pub open spec fn sum_spec(colors: Seq<V3>) -> V3
    decreases colors.len(),
{
    if colors.len() == 0 {
        V3 { x: 0, y: 0, z: 0 }
    } else {
        let rest = sum_spec(colors.drop_last());
        V3 {
            x: rest.x + colors.last().x,
            y: rest.y + colors.last().y,
            z: rest.z + colors.last().z,
        }
    }
}

/// One channel of the mean of `count` colours; zero where there are none.
pub open spec fn mean_channel_spec(sum: int, count: int) -> int {
    if count > 0 {
        clamp(trunc_div(sum, count))
    } else {
        0
    }
}

pub open spec fn mean_spec(sum: V3, count: int) -> V3 {
    V3 {
        x: mean_channel_spec(sum.x, count),
        y: mean_channel_spec(sum.y, count),
        z: mean_channel_spec(sum.z, count),
    }
}

/// Gamma correction for a gamma of two: the square root of each channel.
pub open spec fn gamma_spec(c: V3) -> V3 {
    V3 { x: sqrt_spec(c.x), y: sqrt_spec(c.y), z: sqrt_spec(c.z) }
}

/// The pixel for a sum of `count` colours: their mean, gamma-corrected
/// and packed.
pub open spec fn shade_spec(sum: V3, count: int) -> (int, int, int) {
    rgb_spec(gamma_spec(mean_spec(sum, count)))
}

/// The pixel for the colours of its samples.
pub open spec fn pixel_spec(colors: Seq<V3>) -> (int, int, int) {
    shade_spec(sum_spec(colors), colors.len() as int)
}

/// Whether `pixel` is what some `samples` samples give for column `i` of
/// image row `y`. Image row 0 is the top of the camera's view, so it is
/// camera row `height - 1`.
pub open spec fn possible_pixel(
    scene: Model,
    camera: CameraV,
    width: int,
    height: int,
    samples: int,
    i: int,
    y: int,
    pixel: (int, int, int),
) -> bool {
    exists|colors: Seq<V3>|
        colors.len() == samples && (forall|s: int|
            0 <= s < samples ==> possible_sample(
                scene,
                camera,
                width,
                height,
                i,
                height - 1 - y,
                #[trigger] colors[s],
            )) && pixel == #[trigger] pixel_spec(colors)
}

/// The pixel in column `i` of row `y` of a row-major image.
pub open spec fn pixel_at(pixels: Seq<Rgb>, width: int, y: int, i: int) -> (int, int, int) {
    pixels[y * width + i]@
}

pub fn gamma_correct(col: Vec3) -> (c: Vec3)
    ensures
        c@ == gamma_spec(col@),
{
    Vec3(col.x().sqrt(), col.y().sqrt(), col.z().sqrt())
}

fn mean_channel(sum: i128, count: usize) -> (s: Scalar)
    ensures
        s@ == mean_channel_spec(sum as int, count as int),
{
    if count > 0 {
        Scalar::from_wide(div_wide(sum, count as i128))
    } else {
        Scalar::zero()
    }
}

/// The pixel for the channel sums of `count` colours.
pub fn shade_pixel(sum_x: i128, sum_y: i128, sum_z: i128, count: usize) -> (pixel: Rgb)
    ensures
        pixel@ == shade_spec(V3 { x: sum_x as int, y: sum_y as int, z: sum_z as int }, count as int),
{
    let mean = Vec3(
        mean_channel(sum_x, count),
        mean_channel(sum_y, count),
        mean_channel(sum_z, count),
    );
    gamma_correct(mean).to_rgb()
}

/// The index of a pixel of an earlier row, or of an earlier column of
/// the same row, is less than that of the pixel after them.
proof fn lemma_earlier_index(width: int, row: int, column: int, y: int, i: int)
    requires
        0 <= column < width,
        0 <= row,
        0 <= i,
        row < y || (row == y && column < i),
    ensures
        0 <= row * width + column < y * width + i,
{
    assert(0 <= row * width) by (nonlinear_arith)
        requires
            0 <= row,
            0 < width,
    ;
    if row < y {
        assert((row + 1) * width <= y * width) by (nonlinear_arith)
            requires
                row + 1 <= y,
                0 < width,
        ;
        assert((row + 1) * width == row * width + width) by (nonlinear_arith);
    }
}

/// The fewest words that `count` samples take: two jitters each.
pub open spec fn least_sample_words(count: nat) -> nat {
    2 * count
}

/// The most words that `count` samples take: two jitters and a path each.
pub open spec fn most_sample_words(count: nat) -> nat {
    9602 * count
}

/// The number of samples in the first `pixels` pixels of an image.
pub open spec fn samples_in(pixels: nat, samples: nat) -> nat {
    samples * pixels
}

/// One more pixel holds `samples` more samples.
proof fn lemma_samples_in_next(pixels: nat, samples: nat)
    ensures
        samples_in(pixels + 1, samples) == samples_in(pixels, samples) + samples,
        samples_in(0, samples) == 0,
{
    assert(samples * (pixels + 1) == samples * pixels + samples) by (nonlinear_arith);
    assert(samples * 0 == 0) by (nonlinear_arith);
}

/// Renders the scene as `width * height` pixels, row by row from the top
/// of the camera's view, each the gamma-corrected mean of `samples`
/// jittered samples. Every sample takes its two jitters and then its
/// path from `rng`.
pub fn render(
    scene: &Model,
    camera: &Camera,
    width: usize,
    height: usize,
    samples: usize,
    rng: &mut RandomSource,
) -> (pixels: Vec<Rgb>)
    requires
        width * height <= usize::MAX,
    ensures
        pixels@.len() == width * height,
        forall|y: int, i: int|
            0 <= y < height && 0 <= i < width ==> possible_pixel(
                *scene,
                camera@,
                width as int,
                height as int,
                samples as int,
                i,
                y,
                #[trigger] pixel_at(pixels@, width as int, y, i),
            ),
        advanced(
            old(rng)@,
            final(rng)@,
            least_sample_words(samples_in((width * height) as nat, samples as nat)),
            most_sample_words(samples_in((width * height) as nat, samples as nat)),
        ),
{
    let ghost before = rng@;
    let mut pixels: Vec<Rgb> = Vec::new();
    let mut y: usize = 0;
    proof {
        lemma_samples_in_next(0, samples as nat);
    }
    while y < height
        invariant
            y <= height,
            pixels@.len() == y * width,
            before == old(rng)@,
            advanced(
                before,
                rng@,
                least_sample_words(samples_in(pixels@.len(), samples as nat)),
                most_sample_words(samples_in(pixels@.len(), samples as nat)),
            ),
            forall|row: int, column: int|
                0 <= row < y && 0 <= column < width ==> possible_pixel(
                    *scene,
                    camera@,
                    width as int,
                    height as int,
                    samples as int,
                    column,
                    row,
                    #[trigger] pixel_at(pixels@, width as int, row, column),
                ),
        decreases height - y,
    {
        let j: usize = height - 1 - y;
        let mut i: usize = 0;
        while i < width
            invariant
                y < height,
                j == height - 1 - y,
                i <= width,
                pixels@.len() == y * width + i,
                advanced(
                    before,
                    rng@,
                    least_sample_words(samples_in(pixels@.len(), samples as nat)),
                    most_sample_words(samples_in(pixels@.len(), samples as nat)),
                ),
                forall|row: int, column: int|
                    0 <= column < width && 0 <= row && (row < y || (row == y && column < i))
                        ==> possible_pixel(
                        *scene,
                        camera@,
                        width as int,
                        height as int,
                        samples as int,
                        column,
                        row,
                        #[trigger] pixel_at(pixels@, width as int, row, column),
                    ),
            decreases width - i,
        {
            let ghost at_pixel = rng@;
            let ghost mut colors: Seq<V3> = Seq::empty();
            let mut sum_x: i128 = 0;
            let mut sum_y: i128 = 0;
            let mut sum_z: i128 = 0;
            let mut n: usize = 0;
            while n < samples
                invariant
                    i < width,
                    j < height,
                    n <= samples,
                    colors.len() == n,
                    advanced(
                        at_pixel,
                        rng@,
                        least_sample_words(n as nat),
                        most_sample_words(n as nat),
                    ),
                    sum_spec(colors) == (V3 { x: sum_x as int, y: sum_y as int, z: sum_z as int }),
                    -n * 0x4000_0000 <= sum_x <= n * 0x4000_0000,
                    -n * 0x4000_0000 <= sum_y <= n * 0x4000_0000,
                    -n * 0x4000_0000 <= sum_z <= n * 0x4000_0000,
                    forall|s: int|
                        0 <= s < n ==> possible_sample(
                            *scene,
                            camera@,
                            width as int,
                            height as int,
                            i as int,
                            j as int,
                            #[trigger] colors[s],
                        ),
                decreases samples - n,
            {
                let xi_u = rng.next_unit();
                let xi_v = rng.next_unit();
                let u = jitter(i, xi_u, width);
                let v = jitter(j, xi_v, height);
                let r = camera.get_ray(u, v);
                let c = color(r, scene, rng);
                proof {
                    assert(r@ == sample_ray_spec(
                        camera@,
                        width as int,
                        height as int,
                        i as int,
                        j as int,
                        xi_u@,
                        xi_v@,
                    ));
                    let ghost earlier = colors;
                    colors = colors.push(c@);
                    assert(colors.drop_last() =~= earlier);
                }
                sum_x = sum_x + c.x().raw() as i128;
                sum_y = sum_y + c.y().raw() as i128;
                sum_z = sum_z + c.z().raw() as i128;
                n = n + 1;
            }
            let pixel = shade_pixel(sum_x, sum_y, sum_z, samples);
            let ghost earlier = pixels@;
            pixels.push(pixel);
            proof {
                lemma_samples_in_next(earlier.len(), samples as nat);
                assert(pixel@ == pixel_spec(colors));
                assert forall|row: int, column: int|
                    0 <= column < width && 0 <= row && (row < y || (row == y && column < i + 1))
                    implies possible_pixel(
                    *scene,
                    camera@,
                    width as int,
                    height as int,
                    samples as int,
                    column,
                    row,
                    #[trigger] pixel_at(pixels@, width as int, row, column),
                ) by {
                    if row == y && column == i {
                        assert(pixel_at(pixels@, width as int, row, column) == pixel@);
                    } else {
                        lemma_earlier_index(width as int, row, column, y as int, i as int);
                        assert(pixel_at(pixels@, width as int, row, column) == pixel_at(
                            earlier,
                            width as int,
                            row,
                            column,
                        ));
                    }
                }
            }
            i = i + 1;
        }
        proof {
            assert(y * width + width == (y + 1) * width) by (nonlinear_arith);
        }
        y = y + 1;
    }
    proof {
        assert(height * width == width * height) by (nonlinear_arith);
    }
    pixels
}

} // verus!
