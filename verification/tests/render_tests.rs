use pathtrace::materials::{Dielectric, Lambertian, Material, Metal};
use pathtrace::model::{Model, Sphere};
use pathtrace::render::{
    background, color, gamma_correct, jitter, render, shade_pixel, Camera, MAX_DEPTH,
};
use pathtrace::sampling::RandomSource;
use pathtrace::scalar::{Scalar, LIMIT_RAW};
use pathtrace::vec3::{Ray, Rgb, Vec3};

fn xyz(x: i64, y: i64, z: i64) -> Vec3 {
    Vec3(Scalar::from_raw(x), Scalar::from_raw(y), Scalar::from_raw(z))
}

fn mirror_ball(center: Vec3, radius: i64, albedo: Vec3) -> Model {
    Model::Sphere(Sphere {
        center,
        radius: Scalar::from_raw(radius),
        material: Material::Metal(Metal { albedo, fuzz: Scalar::zero() }),
    })
}

/// A camera at the origin that looks down the negative z axis.
fn wide_camera() -> Camera {
    Camera {
        origin: Vec3::zero(),
        lower_left_corner: xyz(-131072, -65536, -65536),
        horizontal: xyz(262144, 0, 0),
        vertical: xyz(0, 131072, 0),
    }
}

/// A camera all of whose rays run along `direction`.
fn fixed_camera(direction: Vec3) -> Camera {
    Camera {
        origin: Vec3::zero(),
        lower_left_corner: direction,
        horizontal: Vec3::zero(),
        vertical: Vec3::zero(),
    }
}

fn empty_scene() -> Model {
    Model::ModelVec(vec![])
}

fn small_scene() -> Model {
    Model::ModelVec(vec![
        Model::Sphere(Sphere {
            center: xyz(0, 0, -65536),
            radius: Scalar::from_raw(32768),
            material: Material::Lambertian(Lambertian { albedo: xyz(52429, 19661, 19661) }),
        }),
        Model::Sphere(Sphere {
            center: xyz(0, -6586368, -65536),
            radius: Scalar::from_raw(6553600),
            material: Material::Lambertian(Lambertian { albedo: xyz(52429, 52429, 0) }),
        }),
        Model::Sphere(Sphere {
            center: xyz(65536, 0, -65536),
            radius: Scalar::from_raw(32768),
            material: Material::Metal(Metal {
                albedo: xyz(52429, 39322, 13107),
                fuzz: Scalar::from_raw(19661),
            }),
        }),
        Model::Sphere(Sphere {
            center: xyz(-65536, 0, -65536),
            radius: Scalar::from_raw(32768),
            material: Material::Dielectric(Dielectric { index: Scalar::from_raw(98304) }),
        }),
    ])
}

#[test]
fn camera_rays_pass_through_the_image_plane() {
    let camera = wide_camera();
    let centre = camera.get_ray(Scalar::from_raw(32768), Scalar::from_raw(32768));
    assert_eq!(centre, Ray::new(Vec3::zero(), xyz(0, 0, -65536)));
    let corner = camera.get_ray(Scalar::zero(), Scalar::zero());
    assert_eq!(corner, Ray::new(Vec3::zero(), xyz(-131072, -65536, -65536)));
    let inner = camera.get_ray(Scalar::from_raw(16384), Scalar::from_raw(49152));
    assert_eq!(inner, Ray::new(Vec3::zero(), xyz(-65536, 32768, -65536)));
}

#[test]
fn background_blends_from_white_to_sky_blue() {
    let white = Vec3::white();
    assert_eq!(background(xyz(0, 65536, 0), white), xyz(55705, 59637, 65536));
    assert_eq!(background(xyz(0, -65536, 0), white), xyz(65536, 65536, 65536));
    assert_eq!(background(xyz(0, 0, -65536), white), xyz(60620, 62586, 65536));
    assert_eq!(background(xyz(0, 0, -5), white), xyz(60620, 62586, 65536));
    assert_eq!(background(xyz(65536, 65536, 52429), white), xyz(57595, 60771, 65536));
}

#[test]
fn background_shows_the_sun_within_five_degrees() {
    let white = Vec3::white();
    assert_eq!(background(xyz(65536, 65536, 65536), white), xyz(327680, 327680, 196608));
    assert_eq!(background(xyz(65536, 65536, 58982), white), xyz(327680, 327680, 196608));
    assert_eq!(background(xyz(3, 3, 3), xyz(32768, 65536, 0)), xyz(163840, 327680, 0));
}

#[test]
fn background_is_tinted_by_the_attenuation() {
    assert_eq!(background(xyz(0, 65536, 0), xyz(32768, 16384, 0)), xyz(27852, 14909, 0));
    assert_eq!(background(xyz(0, 65536, 0), Vec3::zero()), Vec3::zero());
}

#[test]
fn background_of_a_zero_direction_is_the_horizon() {
    assert_eq!(background(Vec3::zero(), Vec3::white()), xyz(60620, 62586, 65536));
}

#[test]
fn color_of_a_ray_that_escapes_is_the_background() {
    let mut rng = RandomSource::seeded(1);
    let scene = empty_scene();
    let up = Ray::new(Vec3::zero(), xyz(0, 65536, 0));
    assert_eq!(color(up, &scene, &mut rng), xyz(55705, 59637, 65536));
    let sunward = Ray::new(Vec3::zero(), xyz(65536, 65536, 65536));
    assert_eq!(color(sunward, &scene, &mut rng), xyz(327680, 327680, 196608));
}

#[test]
fn color_after_one_mirror_bounce() {
    let mut rng = RandomSource::seeded(1);
    let scene = mirror_ball(xyz(0, 0, -131072), 65536, xyz(32768, 32768, 32768));
    let ray = Ray::new(Vec3::zero(), xyz(0, 0, -65536));
    assert_eq!(color(ray, &scene, &mut rng), xyz(30310, 31293, 32768));
}

#[test]
fn color_of_an_absorbed_ray_keeps_its_attenuation() {
    let mut rng = RandomSource::seeded(1);
    let scene = mirror_ball(Vec3::zero(), 65536, xyz(32768, 32768, 32768));
    let from_inside = Ray::new(Vec3::zero(), xyz(0, 65536, 0));
    assert_eq!(color(from_inside, &scene, &mut rng), xyz(27852, 29818, 32768));
}

#[test]
fn color_stops_between_facing_mirrors() {
    assert_eq!(MAX_DEPTH, 50);
    let mut rng = RandomSource::seeded(1);
    let ray = Ray::new(Vec3::zero(), xyz(0, 0, -65536));
    let perfect = Model::ModelVec(vec![
        mirror_ball(xyz(0, 0, -131072), 65536, Vec3::white()),
        mirror_ball(xyz(0, 0, 131072), 65536, Vec3::white()),
    ]);
    assert_eq!(color(ray, &perfect, &mut rng), xyz(60620, 62586, 65536));
    let dull = Model::ModelVec(vec![
        mirror_ball(xyz(0, 0, -131072), 65536, xyz(32768, 32768, 32768)),
        mirror_ball(xyz(0, 0, 131072), 65536, xyz(32768, 32768, 32768)),
    ]);
    assert_eq!(color(ray, &dull, &mut rng), Vec3::zero());
}

#[test]
fn color_stops_inside_a_glass_ball() {
    let mut rng = RandomSource::seeded(8);
    let scene = Model::Sphere(Sphere {
        center: Vec3::zero(),
        radius: Scalar::from_raw(65536),
        material: Material::Dielectric(Dielectric { index: Scalar::from_raw(98304) }),
    });
    let mut count: u32 = 0;
    while count < 50 {
        let ray = Ray::new(xyz(100, 200, 300), xyz(65536, 30000, -20000));
        let c = color(ray, &scene, &mut rng);
        assert!(c.x().raw() >= 0 && c.x().raw() <= 5 * 65536);
        assert!(c.y().raw() >= 0 && c.y().raw() <= 5 * 65536);
        assert!(c.z().raw() >= 0 && c.z().raw() <= 3 * 65536);
        count += 1;
    }
}

#[test]
fn color_of_a_diffuse_scene_is_darker_than_the_sun() {
    let mut rng = RandomSource::seeded(21);
    let scene = small_scene();
    let mut count: u32 = 0;
    while count < 100 {
        let ray = Ray::new(Vec3::zero(), xyz(0, -6554, -65536));
        let c = color(ray, &scene, &mut rng);
        assert!(c.x().raw() >= 0 && c.x().raw() <= 5 * 52429);
        assert!(c.y().raw() >= 0 && c.y().raw() <= 5 * 19661);
        assert!(c.z().raw() >= 0 && c.z().raw() <= 3 * 19661);
        count += 1;
    }
}

#[test]
fn jitter_divides_by_the_extent() {
    assert_eq!(jitter(3, Scalar::from_raw(32768), 4).raw(), 57344);
    assert_eq!(jitter(0, Scalar::zero(), 1).raw(), 0);
    assert_eq!(jitter(0, Scalar::from_raw(65535), 1).raw(), 65535);
    assert_eq!(jitter(199, Scalar::from_raw(65535), 200).raw(), 65535);
    assert_eq!(jitter(2, Scalar::from_raw(100), 3).raw(), 43724);
}

#[test]
fn gamma_is_the_square_root() {
    assert_eq!(gamma_correct(xyz(16384, 16384, 16384)), xyz(32768, 32768, 32768));
    assert_eq!(gamma_correct(xyz(16384, 65536, 131072)), xyz(32768, 65536, 92681));
    assert_eq!(gamma_correct(xyz(-1, 0, 1)), xyz(0, 0, 256));
}

#[test]
fn gamma_step_maps_a_quarter_to_a_half() {
    let linear = xyz(16384, 16384, 16384);
    let corrected = gamma_correct(linear);
    assert_eq!(corrected, xyz(32768, 32768, 32768));
    assert_eq!(corrected.to_rgb(), Rgb { r: 128, g: 128, b: 128 });
    assert_eq!(shade_pixel(16384, 16384, 16384, 1), Rgb { r: 128, g: 128, b: 128 });
}

#[test]
fn shade_pixel_averages_before_gamma() {
    assert_eq!(shade_pixel(65536, 0, 262144, 4), Rgb { r: 128, g: 0, b: 255 });
    assert_eq!(shade_pixel(196608, 98304, 49152, 3), Rgb { r: 255, g: 180, b: 128 });
    assert_eq!(shade_pixel(-100, 655360, 65536, 1), Rgb { r: 0, g: 255, b: 255 });
    let many: i128 = 1 << 40;
    assert_eq!(shade_pixel(many * 16384, many * 65536, 0, 1 << 40), Rgb { r: 128, g: 255, b: 0 });
    assert_eq!(
        shade_pixel((LIMIT_RAW as i128) * 3, 0, 0, 3),
        Rgb { r: 255, g: 0, b: 0 }
    );
}

#[test]
fn shade_pixel_without_samples_is_black() {
    assert_eq!(shade_pixel(5, 5, 5, 0), Rgb { r: 0, g: 0, b: 0 });
}

#[test]
fn render_returns_width_times_height_pixels() {
    let mut rng = RandomSource::seeded(77);
    let scene = small_scene();
    let camera = wide_camera();
    assert_eq!(render(&scene, &camera, 8, 4, 3, &mut rng).len(), 32);
    assert_eq!(render(&scene, &camera, 1, 7, 1, &mut rng).len(), 7);
    assert_eq!(render(&scene, &camera, 5, 1, 2, &mut rng).len(), 5);
    assert!(render(&scene, &camera, 0, 9, 2, &mut rng).is_empty());
    assert!(render(&scene, &camera, 9, 0, 2, &mut rng).is_empty());
}

#[test]
fn render_of_a_constant_view_is_constant() {
    let mut rng = RandomSource::seeded(4);
    let scene = mirror_ball(xyz(0, 0, -131072), 65536, xyz(32768, 32768, 32768));
    let camera = fixed_camera(xyz(0, 0, -65536));
    let pixels = render(&scene, &camera, 4, 3, 5, &mut rng);
    assert_eq!(pixels, vec![Rgb { r: 173, g: 176, b: 180 }; 12]);
    let sky = render(&empty_scene(), &fixed_camera(xyz(0, 65536, 0)), 3, 2, 7, &mut rng);
    assert_eq!(sky, vec![Rgb { r: 235, g: 243, b: 255 }; 6]);
    let sun = render(&empty_scene(), &fixed_camera(xyz(65536, 65536, 65536)), 2, 2, 1, &mut rng);
    assert_eq!(sun, vec![Rgb { r: 255, g: 255, b: 255 }; 4]);
}

#[test]
fn render_without_samples_is_black() {
    let mut rng = RandomSource::seeded(4);
    let pixels = render(&small_scene(), &wide_camera(), 3, 2, 0, &mut rng);
    assert_eq!(pixels, vec![Rgb { r: 0, g: 0, b: 0 }; 6]);
}

#[test]
fn render_puts_the_top_of_the_view_first() {
    let mut rng = RandomSource::seeded(12);
    let pixels = render(&empty_scene(), &wide_camera(), 1, 8, 4, &mut rng);
    assert_eq!(pixels.len(), 8);
    // the sky is bluer overhead: less red at the top than at the bottom
    assert!(pixels[0].r < pixels[7].r);
    assert!(pixels[0].g < pixels[7].g);
    assert_eq!(pixels[0].b, 255);
    assert_eq!(pixels[7].b, 255);
    let mut row: usize = 0;
    while row < 4 {
        assert!(pixels[row].r <= pixels[row + 4].r);
        row += 1;
    }
}

#[test]
fn render_is_row_major() {
    let mut rng = RandomSource::seeded(12);
    // a mirror fills the left half of the view and halves the light
    let scene = mirror_ball(xyz(-6553600, 0, -65536), 6553600, xyz(16384, 16384, 16384));
    let pixels = render(&scene, &wide_camera(), 4, 2, 2, &mut rng);
    assert_eq!(pixels.len(), 8);
    let mut row: usize = 0;
    while row < 2 {
        assert!(pixels[row * 4].r < pixels[row * 4 + 3].r);
        assert!(pixels[row * 4 + 1].r < pixels[row * 4 + 2].r);
        row += 1;
    }
}

#[test]
fn render_is_fixed_by_the_seed() {
    let scene = small_scene();
    let camera = wide_camera();
    let mut first = RandomSource::seeded(31);
    let mut second = RandomSource::seeded(31);
    let a = render(&scene, &camera, 6, 4, 4, &mut first);
    let b = render(&scene, &camera, 6, 4, 4, &mut second);
    assert_eq!(a, b);
}
