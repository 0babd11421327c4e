use pathtrace::materials::{
    dielectric_bounce, lambertian_bounce, metal_bounce, reflect, refract, scatter_dielectric,
    scatter_lambertian, scatter_metal, schlick, Dielectric, Lambertian, Material, Metal, Scatter,
};
use pathtrace::model::Hit;
use pathtrace::sampling::RandomSource;
use pathtrace::scalar::Scalar;
use pathtrace::vec3::{Ray, Vec3};

fn vec3_of(x: i64, y: i64, z: i64) -> Vec3 {
    Vec3(Scalar::from_raw(x), Scalar::from_raw(y), Scalar::from_raw(z))
}

fn outgoing(s: &Scatter) -> Option<(Vec3, Vec3)> {
    s.ray.map(|r| (r.origin, r.direction))
}

fn grey_lambertian() -> Material {
    Material::Lambertian(Lambertian { albedo: vec3_of(52429, 19661, 19661) })
}

/// A hit at the origin of a surface whose normal points up.
fn floor_hit(material: &Material) -> Hit<'_> {
    Hit { t: Scalar::one(), p: Vec3::zero(), normal: vec3_of(0, 65536, 0), material }
}

#[test]
fn reflect_mirrors_about_the_normal() {
    assert_eq!(reflect(vec3_of(65536, -65536, 0), vec3_of(0, 65536, 0)), vec3_of(65536, 65536, 0));
    assert_eq!(reflect(vec3_of(0, 0, -65536), vec3_of(0, 0, 65536)), vec3_of(0, 0, 65536));
    assert_eq!(reflect(vec3_of(65536, 0, 0), vec3_of(0, 65536, 0)), vec3_of(65536, 0, 0));
}

#[test]
fn lambertian_bounce_aims_at_normal_plus_sample() {
    let material = grey_lambertian();
    let hit = Hit {
        t: Scalar::one(),
        p: vec3_of(65536, 131072, 196608),
        normal: vec3_of(0, 65536, 0),
        material: &material,
    };
    let l = Lambertian { albedo: vec3_of(52429, 19661, 19661) };
    let s = lambertian_bounce(&l, &hit, vec3_of(100, -200, 300));
    assert_eq!(s.color, vec3_of(52429, 19661, 19661));
    assert_eq!(outgoing(&s), Some((vec3_of(65536, 131072, 196608), vec3_of(100, 65336, 300))));
}

#[test]
fn lambertian_always_scatters_with_its_albedo() {
    let material = grey_lambertian();
    let hit = floor_hit(&material);
    let l = Lambertian { albedo: vec3_of(52429, 19661, 19661) };
    let r_in = Ray::new(vec3_of(0, 65536, 0), vec3_of(0, -65536, 0));
    let mut rng = RandomSource::seeded(7);
    let mut count: u32 = 0;
    while count < 200 {
        let s = scatter_lambertian(&l, &r_in, &hit, &mut rng);
        assert_eq!(s.color, vec3_of(52429, 19661, 19661));
        let (origin, direction) = outgoing(&s).expect("a diffuse surface never absorbs");
        assert_eq!(origin, Vec3::zero());
        // direction = normal + sample, and the sample lies in the unit ball
        let sample = direction.sub(hit.normal);
        assert!(sample.dot_wide(&sample) < 1 << 32);
        let through = material.scatter(&r_in, &hit, &mut rng);
        assert_eq!(through.color, vec3_of(52429, 19661, 19661));
        assert!(through.ray.is_some());
        count += 1;
    }
}

#[test]
fn metal_without_fuzz_is_a_mirror() {
    let material = grey_lambertian();
    let hit = floor_hit(&material);
    let metal = Metal { albedo: vec3_of(32768, 32768, 32768), fuzz: Scalar::zero() };
    let r_in = Ray::new(vec3_of(0, 65536, 0), vec3_of(65536, -65536, 0));
    let s = metal_bounce(&metal, &r_in, &hit, vec3_of(100, 200, 300));
    assert_eq!(s.color, vec3_of(32768, 32768, 32768));
    assert_eq!(outgoing(&s), Some((Vec3::zero(), vec3_of(65536, 65536, 0))));
    let mut rng = RandomSource::seeded(1);
    let mut count: u32 = 0;
    while count < 50 {
        let drawn = scatter_metal(&metal, &r_in, &hit, &mut rng);
        assert_eq!(drawn.color, vec3_of(32768, 32768, 32768));
        assert_eq!(outgoing(&drawn), Some((Vec3::zero(), reflect(r_in.direction, hit.normal))));
        count += 1;
    }
}

#[test]
fn metal_fuzz_shifts_the_reflection() {
    let material = grey_lambertian();
    let hit = floor_hit(&material);
    let metal = Metal { albedo: vec3_of(32768, 32768, 32768), fuzz: Scalar::from_raw(32768) };
    let r_in = Ray::new(vec3_of(0, 65536, 0), vec3_of(65536, -65536, 0));
    let s = metal_bounce(&metal, &r_in, &hit, vec3_of(32768, 16384, 0));
    assert_eq!(outgoing(&s), Some((Vec3::zero(), vec3_of(81920, 73728, 0))));
}

#[test]
fn metal_absorbs_rays_sent_into_the_surface() {
    let material = grey_lambertian();
    let hit = floor_hit(&material);
    let rough = Metal { albedo: vec3_of(32768, 32768, 32768), fuzz: Scalar::one() };
    let grazing = Ray::new(vec3_of(0, 65536, 0), vec3_of(65536, -4096, 0));
    let s = metal_bounce(&rough, &grazing, &hit, vec3_of(0, -32768, 0));
    assert_eq!(s.color, vec3_of(32768, 32768, 32768));
    assert!(s.ray.is_none());
    // a ray that arrives from below the surface is reflected into it
    let polished = Metal { albedo: vec3_of(32768, 32768, 32768), fuzz: Scalar::zero() };
    let from_below = Ray::new(vec3_of(0, -65536, 0), vec3_of(65536, 65536, 0));
    assert!(metal_bounce(&polished, &from_below, &hit, Vec3::zero()).ray.is_none());
}

#[test]
fn metal_never_scatters_into_its_surface() {
    let material = grey_lambertian();
    let hit = floor_hit(&material);
    let rough = Metal { albedo: vec3_of(65536, 65536, 65536), fuzz: Scalar::one() };
    let grazing = Ray::new(vec3_of(0, 65536, 0), vec3_of(65536, -4096, 0));
    let mut rng = RandomSource::seeded(99);
    let mut absorbed: u32 = 0;
    let mut count: u32 = 0;
    while count < 400 {
        let s = scatter_metal(&rough, &grazing, &hit, &mut rng);
        match s.ray {
            Some(out) => assert!(out.direction.dot_wide(&hit.normal) > 0),
            None => absorbed += 1,
        }
        count += 1;
    }
    assert!(absorbed > 0);
    assert!(absorbed < 400);
}

#[test]
fn refract_goes_straight_through_along_the_normal() {
    let ratio = Scalar::one().div(Scalar::from_raw(98304));
    assert_eq!(ratio.raw(), 43690);
    let down = vec3_of(0, -65536, 0);
    assert_eq!(refract(down, vec3_of(0, 65536, 0), ratio), Some(vec3_of(0, -65536, 0)));
}

#[test]
fn refract_bends_toward_the_normal_on_entry() {
    let ratio = Scalar::one().div(Scalar::from_raw(98304));
    let slanted = vec3_of(65536, -65536, 0);
    assert_eq!(refract(slanted, vec3_of(0, 65536, 0), ratio), Some(vec3_of(30893, -57797, 0)));
}

#[test]
fn refract_fails_beyond_the_critical_angle() {
    let grazing = vec3_of(65536, 6553, 0);
    assert_eq!(refract(grazing, vec3_of(0, -65536, 0), Scalar::from_raw(98304)), None);
}

#[test]
fn schlick_grows_toward_grazing_incidence() {
    let index = Scalar::from_raw(98304);
    assert_eq!(schlick(Scalar::one(), index).raw(), 2621);
    assert_eq!(schlick(Scalar::from_raw(32768), index).raw(), 4587);
    assert_eq!(schlick(Scalar::zero(), index).raw(), 65536);
    assert_eq!(schlick(Scalar::from_raw(46341), index).raw(), 2756);
    assert_eq!(schlick(Scalar::from_raw(97817), index).raw(), 798);
}

#[test]
fn dielectric_refracts_or_reflects_by_the_draw() {
    let material = grey_lambertian();
    let hit = floor_hit(&material);
    let glass = Dielectric { index: Scalar::from_raw(98304) };
    let r_in = Ray::new(vec3_of(-65536, 65536, 0), vec3_of(65536, -65536, 0));
    let refracted = dielectric_bounce(&glass, &r_in, &hit, Scalar::from_raw(65535));
    assert_eq!(refracted.color, Vec3::white());
    assert_eq!(outgoing(&refracted), Some((Vec3::zero(), vec3_of(30893, -57797, 0))));
    let reflected = dielectric_bounce(&glass, &r_in, &hit, Scalar::zero());
    assert_eq!(reflected.color, Vec3::white());
    assert_eq!(outgoing(&reflected), Some((Vec3::zero(), vec3_of(65536, 65536, 0))));
    // the reflectance at this angle is 2756: a draw must exceed it to refract
    let at = dielectric_bounce(&glass, &r_in, &hit, Scalar::from_raw(2756));
    assert_eq!(outgoing(&at), Some((Vec3::zero(), vec3_of(65536, 65536, 0))));
    let above = dielectric_bounce(&glass, &r_in, &hit, Scalar::from_raw(2757));
    assert_eq!(outgoing(&above), Some((Vec3::zero(), vec3_of(30893, -57797, 0))));
}

#[test]
fn dielectric_refracts_away_from_the_normal_on_exit() {
    let material = grey_lambertian();
    let hit = floor_hit(&material);
    let glass = Dielectric { index: Scalar::from_raw(98304) };
    let r_in = Ray::new(vec3_of(0, -65536, 0), vec3_of(6553, 65536, 0));
    let refracted = dielectric_bounce(&glass, &r_in, &hit, Scalar::from_raw(65535));
    assert_eq!(outgoing(&refracted), Some((Vec3::zero(), vec3_of(9780, 64801, 0))));
    let reflected = dielectric_bounce(&glass, &r_in, &hit, Scalar::zero());
    assert_eq!(outgoing(&reflected), Some((Vec3::zero(), vec3_of(6553, -65536, 0))));
}

#[test]
fn dielectric_total_internal_reflection_always_reflects() {
    let material = grey_lambertian();
    let hit = floor_hit(&material);
    let glass = Dielectric { index: Scalar::from_raw(98304) };
    let r_in = Ray::new(vec3_of(0, -65536, 0), vec3_of(65536, 6553, 0));
    let mirrored = reflect(r_in.direction, hit.normal);
    assert_eq!(mirrored, vec3_of(65536, -6553, 0));
    let high = dielectric_bounce(&glass, &r_in, &hit, Scalar::from_raw(65535));
    assert_eq!(high.color, Vec3::white());
    assert_eq!(outgoing(&high), Some((Vec3::zero(), mirrored)));
    let low = dielectric_bounce(&glass, &r_in, &hit, Scalar::zero());
    assert_eq!(outgoing(&low), Some((Vec3::zero(), mirrored)));
    let mut rng = RandomSource::seeded(3);
    let mut count: u32 = 0;
    while count < 200 {
        let s = scatter_dielectric(&glass, &r_in, &hit, &mut rng);
        assert_eq!(s.color, Vec3::white());
        assert_eq!(outgoing(&s), Some((Vec3::zero(), mirrored)));
        count += 1;
    }
}

#[test]
fn dielectric_scatter_takes_both_branches() {
    let material = grey_lambertian();
    let hit = floor_hit(&material);
    let glass = Material::Dielectric(Dielectric { index: Scalar::from_raw(98304) });
    // at grazing incidence the reflectance is large, so both outcomes occur
    let r_in = Ray::new(vec3_of(-65536, 6553, 0), vec3_of(65536, -6553, 0));
    let mirrored = reflect(r_in.direction, hit.normal);
    let mut rng = RandomSource::seeded(11);
    let mut reflected: u32 = 0;
    let mut count: u32 = 0;
    while count < 400 {
        let s = glass.scatter(&r_in, &hit, &mut rng);
        assert_eq!(s.color, Vec3::white());
        let (origin, direction) = outgoing(&s).expect("glass never absorbs");
        assert_eq!(origin, Vec3::zero());
        if direction == mirrored {
            reflected += 1;
        } else {
            assert!(direction.dot_wide(&hit.normal) < 0);
        }
        count += 1;
    }
    assert!(reflected > 0);
    assert!(reflected < 400);
}

#[test]
fn scatter_with_dispatches_on_the_material() {
    let surface = grey_lambertian();
    let hit = floor_hit(&surface);
    let r_in = Ray::new(vec3_of(-65536, 65536, 0), vec3_of(65536, -65536, 0));
    let sample = vec3_of(100, -200, 300);
    let draw = Scalar::from_raw(65535);
    let diffuse = surface.scatter_with(&r_in, &hit, sample, draw);
    assert_eq!(diffuse.color, vec3_of(52429, 19661, 19661));
    assert_eq!(outgoing(&diffuse), Some((Vec3::zero(), vec3_of(100, 65336, 300))));
    let mirror =
        Material::Metal(Metal { albedo: vec3_of(32768, 32768, 32768), fuzz: Scalar::zero() });
    let shiny = mirror.scatter_with(&r_in, &hit, sample, draw);
    assert_eq!(shiny.color, vec3_of(32768, 32768, 32768));
    assert_eq!(outgoing(&shiny), Some((Vec3::zero(), vec3_of(65536, 65536, 0))));
    let glass = Material::Dielectric(Dielectric { index: Scalar::from_raw(98304) });
    let clear = glass.scatter_with(&r_in, &hit, sample, draw);
    assert_eq!(clear.color, Vec3::white());
    assert_eq!(outgoing(&clear), Some((Vec3::zero(), vec3_of(30893, -57797, 0))));
}
