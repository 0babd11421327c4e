//! Surface materials: how a ray that hits a surface is scattered.
use crate::model::{Hit, HitV};
use crate::sampling::{
    advanced, in_unit_ball, is_unit_draw, lemma_centre_in_unit_ball, most_ball_words,
    RandomSource,
};
use crate::scalar::{
    add_spec, div_spec, mul_spec, neg_spec, pow5_spec, sqrt_spec, sub_spec, Scalar, ONE_RAW,
};
use crate::vec3::{
    dot_exact, dot_spec, length_spec, unit_spec, v3_add, v3_neg, v3_scale, v3_sub, Ray, RayV,
    Vec3, V3,
};
use vstd::prelude::*;

verus! {

/// The mathematical value of a scattering event.
pub struct ScatterV {
    pub color: V3,
    pub ray: Option<RayV>,
}

/// The outcome of a scattering event: the attenuation, and the outgoing
/// ray unless the incoming ray was absorbed.
#[derive(Debug)]
pub struct Scatter {
    pub color: Vec3,
    pub ray: Option<Ray>,
}

impl View for Scatter {
    type V = ScatterV;

    open spec fn view(&self) -> ScatterV {
        ScatterV {
            color: self.color@,
            ray: match self.ray {
                Some(r) => Some(r@),
                None => None,
            },
        }
    }
}

/// An ideal diffuse surface.
pub struct Lambertian {
    pub albedo: Vec3,
}

/// A mirror whose reflections are blurred by `fuzz`.
pub struct Metal {
    pub albedo: Vec3,
    pub fuzz: Scalar,
}

/// A clear refracting material. `index` is the ratio of the index of
/// refraction inside the material to the one outside.
pub struct Dielectric {
    pub index: Scalar,
}

pub enum Material {
    Lambertian(Lambertian),
    Metal(Metal),
    Dielectric(Dielectric),
}

/// The mathematical value of a material.
pub enum MaterialV {
    Lambertian { albedo: V3 },
    Metal { albedo: V3, fuzz: int },
    Dielectric { index: int },
}

impl View for Material {
    type V = MaterialV;

    open spec fn view(&self) -> MaterialV {
        match self {
            Material::Lambertian(l) => MaterialV::Lambertian { albedo: l.albedo@ },
            Material::Metal(m) => MaterialV::Metal { albedo: m.albedo@, fuzz: m.fuzz@ },
            Material::Dielectric(d) => MaterialV::Dielectric { index: d.index@ },
        }
    }
}

pub open spec fn white_spec() -> V3 {
    V3 { x: ONE_RAW as int, y: ONE_RAW as int, z: ONE_RAW as int }
}

/// The mirror image of `v` about the plane with normal `n`:
/// `v - 2 * dot(v, n) * n`.
pub open spec fn reflect_spec(v: V3, n: V3) -> V3 {
    v3_sub(v, v3_scale(mul_spec(2 * ONE_RAW, dot_spec(v, n)), n))
}

/// The diffuse bounce toward `p + normal + sample`.
pub open spec fn lambertian_spec(albedo: V3, hit: HitV, sample: V3) -> ScatterV {
    let target = v3_add(v3_add(hit.p, hit.normal), sample);
    ScatterV {
        color: albedo,
        ray: Some(RayV { origin: hit.p, direction: v3_sub(target, hit.p) }),
    }
}

/// The direction in which a metal sends the ray on, before the test
/// against the surface.
pub open spec fn metal_direction_spec(fuzz: int, incoming: V3, normal: V3, sample: V3) -> V3 {
    v3_add(reflect_spec(incoming, normal), v3_scale(fuzz, sample))
}

/// The blurred reflection; absorbed where it would point into the surface.
pub open spec fn metal_spec(albedo: V3, fuzz: int, ray: RayV, hit: HitV, sample: V3) -> ScatterV {
    let direction = metal_direction_spec(fuzz, ray.direction, hit.normal, sample);
    ScatterV {
        color: albedo,
        ray: if dot_exact(direction, hit.normal) <= 0 {
            None
        } else {
            Some(RayV { origin: hit.p, direction })
        },
    }
}

/// What a metal without fuzz does: the mirror reflection, absorbed where
/// it would point into the surface.
pub open spec fn mirror_spec(albedo: V3, ray: RayV, hit: HitV) -> ScatterV {
    let direction = reflect_spec(ray.direction, hit.normal);
    ScatterV {
        color: albedo,
        ray: if dot_exact(direction, hit.normal) <= 0 {
            None
        } else {
            Some(RayV { origin: hit.p, direction })
        },
    }
}

/// A metal without fuzz reflects like a mirror, whatever point of the
/// unit ball was drawn.
pub proof fn lemma_polished_metal_is_mirror(albedo: V3, ray: RayV, hit: HitV, sample: V3)
    ensures
        metal_direction_spec(0, ray.direction, hit.normal, sample) == reflect_spec(
            ray.direction,
            hit.normal,
        ),
        metal_spec(albedo, 0, ray, hit, sample) == mirror_spec(albedo, ray, hit),
{
    let still = v3_scale(0, sample);
    assert(still == (V3 { x: 0, y: 0, z: 0 })) by {
        assert(0 * sample.x == 0 && 0 * sample.y == 0 && 0 * sample.z == 0) by (nonlinear_arith);
    }
}

/// A metal never sends a ray on into its own surface.
pub proof fn lemma_metal_ray_leaves_surface(
    albedo: V3,
    fuzz: int,
    ray: RayV,
    hit: HitV,
    sample: V3,
)
    ensures
        dot_exact(metal_direction_spec(fuzz, ray.direction, hit.normal, sample), hit.normal) <= 0
            ==> metal_spec(albedo, fuzz, ray, hit, sample).ray is None,
        metal_spec(albedo, fuzz, ray, hit, sample).ray matches Some(out) ==> dot_exact(
            out.direction,
            hit.normal,
        ) > 0,
{
}

/// Where Snell's law has no solution, glass reflects, whatever was drawn.
pub proof fn lemma_total_internal_reflection(index: int, ray: RayV, hit: HitV, draw: int)
    requires
        refraction_discriminant(
            ray.direction,
            outward_normal_spec(ray, hit),
            index_ratio_spec(index, ray, hit),
        ) <= 0,
    ensures
        dielectric_spec(index, ray, hit, draw).ray == Some(
            RayV { origin: hit.p, direction: reflect_spec(ray.direction, hit.normal) },
        ),
{
}

/// The discriminant of Snell's law: `1 - ratio^2 * (1 - dt^2)`, where `dt`
/// is the cosine between the unit incoming direction and the normal.
pub open spec fn refraction_discriminant(v: V3, n: V3, ni_over_nt: int) -> int {
    let dt = dot_spec(unit_spec(v), n);
    sub_spec(
        ONE_RAW as int,
        mul_spec(mul_spec(ni_over_nt, ni_over_nt), sub_spec(ONE_RAW as int, mul_spec(dt, dt))),
    )
}

/// The refracted direction, where Snell's law has a solution.
pub open spec fn refract_spec(v: V3, n: V3, ni_over_nt: int) -> Option<V3> {
    let uv = unit_spec(v);
    let dt = dot_spec(uv, n);
    let discriminant = refraction_discriminant(v, n, ni_over_nt);
    if discriminant > 0 {
        Some(
            v3_sub(
                v3_scale(ni_over_nt, v3_sub(uv, v3_scale(dt, n))),
                v3_scale(sqrt_spec(discriminant), n),
            ),
        )
    } else {
        None
    }
}

/// Schlick's approximation of the reflectance of glass:
/// `r0 + (1 - r0) * (1 - cosine)^5` with `r0 = ((1 - index) / (1 + index))^2`.
pub open spec fn schlick_spec(cosine: int, index: int) -> int {
    let r = div_spec(sub_spec(ONE_RAW as int, index), add_spec(ONE_RAW as int, index));
    let r0 = mul_spec(r, r);
    add_spec(
        r0,
        mul_spec(sub_spec(ONE_RAW as int, r0), pow5_spec(sub_spec(ONE_RAW as int, cosine))),
    )
}

/// Whether the ray leaves the material: it runs along the surface normal.
pub open spec fn is_exiting(ray: RayV, hit: HitV) -> bool {
    dot_exact(ray.direction, hit.normal) > 0
}

/// The normal that faces the incoming ray.
pub open spec fn outward_normal_spec(ray: RayV, hit: HitV) -> V3 {
    if is_exiting(ray, hit) {
        v3_neg(hit.normal)
    } else {
        hit.normal
    }
}

/// The ratio of the refractive indices, from the side the ray comes from
/// to the side it goes to.
pub open spec fn index_ratio_spec(index: int, ray: RayV, hit: HitV) -> int {
    if is_exiting(ray, hit) {
        index
    } else {
        div_spec(ONE_RAW as int, index)
    }
}

/// The cosine that Schlick's approximation is evaluated at.
pub open spec fn cosine_spec(index: int, ray: RayV, hit: HitV) -> int {
    let d = dot_spec(ray.direction, hit.normal);
    let len = length_spec(ray.direction);
    if is_exiting(ray, hit) {
        div_spec(mul_spec(index, d), len)
    } else {
        div_spec(neg_spec(d), len)
    }
}

/// The direction refracted through the surface, where there is one.
pub open spec fn dielectric_refraction(index: int, ray: RayV, hit: HitV) -> Option<V3> {
    refract_spec(ray.direction, outward_normal_spec(ray, hit), index_ratio_spec(index, ray, hit))
}

/// Refraction where it exists and `draw` exceeds the reflectance,
/// reflection otherwise; never any attenuation.
pub open spec fn dielectric_spec(index: int, ray: RayV, hit: HitV, draw: int) -> ScatterV {
    let direction = match dielectric_refraction(index, ray, hit) {
        Some(refracted) => if draw > schlick_spec(cosine_spec(index, ray, hit), index) {
            refracted
        } else {
            reflect_spec(ray.direction, hit.normal)
        },
        None => reflect_spec(ray.direction, hit.normal),
    };
    ScatterV { color: white_spec(), ray: Some(RayV { origin: hit.p, direction }) }
}

/// What a material does to a ray, given the random values it may consume:
/// a point of the unit ball and a draw from `[0, 1)`.
pub open spec fn scatter_spec(
    material: MaterialV,
    ray: RayV,
    hit: HitV,
    sample: V3,
    draw: int,
) -> ScatterV {
    match material {
        MaterialV::Lambertian { albedo } => lambertian_spec(albedo, hit, sample),
        MaterialV::Metal { albedo, fuzz } => metal_spec(albedo, fuzz, ray, hit, sample),
        MaterialV::Dielectric { index } => dielectric_spec(index, ray, hit, draw),
    }
}

/// Whether `outcome` is what the material does for some admissible
/// random values.
pub open spec fn possible_scatter(
    material: MaterialV,
    ray: RayV,
    hit: HitV,
    outcome: ScatterV,
) -> bool {
    exists|sample: V3, draw: int|
        in_unit_ball(sample) && is_unit_draw(draw) && outcome == #[trigger] scatter_spec(
            material,
            ray,
            hit,
            sample,
            draw,
        )
}

pub fn reflect(v: Vec3, n: Vec3) -> (r: Vec3)
    ensures
        r@ == reflect_spec(v@, n@),
{
    let two = Scalar::from_raw(131072);
    v.sub(n.scale(two.mul(v.dot(&n))))
}

pub fn refract(v: Vec3, n: Vec3, ni_over_nt: Scalar) -> (r: Option<Vec3>)
    ensures
        match r {
            Some(d) => refract_spec(v@, n@, ni_over_nt@) == Some(d@),
            None => refract_spec(v@, n@, ni_over_nt@) is None,
        },
{
    let uv = v.to_unit_vector();
    let dt = uv.dot(&n);
    let one = Scalar::one();
    let discriminant = one.sub(ni_over_nt.mul(ni_over_nt).mul(one.sub(dt.mul(dt))));
    if discriminant.raw() > 0 {
        Some(uv.sub(n.scale(dt)).scale(ni_over_nt).sub(n.scale(discriminant.sqrt())))
    } else {
        None
    }
}

pub fn schlick(cosine: Scalar, index: Scalar) -> (r: Scalar)
    ensures
        r@ == schlick_spec(cosine@, index@),
{
    let one = Scalar::one();
    let r0 = one.sub(index).div(one.add(index));
    let r0 = r0.mul(r0);
    r0.add(one.sub(r0).mul(one.sub(cosine).pow5()))
}

/// The diffuse bounce for a given point of the unit ball.
pub fn lambertian_bounce(lambertian: &Lambertian, hit: &Hit, sample: Vec3) -> (s: Scatter)
    ensures
        s@ == lambertian_spec(lambertian.albedo@, hit@, sample@),
{
    let target = hit.p.add(hit.normal).add(sample);
    Scatter { color: lambertian.albedo, ray: Some(Ray::new(hit.p, target.sub(hit.p))) }
}

/// The blurred reflection for a given point of the unit ball.
pub fn metal_bounce(metal: &Metal, r_in: &Ray, hit: &Hit, sample: Vec3) -> (s: Scatter)
    ensures
        s@ == metal_spec(metal.albedo@, metal.fuzz@, r_in@, hit@, sample@),
        metal.fuzz@ == 0 ==> s@ == mirror_spec(metal.albedo@, r_in@, hit@),
{
    proof {
        lemma_polished_metal_is_mirror(metal.albedo@, r_in@, hit@, sample@);
    }
    let reflected = reflect(r_in.direction, hit.normal);
    let scattered = Ray::new(hit.p, reflected.add(sample.scale(metal.fuzz)));
    Scatter {
        color: metal.albedo,
        ray: if scattered.direction.dot_wide(&hit.normal) <= 0 {
            None
        } else {
            Some(scattered)
        },
    }
}

/// The refraction or reflection for a given draw from `[0, 1)`.
pub fn dielectric_bounce(dielectric: &Dielectric, r_in: &Ray, hit: &Hit, draw: Scalar) -> (s:
    Scatter)
    ensures
        s@ == dielectric_spec(dielectric.index@, r_in@, hit@, draw@),
{
    let exiting = r_in.direction.dot_wide(&hit.normal) > 0;
    let d = r_in.direction.dot(&hit.normal);
    let len = r_in.direction.length();
    let (outward_normal, ni_over_nt, cosine) = if exiting {
        (hit.normal.neg(), dielectric.index, dielectric.index.mul(d).div(len))
    } else {
        (hit.normal, Scalar::one().div(dielectric.index), d.neg().div(len))
    };
    if let Some(refracted) = refract(r_in.direction, outward_normal, ni_over_nt) {
        if draw.raw() > schlick(cosine, dielectric.index).raw() {
            return Scatter { color: Vec3::white(), ray: Some(Ray::new(hit.p, refracted)) };
        }
    }
    Scatter {
        color: Vec3::white(),
        ray: Some(Ray::new(hit.p, reflect(r_in.direction, hit.normal))),
    }
}

pub fn scatter_lambertian(
    lambertian: &Lambertian,
    r_in: &Ray,
    hit: &Hit,
    rng: &mut RandomSource,
) -> (s: Scatter)
    ensures
        exists|sample: V3| #[trigger]
            in_unit_ball(sample) && s@ == lambertian_spec(lambertian.albedo@, hit@, sample),
        s@.ray is Some,
        s@.color == lambertian.albedo@,
        advanced(old(rng)@, final(rng)@, 3, most_ball_words()),
{
    let sample = rng.random_in_unit_sphere();
    lambertian_bounce(lambertian, hit, sample)
}

pub fn scatter_metal(metal: &Metal, r_in: &Ray, hit: &Hit, rng: &mut RandomSource) -> (s:
    Scatter)
    ensures
        exists|sample: V3| #[trigger]
            in_unit_ball(sample) && s@ == metal_spec(
                metal.albedo@,
                metal.fuzz@,
                r_in@,
                hit@,
                sample,
            ),
        s@.color == metal.albedo@,
        metal.fuzz@ == 0 ==> s@ == mirror_spec(metal.albedo@, r_in@, hit@),
        s@.ray matches Some(out) ==> dot_exact(out.direction, hit@.normal) > 0,
        advanced(old(rng)@, final(rng)@, 3, most_ball_words()),
{
    let sample = rng.random_in_unit_sphere();
    metal_bounce(metal, r_in, hit, sample)
}

pub fn scatter_dielectric(
    dielectric: &Dielectric,
    r_in: &Ray,
    hit: &Hit,
    rng: &mut RandomSource,
) -> (s: Scatter)
    ensures
        exists|draw: int| #[trigger]
            is_unit_draw(draw) && s@ == dielectric_spec(dielectric.index@, r_in@, hit@, draw),
        s@.color == white_spec(),
        s@.ray is Some,
        refraction_discriminant(
            r_in@.direction,
            outward_normal_spec(r_in@, hit@),
            index_ratio_spec(dielectric.index@, r_in@, hit@),
        ) <= 0 ==> s@.ray == Some(
            RayV { origin: hit@.p, direction: reflect_spec(r_in@.direction, hit@.normal) },
        ),
        advanced(old(rng)@, final(rng)@, 1, 1),
{
    let draw = rng.next_unit();
    dielectric_bounce(dielectric, r_in, hit, draw)
}

impl Material {
    /// What this material does to a ray for given random values.
    pub fn scatter_with(&self, r_in: &Ray, rec: &Hit, sample: Vec3, draw: Scalar) -> (s: Scatter)
        ensures
            s@ == scatter_spec(self@, r_in@, rec@, sample@, draw@),
    {
        match self {
            Material::Lambertian(l) => lambertian_bounce(l, rec, sample),
            Material::Metal(m) => metal_bounce(m, r_in, rec, sample),
            Material::Dielectric(d) => dielectric_bounce(d, r_in, rec, draw),
        }
    }

    /// Scatters a ray, drawing the random values from `rng`.
    pub fn scatter(&self, r_in: &Ray, rec: &Hit, rng: &mut RandomSource) -> (s: Scatter)
        ensures
            possible_scatter(self@, r_in@, rec@, s@),
            self@ matches MaterialV::Lambertian { albedo } ==> s@.ray is Some && s@.color
                == albedo,
            self@ is Dielectric ==> s@.ray is Some && s@.color == white_spec(),
            s@.ray is None ==> self@ is Metal,
            advanced(old(rng)@, final(rng)@, 1, most_ball_words()),
    {
        let s = match self {
            Material::Lambertian(l) => scatter_lambertian(l, r_in, rec, rng),
            Material::Metal(m) => scatter_metal(m, r_in, rec, rng),
            Material::Dielectric(d) => scatter_dielectric(d, r_in, rec, rng),
        };
        proof {
            match self {
                Material::Lambertian(l) => {
                    let sample = choose|sample: V3| #[trigger]
                        in_unit_ball(sample) && s@ == lambertian_spec(l.albedo@, rec@, sample);
                    assert(s@ == scatter_spec(self@, r_in@, rec@, sample, 0));
                },
                Material::Metal(m) => {
                    let sample = choose|sample: V3| #[trigger]
                        in_unit_ball(sample) && s@ == metal_spec(
                            m.albedo@,
                            m.fuzz@,
                            r_in@,
                            rec@,
                            sample,
                        );
                    assert(s@ == scatter_spec(self@, r_in@, rec@, sample, 0));
                },
                Material::Dielectric(d) => {
                    let draw = choose|draw: int| #[trigger]
                        is_unit_draw(draw) && s@ == dielectric_spec(d.index@, r_in@, rec@, draw);
                    let origin = V3 { x: 0, y: 0, z: 0 };
                    lemma_centre_in_unit_ball();
                    assert(s@ == scatter_spec(self@, r_in@, rec@, origin, draw));
                },
            }
        }
        s
    }
}

} // verus!
