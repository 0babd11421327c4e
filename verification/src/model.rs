//! The scene: spheres, groups of models, and the nearest intersection of a
//! ray with them.
use crate::materials::{Material, MaterialV};
use crate::scalar::{
    div_wide, floor_sqrt, is_floor_sqrt, lemma_floor_sqrt_exists, lemma_floor_sqrt_monotonic,
    lemma_mul_bound, sqrt_wide, trunc_div, Scalar, LIMIT_RAW, ONE_RAW,
};
use crate::vec3::{dot_exact, point_at_spec, v3_div, v3_sub, Ray, RayV, Vec3, V3};
use vstd::prelude::*;

verus! {

/// The least distance a ray must travel before a hit counts. It keeps a
/// ray that leaves a surface from hitting that surface again at once.
/// This is the least raw value that stands for at least one ten-thousandth.
pub const T_MIN_RAW: i64 = 7;

/// The mathematical value of an intersection.
pub struct HitV {
    pub t: int,
    pub p: V3,
    pub normal: V3,
    pub material: MaterialV,
}

/// An intersection of a ray with a surface: the ray parameter, the point,
/// the outward normal and the material of the surface.
#[derive(Clone, Copy)]
pub struct Hit<'obj> {
    pub t: Scalar,
    pub p: Vec3,
    pub normal: Vec3,
    pub material: &'obj Material,
}

impl<'obj> View for Hit<'obj> {
    type V = HitV;

    open spec fn view(&self) -> HitV {
        HitV { t: self.t@, p: self.p@, normal: self.normal@, material: self.material@ }
    }
}

/// The value of an optional intersection.
pub open spec fn hit_view(h: Option<Hit>) -> Option<HitV> {
    match h {
        Some(hit) => Some(hit@),
        None => None,
    }
}

/// The mathematical value of a sphere.
pub struct SphereV {
    pub center: V3,
    pub radius: int,
    pub material: MaterialV,
}

pub struct Sphere {
    pub center: Vec3,
    pub radius: Scalar,
    pub material: Material,
}

impl View for Sphere {
    type V = SphereV;

    open spec fn view(&self) -> SphereV {
        SphereV { center: self.center@, radius: self.radius@, material: self.material@ }
    }
}

pub enum Model {
    Sphere(Sphere),
    ModelVec(Vec<Model>),
}

/// The vector from the centre of the sphere to the origin of the ray,
/// not saturated.
pub open spec fn offset_spec(center: V3, ray: RayV) -> V3 {
    V3 {
        x: ray.origin.x - center.x,
        y: ray.origin.y - center.y,
        z: ray.origin.z - center.z,
    }
}

/// The coefficient `a` of the quadratic in `t`: the squared length of the
/// direction.
pub open spec fn quad_a(ray: RayV) -> int {
    dot_exact(ray.direction, ray.direction)
}

/// Half the coefficient `b`: the dot product of offset and direction.
pub open spec fn quad_half_b(center: V3, ray: RayV) -> int {
    dot_exact(offset_spec(center, ray), ray.direction)
}

/// The coefficient `c`: the squared distance of the origin from the
/// centre, less the squared radius.
pub open spec fn quad_c(center: V3, radius: int, ray: RayV) -> int {
    dot_exact(offset_spec(center, ray), offset_spec(center, ray)) - radius * radius
}

/// The discriminant `(b/2)^2 - a * c`, computed exactly.
pub open spec fn discriminant_spec(center: V3, radius: int, ray: RayV) -> int {
    quad_half_b(center, ray) * quad_half_b(center, ray) - quad_a(ray) * quad_c(
        center,
        radius,
        ray,
    )
}

/// The nearer root `(-b/2 - sqrt(discriminant)) / a` as a raw scalar.
pub open spec fn near_root_spec(center: V3, radius: int, ray: RayV) -> int {
    let root = floor_sqrt(discriminant_spec(center, radius, ray));
    trunc_div((-quad_half_b(center, ray) - root) * ONE_RAW, quad_a(ray))
}

/// The farther root `(-b/2 + sqrt(discriminant)) / a` as a raw scalar.
pub open spec fn far_root_spec(center: V3, radius: int, ray: RayV) -> int {
    let root = floor_sqrt(discriminant_spec(center, radius, ray));
    trunc_div((-quad_half_b(center, ray) + root) * ONE_RAW, quad_a(ray))
}

/// Whether a root counts as a hit: not nearer than `T_MIN_RAW`, and
/// representable.
pub open spec fn accepted(t: int) -> bool {
    T_MIN_RAW <= t <= LIMIT_RAW
}

/// The intersection at parameter `t`: the point on the ray, and the
/// normal `(p - center) / radius`.
pub open spec fn hit_at_spec(sphere: SphereV, ray: RayV, t: int) -> HitV {
    let p = point_at_spec(ray, t);
    HitV { t, p, normal: v3_div(v3_sub(p, sphere.center), sphere.radius), material: sphere.material }
}

/// The nearest accepted intersection of a ray with a sphere.
pub open spec fn sphere_hit_spec(sphere: SphereV, ray: RayV) -> Option<HitV> {
    if discriminant_spec(sphere.center, sphere.radius, ray) > 0 {
        let near = near_root_spec(sphere.center, sphere.radius, ray);
        let far = far_root_spec(sphere.center, sphere.radius, ray);
        if accepted(near) {
            Some(hit_at_spec(sphere, ray, near))
        } else if accepted(far) {
            Some(hit_at_spec(sphere, ray, far))
        } else {
            None
        }
    } else {
        None
    }
}

/// The nearer of two optional intersections; the earlier one wins a tie.
pub open spec fn closer_spec(best: Option<HitV>, found: Option<HitV>) -> Option<HitV> {
    match found {
        None => best,
        Some(hit) => match best {
            None => Some(hit),
            Some(prev) => if hit.t < prev.t {
                Some(hit)
            } else {
                Some(prev)
            },
        },
    }
}

impl Model {
    /// The nearest intersection of a ray with this model.
    pub open spec fn hit_spec(&self, ray: RayV) -> Option<HitV>
        decreases self,
    {
        match self {
            Model::Sphere(sphere) => sphere_hit_spec(sphere@, ray),
            Model::ModelVec(models) => nearest_spec(models@, ray),
        }
    }
}

/// The nearest intersection of a ray with any of `models`.
pub open spec fn nearest_spec(models: Seq<Model>, ray: RayV) -> Option<HitV>
    decreases models,
{
    if models.len() == 0 {
        None
    } else {
        closer_spec(nearest_spec(models.drop_last(), ray), models.last().hit_spec(ray))
    }
}

/// A direction of squared length zero is the zero vector.
pub proof fn lemma_zero_direction(oc: V3, d: V3)
    requires
        dot_exact(d, d) <= 0,
    ensures
        dot_exact(oc, d) == 0,
        dot_exact(d, d) == 0,
{
    assert(d.x == 0 && d.y == 0 && d.z == 0) by (nonlinear_arith)
        requires
            d.x * d.x + d.y * d.y + d.z * d.z <= 0,
    ;
}

/// The squared length of the cross product of `a` and `b`.
pub open spec fn cross_square(a: V3, b: V3) -> int {
    (a.y * b.z - a.z * b.y) * (a.y * b.z - a.z * b.y) + (a.z * b.x - a.x * b.z) * (a.z * b.x
        - a.x * b.z) + (a.x * b.y - a.y * b.x) * (a.x * b.y - a.y * b.x)
}

proof fn lemma_square_of_difference(x: int, y: int)
    ensures
        (x - y) * (x - y) == x * x + y * y - 2 * (x * y),
{
    assert((x - y) * (x - y) == x * x + y * y - 2 * (x * y)) by (nonlinear_arith);
}

proof fn lemma_square_of_sum(p: int, q: int, r: int)
    ensures
        (p + q + r) * (p + q + r) == p * p + q * q + r * r + 2 * (p * q) + 2 * (p * r) + 2 * (q
            * r),
{
    assert((p + q + r) * (p + q + r) == p * p + q * q + r * r + 2 * (p * q) + 2 * (p * r) + 2
        * (q * r)) by (nonlinear_arith);
}

proof fn lemma_product_of_sums(a1: int, a2: int, a3: int, b1: int, b2: int, b3: int)
    ensures
        (a1 + a2 + a3) * (b1 + b2 + b3) == a1 * b1 + a1 * b2 + a1 * b3 + a2 * b1 + a2 * b2 + a2
            * b3 + a3 * b1 + a3 * b2 + a3 * b3,
{
    assert((a1 + a2 + a3) * (b1 + b2 + b3) == a1 * b1 + a1 * b2 + a1 * b3 + a2 * b1 + a2 * b2
        + a2 * b3 + a3 * b1 + a3 * b2 + a3 * b3) by (nonlinear_arith);
}

proof fn lemma_exchange(a: int, b: int, c: int, d: int)
    ensures
        (a * b) * (c * d) == (a * d) * (c * b),
        (a * a) * (b * b) == (a * b) * (a * b),
{
    assert((a * b) * (c * d) == (a * d) * (c * b)) by (nonlinear_arith);
    assert((a * a) * (b * b) == (a * b) * (a * b)) by (nonlinear_arith);
}

/// Lagrange's identity: `|a x b|^2 == |a|^2 * |b|^2 - (a . b)^2`.
pub proof fn lemma_lagrange(a: V3, b: V3)
    ensures
        cross_square(a, b) == dot_exact(a, a) * dot_exact(b, b) - dot_exact(a, b) * dot_exact(
            a,
            b,
        ),
{
    lemma_square_of_difference(a.y * b.z, a.z * b.y);
    lemma_square_of_difference(a.z * b.x, a.x * b.z);
    lemma_square_of_difference(a.x * b.y, a.y * b.x);
    lemma_square_of_sum(a.x * b.x, a.y * b.y, a.z * b.z);
    lemma_product_of_sums(a.x * a.x, a.y * a.y, a.z * a.z, b.x * b.x, b.y * b.y, b.z * b.z);
    lemma_exchange(a.y, b.z, a.z, b.y);
    lemma_exchange(a.z, b.x, a.x, b.z);
    lemma_exchange(a.x, b.y, a.y, b.x);
    lemma_exchange(a.x, b.x, a.y, b.y);
    lemma_exchange(a.x, b.x, a.z, b.z);
    lemma_exchange(a.y, b.y, a.z, b.z);
    lemma_exchange(a.x, b.z, a.x, b.z);
    lemma_exchange(a.y, b.x, a.y, b.x);
    lemma_exchange(a.z, b.y, a.z, b.y);
    lemma_exchange(a.y, b.y, a.x, b.x);
    lemma_exchange(a.z, b.z, a.x, b.x);
    lemma_exchange(a.z, b.z, a.y, b.y);
}

/// A ray misses a sphere whose centre is farther from the line of the ray
/// than the radius. The squared distance of the centre from the line,
/// times the squared length of the direction, is the squared cross
/// product of the offset and the direction.
pub proof fn lemma_distant_line_misses(sphere: SphereV, ray: RayV)
    requires
        cross_square(offset_spec(sphere.center, ray), ray.direction) > sphere.radius
            * sphere.radius * quad_a(ray),
    ensures
        sphere_hit_spec(sphere, ray) is None,
{
    let oc = offset_spec(sphere.center, ray);
    let d = ray.direction;
    let r2 = sphere.radius * sphere.radius;
    lemma_lagrange(oc, d);
    assert(dot_exact(oc, d) * dot_exact(oc, d) - dot_exact(d, d) * (dot_exact(oc, oc) - r2)
        == r2 * dot_exact(d, d) - cross_square(oc, d)) by (nonlinear_arith)
        requires
            cross_square(oc, d) == dot_exact(oc, oc) * dot_exact(d, d) - dot_exact(oc, d)
                * dot_exact(oc, d),
    ;
}

/// A ray that starts on or outside a sphere and does not point toward its
/// centre misses it. In particular, a ray that leaves the surface of a
/// sphere outward does not hit that sphere again.
pub proof fn lemma_leaving_ray_misses(sphere: SphereV, ray: RayV)
    requires
        quad_c(sphere.center, sphere.radius, ray) >= 0,
        quad_half_b(sphere.center, ray) >= 0,
    ensures
        sphere_hit_spec(sphere, ray) is None,
{
    let a = quad_a(ray);
    let hb = quad_half_b(sphere.center, ray);
    let c = quad_c(sphere.center, sphere.radius, ray);
    let disc = discriminant_spec(sphere.center, sphere.radius, ray);
    if disc > 0 {
        assert(a >= 0) by (nonlinear_arith)
            requires
                a == dot_exact(ray.direction, ray.direction),
        ;
        assert(disc <= hb * hb) by (nonlinear_arith)
            requires
                disc == hb * hb - a * c,
                a >= 0,
                c >= 0,
        ;
        if a == 0 {
            lemma_zero_direction(offset_spec(sphere.center, ray), ray.direction);
            assert(hb * hb - a * c == 0) by (nonlinear_arith)
                requires
                    hb == 0,
                    a == 0,
            ;
        }
        lemma_floor_sqrt_exists(disc);
        let root = floor_sqrt(disc);
        assert(is_floor_sqrt(hb * hb, hb)) by (nonlinear_arith)
            requires
                hb >= 0,
        ;
        lemma_floor_sqrt_monotonic(disc, hb * hb, root, hb);
        lemma_trunc_div_of_nonpositive((-hb - root) * ONE_RAW, a);
        lemma_trunc_div_of_nonpositive((-hb + root) * ONE_RAW, a);
    }
}

/// The quotient of a non-positive number by a positive one, rounded
/// toward zero, is not positive.
pub proof fn lemma_trunc_div_of_nonpositive(x: int, d: int)
    requires
        x <= 0,
        d > 0,
    ensures
        trunc_div(x, d) <= 0,
{
    assert((-x) / d >= 0) by (nonlinear_arith)
        requires
            -x >= 0,
            d > 0,
    ;
}

/// Every hit of a model lies at an accepted distance along the ray.
pub proof fn lemma_hit_is_accepted(model: Model, ray: RayV)
    ensures
        model.hit_spec(ray) matches Some(hit) ==> accepted(hit.t),
    decreases model,
{
    match model {
        Model::Sphere(sphere) => {},
        Model::ModelVec(models) => {
            lemma_nearest_is_accepted(models@, ray);
        },
    }
}

/// Every hit of a group lies at an accepted distance along the ray.
pub proof fn lemma_nearest_is_accepted(models: Seq<Model>, ray: RayV)
    ensures
        nearest_spec(models, ray) matches Some(hit) ==> accepted(hit.t),
    decreases models,
{
    if models.len() > 0 {
        lemma_nearest_is_accepted(models.drop_last(), ray);
        lemma_hit_is_accepted(models.last(), ray);
    }
}

/// The distance of an optional intersection along the ray.
pub open spec fn distance_spec(h: Option<HitV>) -> Option<int> {
    match h {
        Some(hit) => Some(hit.t),
        None => None,
    }
}

/// No model of a group is hit nearer than the group's nearest hit.
pub proof fn lemma_nearest_is_least(models: Seq<Model>, ray: RayV, i: int)
    requires
        0 <= i < models.len(),
        models[i].hit_spec(ray) is Some,
    ensures
        nearest_spec(models, ray) is Some,
        nearest_spec(models, ray)->0.t <= models[i].hit_spec(ray)->0.t,
    decreases models.len(),
{
    if i < models.len() - 1 {
        assert(models.drop_last()[i] == models[i]);
        lemma_nearest_is_least(models.drop_last(), ray, i);
    }
}

/// The nearest hit of a group is the hit of one of its models.
pub proof fn lemma_nearest_is_attained(models: Seq<Model>, ray: RayV) -> (i: int)
    requires
        nearest_spec(models, ray) is Some,
    ensures
        0 <= i < models.len(),
        models[i].hit_spec(ray) == nearest_spec(models, ray),
    decreases models.len(),
{
    let rest = nearest_spec(models.drop_last(), ray);
    if nearest_spec(models, ray) == models.last().hit_spec(ray) {
        models.len() - 1
    } else {
        let i = lemma_nearest_is_attained(models.drop_last(), ray);
        assert(models.drop_last()[i] == models[i]);
        i
    }
}

/// A group is missed exactly when each of its models is missed.
pub proof fn lemma_nearest_none(models: Seq<Model>, ray: RayV)
    ensures
        nearest_spec(models, ray) is None <==> forall|i: int|
            0 <= i < models.len() ==> (#[trigger] models[i]).hit_spec(ray) is None,
{
    if nearest_spec(models, ray) is Some {
        let i = lemma_nearest_is_attained(models, ray);
        assert(models[i].hit_spec(ray) is Some);
    } else {
        assert forall|i: int| 0 <= i < models.len() implies (#[trigger] models[i]).hit_spec(
            ray,
        ) is None by {
            if models[i].hit_spec(ray) is Some {
                lemma_nearest_is_least(models, ray, i);
            }
        }
    }
}

/// The distance of the nearest hit of a group does not depend on the
/// order of its models.
pub proof fn lemma_nearest_ignores_order(first: Seq<Model>, second: Seq<Model>, ray: RayV)
    requires
        first.to_multiset() == second.to_multiset(),
    ensures
        distance_spec(nearest_spec(first, ray)) == distance_spec(nearest_spec(second, ray)),
{
    lemma_nearest_covers(first, second, ray);
    lemma_nearest_covers(second, first, ray);
}

/// Where every model of one group occurs in another, the other group's
/// nearest hit is at least as near.
proof fn lemma_nearest_covers(first: Seq<Model>, second: Seq<Model>, ray: RayV)
    requires
        first.to_multiset() == second.to_multiset(),
    ensures
        nearest_spec(first, ray) is Some ==> nearest_spec(second, ray) is Some && nearest_spec(
            second,
            ray,
        )->0.t <= nearest_spec(first, ray)->0.t,
{
    if nearest_spec(first, ray) is Some {
        let i = lemma_nearest_is_attained(first, ray);
        first.to_multiset_ensures();
        second.to_multiset_ensures();
        assert(first.contains(first[i]));
        assert(first.to_multiset().count(first[i]) > 0);
        assert(second.to_multiset().count(first[i]) > 0);
        assert(second.contains(first[i]));
        let j = choose|j: int| 0 <= j < second.len() && second[j] == first[i];
        lemma_nearest_is_least(second, ray, j);
    }
}

/// Builds the intersection of a ray with a sphere at an accepted root.
fn hit_at<'a>(sphere: &'a Sphere, ray: &Ray, t: Scalar) -> (h: Hit<'a>)
    ensures
        h@ == hit_at_spec(sphere@, ray@, t@),
{
    let p = ray.point_at_parameter(t);
    Hit { t, p, normal: p.sub(sphere.center).div(sphere.radius), material: &sphere.material }
}

/// Intersects a ray with a sphere: the nearer root of the quadratic if it
/// is accepted, else the farther one if that is accepted.
pub fn hit_sphere<'a>(sphere: &'a Sphere, ray: &Ray) -> (h: Option<Hit<'a>>)
    ensures
        hit_view(h) == sphere_hit_spec(sphere@, ray@),
{
    let ocx: i128 = ray.origin.0.raw() as i128 - sphere.center.0.raw() as i128;
    let ocy: i128 = ray.origin.1.raw() as i128 - sphere.center.1.raw() as i128;
    let ocz: i128 = ray.origin.2.raw() as i128 - sphere.center.2.raw() as i128;
    let dx: i128 = ray.direction.0.raw() as i128;
    let dy: i128 = ray.direction.1.raw() as i128;
    let dz: i128 = ray.direction.2.raw() as i128;
    let r: i128 = sphere.radius.raw() as i128;
    let ghost oc = offset_spec(sphere@.center, ray@);
    proof {
        lemma_mul_bound(dx as int, dx as int, 0x4000_0000, 0x4000_0000);
        lemma_mul_bound(dy as int, dy as int, 0x4000_0000, 0x4000_0000);
        lemma_mul_bound(dz as int, dz as int, 0x4000_0000, 0x4000_0000);
        lemma_mul_bound(ocx as int, dx as int, 0x8000_0000, 0x4000_0000);
        lemma_mul_bound(ocy as int, dy as int, 0x8000_0000, 0x4000_0000);
        lemma_mul_bound(ocz as int, dz as int, 0x8000_0000, 0x4000_0000);
        lemma_mul_bound(ocx as int, ocx as int, 0x8000_0000, 0x8000_0000);
        lemma_mul_bound(ocy as int, ocy as int, 0x8000_0000, 0x8000_0000);
        lemma_mul_bound(ocz as int, ocz as int, 0x8000_0000, 0x8000_0000);
        lemma_mul_bound(r as int, r as int, 0x4000_0000, 0x4000_0000);
    }
    let a: i128 = dx * dx + dy * dy + dz * dz;
    let hb: i128 = ocx * dx + ocy * dy + ocz * dz;
    let c: i128 = ocx * ocx + ocy * ocy + ocz * ocz - r * r;
    proof {
        lemma_mul_bound(hb as int, hb as int, 0x6000_0000_0000_0000, 0x6000_0000_0000_0000);
        lemma_mul_bound(a as int, c as int, 0x3000_0000_0000_0000, 0xd000_0000_0000_0000);
        assert(a == quad_a(ray@));
        assert(hb == quad_half_b(sphere@.center, ray@));
        assert(c == quad_c(sphere@.center, sphere@.radius, ray@));
    }
    let discriminant: i128 = hb * hb - a * c;
    if discriminant > 0 {
        proof {
            if a <= 0 {
                lemma_zero_direction(oc, ray@.direction);
                assert(hb * hb - a * c == 0) by (nonlinear_arith)
                    requires
                        hb == 0,
                        a == 0,
                ;
            }
        }
        let root: i128 = sqrt_wide(discriminant as u128) as i128;
        let near: i128 = div_wide((-hb - root) * 65536, a);
        if near >= T_MIN_RAW as i128 && near <= LIMIT_RAW as i128 {
            return Some(hit_at(sphere, ray, Scalar::from_wide(near)));
        }
        let far: i128 = div_wide((-hb + root) * 65536, a);
        if far >= T_MIN_RAW as i128 && far <= LIMIT_RAW as i128 {
            return Some(hit_at(sphere, ray, Scalar::from_wide(far)));
        }
    }
    None
}

/// Intersects a ray with every model of a group and keeps the nearest hit.
pub fn hit_vec_of_models<'a>(models: &'a Vec<Model>, r: &Ray) -> (h: Option<Hit<'a>>)
    ensures
        hit_view(h) == nearest_spec(models@, r@),
    decreases models,
{
    let mut best: Option<Hit<'a>> = None;
    let mut i: usize = 0;
    while i < models.len()
        invariant
            i <= models.len(),
            hit_view(best) == nearest_spec(models@.take(i as int), r@),
        decreases models.len() - i,
    {
        let child = &models[i];
        let found = child.hit(r);
        proof {
            let taken = models@.take(i + 1);
            assert(taken.drop_last() == models@.take(i as int));
            assert(taken.last() == models@[i as int]);
        }
        if let Some(hit) = found {
            match best {
                None => {
                    best = Some(hit);
                },
                Some(prev) => {
                    if hit.t.raw() < prev.t.raw() {
                        best = Some(hit);
                    }
                },
            }
        }
        i = i + 1;
    }
    proof {
        assert(models@.take(models.len() as int) == models@);
    }
    best
}

impl Model {
    /// The nearest intersection of a ray with this model, if there is one.
    pub fn hit<'a>(&'a self, ray: &Ray) -> (h: Option<Hit<'a>>)
        ensures
            hit_view(h) == self.hit_spec(ray@),
            h matches Some(hit) ==> accepted(hit.t@),
        decreases self,
    {
        proof {
            lemma_hit_is_accepted(*self, ray@);
        }
        match self {
            Model::Sphere(sphere) => hit_sphere(sphere, ray),
            Model::ModelVec(models) => hit_vec_of_models(models, ray),
        }
    }
}

} // verus!
