use vstd::prelude::*;

verus! {

use crate::lighting::Intersection;
use crate::lighting::LightSource;
use crate::lighting::Ray;
use crate::shapes::Sphere;
use crate::vector::PixelColour;
use crate::vector::Vec3;
use crate::vector::Vector;

/// The colour of a pixel that no shape covers.
pub fn background() -> (c: PixelColour)
    ensures
        c@ == (Vec3 { x: 0, y: 0, z: 0 }),
{
    Vector::new(0, 0, 0)
}

/// The hit to shade among the per-shape results: the intersection of
/// smallest `t`, the earliest shape winning ties.
pub fn closest_intersect(intersects: Vec<Option<Intersection>>) -> (r: Option<Intersection>)
    ensures
        (r is None) <==> (forall|i: int|
            0 <= i < intersects@.len() ==> intersects@[i] is None),
        r matches Some(ci) ==> exists|i: int|
            {
                &&& 0 <= i < intersects@.len()
                &&& #[trigger] intersects@[i] == Some(ci)
                &&& forall|j: int|
                    0 <= j < i ==> (#[trigger] intersects@[j] matches Some(o) ==> o.t > ci.t)
            },
        r matches Some(ci) ==> forall|j: int|
            0 <= j < intersects@.len() ==> (#[trigger] intersects@[j] matches Some(o) ==> ci.t
                <= o.t),
{
    let mut closest: Option<Intersection> = None;
    let ghost mut win: int = 0;
    let mut idx: usize = 0;
    while idx < intersects.len()
        invariant
            0 <= idx <= intersects@.len(),
            closest is None ==> forall|i: int| 0 <= i < idx ==> intersects@[i] is None,
            closest matches Some(ci) ==> {
                &&& 0 <= win < idx
                &&& intersects@[win] == Some(ci)
                &&& forall|j: int|
                    0 <= j < win ==> (#[trigger] intersects@[j] matches Some(o) ==> o.t > ci.t)
                &&& forall|j: int|
                    0 <= j < idx ==> (#[trigger] intersects@[j] matches Some(o) ==> ci.t <= o.t)
            },
        decreases intersects@.len() - idx,
    {
        let intersection_option = intersects[idx];
        if let Some(intersection) = intersection_option {
            match closest {
                Some(closest_intersection) => {
                    if intersection.t() < closest_intersection.t() {
                        closest = Some(intersection);
                        proof {
                            win = idx as int;
                        }
                    }
                },
                None => {
                    closest = Some(intersection);
                    proof {
                        win = idx as int;
                    }
                },
            }
        }
        idx = idx + 1;
    }
    closest
}

/// The hit, if any, that `ray` makes in the scene: every sphere is tested
/// and the nearest hit wins, earlier spheres breaking ties.
pub fn closest_hit(shapes: &Vec<Sphere>, ray: &Ray, light_source: &LightSource) -> (r: Option<
    Intersection,
>)
    requires
        ray.castable(),
        forall|k: int| 0 <= k < shapes@.len() ==> (#[trigger] shapes@[k]).in_scene_bounds(),
    ensures
        (r is None) <==> (forall|k: int|
            0 <= k < shapes@.len() ==> (#[trigger] shapes@[k]).spec_hit(*ray) is None),
        r matches Some(i) ==> {
            &&& exists|k: int|
                {
                    &&& 0 <= k < shapes@.len()
                    &&& (#[trigger] shapes@[k]).spec_hit(*ray) == Some((i.t as int, i.is_inside))
                    &&& i.object == shapes@[k]
                    &&& forall|j: int|
                        0 <= j < k ==> ((#[trigger] shapes@[j]).spec_hit(*ray) matches Some(p)
                            ==> p.0 > i.t)
                }
            &&& i.point@.x == ray.origin@.x + crate::arith::div_trunc(ray.direction@.x * i.t, 1000)
            &&& i.point@.y == ray.origin@.y + crate::arith::div_trunc(ray.direction@.y * i.t, 1000)
            &&& i.point@.z == ray.origin@.z + crate::arith::div_trunc(ray.direction@.z * i.t, 1000)
            &&& i.ray == *ray
            &&& i.light_source == *light_source
        },
        r matches Some(i) ==> forall|k: int|
            0 <= k < shapes@.len() ==> ((#[trigger] shapes@[k]).spec_hit(*ray) matches Some(p)
                ==> i.t <= p.0),
{
    let mut intersections: Vec<Option<Intersection>> = Vec::new();
    let mut k: usize = 0;
    while k < shapes.len()
        invariant
            0 <= k <= shapes@.len(),
            intersections@.len() == k,
            ray.castable(),
            forall|j: int| 0 <= j < shapes@.len() ==> (#[trigger] shapes@[j]).in_scene_bounds(),
            forall|j: int|
                0 <= j < k ==> ((#[trigger] intersections@[j]) is None <==> shapes@[j].spec_hit(
                    *ray,
                ) is None),
            forall|j: int|
                0 <= j < k ==> (#[trigger] intersections@[j] matches Some(i) ==> {
                    &&& shapes@[j].spec_hit(*ray) == Some((i.t as int, i.is_inside))
                    &&& i.object == shapes@[j]
                    &&& i.point@.x == ray.origin@.x + crate::arith::div_trunc(ray.direction@.x * i.t, 1000)
                    &&& i.point@.y == ray.origin@.y + crate::arith::div_trunc(ray.direction@.y * i.t, 1000)
                    &&& i.point@.z == ray.origin@.z + crate::arith::div_trunc(ray.direction@.z * i.t, 1000)
                    &&& i.ray == *ray
                    &&& i.light_source == *light_source
                }),
        decreases shapes@.len() - k,
    {
        let sphere = shapes[k];
        intersections.push(sphere.intersection(ray, light_source));
        k = k + 1;
    }
    let result = closest_intersect(intersections);
    proof {
        if result is None {
            assert forall|j: int| 0 <= j < shapes@.len() implies (#[trigger] shapes@[j]).spec_hit(
                *ray,
            ) is None by {
                assert(intersections@[j] is None);
            }
        }
        if forall|j: int| 0 <= j < shapes@.len() ==> (#[trigger] shapes@[j]).spec_hit(*ray)
            is None {
            assert forall|j: int|
                0 <= j < intersections@.len() implies (#[trigger] intersections@[j]) is None by {
                assert(shapes@[j].spec_hit(*ray) is None);
            }
            assert(result is None);
        }
        if result is Some {
            let ci = result->Some_0;
            let i0 = choose|i0: int|
                {
                    &&& 0 <= i0 < intersections@.len()
                    &&& #[trigger] intersections@[i0] == Some(ci)
                    &&& forall|j: int|
                        0 <= j < i0 ==> (#[trigger] intersections@[j] matches Some(o) ==> o.t
                            > ci.t)
                };
            assert(intersections@[i0] == Some(ci));
            assert(shapes@[i0].spec_hit(*ray) == Some((ci.t as int, ci.is_inside)));
            assert forall|j: int|
                0 <= j < i0 implies ((#[trigger] shapes@[j]).spec_hit(*ray) matches Some(p)
                ==> p.0 > ci.t) by {
                if shapes@[j].spec_hit(*ray) is Some {
                    assert(!(intersections@[j] is None));
                    let o = intersections@[j]->Some_0;
                    assert(shapes@[j].spec_hit(*ray) == Some((o.t as int, o.is_inside)));
                    assert(o.t > ci.t);
                }
            }
            assert forall|j: int|
                0 <= j < shapes@.len() implies ((#[trigger] shapes@[j]).spec_hit(*ray) matches Some(
                p,
            ) ==> ci.t <= p.0) by {
                if shapes@[j].spec_hit(*ray) is Some {
                    assert(!(intersections@[j] is None));
                    let o = intersections@[j]->Some_0;
                    assert(shapes@[j].spec_hit(*ray) == Some((o.t as int, o.is_inside)));
                    assert(ci.t <= o.t);
                }
            }
        }
    }
    result
}

} // verus!
