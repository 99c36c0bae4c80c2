//! The scene: what is rendered, with what light, seen from where.
//!
//! A scene is built once and never changed while it is rendered. Before
//! anything is rendered it is checked; a scene that fails the check is a
//! mistake of whoever built it.

use crate::color::Color;
use crate::scalar::{Scalar, ONE_BITS};
use crate::vec3::{Direction, Point, Ray};
use vstd::prelude::*;

verus! {

/// How a surface answers light.
#[derive(Clone, Copy, Debug)]
pub struct Material {
    pub diffuse_color: Color,
    pub specular_color: Color,
    /// The exponent of the specular highlight.
    pub shininess: Scalar,
    /// The fraction of the mirrored ray's light that the surface adds.
    pub reflectivity: Scalar,
}

/// A light: a point, or a disk where `radius` is greater than zero.
#[derive(Clone, Copy, Debug)]
pub struct Light {
    pub point: Point,
    pub color: Color,
    pub radius: Scalar,
    pub intensity: Scalar,
}

/// Where a ray meets a surface.
#[derive(Clone, Copy, Debug)]
pub struct Intersection {
    /// How far along the ray.
    pub distance: Scalar,
    pub point: Point,
    /// The unit normal of the surface at `point`.
    pub surface_normal: Direction,
}

/// The shapes that a scene can hold.
#[derive(Clone, Copy, Debug)]
pub enum Shape {
    Sphere { center: Point, radius: Scalar },
    Plane { point: Point, normal: Direction },
}

/// A shape and what it is made of.
#[derive(Clone, Copy, Debug)]
pub struct Object {
    pub material: Material,
    pub shape: Shape,
}

/// The eye: where it is and where it looks, which way is up, and how wide it
/// sees, in degrees.
#[derive(Clone, Copy, Debug)]
pub struct Camera {
    pub ray: Ray,
    pub up: Direction,
    pub w_fov_degrees: Scalar,
}

/// All that a picture is made from.
#[derive(Debug)]
pub struct Scene {
    pub camera: Camera,
    /// The width of the picture, in pixels.
    pub imgx: u32,
    /// The height of the picture, in pixels.
    pub imgy: u32,
    pub objects: Vec<Object>,
    pub lights: Vec<Light>,
}

/// Why a scene cannot be rendered.
#[derive(Clone, Copy, Debug, PartialEq, Eq)]
pub enum SceneError {
    /// The picture has no width or no height.
    EmptyImage,
    /// The picture's bytes cannot be held in memory.
    ImageTooLarge,
    /// The object at this place in the list is the first that is not valid.
    InvalidObject(usize),
    /// The light at this place in the list is the first that is not valid.
    InvalidLight(usize),
}

impl Material {
    /// Both colours are valid, the shininess is zero or more, and the
    /// reflectivity lies between zero and one.
    pub open spec fn wf(self) -> bool {
        &&& self.diffuse_color.wf()
        &&& self.specular_color.wf()
        &&& self.shininess.non_negative()
        &&& self.reflectivity.non_negative()
        &&& self.reflectivity.at_most(Scalar(ONE_BITS))
    }

    /// Whether the material is valid.
    pub fn is_valid(&self) -> (r: bool)
        ensures
            r == self.wf(),
    {
        self.diffuse_color.is_valid() && self.specular_color.is_valid()
            && self.shininess.is_non_negative() && self.reflectivity.is_non_negative()
            && self.reflectivity.le(Scalar(ONE_BITS))
    }
}

impl Light {
    /// The colour is valid, and radius and intensity are zero or more.
    pub open spec fn wf(self) -> bool {
        &&& self.color.wf()
        &&& self.radius.non_negative()
        &&& self.intensity.non_negative()
    }

    /// Whether the light is valid.
    pub fn is_valid(&self) -> (r: bool)
        ensures
            r == self.wf(),
    {
        self.color.is_valid() && self.radius.is_non_negative() && self.intensity.is_non_negative()
    }
}

impl Intersection {
    /// The distance is a number that is zero or more.
    pub open spec fn wf(self) -> bool {
        self.distance.non_negative()
    }

    /// Whether the distance is a number that is zero or more.
    pub fn is_valid(&self) -> (r: bool)
        ensures
            r == self.wf(),
    {
        self.distance.is_non_negative()
    }
}

impl Shape {
    /// A sphere has a radius greater than zero.
    pub open spec fn wf(self) -> bool {
        match self {
            Shape::Sphere { center, radius } => radius.positive(),
            Shape::Plane { point, normal } => true,
        }
    }

    /// Whether the shape is valid.
    pub fn is_valid(&self) -> (r: bool)
        ensures
            r == self.wf(),
    {
        match self {
            Shape::Sphere { center, radius } => radius.is_positive(),
            Shape::Plane { point, normal } => true,
        }
    }
}

impl Object {
    /// Shape and material are valid.
    pub open spec fn wf(self) -> bool {
        self.material.wf() && self.shape.wf()
    }

    /// Whether shape and material are valid.
    pub fn is_valid(&self) -> (r: bool)
        ensures
            r == self.wf(),
    {
        self.material.is_valid() && self.shape.is_valid()
    }
}

/// The picture has a width and a height.
pub open spec fn has_area(width: u32, height: u32) -> bool {
    width > 0 && height > 0
}

/// The three bytes of every pixel can be held in one buffer.
pub open spec fn fits_memory(width: u32, height: u32) -> bool {
    3 * width * height <= isize::MAX
}

/// The objects before place `n` are all valid.
pub open spec fn objects_valid(objects: Seq<Object>, n: int) -> bool {
    forall|j: int| 0 <= j < n && j < objects.len() ==> (#[trigger] objects[j]).wf()
}

/// The lights before place `n` are all valid.
pub open spec fn lights_valid(lights: Seq<Light>, n: int) -> bool {
    forall|j: int| 0 <= j < n && j < lights.len() ==> (#[trigger] lights[j]).wf()
}

/// The place holds a hit that counts: one whose distance is zero or more.
pub open spec fn counts(hit: Option<Intersection>) -> bool {
    hit is Some && hit.unwrap().wf()
}

/// Place `i` holds the nearest of the hits: a hit that counts, that no other
/// such hit lies nearer than, and the first of those that lie as near.
pub open spec fn is_nearest(hits: Seq<Option<Intersection>>, i: int) -> bool {
    &&& 0 <= i < hits.len()
    &&& counts(hits[i])
    &&& forall|j: int|
        0 <= j < hits.len() && counts(#[trigger] hits[j]) ==> hits[i].unwrap().distance.rank()
            <= hits[j].unwrap().distance.rank()
    &&& forall|j: int|
        0 <= j < i && counts(#[trigger] hits[j]) ==> hits[i].unwrap().distance.rank()
            < hits[j].unwrap().distance.rank()
}

/// No place holds a hit that counts.
pub open spec fn all_miss(hits: Seq<Option<Intersection>>) -> bool {
    forall|j: int| 0 <= j < hits.len() ==> !counts(#[trigger] hits[j])
}

/// The place of the nearest hit, if there is a hit. A hit whose distance is
/// negative or not a number does not count.
pub fn nearest_hit(hits: &[Option<Intersection>]) -> (r: Option<usize>)
    ensures
        r is None <==> all_miss(hits@),
        r matches Some(i) ==> is_nearest(hits@, i as int),
{
    let mut best: Option<usize> = None;
    let mut k: usize = 0;
    while k < hits.len()
        invariant
            k <= hits@.len(),
            best is None <==> all_miss(hits@.take(k as int)),
            best matches Some(i) ==> i < k && is_nearest(hits@.take(k as int), i as int),
        decreases hits@.len() - k,
    {
        let ghost before = hits@.take(k as int);
        let ghost after = hits@.take(k + 1);
        proof {
            assert(forall|j: int| 0 <= j < k ==> after[j] == before[j]);
            assert(after[k as int] == hits@[k as int]);
            if let Some(i) = best {
                assert(counts(before[i as int]));
                assert(after[i as int] == before[i as int]);
            }
        }
        let candidate: bool = match hits[k] {
            None => false,
            Some(h) => h.is_valid(),
        };
        if candidate {
            let h: Intersection = hits[k].unwrap();
            match best {
                None => {
                    best = Some(k);
                    assert(forall|j: int| 0 <= j < k ==> !counts(#[trigger] before[j]));
                },
                Some(i) => {
                    let current: Intersection = hits[i].unwrap();
                    if h.distance.lt(current.distance) {
                        best = Some(k);
                    }
                },
            }
        }
        k = k + 1;
    }
    assert(hits@.take(k as int) =~= hits@);
    best
}

impl Scene {
    /// The picture has an area and fits in memory, and every object and every
    /// light is valid.
    pub open spec fn wf(&self) -> bool {
        &&& has_area(self.imgx, self.imgy)
        &&& fits_memory(self.imgx, self.imgy)
        &&& objects_valid(self.objects@, self.objects@.len() as int)
        &&& lights_valid(self.lights@, self.lights@.len() as int)
    }

    /// Checks the scene before it is rendered, and names what is wrong with
    /// it: first the picture's size, then the objects in their order, then the
    /// lights in theirs.
    pub fn validate(&self) -> (r: Result<(), SceneError>)
        ensures
            r is Ok <==> self.wf(),
            match r {
                Ok(_) => true,
                Err(SceneError::EmptyImage) => !has_area(self.imgx, self.imgy),
                Err(SceneError::ImageTooLarge) => {
                    &&& has_area(self.imgx, self.imgy)
                    &&& !fits_memory(self.imgx, self.imgy)
                },
                Err(SceneError::InvalidObject(i)) => {
                    &&& has_area(self.imgx, self.imgy)
                    &&& fits_memory(self.imgx, self.imgy)
                    &&& i < self.objects@.len()
                    &&& !self.objects@[i as int].wf()
                    &&& objects_valid(self.objects@, i as int)
                },
                Err(SceneError::InvalidLight(i)) => {
                    &&& has_area(self.imgx, self.imgy)
                    &&& fits_memory(self.imgx, self.imgy)
                    &&& objects_valid(self.objects@, self.objects@.len() as int)
                    &&& i < self.lights@.len()
                    &&& !self.lights@[i as int].wf()
                    &&& lights_valid(self.lights@, i as int)
                },
            },
    {
        if self.imgx == 0 || self.imgy == 0 {
            return Err(SceneError::EmptyImage);
        }
        assert(self.imgx * self.imgy <= 0xffff_ffff * 0xffff_ffff) by (nonlinear_arith)
            requires
                self.imgx <= 0xffff_ffff,
                self.imgy <= 0xffff_ffff,
        ;
        let bytes: u128 = 3 * ((self.imgx as u128) * (self.imgy as u128));
        assert(bytes == 3 * self.imgx * self.imgy) by (nonlinear_arith)
            requires
                bytes == 3 * ((self.imgx as int) * (self.imgy as int)),
        ;
        if bytes > isize::MAX as u128 {
            return Err(SceneError::ImageTooLarge);
        }
        let mut i: usize = 0;
        while i < self.objects.len()
            invariant
                i <= self.objects@.len(),
                has_area(self.imgx, self.imgy),
                fits_memory(self.imgx, self.imgy),
                objects_valid(self.objects@, i as int),
            decreases self.objects@.len() - i,
        {
            if !self.objects[i].is_valid() {
                return Err(SceneError::InvalidObject(i));
            }
            i = i + 1;
        }
        let mut k: usize = 0;
        while k < self.lights.len()
            invariant
                k <= self.lights@.len(),
                has_area(self.imgx, self.imgy),
                fits_memory(self.imgx, self.imgy),
                objects_valid(self.objects@, self.objects@.len() as int),
                lights_valid(self.lights@, k as int),
            decreases self.lights@.len() - k,
        {
            if !self.lights[k].is_valid() {
                return Err(SceneError::InvalidLight(k));
            }
            k = k + 1;
        }
        Ok(())
    }

    /// The nearest of the hits, with the object that was hit. `hits` holds,
    /// for each object of the scene in its order, where the ray meets it, if it
    /// does. A hit whose distance is negative or not a number does not count;
    /// of several hits at the same distance the first does.
    pub fn closest_intersection<'a>(&'a self, hits: &[Option<Intersection>]) -> (r: Option<
        (&'a Object, Intersection),
    >)
        requires
            hits@.len() == self.objects@.len(),
        ensures
            r is None <==> all_miss(hits@),
            r matches Some((object, hit)) ==> {
                &&& hit.wf()
                &&& exists|i: int|
                    {
                        &&& #[trigger] is_nearest(hits@, i)
                        &&& *object == self.objects@[i]
                        &&& Some(hit) == hits@[i]
                    }
            },
    {
        match nearest_hit(hits) {
            None => None,
            Some(i) => {
                let hit: Intersection = hits[i].unwrap();
                Some((&self.objects[i], hit))
            },
        }
    }
}

/// Only one place holds the nearest hit.
pub proof fn lemma_nearest_is_unique(hits: Seq<Option<Intersection>>, i: int, j: int)
    requires
        is_nearest(hits, i),
        is_nearest(hits, j),
    ensures
        i == j,
{
    if i < j {
        assert(counts(hits[i]));
    } else if j < i {
        assert(counts(hits[j]));
    }
}

/// Where the nearest hit is found, no hit of the ray lies at a smaller
/// distance, and its own distance is zero or more.
pub proof fn lemma_nearest_is_minimal(hits: Seq<Option<Intersection>>, i: int, j: int)
    requires
        is_nearest(hits, i),
        0 <= j < hits.len(),
        counts(hits[j]),
    ensures
        hits[i].unwrap().distance.at_most(hits[j].unwrap().distance),
        hits[i].unwrap().distance.non_negative(),
{
}

} // verus!
