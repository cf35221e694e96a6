//! Hit records and the scene aggregate.
//!
//! A hit record describes one ray/surface intersection: the point, the
//! oriented unit-pointing normal, the ray parameter and which side was
//! struck.  The scene is an ordered list of spheres; its query returns the
//! closest valid hit together with the index of the sphere that produced
//! it, which callers use to reach that sphere's material.

use crate::fixed::{iabs, Fx, COORD_LIMIT};
use crate::ray::{Ray, RayV, DIR_LIMIT};
use crate::sphere::{sphere_hit_data, Sphere};
use crate::vec3::{vbounded, vdot, vneg, Vec3, V3};
use vstd::prelude::*;

verus! {

/// Bound on each raw component of a stored surface normal: two whole units.
pub const NORMAL_LIMIT: i128 = 131072;

/// Spec-level view of a hit record.
pub ghost struct HitData {
    pub p: V3,
    pub normal: V3,
    pub t: int,
    pub front_face: bool,
}

/// A ray/surface intersection: the point, the oriented normal, the ray
/// parameter, and whether the outward surface side was struck.
#[derive(Clone, Copy, PartialEq, Eq, Structural, Debug)]
pub struct HitRecord {
    pub p: Vec3,
    pub normal: Vec3,
    pub t: Fx,
    pub front_face: bool,
}

impl HitRecord {
    /// The spec-level view of the record.
    pub open spec fn data(self) -> HitData {
        HitData {
            p: self.p.m(),
            normal: self.normal.m(),
            t: self.t.v as int,
            front_face: self.front_face,
        }
    }

    /// Whether the record's fields are within the ranges the shading
    /// formulas accept.
    pub open spec fn wf(self) -> bool {
        hit_data_wf(self.data())
    }

    /// Orient the stored normal against the incoming ray: the front face is
    /// struck exactly when the ray direction and the outward normal point
    /// against each other, and the stored normal is the outward normal
    /// flipped onto the incoming side.
    pub fn set_face_normal(&mut self, r: &Ray, outward_normal: Vec3)
        requires
            vbounded(r.direction.m(), DIR_LIMIT as int),
            vbounded(outward_normal.m(), NORMAL_LIMIT as int),
        ensures
            final(self).front_face == (vdot(r.direction.m(), outward_normal.m()) < 0),
            final(self).normal.m() == if vdot(r.direction.m(), outward_normal.m()) < 0 {
                outward_normal.m()
            } else {
                vneg(outward_normal.m())
            },
            final(self).p == old(self).p,
            final(self).t == old(self).t,
    {
        proof {
            crate::vec3::lemma_dot_bound(
                r.direction.m(),
                outward_normal.m(),
                DIR_LIMIT as int,
                NORMAL_LIMIT as int,
            );
        }
        let d: Fx = r.direction.dot(&outward_normal);
        self.front_face = d.v < 0;
        self.normal = if self.front_face {
            outward_normal
        } else {
            outward_normal.neg()
        };
    }
}

/// Whether a hit record view lies within the ranges the shading formulas
/// accept.
pub open spec fn hit_data_wf(d: HitData) -> bool {
    vbounded(d.p, COORD_LIMIT as int) && vbounded(d.normal, NORMAL_LIMIT as int) && iabs(d.t)
        <= COORD_LIMIT as int
}

/// The scene: an ordered collection of spheres, queried for the closest
/// hit.
pub struct HittableList {
    pub objects: Vec<Sphere>,
}

/// One step of the closest-hit scan: fold the spheres from index `i`
/// onward, shrinking the upper parameter bound to the best parameter seen,
/// so a later sphere must strictly beat the current best to replace it.
pub open spec fn scan_hits(
    objects: Seq<Sphere>,
    i: int,
    r: RayV,
    t_min: int,
    t_max: int,
    acc: Option<(HitData, int)>,
) -> Option<(HitData, int)>
    decreases objects.len() - i,
{
    if i < 0 || i >= objects.len() {
        acc
    } else {
        match sphere_hit_data(objects[i], r, t_min, t_max) {
            Some(d) => scan_hits(objects, i + 1, r, t_min, d.t, Some((d, i))),
            None => scan_hits(objects, i + 1, r, t_min, t_max, acc),
        }
    }
}

impl HittableList {
    /// All spheres in the scene are well-formed.
    pub open spec fn wf(self) -> bool {
        forall|i: int| 0 <= i < self.objects@.len() ==> (#[trigger] self.objects@[i]).wf()
    }

    /// An empty scene.
    pub fn new() -> (r: HittableList)
        ensures
            r.objects@.len() == 0,
            r.wf(),
    {
        HittableList { objects: Vec::new() }
    }

    /// Append a sphere to the scene.
    pub fn add(&mut self, object: Sphere)
        requires
            object.wf(),
        ensures
            final(self).objects@ == old(self).objects@.push(object),
            old(self).wf() ==> final(self).wf(),
    {
        self.objects.push(object);
        proof {
            assert forall|i: int|
                0 <= i < self.objects@.len() && old(self).wf() implies (
            #[trigger] self.objects@[i]).wf() by {
                if i < old(self).objects@.len() {
                    assert(self.objects@[i] == old(self).objects@[i]);
                }
            }
        }
    }

    /// The closest valid hit over all spheres, with the index of the
    /// winning sphere, found by shrinking the upper parameter bound to the
    /// best parameter seen so far.
    pub fn hit(&self, r: &Ray, t_min: Fx, t_max: Fx) -> (res: Option<(HitRecord, usize)>)
        requires
            self.wf(),
            r.wf(),
            iabs(t_min.v as int) <= COORD_LIMIT,
            iabs(t_max.v as int) <= COORD_LIMIT,
        ensures
            match res {
                Some((h, idx)) => {
                    &&& Some((h.data(), idx as int)) == scan_hits(
                        self.objects@,
                        0,
                        r.m(),
                        t_min.v as int,
                        t_max.v as int,
                        None,
                    )
                    &&& idx < self.objects@.len()
                    &&& h.wf()
                    &&& t_min.v <= h.t.v <= t_max.v
                    &&& vdot(r.direction.m(), h.normal.m()) <= 0
                },
                None => scan_hits(
                    self.objects@,
                    0,
                    r.m(),
                    t_min.v as int,
                    t_max.v as int,
                    None,
                ) is None,
            },
    {
        let mut best: Option<(HitRecord, usize)> = None;
        let mut closest: Fx = t_max;
        let mut i: usize = 0;
        while i < self.objects.len()
            invariant
                self.wf(),
                r.wf(),
                i <= self.objects@.len(),
                iabs(t_min.v as int) <= COORD_LIMIT,
                iabs(closest.v as int) <= COORD_LIMIT,
                scan_hits(self.objects@, 0, r.m(), t_min.v as int, t_max.v as int, None)
                    == scan_hits(
                    self.objects@,
                    i as int,
                    r.m(),
                    t_min.v as int,
                    closest.v as int,
                    match best {
                        Some((h, idx)) => Some((h.data(), idx as int)),
                        None => None,
                    },
                ),
                match best {
                    Some((h, idx)) => idx < i && h.wf() && t_min.v <= h.t.v <= t_max.v && h.t.v
                        == closest.v && vdot(r.direction.m(), h.normal.m()) <= 0,
                    None => closest.v == t_max.v,
                },
            decreases self.objects@.len() - i,
        {
            let found = self.objects[i].hit(r, t_min, closest);
            match found {
                Some(record) => {
                    closest = record.t;
                    best = Some((record, i));
                },
                None => (),
            }
            i = i + 1;
        }
        best
    }
}

} // verus!
