//! Whole renders. The arithmetic is done here in double precision, the way a
//! caller of the library does it; every decision is the library's.

use raytracer::aa::AntiAliasing;
use raytracer::camera::{horizontal_fraction, vertical_fraction};
use raytracer::color::Color;
use raytracer::light::{sampling, spiral_sample, Sampling};
use raytracer::scalar::Scalar;
use raytracer::scene::{Camera, Intersection, Light, Material, Object, Scene, Shape};
use raytracer::shading::{Action, Event, Tracer};
use raytracer::shadow::{shadow_test, ShadowSample};
use raytracer::sphere::Roots;
use raytracer::vec3::{Direction, Point, Ray, Vec3};

type V = [f64; 3];

fn s(x: f64) -> Scalar {
    Scalar(x.to_bits())
}

fn n(x: Scalar) -> f64 {
    f64::from_bits(x.0)
}

fn pack(v: V) -> Vec3 {
    Vec3(s(v[0]), s(v[1]), s(v[2]))
}

fn unpack(v: Vec3) -> V {
    [n(v.0), n(v.1), n(v.2)]
}

fn add(a: V, b: V) -> V {
    [a[0] + b[0], a[1] + b[1], a[2] + b[2]]
}

fn sub(a: V, b: V) -> V {
    [a[0] - b[0], a[1] - b[1], a[2] - b[2]]
}

fn scale(a: V, k: f64) -> V {
    [a[0] * k, a[1] * k, a[2] * k]
}

fn dot(a: V, b: V) -> f64 {
    a[0] * b[0] + a[1] * b[1] + a[2] * b[2]
}

fn cross(a: V, b: V) -> V {
    [a[1] * b[2] - a[2] * b[1], a[2] * b[0] - a[0] * b[2], a[0] * b[1] - a[1] * b[0]]
}

fn magnitude(a: V) -> f64 {
    dot(a, a).sqrt()
}

fn normalized(a: V) -> V {
    scale(a, 1.0 / magnitude(a))
}

fn reflect(d: V, normal: V) -> V {
    sub(d, scale(normal, 2.0 * dot(d, normal)))
}

struct Hit {
    distance: f64,
    point: V,
    normal: V,
}

fn to_core(h: &Hit) -> Intersection {
    Intersection {
        distance: s(h.distance),
        point: Point(pack(h.point)),
        surface_normal: Direction(pack(h.normal)),
    }
}

fn from_core(h: Intersection) -> Hit {
    Hit { distance: n(h.distance), point: unpack(h.point.0), normal: unpack(h.surface_normal.0) }
}

fn find_intersection(shape: &Shape, origin: V, direction: V) -> Option<Hit> {
    match shape {
        Shape::Sphere { center, radius } => {
            let c = unpack(center.0);
            let r = n(*radius);
            let oc = sub(origin, c);
            let b = 2.0 * dot(direction, oc);
            let cc = dot(oc, oc) - r * r;
            let discriminant = b * b - 4.0 * cc;
            let root = discriminant.sqrt();
            let roots = Roots {
                discriminant: s(discriminant),
                tangent: s(b / -2.0),
                first: s((root - b) / 2.0),
                second: s((root + b) / -2.0),
            };
            raytracer::sphere::find_intersection(&roots).map(|t| {
                let t = n(t);
                let point = add(origin, scale(direction, t));
                Hit { distance: t, point, normal: normalized(sub(point, c)) }
            })
        }
        Shape::Plane { point, normal } => {
            let anchor = unpack(point.0);
            let normal = unpack(normal.0);
            let l_dot_n = dot(direction, normal);
            let distance = dot(sub(anchor, origin), normal) / l_dot_n;
            raytracer::plane::find_intersection(s(l_dot_n), s(distance)).map(|t| {
                let t = n(t);
                Hit { distance: t, point: add(origin, scale(direction, t)), normal }
            })
        }
    }
}

fn closest<'a>(scene: &'a Scene, origin: V, direction: V) -> Option<(&'a Object, Hit)> {
    let hits: Vec<Option<Intersection>> = scene
        .objects
        .iter()
        .map(|o| find_intersection(&o.shape, origin, direction).map(|h| to_core(&h)))
        .collect();
    scene.closest_intersection(&hits).map(|(o, h)| (o, from_core(h)))
}

fn light_positions(center: V, towards: V, radius: f64, count: u32) -> Vec<V> {
    match sampling(s(radius), count) {
        Sampling::Point => vec![center],
        Sampling::Spiral { samples } => {
            let up = [0.0, 0.0, 1.0];
            let right = normalized(cross(towards, up));
            (0..samples)
                .map(|i| {
                    let sample = spiral_sample(i, samples);
                    let scaler = sample.scaler.num as f64 / sample.scaler.den as f64;
                    let theta = sample.turns.num as f64 / sample.turns.den as f64
                        * 2.0
                        * std::f64::consts::PI;
                    let r = scaler * radius;
                    add(
                        center,
                        add(scale(right, r * theta.cos()), scale(up, r * theta.sin())),
                    )
                })
                .collect()
        }
    }
}

fn shade(scene: &Scene, material: &Material, hit: &Hit, view: V, light_points: u32) -> V {
    let mut color = [0.0, 0.0, 0.0];
    let off_surface = add(hit.point, scale(hit.normal, 0.001));
    for l in &scene.lights {
        let light_point = unpack(l.point.0);
        let positions =
            light_positions(light_point, sub(hit.point, light_point), n(l.radius), light_points);
        let samples: Vec<ShadowSample> = positions
            .iter()
            .map(|p| {
                let to_light = sub(*p, hit.point);
                ShadowSample {
                    hit: closest(scene, off_surface, normalized(to_light))
                        .map(|(_, h)| s(h.distance)),
                    reach: s(magnitude(to_light)),
                }
            })
            .collect();
        let coverage = shadow_test(&samples);
        if coverage.fully_blocked() {
            continue;
        }
        let unblocked = coverage.unblocked() as f64 / coverage.total as f64;
        let light_dir = sub(hit.point, light_point);
        let distance = magnitude(light_dir);
        let brightness = n(s(unblocked * n(l.intensity) / distance * distance).max_zero());
        let light_dir = normalized(light_dir);
        let diffuse = n(s(dot(hit.normal, scale(light_dir, -1.0))).max_zero());
        let mirrored = scale(reflect(light_dir, hit.normal), -1.0);
        let specular = n(s(dot(mirrored, view)).max_zero()).powf(n(material.shininess));
        let lc = [n(l.color.0), n(l.color.1), n(l.color.2)];
        let dc = [n(material.diffuse_color.0), n(material.diffuse_color.1), n(material.diffuse_color.2)];
        let sc = [
            n(material.specular_color.0),
            n(material.specular_color.1),
            n(material.specular_color.2),
        ];
        for k in 0..3 {
            color[k] += lc[k] * brightness * (diffuse * dc[k] + specular * sc[k]);
        }
    }
    color
}

/// The light along one ray, and the number of rays cast for it.
fn render_ray(scene: &Scene, origin: V, direction: V, budget: u32, light_points: u32) -> (V, u32) {
    let mut color = [0.0, 0.0, 0.0];
    let mut weight = 1.0;
    let mut origin = origin;
    let mut direction = direction;
    let mut casts = 0;
    let mut tracer = Tracer::new(budget);
    while !tracer.is_finished() {
        casts += 1;
        let found = closest(scene, origin, direction);
        let event = match &found {
            None => Event::Miss,
            Some((o, _)) => Event::Hit { reflectivity: o.material.reflectivity },
        };
        let action = tracer.advance(event);
        let (object, hit) = match (action, found) {
            (Action::Background, _) | (_, None) => break,
            (_, Some(f)) => f,
        };
        let local = shade(scene, &object.material, &hit, direction, light_points);
        color = add(color, scale(local, weight));
        if action == Action::ShadeAndReflect {
            weight *= n(object.material.reflectivity);
            origin = add(hit.point, scale(hit.normal, 0.001));
            direction = normalized(reflect(direction, hit.normal));
        }
    }
    (color, casts)
}

fn render(scene: &Scene, aa_size: u8, budget: u32, light_points: u32) -> Vec<u8> {
    assert_eq!(scene.validate(), Ok(()));
    let forward = unpack(scene.camera.ray.1 .0);
    let eye = unpack(scene.camera.ray.0 .0);
    let up = unpack(scene.camera.up.0);
    let right = normalized(cross(forward, up));
    let w_fov = n(scene.camera.w_fov_degrees).to_radians();
    let h_fov = w_fov * scene.imgy as f64 / scene.imgx as f64;
    let aa = AntiAliasing::create(aa_size);
    let d = aa.denominator();
    let mut colors = Vec::new();
    for y in 0..scene.imgy {
        for x in 0..scene.imgx {
            let mut color = [0.0, 0.0, 0.0];
            for (ox, oy) in aa.offsets() {
                let fx = horizontal_fraction(x, scene.imgx, *ox, d);
                let fy = vertical_fraction(y, scene.imgy, *oy, d);
                let rx = fx.num as f64 / fx.den as f64 * w_fov;
                let ry = fy.num as f64 / fy.den as f64 * h_fov;
                let direction = normalized(add(forward, add(scale(right, rx), scale(up, ry))));
                color = add(color, render_ray(scene, eye, direction, budget, light_points).0);
            }
            let color = scale(color, 1.0 / aa.len() as f64);
            colors.push(Color(s(color[0]), s(color[1]), s(color[2])));
        }
    }
    scene.render(&colors).buffer.into_raw()
}

fn matte(diffuse: V, reflectivity: f64) -> Material {
    Material {
        diffuse_color: Color(s(diffuse[0]), s(diffuse[1]), s(diffuse[2])),
        specular_color: Color(s(0.0), s(0.0), s(0.0)),
        shininess: s(50.0),
        reflectivity: s(reflectivity),
    }
}

fn sphere(center: V, radius: f64, material: Material) -> Object {
    Object { material, shape: Shape::Sphere { center: Point(pack(center)), radius: s(radius) } }
}

fn plane(point: V, normal: V, material: Material) -> Object {
    Object {
        material,
        shape: Shape::Plane { point: Point(pack(point)), normal: Direction(pack(normal)) },
    }
}

fn white_light(at: V, radius: f64) -> Light {
    Light {
        point: Point(pack(at)),
        color: Color(s(1.0), s(1.0), s(1.0)),
        radius: s(radius),
        intensity: s(1.0),
    }
}

/// A unit sphere at the origin, seen from five units up the x axis, with a
/// white point light behind the eye.
fn one_sphere(size: u32) -> Scene {
    Scene {
        camera: Camera {
            ray: Ray(Point(pack([5.0, 0.0, 0.0])), Direction(pack([-1.0, 0.0, 0.0]))),
            up: Direction(pack([0.0, 0.0, 1.0])),
            w_fov_degrees: s(90.0),
        },
        imgx: size,
        imgy: size,
        objects: vec![sphere([0.0, 0.0, 0.0], 1.0, matte([0.2, 0.4, 0.6], 0.0))],
        lights: vec![white_light([9.0, 0.0, 0.0], 0.0)],
    }
}

fn pixel(bytes: &[u8], width: u32, x: u32, y: u32) -> [u8; 3] {
    let at = 3 * (y * width + x) as usize;
    [bytes[at], bytes[at + 1], bytes[at + 2]]
}

#[test]
fn a_ray_that_points_away_from_a_sphere_misses_it() {
    let shape = Shape::Sphere { center: Point(pack([0.0, 0.0, 0.0])), radius: s(1.0) };
    for origin in [[0.0, 0.0, 5.0], [3.0, 0.0, 0.0], [2.0, 2.0, 2.0], [0.0, -1.5, 0.0]] {
        let away = normalized(origin);
        assert!(find_intersection(&shape, origin, away).is_none());
        let aside = normalized(add(away, scale(normalized(cross(away, [0.3, 0.5, 0.7])), 0.5)));
        assert!(find_intersection(&shape, origin, aside).is_none());
    }
}

#[test]
fn a_ray_through_the_centre_hits_with_a_unit_normal_along_the_radius() {
    let center = [1.0, -2.0, 0.5];
    let shape = Shape::Sphere { center: Point(pack(center)), radius: s(1.5) };
    for origin in [[5.0, 0.0, 0.0], [1.0, -2.0, 7.0], [-3.0, -4.0, -5.0], [1.0, 10.0, 0.5]] {
        let direction = normalized(sub(center, origin));
        let hit = find_intersection(&shape, origin, direction).unwrap();
        assert!((magnitude(hit.normal) - 1.0).abs() < 1e-6);
        let radial = sub(hit.point, center);
        assert!(magnitude(cross(hit.normal, radial)) < 1e-6);
        assert!(dot(hit.normal, radial) > 0.0);
        assert!((magnitude(radial) - 1.5).abs() < 1e-6);
        assert!((hit.distance - (magnitude(sub(center, origin)) - 1.5)).abs() < 1e-6);
    }
}

#[test]
fn a_ray_from_inside_a_sphere_hits_the_far_side() {
    let shape = Shape::Sphere { center: Point(pack([0.0, 0.0, 0.0])), radius: s(2.0) };
    let hit = find_intersection(&shape, [0.0, 0.0, 0.0], [0.0, 1.0, 0.0]).unwrap();
    assert!((hit.distance - 2.0).abs() < 1e-12);
    assert!(magnitude(sub(hit.point, [0.0, 2.0, 0.0])) < 1e-12);
}

#[test]
fn a_ray_that_grazes_a_sphere_counts_as_a_hit() {
    let shape = Shape::Sphere { center: Point(pack([0.0, 0.0, 0.0])), radius: s(1.0) };
    let hit = find_intersection(&shape, [-4.0, 1.0, 0.0], [1.0, 0.0, 0.0]).unwrap();
    assert_eq!(hit.distance, 4.0);
    assert_eq!(hit.point, [0.0, 1.0, 0.0]);
    assert!(find_intersection(&shape, [-4.0, 1.001, 0.0], [1.0, 0.0, 0.0]).is_none());
}

#[test]
fn a_ray_parallel_to_a_plane_misses_it_and_hits_lie_on_the_plane() {
    let anchor = [0.0, 0.0, -10.0];
    let normal = [0.0, 0.0, 1.0];
    let shape = Shape::Plane { point: Point(pack(anchor)), normal: Direction(pack(normal)) };
    for direction in [[1.0, 0.0, 0.0], [0.0, -1.0, 0.0], [0.6, 0.8, 0.0]] {
        assert_eq!(dot(direction, normal), 0.0);
        assert!(find_intersection(&shape, [1.0, 2.0, 3.0], direction).is_none());
        assert!(find_intersection(&shape, [1.0, 2.0, -10.0], direction).is_none());
    }
    for direction in [[0.0, 0.0, -1.0], [0.6, 0.0, -0.8], [0.1, -0.7, -0.3]] {
        let direction = normalized(direction);
        let hit = find_intersection(&shape, [1.0, 2.0, 3.0], direction).unwrap();
        assert!(dot(sub(hit.point, anchor), normal).abs() < 1e-9);
        assert!(hit.distance > 0.0);
        assert_eq!(hit.normal, normal);
    }
    assert!(find_intersection(&shape, [1.0, 2.0, 3.0], [0.0, 0.0, 1.0]).is_none());
}

#[test]
fn the_nearest_of_several_objects_is_found() {
    let scene = Scene {
        objects: vec![
            sphere([-6.0, 0.0, 0.0], 1.0, matte([1.0, 0.0, 0.0], 0.0)),
            sphere([0.0, 0.0, 0.0], 1.0, matte([0.0, 1.0, 0.0], 0.0)),
            sphere([-3.0, 0.0, 0.0], 1.0, matte([0.0, 0.0, 1.0], 0.0)),
            plane([-20.0, 0.0, 0.0], [1.0, 0.0, 0.0], matte([1.0, 1.0, 1.0], 0.0)),
        ],
        ..one_sphere(4)
    };
    let (object, hit) = closest(&scene, [5.0, 0.0, 0.0], [-1.0, 0.0, 0.0]).unwrap();
    assert_eq!(n(object.material.diffuse_color.1), 1.0);
    assert!((hit.distance - 4.0).abs() < 1e-12);
    let (object, hit) = closest(&scene, [5.0, 5.0, 0.0], [-1.0, 0.0, 0.0]).unwrap();
    assert_eq!(n(object.material.diffuse_color.0), 1.0);
    assert_eq!(n(object.material.diffuse_color.1), 1.0);
    assert!((hit.distance - 25.0).abs() < 1e-12);
    assert!(closest(&scene, [5.0, 0.0, 0.0], [1.0, 0.0, 0.0]).is_none());
}

#[test]
fn one_sphere_lit_from_behind_the_eye() {
    let size = 32;
    let bytes = render(&one_sphere(size), 1, 0, 1);
    assert_eq!(bytes.len(), 3 * 32 * 32);
    // Straight ahead the normal points at the light: the diffuse colour itself.
    let centre = pixel(&bytes, size, 16, 16);
    for (got, diffuse) in centre.iter().zip([0.2, 0.4, 0.6]) {
        assert!((*got as f64 - 256.0 * diffuse).abs() <= 1.0);
    }
    // The sphere is seen under asin(1/5); everything beyond is background.
    let silhouette = (1.0f64 / 5.0).asin();
    let fov = 90.0f64.to_radians();
    for y in 0..size {
        for x in 0..size {
            let rx = (x as f64 - 16.0) / 32.0 * fov;
            let ry = (16.0 - y as f64) / 32.0 * fov;
            if rx.hypot(ry).atan() > silhouette + 0.01 {
                assert_eq!(pixel(&bytes, size, x, y), [0, 0, 0]);
            }
        }
    }
    assert_eq!(pixel(&bytes, size, 0, 0), [0, 0, 0]);
    assert_eq!(pixel(&bytes, size, 31, 31), [0, 0, 0]);
    assert_ne!(pixel(&bytes, size, 17, 15), [0, 0, 0]);
}

#[test]
fn one_sphere_anti_aliased_is_close_to_the_diffuse_colour() {
    let size = 16;
    let bytes = render(&one_sphere(size), 3, 0, 1);
    let centre = pixel(&bytes, size, 8, 8);
    for (got, diffuse) in centre.iter().zip([0.2, 0.4, 0.6]) {
        assert!((*got as f64 - 256.0 * diffuse).abs() <= 3.0);
    }
    assert_eq!(pixel(&bytes, size, 0, 0), [0, 0, 0]);
}

#[test]
fn a_point_light_behind_an_obstacle_leaves_the_surface_black() {
    let mut scene = one_sphere(8);
    let lit = render_ray(&scene, [5.0, 0.0, 0.0], [-1.0, 0.0, 0.0], 0, 1).0;
    assert!((lit[2] - 0.6).abs() < 1e-9);
    scene.objects.push(sphere([7.0, 0.0, 0.0], 0.5, matte([1.0, 1.0, 1.0], 0.0)));
    let shadowed = render_ray(&scene, [5.0, 0.0, 0.0], [-1.0, 0.0, 0.0], 0, 1).0;
    assert_eq!(shadowed, [0.0, 0.0, 0.0]);
}

#[test]
fn a_light_with_a_radius_can_be_partly_blocked() {
    let mut scene = one_sphere(8);
    scene.lights = vec![white_light([9.0, 0.0, 0.0], 2.0)];
    scene.objects.push(sphere([7.0, 0.0, 0.0], 0.3, matte([1.0, 1.0, 1.0], 0.0)));
    let color = render_ray(&scene, [5.0, 0.5, 0.0], [-1.0, 0.0, 0.0], 0, 8).0;
    let open = {
        scene.objects.pop();
        render_ray(&scene, [5.0, 0.5, 0.0], [-1.0, 0.0, 0.0], 0, 8).0
    };
    assert!(color[2] > 0.0);
    assert!(color[2] < open[2]);
}

#[test]
fn two_mirrors_that_face_each_other_stop_at_the_budget() {
    let mirror = matte([0.1, 0.1, 0.1], 0.9);
    let scene = Scene {
        objects: vec![
            plane([0.0, 0.0, -10.0], [0.0, 0.0, 1.0], mirror),
            plane([0.0, 0.0, 10.0], [0.0, 0.0, -1.0], mirror),
        ],
        lights: vec![white_light([0.0, 0.0, 0.0], 0.0)],
        ..one_sphere(4)
    };
    for budget in [0u32, 1, 2, 5, 40] {
        let (color, casts) = render_ray(&scene, [0.0, 0.0, 0.0], [0.0, 0.0, 1.0], budget, 1);
        assert_eq!(casts, budget + 1);
        assert!(color[0].is_finite() && color[0] > 0.0);
    }
    let (one, _) = render_ray(&scene, [0.0, 0.0, 0.0], [0.0, 0.0, 1.0], 0, 1);
    let (two, _) = render_ray(&scene, [0.0, 0.0, 0.0], [0.0, 0.0, 1.0], 1, 1);
    assert!(two[0] > one[0]);
}

#[test]
fn the_same_scene_renders_to_the_same_bytes() {
    let mut scene = one_sphere(24);
    scene.lights.push(white_light([3.0, 4.0, 5.0], 0.5));
    scene.objects.push(plane([-3.0, 0.0, 0.0], [1.0, 0.0, 0.0], matte([0.5, 0.5, 0.5], 0.7)));
    let first = render(&scene, 2, 3, 4);
    let second = render(&scene, 2, 3, 4);
    assert_eq!(first, second);
    assert!(first.iter().any(|b| *b != 0));
}
