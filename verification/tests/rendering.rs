use rtc::camera::{PixelGrid, Side};
use rtc::canvas::PpmCanvas;
use rtc::color::Color;
use rtc::intersections::Intersection;
use rtc::lighting::{is_inside, is_shadowed, mirrors_light, scatters_light, PointLight};
use rtc::rays::{Ray, RayIntersection};
use rtc::scalar::Scalar;
use rtc::shapes::sphere_crossings;
use rtc::tuple::point;
use rtc::world::World;

// The arithmetic of a small tracer of spheres, written out on plain numbers,
// on top of the decisions of the library.

type V = [f32; 3];

fn s(x: f32) -> Scalar {
    Scalar::from_bits(x.to_bits())
}

fn f(x: Scalar) -> f32 {
    f32::from_bits(x.to_bits())
}

fn add(a: V, b: V) -> V {
    [a[0] + b[0], a[1] + b[1], a[2] + b[2]]
}

fn sub(a: V, b: V) -> V {
    [a[0] - b[0], a[1] - b[1], a[2] - b[2]]
}

fn scale(a: V, k: f32) -> V {
    [a[0] * k, a[1] * k, a[2] * k]
}

fn dot(a: V, b: V) -> f32 {
    a[0] * b[0] + a[1] * b[1] + a[2] * b[2]
}

fn magnitude(a: V) -> f32 {
    (a[0].powf(2.0) + a[1].powf(2.0) + a[2].powf(2.0)).sqrt()
}

fn normalize(a: V) -> V {
    scale(a, 1. / magnitude(a))
}

fn reflect(v: V, n: V) -> V {
    sub(v, scale(n, 2. * dot(v, n)))
}

fn ray(origin: V, direction: V) -> Ray {
    Ray::new(
        point(s(origin[0]), s(origin[1]), s(origin[2])),
        rtc::tuple::vec(s(direction[0]), s(direction[1]), s(direction[2])),
    )
}

fn numbers(t: rtc::tuple::Tuple) -> V {
    [f(t.x), f(t.y), f(t.z)]
}

#[derive(Clone, Copy)]
struct Material {
    color: V,
    ambient: f32,
    diffuse: f32,
    specular: f32,
    shininess: f32,
}

fn default_material() -> Material {
    Material { color: [1., 1., 1.], ambient: 0.1, diffuse: 0.9, specular: 0.9, shininess: 200. }
}

struct Ball {
    center: V,
    radius: f32,
    material: Material,
}

impl Ball {
    fn normal_at(&self, p: V) -> V {
        normalize(sub(p, self.center))
    }
}

impl RayIntersection for Ball {
    fn ray_intersection(&self, ray: Ray) -> Vec<Scalar> {
        let o = scale(sub(numbers(ray.origin), self.center), 1. / self.radius);
        let d = scale(numbers(ray.direction), 1. / self.radius);
        let a = dot(d, d);
        let b = 2. * dot(d, o);
        let c = dot(o, o) - 1.;
        let discriminant = b.powf(2.) - 4. * a * c;
        let t1 = (-b - discriminant.sqrt()) / (2. * a);
        let t2 = (-b + discriminant.sqrt()) / (2. * a);
        sphere_crossings(s(discriminant), s(t1), s(t2))
    }
}

fn light_at(position: V) -> PointLight {
    PointLight::new(
        Color::new(s(1.), s(1.), s(1.)),
        point(s(position[0]), s(position[1]), s(position[2])),
    )
}

fn default_world() -> World<Ball> {
    let s1 = Ball {
        center: [0., 0., 0.],
        radius: 1.,
        material: Material {
            color: [0.8, 1., 0.6],
            ambient: 0.1,
            diffuse: 0.7,
            specular: 0.2,
            shininess: 200.,
        },
    };
    let s2 = Ball { center: [0., 0., 0.], radius: 0.5, material: default_material() };
    World::new(vec![s1, s2], vec![light_at([-10., 10., -10.])])
}

fn lighting(m: Material, light: &PointLight, p: V, eye: V, normal: V, in_shadow: bool) -> V {
    let intensity = [f(light.intensity.r), f(light.intensity.g), f(light.intensity.b)];
    let effective =
        [m.color[0] * intensity[0], m.color[1] * intensity[1], m.color[2] * intensity[2]];
    let light_direction = normalize(sub(numbers(light.position), p));
    let ambient = scale(effective, m.ambient);
    if in_shadow {
        return ambient;
    }
    let cos_light = dot(light_direction, normal);
    let black = [0., 0., 0.];
    let scatters = scatters_light(in_shadow, s(cos_light));
    let diffuse = if scatters { scale(effective, m.diffuse * cos_light) } else { black };
    let specular = if scatters {
        let cos_reflection = dot(reflect(scale(light_direction, -1.), normal), eye);
        if mirrors_light(in_shadow, s(cos_light), s(cos_reflection)) {
            scale(intensity, m.specular * cos_reflection.powf(m.shininess))
        } else {
            black
        }
    } else {
        black
    };
    add(add(ambient, diffuse), specular)
}

fn shadowed(w: &World<Ball>, p: V, light: &PointLight) -> bool {
    let to_light = sub(numbers(light.position), p);
    is_shadowed(w, ray(p, normalize(to_light)), s(magnitude(to_light)))
}

/// What is known of a hit before it is lit.
struct Prepared {
    world_point: V,
    over_point: V,
    normal: V,
    eye: V,
    inside: bool,
}

fn prepare(shape: &Ball, t: f32, origin: V, direction: V) -> Prepared {
    let world_point = add(origin, scale(direction, t));
    let eye = scale(direction, -1.);
    let mut normal = shape.normal_at(world_point);
    let inside = is_inside(s(dot(normal, eye)));
    if inside {
        normal = scale(normal, -1.);
    }
    let over_point = add(world_point, scale(normalize(normal), 0.0001));
    Prepared { world_point, over_point, normal, eye, inside }
}

fn color_at(w: &World<Ball>, origin: V, direction: V) -> V {
    let found = w.ray_intersection(ray(origin, direction));
    let hit = match Intersection::hit(&found) {
        Some(hit) => *hit,
        None => return [0., 0., 0.],
    };
    let shape = &w.objects[hit.obj];
    let seen = prepare(shape, f(hit.t), origin, direction);
    let mut result = [0., 0., 0.];
    for light in &w.lights {
        let in_shadow = shadowed(w, seen.over_point, light);
        result = add(
            result,
            lighting(shape.material, light, seen.world_point, seen.eye, seen.normal, in_shadow),
        );
    }
    result
}

fn assert_near(expected: V, actual: V, epsilon: f32) {
    for i in 0..3 {
        assert!(
            (expected[i] - actual[i]).abs() <= epsilon,
            "expected {expected:?}, found {actual:?}"
        );
    }
}

fn quantized(c: V) -> (u8, u8, u8) {
    let clamped = Color::new(s(c[0]), s(c[1]), s(c[2])).clamp();
    (
        (f(clamped.r) * 255.).round() as u8,
        (f(clamped.g) * 255.).round() as u8,
        (f(clamped.b) * 255.).round() as u8,
    )
}

/// Renders the world as a camera sees it that stands at `from` on the z axis
/// and looks down the axis towards smaller z, with a field of view of 60 degrees.
fn render(w: &World<Ball>, from_z: f32, size: usize) -> PpmCanvas {
    let half = (std::f32::consts::PI / 6.).tan();
    let pixel_size = half * 2. / size as f32;
    let mut canvas = PpmCanvas::new(size, size);
    let grid = PixelGrid::new(size, size);
    let mut current = grid.first();
    while let Some((x, y)) = current {
        let px = half - (x as f32 + 0.5) * pixel_size;
        let py = half - (y as f32 + 0.5) * pixel_size;
        // the camera looks down -z with +x to its left
        let direction = normalize([-px, py, -1.]);
        let color = color_at(w, [0., 0., from_z], direction);
        canvas.write_pixel(&quantized(color), x, y);
        current = grid.next(x, y);
    }
    canvas
}

#[test]
fn shade_hit_from_outside_sphere() {
    let w = default_world();
    let color = color_at(&w, [0., 0., -5.], [0., 0., 1.]);
    assert_near([0.38066, 0.47583, 0.2855], color, 0.00001);
}

#[test]
fn shade_hit_from_inside_sphere() {
    let mut w = default_world();
    w.lights[0] = light_at([0., 0.25, 0.]);
    let color = color_at(&w, [0., 0., 0.], [0., 0., 1.]);
    assert_near([0.90498, 0.90498, 0.90498], color, 0.00001);
}

#[test]
fn shade_hit_with_an_intersection_in_shadow() {
    let s1 = Ball { center: [0., 0., 0.], radius: 1., material: default_material() };
    let s2 = Ball { center: [0., 0., 10.], radius: 1., material: default_material() };
    let w = World::new(vec![s1, s2], vec![light_at([0., 0., -10.])]);
    let color = color_at(&w, [0., 0., 5.], [0., 0., 1.]);
    assert_eq!([0.1, 0.1, 0.1], color);
}

#[test]
fn a_ray_that_meets_nothing_sees_black() {
    let w = default_world();
    assert_eq!([0., 0., 0.], color_at(&w, [0., 0., -5.], [0., 1., 0.]));
    let empty: World<Ball> = World::new(vec![], vec![light_at([0., 0., -10.])]);
    assert_eq!([0., 0., 0.], color_at(&empty, [0., 0., -5.], [0., 0., 1.]));
}

#[test]
fn lighting_direct_lighting() {
    let light = light_at([0., 0., -10.]);
    let result =
        lighting(default_material(), &light, [0., 0., 0.], [0., 0., -1.], [0., 0., -1.], false);
    assert_near([1.9, 1.9, 1.9], result, 0.0001);
}

#[test]
fn lighting_light_behind_surface() {
    let light = light_at([0., 0., 10.]);
    let result =
        lighting(default_material(), &light, [0., 0., 0.], [0., 0., -1.], [0., 0., -1.], false);
    assert_near([0.1, 0.1, 0.1], result, 0.0001);
}

#[test]
fn lighting_with_surface_in_shadow() {
    let light = light_at([0., 0., -10.]);
    let result =
        lighting(default_material(), &light, [0., 0., 0.], [0., 0., -1.], [0., 0., -1.], true);
    assert_near([0.1, 0.1, 0.1], result, 0.0001);
}

#[test]
fn a_sphere_in_the_middle_of_the_image() {
    let ball = Ball { center: [0., 0., 0.], radius: 1., material: default_material() };
    let w = World::new(vec![ball], vec![light_at([-10., 10., -10.])]);
    let size = 11;
    let image = render(&w, 5., size);
    let black = (0, 0, 0);
    assert_ne!(&black, image.pixel_at(size / 2, size / 2));
    assert_eq!(&black, image.pixel_at(0, 0));
    assert_eq!(&black, image.pixel_at(size - 1, 0));
    assert_eq!(&black, image.pixel_at(0, size - 1));
    assert_eq!(&black, image.pixel_at(size - 1, size - 1));
}

#[test]
fn the_last_row_and_the_last_column_are_rendered() {
    // a sphere so large that the camera stands inside it: every ray meets it
    let ball = Ball { center: [0., 0., 0.], radius: 10., material: default_material() };
    let w = World::new(vec![ball], vec![light_at([0., 0., 0.])]);
    let size = 5;
    let image = render(&w, 5., size);
    for y in 0..size {
        for x in 0..size {
            assert_ne!(&(0, 0, 0), image.pixel_at(x, y), "pixel ({x}, {y})");
        }
    }
    let text = image.to_ppm();
    assert_eq!(3 + size, text.lines().count());
}

#[test]
fn lighting_viewing_at_45_deg() {
    let light = light_at([0., 0., -10.]);
    let k = 2f32.sqrt() / 2.;
    let result = lighting(default_material(), &light, [0., 0., 0.], [0., k, k], [0., 0., -1.], false);
    assert_near([1., 1., 1.], result, 0.0001);
}

#[test]
fn lighting_light_at_45_deg() {
    let light = light_at([0., 10., -10.]);
    let result =
        lighting(default_material(), &light, [0., 0., 0.], [0., 0., -1.], [0., 0., -1.], false);
    assert_near([0.7364, 0.7364, 0.7364], result, 0.0001);
}

#[test]
fn lighting_light_and_eye_at_45_deg() {
    let light = light_at([0., 10., -10.]);
    let k = 2f32.sqrt() / 2.;
    let result =
        lighting(default_material(), &light, [0., 0., 0.], [0., -k, -k], [0., 0., -1.], false);
    let expected = 0.7364 + 0.9;
    assert_near([expected, expected, expected], result, 0.0001);
}

#[test]
fn parts_of_the_light_of_a_lamp() {
    let (ahead, behind, level) = (s(0.5), s(-0.5), s(0.));
    // in shadow nothing but the ambient part
    assert!(!scatters_light(true, ahead));
    assert!(!mirrors_light(true, ahead, ahead));
    // a lamp behind the surface adds nothing
    assert!(!scatters_light(false, behind));
    assert!(!mirrors_light(false, behind, ahead));
    // a lamp in front is scattered, and mirrored where the eye is on its side
    assert!(scatters_light(false, ahead));
    assert!(mirrors_light(false, ahead, ahead));
    assert!(!mirrors_light(false, ahead, behind));
    // level light counts as in front
    assert!(scatters_light(false, level));
    assert!(scatters_light(false, s(-0.0)));
    assert!(mirrors_light(false, level, level));
    assert!(scatters_light(false, s(f32::NAN)));
}

#[test]
fn a_normal_that_points_away_from_the_eye_is_seen_from_inside() {
    assert!(is_inside(s(-1.)));
    assert!(is_inside(s(-1e-30)));
    assert!(!is_inside(s(0.)));
    assert!(!is_inside(s(-0.0)));
    assert!(!is_inside(s(1.)));
    assert!(!is_inside(s(f32::NAN)));
}

#[test]
fn lighting_light_ray_from_outside_sphere() {
    let shape = Ball { center: [0., 0., 0.], radius: 1., material: default_material() };
    let seen = prepare(&shape, 4., [0., 0., -5.], [0., 0., 1.]);
    assert_eq!([0., 0., -1.], seen.normal);
    assert_eq!(false, seen.inside);
}

#[test]
fn lighting_light_ray_from_inside_sphere() {
    let shape = Ball { center: [0., 0., 0.], radius: 1., material: default_material() };
    let seen = prepare(&shape, 1., [0., 0., 0.], [0., 0., 1.]);
    // the ray meets the far side, whose normal points along +z, from inside:
    // the normal is turned round
    assert_eq!([0., 0., -1.], seen.normal);
    assert_eq!(true, seen.inside);
}

#[test]
fn should_offset_the_point_for_shadow_rays() {
    // a shadow ray that started on the surface itself might meet the surface
    // at once: it starts a little above the surface instead
    let ball = Ball { center: [0., 0., 1.], radius: 1., material: default_material() };
    let w = World::new(vec![ball], vec![]);
    let found = w.ray_intersection(ray([0., 0., -5.], [0., 0., 1.]));
    let hit = *Intersection::hit(&found).unwrap();
    let seen = prepare(&w.objects[hit.obj], f(hit.t), [0., 0., -5.], [0., 0., 1.]);
    assert!(seen.over_point[2] > -0.0002);
    assert!(seen.world_point[2] > seen.over_point[2]);
}

/// The size of a pixel on a canvas one unit away from a camera with the given
/// field of view.
fn pixel_size(hsize: usize, vsize: usize, fov: f32) -> f32 {
    let half_view = (fov / 2.).tan();
    let aspect_ratio = hsize as f32 / vsize as f32;
    let half_width = match PixelGrid::new(hsize, vsize).spanning_side() {
        Side::Width => half_view,
        Side::Height => half_view * aspect_ratio,
    };
    (half_width * 2.) / hsize as f32
}

#[test]
fn pixel_size_for_horizontal_canvas() {
    assert_eq!(0.01, pixel_size(200, 125, std::f32::consts::PI / 2.))
}

#[test]
fn pixel_size_for_vertical_canvas() {
    assert_eq!(0.01, pixel_size(125, 200, std::f32::consts::PI / 2.))
}
