use ray_tracer::material::{lighting, LightingTerms};
use ray_tracer::scalar::ordered_key;

type V = [f64; 3];

fn key(t: f64) -> i64 {
    ordered_key(t.to_bits())
}

fn approx_equal(a: f64, b: f64) -> bool {
    (a - b).abs() < 1e-5
}

fn sub(a: V, b: V) -> V {
    [a[0] - b[0], a[1] - b[1], a[2] - b[2]]
}

fn scale(a: V, s: f64) -> V {
    [a[0] * s, a[1] * s, a[2] * s]
}

fn dot(a: V, b: V) -> f64 {
    a[0] * b[0] + a[1] * b[1] + a[2] * b[2]
}

fn normalize(v: V) -> V {
    scale(v, 1. / dot(v, v).sqrt())
}

fn reflect(v: V, normal: V) -> V {
    sub(v, scale(normal, 2. * dot(v, normal)))
}

/// The brightness that a white point of the default material gives back of
/// a white lamp: ambient 0.1, diffuse 0.9, specular 0.9, shininess 200.
fn brightness(light_position: V, point: V, eye_vector: V, normal_vector: V, in_shadow: bool) -> f64 {
    let light_vector = normalize(sub(light_position, point));
    let ambient = 0.1;
    let light_dot_normal = dot(light_vector, normal_vector);
    let reflect_vector = reflect(scale(light_vector, -1.), normal_vector);
    let reflect_dot_eye = dot(reflect_vector, eye_vector);
    let terms = lighting(in_shadow, key(light_dot_normal), key(reflect_dot_eye));
    let diffuse = if terms.diffuse { 0.9 * light_dot_normal } else { 0. };
    let specular = if terms.specular { 0.9 * reflect_dot_eye.powf(200.) } else { 0. };

    ambient + diffuse + specular
}

#[test]
fn lighting_with_the_eye_between_the_light_and_the_surface() {
    let result = brightness([0., 0., -10.], [0., 0., 0.], [0., 0., -1.], [0., 0., -1.], false);
    assert!(approx_equal(result, 1.9));
}

#[test]
fn lighting_with_the_eye_between_light_and_surface_eye_offset_45_degrees() {
    let eye_vector = [0., 2_f64.sqrt() / 2., -2_f64.sqrt() / 2.];
    let result = brightness([0., 0., -10.], [0., 0., 0.], eye_vector, [0., 0., -1.], false);
    assert!(approx_equal(result, 1.0));
}

#[test]
fn lighting_with_eye_opposite_surface_light_offset_45_degrees() {
    let result = brightness([0., 10., -10.], [0., 0., 0.], [0., 0., -1.], [0., 0., -1.], false);
    assert!(approx_equal(result, 0.7364));
}

#[test]
fn lighting_with_eye_in_the_path_of_the_reflection_vector() {
    let eye_vector = [0., -2_f64.sqrt() / 2., -2_f64.sqrt() / 2.];
    let result = brightness([0., 10., -10.], [0., 0., 0.], eye_vector, [0., 0., -1.], false);
    assert!(approx_equal(result, 1.6364));
}

#[test]
fn lighting_with_the_light_behind_the_surface() {
    let result = brightness([0., 0., 10.], [0., 0., 0.], [0., 0., -1.], [0., 0., -1.], false);
    assert!(approx_equal(result, 0.1));
}

#[test]
fn lighting_with_the_surface_in_shadow() {
    let result = brightness([0., 0., -10.], [0., 0., 0.], [0., 0., -1.], [0., 0., -1.], true);
    assert!(approx_equal(result, 0.1));
}

#[test]
fn the_parts_of_the_light_by_the_two_cosines() {
    let none = LightingTerms { diffuse: false, specular: false };
    let matt = LightingTerms { diffuse: true, specular: false };
    let both = LightingTerms { diffuse: true, specular: true };

    assert_eq!(lighting(false, key(1.), key(1.)), both);
    assert_eq!(lighting(false, key(0.), key(0.5)), both);
    assert_eq!(lighting(false, key(0.5), key(0.)), matt);
    assert_eq!(lighting(false, key(0.5), key(-0.5)), matt);
    assert_eq!(lighting(false, key(-1e-12), key(1.)), none);
    assert_eq!(lighting(true, key(1.), key(1.)), none);
    assert_eq!(lighting(true, key(-1.), key(-1.)), none);
}
