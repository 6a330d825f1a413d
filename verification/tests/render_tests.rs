use newton_fractal::cluster::Cluster;
use newton_fractal::newton::{newton, AsIndex};
use newton_fractal::point::Point;
use newton_fractal::render::render;
use newton_fractal::viz::{array_to_image, Colors};
use num::complex::Complex64;

const TEST_TOL: f64 = 0.0001;

/// The complex plane over a raster: columns along the real axis, rows along
/// the imaginary one.
#[derive(Clone, Copy, Debug, PartialEq)]
struct Plane(Complex64);

impl AsIndex for Plane {
    fn as_index(&self, min: Self, max: Self, width: usize, height: usize) -> [usize; 2] {
        let o = self.0 - min.0;
        let r = max.0 - min.0;
        [
            (o.im / r.im * (height as f64)) as usize,
            (o.re / r.re * (width as f64)) as usize,
        ]
    }

    fn from_index(idx: [usize; 2], min: Self, max: Self, width: usize, height: usize) -> Self {
        let span = max.0 - min.0;
        Plane(Complex64::new(
            min.0.re + (idx[1] as f64) / (width as f64) * span.re,
            min.0.im + (idx[0] as f64) / (height as f64) * span.im,
        ))
    }
}

impl Point for Plane {
    fn minus(self, other: Self) -> Self {
        Plane(self.0 - other.0)
    }
    fn plus(self, other: Self) -> Self {
        Plane(self.0 + other.0)
    }
    fn over(self, other: Self) -> Self {
        Plane(self.0 / other.0)
    }
    fn times(self, n: usize) -> Self {
        Plane(self.0 * (n as f64))
    }
    fn shared(self, n: usize) -> Self {
        Plane(self.0 / (n as f64))
    }
    fn is_settled(self) -> bool {
        self.0.norm_sqr() < f64::EPSILON
    }
    fn is_near(self) -> bool {
        self.0.norm_sqr() < 0.01
    }
}

fn f(p: Plane) -> Plane {
    Plane(p.0.powu(3) + 1.)
}

fn df(p: Plane) -> Plane {
    Plane(3. * p.0.powu(2))
}

fn corners() -> (Plane, Plane) {
    (Plane(Complex64::new(-1., -1.)), Plane(Complex64::new(1., 1.)))
}

#[test]
fn test_as_index() {
    let s = (1000, 1000);
    let min_z = Plane(Complex64::new(-2., -2.));
    let max_z = Plane(Complex64::new(2., 2.));

    let z = Plane(Complex64::from(0.));
    let idx = z.as_index(min_z, max_z, s.0, s.1);
    assert_eq!(idx, [500, 500], "Index: {:?}", idx)
}

#[test]
fn test_from_index() {
    let s = (1000, 1000);
    let min_z = Plane(Complex64::new(-2., -2.));
    let max_z = Plane(Complex64::new(2., 2.));
    let idx = [500, 500];

    let z = Plane::from_index(idx, min_z, max_z, s.0, s.1);
    let e = (z.0 - Complex64::from(0.)).norm();

    assert!(e < TEST_TOL, "z= {}", z.0)
}

#[test]
fn render_has_the_shape_of_the_raster() {
    let (min, max) = corners();
    let img = render(min, max, 7, 4, &f, &df);
    assert_eq!(img.dim(), (4, 7, 3));
    assert_eq!(img.into_raw_vec().len(), 4 * 7 * 3);
}

#[test]
fn render_of_no_pixels() {
    let (min, max) = corners();
    let img = render(min, max, 0, 5, &f, &df);
    assert_eq!(img.dim(), (5, 0, 3));
    assert!(img.into_raw_vec().is_empty());
    let img = render(min, max, 5, 0, &f, &df);
    assert_eq!(img.dim(), (0, 5, 3));
}

#[test]
fn render_paints_each_pixel_with_the_color_of_its_cluster() {
    let (min, max) = corners();
    let (width, height) = (6, 5);
    let raw = render(min, max, width, height, &f, &df).into_raw_vec();
    let mut registry = Cluster::new();
    let mut expected = Vec::new();
    let mut seen = Vec::new();
    for row in 0..height {
        for col in 0..width {
            let z0 = Plane::from_index([row, col], min, max, width, height);
            let root = newton(&f, &df, z0);
            let id = registry.push_maybe(root);
            let c = Colors::from_int(id);
            expected.extend_from_slice(&[c.r, c.g, c.b]);
            seen.push(id);
        }
    }
    assert_eq!(raw, expected);
    // the three cube roots of -1 were all found, in raster-scan order
    assert_eq!(registry.len(), 3);
    assert_eq!(seen[0], 0);
    assert!(seen.iter().all(|id| (-1..3).contains(id)));
}

#[test]
fn render_twice_is_byte_identical() {
    let (min, max) = corners();
    let a = render(min, max, 9, 8, &f, &df);
    let b = render(min, max, 9, 8, &f, &df);
    let (a, b) = (array_to_image(a), array_to_image(b));
    assert_eq!((a.width(), a.height()), (9, 8));
    assert_eq!((b.width(), b.height()), (9, 8));
    assert_eq!(a.into_raw(), b.into_raw());
}

#[test]
fn pixels_without_a_root_are_black() {
    let (min, max) = corners();
    // f = 1 with df = 0: no step is a number
    let one = |_: Plane| Plane(Complex64::new(1., 0.));
    let zero = |_: Plane| Plane(Complex64::new(0., 0.));
    let raw = render(min, max, 2, 2, &one, &zero).into_raw_vec();
    assert_eq!(raw, vec![0u8; 12]);
}

#[test]
fn one_cluster_paints_the_first_gray() {
    let (min, max) = corners();
    let id = |z: Plane| z;
    let one = |_: Plane| Plane(Complex64::new(1., 0.));
    // f(z) = z: one step reaches 0, the next settles there
    let raw = render(min, max, 3, 1, &id, &one).into_raw_vec();
    assert_eq!(raw, vec![192, 197, 206, 192, 197, 206, 192, 197, 206]);
}

#[test]
fn round_trip_stays_within_one_cell() {
    let min = Plane(Complex64::new(-2., -1.));
    let max = Plane(Complex64::new(1., 3.));
    let (width, height) = (40usize, 30usize);
    for (re, im) in [(-2., -1.), (0.3, 0.7), (-1.99, 2.99), (0.999, 2.5), (-0.5, 0.)] {
        let p = Plane(Complex64::new(re, im));
        let idx = p.as_index(min, max, width, height);
        let q = Plane::from_index(idx, min, max, width, height);
        assert!((p.0.re - q.0.re).abs() <= 3. / 40. + 1e-12);
        assert!((p.0.im - q.0.im).abs() <= 4. / 30. + 1e-12);
    }
    // the upper corner lands one past the last cell
    assert_eq!(max.as_index(min, max, width, height), [30, 40]);
}
