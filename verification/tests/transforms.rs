use image2::affine::Matrix;
use image2::error::Error;
use image2::filter::Filter;
use image2::geometry::{Point, Size};
use image2::image::Image;
use image2::sample::{ColorModel, SampleType};
use image2::tone::Factor;
use image2::transform::{
    quarters, resize, rotate, rotate180, rotate270, rotate90, scale, Transform, COORD_LIMIT,
    TERM_LIMIT,
};

fn picture(kind: SampleType, width: usize, height: usize) -> Image {
    let mut image = Image::new(kind, ColorModel::Rgb, Size::new(width, height)).unwrap();
    for y in 0..height {
        for x in 0..width {
            for c in 0..3 {
                let level = ((x * 641 + y * 9973 + c * 20011) % 65536) as i64;
                image.set_f(Point::new(x, y), c, level);
            }
        }
    }
    image
}

#[test]
fn test_rotate90() {
    let a = picture(SampleType::U16, 40, 25);
    let mut dest = Image::new(SampleType::U16, ColorModel::Rgb, Size::new(a.height(), a.width()))
        .unwrap();
    let t = rotate90(a.size(), dest.size()).unwrap();
    assert_eq!(t.eval(&[&a], &mut dest), Ok(()));
    let (w, h) = (a.width(), a.height());
    assert_eq!(dest.get_pixel(Point::new(0, 0)), a.get_pixel(Point::new(0, h - 1)));
    assert_eq!(dest.get_pixel(Point::new(h - 1, 0)), a.get_pixel(Point::new(0, 0)));
    assert_eq!(dest.get_pixel(Point::new(0, w - 1)), a.get_pixel(Point::new(w - 1, h - 1)));
    assert_eq!(dest.get_pixel(Point::new(h - 1, w - 1)), a.get_pixel(Point::new(w - 1, 0)));
    for y in 0..w {
        for x in 0..h {
            assert_eq!(
                dest.get_pixel(Point::new(x, y)),
                a.get_pixel(Point::new(y, h - 1 - x))
            );
        }
    }
}

#[test]
fn test_rotate180() {
    let a = picture(SampleType::U16, 31, 18);
    let mut dest = a.new_like();
    let t = rotate180(a.size()).unwrap();
    assert_eq!(t.eval(&[&a], &mut dest), Ok(()));
    for y in 0..18 {
        for x in 0..31 {
            assert_eq!(
                dest.get_pixel(Point::new(x, y)),
                a.get_pixel(Point::new(30 - x, 17 - y))
            );
        }
    }
    let mut again = a.new_like();
    assert_eq!(t.eval(&[&dest], &mut again), Ok(()));
    assert_eq!(again, a);
}

#[test]
fn test_rotate270() {
    let a = picture(SampleType::U16, 12, 33);
    let mut dest = Image::new(SampleType::U16, ColorModel::Rgb, Size::new(a.height(), a.width()))
        .unwrap();
    let t = rotate270(a.size(), dest.size()).unwrap();
    assert_eq!(t.eval(&[&a], &mut dest), Ok(()));
    for y in 0..12 {
        for x in 0..33 {
            assert_eq!(
                dest.get_pixel(Point::new(x, y)),
                a.get_pixel(Point::new(11 - y, x))
            );
        }
    }
    let mut back = a.new_like();
    let quarter = rotate90(dest.size(), a.size()).unwrap();
    assert_eq!(quarter.eval(&[&dest], &mut back), Ok(()));
    assert_eq!(back, a);
}

#[test]
fn test_scale() {
    let a = picture(SampleType::U8, 20, 10);
    let mut dest = Image::new(SampleType::U16, ColorModel::Rgb, a.size().scaled(2).unwrap())
        .unwrap();
    let t = scale(Factor(2000), Factor(2000));
    assert_eq!(t.eval(&[&a], &mut dest), Err(Error::OutOfBounds));
    let mut dest = Image::new(SampleType::U16, ColorModel::Rgb, Size::new(39, 19)).unwrap();
    assert_eq!(t.eval(&[&a], &mut dest), Ok(()));
    for c in 0..3 {
        assert_eq!(dest.get_f(Point::new(38, 18), c), a.get_f(Point::new(19, 9), c));
        assert_eq!(dest.get_f(Point::new(6, 4), c), a.get_f(Point::new(3, 2), c));
        let mean = (a.get_f(Point::new(3, 2), c) + a.get_f(Point::new(4, 3), c)) / 2;
        assert_eq!(dest.get_f(Point::new(7, 5), c), mean);
        let mean = (a.get_f(Point::new(3, 2), c) + a.get_f(Point::new(4, 2), c)) / 2;
        assert_eq!(dest.get_f(Point::new(7, 4), c), mean);
    }
}

#[test]
fn test_scale_resize() {
    let a = picture(SampleType::U8, 20, 10);
    let twice = a.size().scaled(2).unwrap();
    let mut dest0 = Image::new(SampleType::U16, ColorModel::Rgb, twice).unwrap();
    let mut dest1 = Image::new(SampleType::U16, ColorModel::Rgb, twice).unwrap();
    let r0 = scale(Factor(2000), Factor(2000)).eval(&[&a], &mut dest0);
    let r1 = resize(a.size(), twice).unwrap().eval(&[&a], &mut dest1);
    assert_eq!(r0, r1);
    assert_eq!(dest0, dest1);

    let mut dest0 = Image::new(SampleType::U16, ColorModel::Rgb, Size::new(39, 19)).unwrap();
    let mut dest1 = Image::new(SampleType::U16, ColorModel::Rgb, Size::new(39, 19)).unwrap();
    assert_eq!(scale(Factor(2000), Factor(2000)).eval(&[&a], &mut dest0), Ok(()));
    assert_eq!(resize(a.size(), twice).unwrap().eval(&[&a], &mut dest1), Ok(()));
    assert_eq!(dest0, dest1);
    assert_ne!(dest0, dest0.new_like());
}

#[test]
fn scale_down_matches_resize() {
    let a = picture(SampleType::U16, 30, 20);
    let small = Size::new(10, 5);
    let mut dest0 = Image::new(SampleType::U16, ColorModel::Rgb, small).unwrap();
    let mut dest1 = Image::new(SampleType::U16, ColorModel::Rgb, small).unwrap();
    let s = scale(Factor(333), Factor(250));
    assert_eq!(s.eval(&[&a], &mut dest0), Ok(()));
    let three = scale(Factor(1000), Factor(3000));
    let r = resize(Size::new(3000, 20), Size::new(1000, 5)).unwrap();
    assert_eq!(r.eval(&[&a], &mut dest1), Ok(()));
    let mut dest2 = Image::new(SampleType::U16, ColorModel::Rgb, small).unwrap();
    let third = resize(a.size(), small).unwrap();
    assert_eq!(third.eval(&[&a], &mut dest2), Ok(()));
    for y in 0..5 {
        for x in 0..10 {
            assert_eq!(dest2.get_pixel(Point::new(x, y)), a.get_pixel(Point::new(3 * x, 4 * y)));
        }
    }
    assert_eq!(three.dx, 1000);
    assert_eq!(dest1.get_pixel(Point::new(2, 1)), a.get_pixel(Point::new(6, 4)));
    assert_ne!(dest0, dest2);
}

#[test]
fn constructors_build_the_matrix() {
    let s = scale(Factor(1500), Factor(250));
    assert_eq!(
        s,
        Transform {
            matrix: Matrix { m11: 1000, m12: 0, m21: 0, m22: 1000, m31: 0, m32: 0 },
            dx: 1500,
            dy: 250
        }
    );
    assert!(s.is_wf());
    assert!(!scale(Factor(0), Factor(1000)).is_wf());
    assert!(!scale(Factor(1000), Factor(-5)).is_wf());
    let r = resize(Size::new(640, 480), Size::new(320, 120)).unwrap();
    assert_eq!(
        r,
        Transform {
            matrix: Matrix { m11: 640, m12: 0, m21: 0, m22: 480, m31: 0, m32: 0 },
            dx: 320,
            dy: 120
        }
    );
    assert!(resize(Size::new(TERM_LIMIT as usize + 1, 1), Size::new(1, 1)).is_none());
    assert!(resize(Size::new(1, 1), Size::new(1, TERM_LIMIT as usize + 1)).is_none());
    assert!(resize(Size::new(TERM_LIMIT as usize, 1), Size::new(1, 1)).is_some());
    assert!(!resize(Size::new(4, 4), Size::new(0, 4)).unwrap().is_wf());

    let t = rotate(90, (7, 3)).unwrap();
    assert_eq!(t.matrix, Matrix { m11: 0, m12: -2, m21: 2, m22: 0, m31: 4, m32: 10 });
    assert_eq!((t.dx, t.dy), (2, 2));
    let t = rotate(180, (7, 3)).unwrap();
    assert_eq!(t.matrix, Matrix { m11: -2, m12: 0, m21: 0, m22: -2, m31: 14, m32: 6 });
    let t = rotate(270, (7, 3)).unwrap();
    assert_eq!(t.matrix, Matrix { m11: 0, m12: 2, m21: -2, m22: 0, m31: 10, m32: -4 });
    let t = rotate(0, (7, 3)).unwrap();
    assert_eq!(t.matrix, Matrix { m11: 2, m12: 0, m21: 0, m22: 2, m31: 0, m32: 0 });
    assert_eq!(rotate(-90, (7, 3)), rotate(270, (7, 3)));
    assert_eq!(rotate(450, (7, 3)), rotate(90, (7, 3)));
    assert_eq!(rotate(-360, (-7, 3)), rotate(0, (-7, 3)));
    assert_eq!(rotate(45, (7, 3)), None);
    assert_eq!(rotate(-1, (7, 3)), None);
    assert_eq!(rotate(90, (COORD_LIMIT + 1, 0)), None);
    assert_eq!(rotate(90, (0, -COORD_LIMIT - 1)), None);
    assert!(rotate(90, (COORD_LIMIT, -COORD_LIMIT)).unwrap().is_wf());
    assert_eq!(rotate90(Size::new(9, 4), Size::new(4, 9)), rotate(90, (3, 3)));
    assert_eq!(rotate180(Size::new(9, 4)), rotate(180, (8, 3)));
    assert_eq!(rotate270(Size::new(9, 4), Size::new(4, 9)), rotate(270, (8, 8)));
    assert_eq!(rotate90(Size::new(9, COORD_LIMIT as usize + 1), Size::new(4, 9)), None);
    assert_eq!(rotate180(Size::new(COORD_LIMIT as usize + 1, 1)), None);
    assert_eq!(rotate270(Size::new(9, 4), Size::new(4, COORD_LIMIT as usize + 1)), None);
}

#[test]
fn quarter_turns() {
    assert_eq!(quarters(0), Some(0));
    assert_eq!(quarters(90), Some(1));
    assert_eq!(quarters(180), Some(2));
    assert_eq!(quarters(270), Some(3));
    assert_eq!(quarters(360), Some(0));
    assert_eq!(quarters(-90), Some(3));
    assert_eq!(quarters(-180), Some(2));
    assert_eq!(quarters(-270), Some(1));
    assert_eq!(quarters(i32::MIN), None);
    assert_eq!(quarters(i32::MAX), None);
    assert_eq!(quarters(2147483520), Some(0));
    assert_eq!(quarters(-2147483430), Some(1));
    assert_eq!(quarters(-2147483550), None);
    assert_eq!(quarters(89), None);
}

#[test]
fn transform_samples_floor_and_ceiling() {
    let mut a = Image::new(SampleType::U16, ColorModel::Gray, Size::new(4, 4)).unwrap();
    for y in 0..4 {
        for x in 0..4 {
            a.set_f(Point::new(x, y), 0, (1000 * x + 100 * y) as i64);
        }
    }
    let t = Transform {
        matrix: Matrix { m11: 3, m12: 1, m21: -1, m22: 2, m31: 5, m32: -1 },
        dx: 4,
        dy: 3,
    };
    let mut px = vec![0i64];
    let meta = a.meta;
    assert_eq!(t.compute_at(Point::new(2, 1), &[&a], meta, &mut px), Ok(()));
    assert_eq!(px, vec![(2100 + 3100) / 2]);
    assert_eq!(t.compute_at(Point::new(1, 1), &[&a], meta, &mut px), Ok(()));
    assert_eq!(px, vec![(1000 + 2100) / 2]);
    assert_eq!(t.compute_at(Point::new(0, 0), &[&a], meta, &mut px), Err(Error::OutOfBounds));
    assert_eq!(t.compute_at(Point::new(3, 1), &[&a], meta, &mut px), Err(Error::OutOfBounds));
    assert_eq!(t.compute_at(Point::new(3, 3), &[&a], meta, &mut px), Ok(()));
    assert_eq!(px, vec![(2200 + 3300) / 2]);
}

#[test]
fn transform_refusals() {
    let a = picture(SampleType::U8, 4, 4);
    let mut dest = a.new_like();
    let id = scale(Factor(1000), Factor(1000));
    assert_eq!(id.eval(&[&a], &mut dest), Ok(()));
    assert_eq!(dest, a);
    assert_eq!(id.eval(&[], &mut dest), Err(Error::Mismatch));
    let mut gray = Image::new(SampleType::U8, ColorModel::Gray, Size::new(4, 4)).unwrap();
    assert_eq!(id.eval(&[&a], &mut gray), Err(Error::Mismatch));
    let mut big = Image::new(SampleType::U8, ColorModel::Rgb, Size::new(5, 4)).unwrap();
    assert_eq!(id.eval(&[&a], &mut big), Err(Error::OutOfBounds));
    let none = scale(Factor(0), Factor(1000));
    assert_eq!(none.eval(&[&a], &mut dest), Err(Error::OutOfBounds));
    let huge = Transform {
        matrix: Matrix { m11: TERM_LIMIT + 1, m12: 0, m21: 0, m22: 1, m31: 0, m32: 0 },
        dx: 1,
        dy: 1,
    };
    assert!(!huge.is_wf());
    assert_eq!(huge.eval(&[&a], &mut dest), Err(Error::OutOfBounds));
    let left = Transform {
        matrix: Matrix { m11: 1, m12: 0, m21: 0, m22: 1, m31: -1, m32: 0 },
        dx: 1,
        dy: 1,
    };
    let mut px = vec![0i64; 3];
    assert_eq!(
        left.compute_at(Point::new(0, 0), &[&a], a.meta, &mut px),
        Err(Error::OutOfBounds)
    );
    assert_eq!(left.compute_at(Point::new(1, 0), &[&a], a.meta, &mut px), Ok(()));
    assert_eq!(px, a.get_pixel(Point::new(0, 0)));
}
