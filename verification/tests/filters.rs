use image2::color::{Convert, Saturation};
use image2::compose::{and_then, single};
use image2::crop::Crop;
use image2::error::Error;
use image2::filter::Filter;
use image2::geometry::{Point, Region, Size};
use image2::image::Image;
use image2::kernel::{gaussian_5x5, sobel, sobel_x, sobel_y, Kernel};
use image2::sample::{ColorModel, SampleType, LEVEL_MAX};
use image2::tone::{div_floor, Brightness, Contrast, Factor, Invert};

fn gradient(kind: SampleType, color: ColorModel, width: usize, height: usize) -> Image {
    let mut image = Image::new(kind, color, Size::new(width, height)).unwrap();
    let ch = color.channels();
    for y in 0..height {
        for x in 0..width {
            for c in 0..ch {
                let level = ((x * 997 + y * 4099 + c * 12007) % 65536) as i64;
                image.set_f(Point::new(x, y), c, level);
            }
        }
    }
    image
}

fn levels(image: &Image) -> Vec<i64> {
    let mut out = Vec::new();
    for y in 0..image.height() {
        for x in 0..image.width() {
            out.extend(image.get_pixel(Point::new(x, y)));
        }
    }
    out
}

#[test]
fn test_to_grayscale() {
    let image = gradient(SampleType::U16, ColorModel::Rgb, 40, 30);
    let mut dest = image
        .new_like_with_type_and_color(SampleType::U16, ColorModel::Gray)
        .unwrap();
    assert_eq!(Convert::new(ColorModel::Gray).eval(&[&image], &mut dest), Ok(()));
    for y in 0..30 {
        for x in 0..40 {
            let px = image.get_pixel(Point::new(x, y));
            let gray = (299 * px[0] + 587 * px[1] + 114 * px[2]) / 1000;
            assert_eq!(dest.get_pixel(Point::new(x, y)), vec![gray]);
        }
    }
}

#[test]
fn test_invert() {
    let image = gradient(SampleType::U16, ColorModel::Rgb, 64, 48);
    let mut dest = image.new_like();
    assert_eq!(Invert.eval(&[&image], &mut dest), Ok(()));
    let before = levels(&image);
    let after = levels(&dest);
    assert_eq!(before.len(), after.len());
    for i in 0..before.len() {
        assert_eq!(after[i], LEVEL_MAX - before[i]);
    }
}

#[test]
fn invert_twice_is_the_identity() {
    for kind in [SampleType::U8, SampleType::U16] {
        for color in [ColorModel::Gray, ColorModel::Rgb, ColorModel::Rgba, ColorModel::Xyz] {
            let image = gradient(kind, color, 17, 9);
            let mut once = image.new_like();
            let mut twice = image.new_like();
            assert_eq!(Invert.eval(&[&image], &mut once), Ok(()));
            assert_eq!(Invert.eval(&[&once], &mut twice), Ok(()));
            assert_ne!(once, image);
            assert_eq!(twice, image);
        }
    }
}

#[test]
fn invert_refusals() {
    let image = gradient(SampleType::U8, ColorModel::Rgb, 4, 4);
    let mut dest = image.new_like();
    assert_eq!(Invert.eval(&[], &mut dest), Err(Error::Mismatch));
    let mut gray = Image::new(SampleType::U8, ColorModel::Gray, Size::new(4, 4)).unwrap();
    assert_eq!(Invert.eval(&[&image], &mut gray), Err(Error::Mismatch));
    let mut wide = Image::new(SampleType::U8, ColorModel::Rgb, Size::new(5, 4)).unwrap();
    assert_eq!(Invert.eval(&[&image], &mut wide), Err(Error::OutOfBounds));
    let mut empty = Image::new(SampleType::U8, ColorModel::Gray, Size::new(0, 4)).unwrap();
    assert_eq!(Invert.eval(&[], &mut empty), Ok(()));
}

#[test]
fn refusal_leaves_the_rows_after_it() {
    let image = gradient(SampleType::U16, ColorModel::Gray, 3, 2);
    let mut tall = Image::new(SampleType::U16, ColorModel::Gray, Size::new(3, 4)).unwrap();
    tall.set_f(Point::new(1, 3), 0, 555);
    assert_eq!(Invert.eval(&[&image], &mut tall), Err(Error::OutOfBounds));
    assert_eq!(
        tall.get_f(Point::new(2, 1), 0),
        LEVEL_MAX - image.get_f(Point::new(2, 1), 0)
    );
    assert_eq!(tall.get_f(Point::new(1, 3), 0), 555);
}

#[test]
fn compute_at_writes_one_pixel() {
    let image = gradient(SampleType::U16, ColorModel::Rgb, 4, 4);
    let mut px = vec![0i64; 3];
    let pt = Point::new(2, 3);
    assert_eq!(Invert.compute_at(pt, &[&image], image.meta, &mut px), Ok(()));
    let src = image.get_pixel(pt);
    assert_eq!(px, vec![LEVEL_MAX - src[0], LEVEL_MAX - src[1], LEVEL_MAX - src[2]]);
    assert_eq!(
        Invert.compute_at(Point::new(2, 3), &[], image.meta, &mut px),
        Err(Error::Mismatch)
    );
}

#[test]
fn eval_rows_touches_its_rows_only() {
    let image = gradient(SampleType::U16, ColorModel::Gray, 5, 6);
    let mut dest = image.new_like();
    assert_eq!(Invert.eval_rows(&[&image], &mut dest, 2, 4), Ok(()));
    for y in 0..6 {
        for x in 0..5 {
            let pt = Point::new(x, y);
            let expect = if (2..4).contains(&y) { LEVEL_MAX - image.get_f(pt, 0) } else { 0 };
            assert_eq!(dest.get_f(pt, 0), expect);
        }
    }
}

#[test]
fn test_kernel() {
    let image = gradient(SampleType::U16, ColorModel::Rgb, 12, 10);
    let mut dest = image.new_like();
    let k = Kernel::new(3, vec![-1, -1, -1, -1, 8, -1, -1, -1, -1], 1).unwrap();
    assert_eq!(k.eval(&[&image], &mut dest), Ok(()));
    for c in 0..3 {
        let mut sum = 0i64;
        for j in 0..3usize {
            for i in 0..3usize {
                let w = if i == 1 && j == 1 { 8 } else { -1 };
                sum += w * image.get_f(Point::new(4 + i, 5 + j), c);
            }
        }
        assert_eq!(dest.get_f(Point::new(5, 6), c), sum.clamp(0, LEVEL_MAX));
    }
    let same = Kernel::edges();
    let mut again = image.new_like();
    assert_eq!(same.eval(&[&image], &mut again), Ok(()));
    assert_eq!(again, dest);
}

#[test]
fn kernel_repeats_the_edge() {
    let mut image = Image::new(SampleType::U16, ColorModel::Gray, Size::new(3, 2)).unwrap();
    let values = [[10i64, 20, 30], [40, 50, 60]];
    for y in 0..2 {
        for x in 0..3 {
            image.set_f(Point::new(x, y), 0, values[y][x]);
        }
    }
    let k = Kernel::new(3, vec![1, 1, 1, 1, 1, 1, 1, 1, 1], 1).unwrap();
    let mut dest = image.new_like();
    assert_eq!(k.eval(&[&image], &mut dest), Ok(()));
    assert_eq!(dest.get_f(Point::new(0, 0), 0), 4 * 10 + 2 * 20 + 2 * 40 + 50);
    assert_eq!(dest.get_f(Point::new(2, 1), 0), 4 * 60 + 2 * 50 + 2 * 30 + 20);
    assert_eq!(dest.get_f(Point::new(1, 0), 0), 2 * (10 + 20 + 30) + 40 + 50 + 60);
}

#[test]
fn kernel_identity_and_divisor() {
    let image = gradient(SampleType::U16, ColorModel::Rgb, 6, 6);
    let id = Kernel::new(1, vec![1], 1).unwrap();
    let mut dest = image.new_like();
    assert_eq!(id.eval(&[&image], &mut dest), Ok(()));
    assert_eq!(dest, image);
    let half = Kernel::new(1, vec![1], 2).unwrap();
    assert_eq!(half.eval(&[&image], &mut dest), Ok(()));
    assert_eq!(dest.get_f(Point::new(3, 3), 1), image.get_f(Point::new(3, 3), 1) / 2);
    let negative = Kernel::new(1, vec![-1], 2).unwrap();
    let mut px = vec![0i64; 3];
    assert_eq!(negative.compute_at(Point::new(1, 0), &[&image], image.meta, &mut px), Ok(()));
    let l = image.get_f(Point::new(1, 0), 0);
    assert_eq!(px[0], -((l + 1) / 2));
}

#[test]
fn kernel_construction() {
    assert!(Kernel::new(2, vec![1, 1, 1, 1], 1).is_none());
    assert!(Kernel::new(3, vec![1, 1, 1, 1], 1).is_none());
    assert!(Kernel::new(3, vec![0; 9], 0).is_none());
    assert!(Kernel::new(3, vec![0; 9], -1).is_none());
    assert!(Kernel::new(129, vec![0; 129 * 129], 1).is_none());
    assert!(Kernel::new(127, vec![0; 127 * 127], 1).is_some());
    assert!(Kernel::new(0, vec![], 1).is_none());
    let bad = Kernel { dim: 2, weights: vec![1; 4], divisor: 1 };
    assert!(!bad.is_wf());
    let image = gradient(SampleType::U8, ColorModel::Gray, 3, 3);
    let mut dest = image.new_like();
    assert_eq!(bad.eval(&[&image], &mut dest), Err(Error::Mismatch));
    let good = Kernel::edges();
    assert_eq!(good.eval(&[], &mut dest), Err(Error::Mismatch));
    let nothing = Image::new(SampleType::U8, ColorModel::Gray, Size::new(0, 0)).unwrap();
    assert_eq!(good.eval(&[&nothing], &mut dest), Err(Error::OutOfBounds));
}

#[test]
fn test_gaussian_blur() {
    let image = gradient(SampleType::U16, ColorModel::Rgb, 16, 16);
    let mut dest = image.new_like();
    let k = gaussian_5x5();
    assert_eq!(k.dim, 5);
    assert_eq!(k.divisor, 273);
    assert_eq!(k.weights.iter().sum::<i32>(), 273);
    assert_eq!(k.eval(&[&image], &mut dest), Ok(()));
    let mut sum = 0i64;
    for j in 0..5usize {
        for i in 0..5usize {
            sum += k.weights[j * 5 + i] as i64 * image.get_f(Point::new(6 + i, 7 + j), 2);
        }
    }
    assert_eq!(dest.get_f(Point::new(8, 9), 2), sum / 273);
    let mut flat = Image::new(SampleType::U16, ColorModel::Gray, Size::new(7, 7)).unwrap();
    for y in 0..7 {
        for x in 0..7 {
            flat.set_f(Point::new(x, y), 0, 30000);
        }
    }
    let mut blurred = flat.new_like();
    assert_eq!(k.eval(&[&flat], &mut blurred), Ok(()));
    assert_eq!(blurred, flat);
}

#[test]
fn test_sobel() {
    let image = gradient(SampleType::U16, ColorModel::Rgb, 16, 16);
    let mut dest = image.new_like();
    let k = sobel();
    assert_eq!(k.eval(&[&image], &mut dest), Ok(()));
    let x = sobel_x();
    let y = sobel_y();
    for i in 0..9 {
        assert_eq!(k.weights[i], x.weights[i] + y.weights[i]);
    }
    let mut flat = Image::new(SampleType::U16, ColorModel::Gray, Size::new(5, 5)).unwrap();
    for yy in 0..5 {
        for xx in 0..5 {
            flat.set_f(Point::new(xx, yy), 0, 1000);
        }
    }
    let mut out = flat.new_like();
    assert_eq!(k.eval(&[&flat], &mut out), Ok(()));
    assert_eq!(levels(&out), vec![0; 25]);
}

#[test]
fn test_crop() {
    let image = gradient(SampleType::U16, ColorModel::Rgb, 400, 450);
    let mut dest = Image::new(SampleType::U16, ColorModel::Rgb, Size::new(250, 200)).unwrap();
    let k = Crop(Region::new(Point::new(100, 200), Size::new(250, 200)));
    assert_eq!(k.eval(&[&image], &mut dest), Ok(()));
    assert_eq!(dest.size(), Size::new(250, 200));
    assert_eq!(dest.get_pixel(Point::new(0, 0)), image.get_pixel(Point::new(100, 200)));
    assert_eq!(dest.get_pixel(Point::new(249, 199)), image.get_pixel(Point::new(349, 399)));
    assert_eq!(dest.get_pixel(Point::new(17, 101)), image.get_pixel(Point::new(117, 301)));
}

#[test]
fn crop_refusals() {
    let image = gradient(SampleType::U8, ColorModel::Rgb, 20, 20);
    let region = Region::new(Point::new(15, 0), Size::new(6, 5));
    let mut dest = Image::new(SampleType::U8, ColorModel::Rgb, Size::new(6, 5)).unwrap();
    assert_eq!(Crop(region).eval(&[&image], &mut dest), Err(Error::OutOfBounds));
    assert_eq!(levels(&dest), vec![0; 6 * 5 * 3]);
    let region = Region::new(Point::new(14, 0), Size::new(6, 5));
    assert_eq!(Crop(region).eval(&[&image], &mut dest), Ok(()));
    let mut other = Image::new(SampleType::U8, ColorModel::Rgb, Size::new(5, 5)).unwrap();
    assert_eq!(Crop(region).eval(&[&image], &mut other), Err(Error::Mismatch));
    assert_eq!(Crop(region).eval(&[], &mut dest), Err(Error::Mismatch));
    let mut gray = Image::new(SampleType::U8, ColorModel::Gray, Size::new(6, 5)).unwrap();
    assert_eq!(Crop(region).eval(&[&image], &mut gray), Err(Error::Mismatch));
}

#[test]
fn crop_into_another_sample_type() {
    let image = gradient(SampleType::U16, ColorModel::Gray, 8, 8);
    let region = Region::new(Point::new(2, 3), Size::new(4, 4));
    let mut dest = Image::new(SampleType::U8, ColorModel::Gray, Size::new(4, 4)).unwrap();
    assert_eq!(Crop(region).eval(&[&image], &mut dest), Ok(()));
    let l = image.get_f(Point::new(3, 5), 0);
    assert_eq!(dest.get_f(Point::new(1, 2), 0), ((l + 128) / 257) * 257);
}

#[test]
fn test_brightness_contrast() {
    let image = gradient(SampleType::U16, ColorModel::Rgb, 32, 24);
    let mut dest = image.new_like();
    let f = Contrast(Factor(1250));
    assert_eq!(f.eval(&[&image], &mut dest), Ok(()));
    let pt = Point::new(5, 7);
    let l = image.get_f(pt, 1);
    assert_eq!(dest.get_f(pt, 1), (l * 1250 / 1000).min(LEVEL_MAX));

    let f = and_then(Contrast(Factor(1250)), Brightness(Factor(1500)));
    assert_eq!(f.eval(&[&image], &mut dest), Ok(()));
    assert_eq!(
        dest.get_f(pt, 1),
        ((l * 1250 / 1000).min(LEVEL_MAX) + 98302).min(LEVEL_MAX)
    );
    assert_eq!(levels(&dest), vec![LEVEL_MAX; 32 * 24 * 3]);

    let f = and_then(Brightness(Factor(1500)), Contrast(Factor(1250)));
    assert_eq!(f.eval(&[&image], &mut dest), Ok(()));
    assert_eq!(
        dest.get_f(pt, 1),
        ((l + 98302).min(LEVEL_MAX) * 1250 / 1000).min(LEVEL_MAX)
    );
    assert_eq!(levels(&dest), vec![LEVEL_MAX; 32 * 24 * 3]);
}

#[test]
fn the_order_of_contrast_and_brightness_shows() {
    let image = gradient(SampleType::U16, ColorModel::Rgb, 32, 24);
    let pt = Point::new(5, 7);
    let l = image.get_f(pt, 1);
    let mut first = image.new_like();
    let f = and_then(Contrast(Factor(1250)), Brightness(Factor(150)));
    assert_eq!(f.eval(&[&image], &mut first), Ok(()));
    assert_eq!(first.get_f(pt, 1), ((l * 1250 / 1000).min(LEVEL_MAX) + 9830).min(LEVEL_MAX));
    let mut second = image.new_like();
    let f = and_then(Brightness(Factor(150)), Contrast(Factor(1250)));
    assert_eq!(f.eval(&[&image], &mut second), Ok(()));
    assert_eq!(
        second.get_f(pt, 1),
        ((l + 9830).min(LEVEL_MAX) * 1250 / 1000).min(LEVEL_MAX)
    );
    assert_ne!(first, second);
}

#[test]
fn contrast_and_brightness_values() {
    let mut image = Image::new(SampleType::U16, ColorModel::Gray, Size::new(3, 1)).unwrap();
    image.set_f(Point::new(0, 0), 0, 1000);
    image.set_f(Point::new(1, 0), 0, 40000);
    image.set_f(Point::new(2, 0), 0, 65535);
    let mut dest = image.new_like();
    assert_eq!(Contrast(Factor(1500)).eval(&[&image], &mut dest), Ok(()));
    assert_eq!(levels(&dest), vec![1500, 60000, 65535]);
    assert_eq!(Contrast(Factor(333)).eval(&[&image], &mut dest), Ok(()));
    assert_eq!(levels(&dest), vec![333, 13320, 21823]);
    assert_eq!(Contrast(Factor(-1000)).eval(&[&image], &mut dest), Ok(()));
    assert_eq!(levels(&dest), vec![0, 0, 0]);
    assert_eq!(Contrast(Factor(1000)).eval(&[&image], &mut dest), Ok(()));
    assert_eq!(dest, image);
    assert_eq!(Brightness(Factor(500)).eval(&[&image], &mut dest), Ok(()));
    assert_eq!(levels(&dest), vec![33767, 65535, 65535]);
    assert_eq!(Brightness(Factor(-100)).eval(&[&image], &mut dest), Ok(()));
    assert_eq!(levels(&dest), vec![0, 33446, 58981]);
    assert_eq!(Brightness(Factor(0)).eval(&[&image], &mut dest), Ok(()));
    assert_eq!(dest, image);
    let mut px = vec![0i64];
    assert_eq!(
        Contrast(Factor(-1)).compute_at(Point::new(0, 0), &[&image], image.meta, &mut px),
        Ok(())
    );
    assert_eq!(px, vec![-1]);
}

#[test]
fn div_floor_rounds_down() {
    assert_eq!(div_floor(7, 2), 3);
    assert_eq!(div_floor(-7, 2), -4);
    assert_eq!(div_floor(-8, 2), -4);
    assert_eq!(div_floor(-1, 1000), -1);
    assert_eq!(div_floor(0, 5), 0);
    assert_eq!(div_floor(i64::MIN, 1), i64::MIN);
    assert_eq!(div_floor(i64::MAX, 1), i64::MAX);
    assert_eq!(div_floor(i64::MIN, i64::MAX), -2);
}

#[test]
fn composition_is_an_intermediate_image() {
    let image = gradient(SampleType::U8, ColorModel::Rgb, 9, 7);
    let f = and_then(Invert, Contrast(Factor(500)));
    let mut dest = image.new_like();
    assert_eq!(f.eval(&[&image], &mut dest), Ok(()));
    let mut tmp = image.new_like();
    assert_eq!(Invert.eval(&[&image], &mut tmp), Ok(()));
    let mut expect = image.new_like();
    assert_eq!(Contrast(Factor(500)).eval(&[&tmp], &mut expect), Ok(()));
    assert_eq!(dest, expect);
    let mut px = vec![0i64; 3];
    let pt = Point::new(4, 4);
    assert_eq!(f.compute_at(pt, &[&image], image.meta, &mut px), Ok(()));
    let list = single(&tmp);
    let mut direct = vec![0i64; 3];
    assert_eq!(
        Contrast(Factor(500)).compute_at(pt, list.as_slice(), image.meta, &mut direct),
        Ok(())
    );
    assert_eq!(px, direct);
}

#[test]
fn composition_is_associative() {
    let image = gradient(SampleType::U16, ColorModel::Rgb, 9, 7);
    let left = and_then(and_then(Contrast(Factor(1250)), Invert), Brightness(Factor(100)));
    let right = and_then(Contrast(Factor(1250)), and_then(Invert, Brightness(Factor(100))));
    let mut a = image.new_like();
    let mut b = image.new_like();
    assert_eq!(left.eval(&[&image], &mut a), Ok(()));
    assert_eq!(right.eval(&[&image], &mut b), Ok(()));
    assert_eq!(a, b);
}

#[test]
fn composition_reports_the_first_failure() {
    let image = gradient(SampleType::U8, ColorModel::Rgb, 4, 4);
    let mut wide = Image::new(SampleType::U8, ColorModel::Rgb, Size::new(5, 4)).unwrap();
    let f = and_then(Invert, Kernel::new(2, vec![0; 4], 1).unwrap_or(Kernel::edges()));
    assert_eq!(f.eval(&[&image], &mut wide), Err(Error::OutOfBounds));
    let bad = Kernel { dim: 2, weights: vec![0; 4], divisor: 1 };
    let f = and_then(Invert, bad);
    let mut dest = image.new_like();
    assert_eq!(f.eval(&[&image], &mut dest), Err(Error::Mismatch));
    assert_eq!(f.eval_rows(&[&image], &mut dest, 2, 2), Ok(()));
    assert_eq!(f.eval_rows(&[&image], &mut dest, 1, 2), Err(Error::Mismatch));
}

#[test]
fn test_saturation() {
    let mut image = gradient(SampleType::U16, ColorModel::Rgb, 20, 20);
    let before = image.duplicate();
    assert_eq!(image.run_in_place(&Saturation(Factor(1250))), Ok(()));
    for (x, y) in [(0usize, 0usize), (7, 3), (19, 19)] {
        let px = before.get_pixel(Point::new(x, y));
        let gray = (299 * px[0] + 587 * px[1] + 114 * px[2]) / 1000;
        for c in 0..3 {
            let expect = gray + div_floor((px[c] - gray) * 1250, 1000);
            assert_eq!(image.get_f(Point::new(x, y), c), expect.clamp(0, LEVEL_MAX));
        }
    }
}

#[test]
fn saturation_values() {
    let mut image = Image::new(SampleType::U16, ColorModel::Rgba, Size::new(1, 1)).unwrap();
    let pt = Point::new(0, 0);
    for (c, l) in [10000i64, 20000, 30000, 40000].iter().enumerate() {
        image.set_f(pt, c, *l);
    }
    let mut dest = image.new_like();
    assert_eq!(Saturation(Factor(0)).eval(&[&image], &mut dest), Ok(()));
    assert_eq!(dest.get_pixel(pt), vec![18150, 18150, 18150, 40000]);
    assert_eq!(Saturation(Factor(1000)).eval(&[&image], &mut dest), Ok(()));
    assert_eq!(dest, image);
    assert_eq!(Saturation(Factor(2000)).eval(&[&image], &mut dest), Ok(()));
    assert_eq!(dest.get_pixel(pt), vec![1850, 21850, 41850, 40000]);
    let mut gray = Image::new(SampleType::U16, ColorModel::Gray, Size::new(1, 1)).unwrap();
    gray.set_f(pt, 0, 777);
    assert_eq!(gray.run_in_place(&Saturation(Factor(3000))), Ok(()));
    assert_eq!(gray.get_f(pt, 0), 777);
    let mut xyz = Image::new(SampleType::U16, ColorModel::Xyz, Size::new(1, 1)).unwrap();
    xyz.set_f(pt, 0, 100);
    xyz.set_f(pt, 1, 200);
    xyz.set_f(pt, 2, 400);
    assert_eq!(xyz.run_in_place(&Saturation(Factor(500))), Ok(()));
    assert_eq!(xyz.get_pixel(pt), vec![150, 200, 300]);
}

#[test]
fn run_in_place_reads_the_image_as_it_was() {
    let mut image = gradient(SampleType::U16, ColorModel::Gray, 6, 6);
    let before = image.duplicate();
    let k = Kernel::new(3, vec![0, 0, 0, 1, 0, 0, 0, 0, 0], 1).unwrap();
    assert_eq!(image.run_in_place(&k), Ok(()));
    for y in 0..6 {
        for x in 0..6usize {
            let from = Point::new(x.saturating_sub(1), y);
            assert_eq!(image.get_f(Point::new(x, y), 0), before.get_f(from, 0));
        }
    }
}

#[test]
fn convert_between_models() {
    let pt = Point::new(0, 0);
    let mut rgb = Image::new(SampleType::U16, ColorModel::Rgb, Size::new(1, 1)).unwrap();
    rgb.set_f(pt, 0, 10000);
    rgb.set_f(pt, 1, 20000);
    rgb.set_f(pt, 2, 30000);
    let mut rgba = Image::new(SampleType::U16, ColorModel::Rgba, Size::new(1, 1)).unwrap();
    assert_eq!(Convert::new(ColorModel::Rgba).eval(&[&rgb], &mut rgba), Ok(()));
    assert_eq!(rgba.get_pixel(pt), vec![10000, 20000, 30000, 65535]);
    let mut back = rgb.new_like();
    assert_eq!(Convert::new(ColorModel::Rgb).eval(&[&rgba], &mut back), Ok(()));
    assert_eq!(back, rgb);
    let mut gray = Image::new(SampleType::U16, ColorModel::Gray, Size::new(1, 1)).unwrap();
    assert_eq!(Convert::new(ColorModel::Gray).eval(&[&rgb], &mut gray), Ok(()));
    assert_eq!(gray.get_pixel(pt), vec![18150]);
    let mut spread = rgb.new_like();
    assert_eq!(Convert::new(ColorModel::Rgb).eval(&[&gray], &mut spread), Ok(()));
    assert_eq!(spread.get_pixel(pt), vec![18150, 18150, 18150]);
    let mut xyz = Image::new(SampleType::U16, ColorModel::Xyz, Size::new(1, 1)).unwrap();
    assert_eq!(Convert::new(ColorModel::Xyz).eval(&[&rgb], &mut xyz), Ok(()));
    assert_eq!(xyz.get_pixel(pt), vec![16691, 18596, 31092]);
    let mut from_xyz = rgb.new_like();
    assert_eq!(Convert::new(ColorModel::Rgb).eval(&[&xyz], &mut from_xyz), Ok(()));
    assert_eq!(from_xyz.get_pixel(pt), vec![10000, 20000, 30000]);
    let mut same = xyz.new_like();
    assert_eq!(Convert::new(ColorModel::Xyz).eval(&[&xyz], &mut same), Ok(()));
    assert_eq!(same, xyz);
}

#[test]
fn convert_refusals() {
    let rgb = gradient(SampleType::U8, ColorModel::Rgb, 3, 3);
    let mut gray = Image::new(SampleType::U8, ColorModel::Gray, Size::new(3, 3)).unwrap();
    assert_eq!(Convert::new(ColorModel::Rgba).eval(&[&rgb], &mut gray), Err(Error::Mismatch));
    assert_eq!(Convert::new(ColorModel::Gray).eval(&[], &mut gray), Err(Error::Mismatch));
    let mut big = Image::new(SampleType::U8, ColorModel::Gray, Size::new(3, 4)).unwrap();
    assert_eq!(Convert::new(ColorModel::Gray).eval(&[&rgb], &mut big), Err(Error::OutOfBounds));
}

#[test]
fn test_xyz() {
    let image = gradient(SampleType::U16, ColorModel::Rgb, 12, 9);
    let mut xyz = image
        .new_like_with_type_and_color(SampleType::U16, ColorModel::Xyz)
        .unwrap();
    assert_eq!(Convert::new(ColorModel::Xyz).eval(&[&image], &mut xyz), Ok(()));
    assert_eq!(xyz.meta.color, ColorModel::Xyz);
    for (x, y) in [(0usize, 0usize), (5, 4), (11, 8)] {
        let px = image.get_pixel(Point::new(x, y));
        let expect = vec![
            (4124 * px[0] + 3576 * px[1] + 1805 * px[2]) / 10000,
            (2126 * px[0] + 7152 * px[1] + 722 * px[2]) / 10000,
            (193 * px[0] + 1192 * px[1] + 9505 * px[2]) / 10000,
        ];
        assert_eq!(xyz.get_pixel(Point::new(x, y)), expect);
    }
    let mut gray = image
        .new_like_with_type_and_color(SampleType::U16, ColorModel::Gray)
        .unwrap();
    assert_eq!(Convert::new(ColorModel::Gray).eval(&[&xyz], &mut gray), Ok(()));
}

#[test]
fn rows_may_be_computed_in_any_order() {
    let image = gradient(SampleType::U16, ColorModel::Rgb, 7, 9);
    let blur = gaussian_5x5();
    let mut forward = image.new_like();
    let mut backward = image.new_like();
    for (y0, y1) in [(0, 2), (2, 5), (5, 9)] {
        assert_eq!(blur.eval_rows(&[&image], &mut forward, y0, y1), Ok(()));
    }
    for (y0, y1) in [(5, 9), (0, 2), (2, 5)] {
        assert_eq!(blur.eval_rows(&[&image], &mut backward, y0, y1), Ok(()));
    }
    let mut whole = image.new_like();
    assert_eq!(blur.eval(&[&image], &mut whole), Ok(()));
    assert_eq!(forward, whole);
    assert_eq!(backward, whole);
}

#[test]
fn contrast_first_is_darker_than_brightness_first() {
    let mut image = Image::new(SampleType::U16, ColorModel::Gray, Size::new(2, 1)).unwrap();
    image.set_f(Point::new(0, 0), 0, 1000);
    image.set_f(Point::new(1, 0), 0, 20000);
    let contrast = Contrast(Factor(2000));
    let brightness = Brightness(Factor(100));
    let mut first = image.new_like();
    let mut second = image.new_like();
    assert_eq!(and_then(contrast, brightness).eval(&[&image], &mut first), Ok(()));
    assert_eq!(and_then(brightness, contrast).eval(&[&image], &mut second), Ok(()));
    assert_eq!(levels(&first), vec![2000 + 6553, 40000 + 6553]);
    assert_eq!(levels(&second), vec![(1000 + 6553) * 2, (20000 + 6553) * 2]);
}
