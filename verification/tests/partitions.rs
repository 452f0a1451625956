use image2::error::Error;
use image2::filter::Filter;
use image2::geometry::{Point, Size};
use image2::image::Image;
use image2::kernel::gaussian_5x5;
use image2::rows::{apply_rows, AsyncFilter, AsyncMode, Progress};
use image2::sample::{ColorModel, SampleType};
use image2::tone::Invert;
use std::future::Future;
use std::pin::Pin;
use std::task::{Context, Poll};

fn picture(width: usize, height: usize) -> Image {
    let mut image = Image::new(SampleType::U16, ColorModel::Rgb, Size::new(width, height)).unwrap();
    for y in 0..height {
        for x in 0..width {
            for c in 0..3 {
                let level = ((x * 811 + y * 6007 + c * 30011) % 65536) as i64;
                image.set_f(Point::new(x, y), c, level);
            }
        }
    }
    image
}

struct Units<'a, F: Filter> {
    state: AsyncFilter,
    filter: F,
    inputs: &'a [&'a Image],
    dest: &'a mut Image,
    polls: &'a mut usize,
}

impl<'a, F: Filter + Unpin> Future for Units<'a, F> {
    type Output = Result<(), Error>;

    fn poll(self: Pin<&mut Self>, cx: &mut Context<'_>) -> Poll<Self::Output> {
        let this = self.get_mut();
        *this.polls += 1;
        match this.state.step(&this.filter, this.inputs, this.dest) {
            Progress::Pending => {
                cx.waker().wake_by_ref();
                Poll::Pending
            }
            Progress::Ready(r) => Poll::Ready(r),
        }
    }
}

#[test]
fn test_invert_async() {
    let image = picture(48, 36);
    let mut dest = image.new_like();
    let mut polls = 0;
    let inputs = [&image];
    let r = smol::block_on(Units {
        state: AsyncFilter::new(AsyncMode::Row),
        filter: Invert,
        inputs: &inputs,
        dest: &mut dest,
        polls: &mut polls,
    });
    assert_eq!(r, Ok(()));
    assert_eq!(polls, 36);
    let mut expect = image.new_like();
    assert_eq!(Invert.eval(&[&image], &mut expect), Ok(()));
    assert_eq!(dest, expect);
}

#[test]
fn partitions_give_what_eval_gives() {
    let image = picture(23, 17);
    let blur = gaussian_5x5();
    let mut expect = image.new_like();
    assert_eq!(blur.eval(&[&image], &mut expect), Ok(()));
    for mode in [
        AsyncMode::Row,
        AsyncMode::Band(0),
        AsyncMode::Band(1),
        AsyncMode::Band(3),
        AsyncMode::Band(17),
        AsyncMode::Band(usize::MAX),
    ] {
        let mut dest = image.new_like();
        assert_eq!(apply_rows(mode, &blur, &[&image], &mut dest), Ok(()));
        assert_eq!(dest, expect);
    }
}

#[test]
fn steps_hand_out_bands() {
    let image = picture(5, 7);
    let mut dest = image.new_like();
    let mut state = AsyncFilter::new(AsyncMode::Band(3));
    assert_eq!(AsyncMode::Band(3).band(), 3);
    assert_eq!(AsyncMode::Band(0).band(), 1);
    assert_eq!(AsyncMode::Row.band(), 1);
    assert!(matches!(state.step(&Invert, &[&image], &mut dest), Progress::Pending));
    assert_eq!(state.next, 3);
    assert_eq!(dest.get_f(Point::new(4, 2), 0), 65535 - image.get_f(Point::new(4, 2), 0));
    assert_eq!(dest.get_f(Point::new(0, 3), 0), 0);
    assert!(matches!(state.step(&Invert, &[&image], &mut dest), Progress::Pending));
    assert_eq!(state.next, 6);
    assert!(matches!(state.step(&Invert, &[&image], &mut dest), Progress::Ready(Ok(()))));
    assert_eq!(state.next, 7);
    assert_eq!(state.failure, None);
    assert!(matches!(state.step(&Invert, &[&image], &mut dest), Progress::Ready(Ok(()))));
}

#[test]
fn a_failing_unit_does_not_stop_the_others() {
    let image = picture(4, 2);
    let mut dest = Image::new(SampleType::U16, ColorModel::Rgb, Size::new(4, 4)).unwrap();
    let mut state = AsyncFilter::new(AsyncMode::Row);
    assert!(matches!(state.step(&Invert, &[&image], &mut dest), Progress::Pending));
    assert!(matches!(state.step(&Invert, &[&image], &mut dest), Progress::Pending));
    assert_eq!(state.failure, None);
    assert!(matches!(state.step(&Invert, &[&image], &mut dest), Progress::Pending));
    assert_eq!(state.failure, Some(Error::OutOfBounds));
    assert!(matches!(
        state.step(&Invert, &[&image], &mut dest),
        Progress::Ready(Err(Error::OutOfBounds))
    ));
    assert_eq!(dest.get_f(Point::new(3, 1), 2), 65535 - image.get_f(Point::new(3, 1), 2));

    let mut again = Image::new(SampleType::U16, ColorModel::Rgb, Size::new(4, 4)).unwrap();
    assert_eq!(
        apply_rows(AsyncMode::Band(3), &Invert, &[&image], &mut again),
        Err(Error::OutOfBounds)
    );
    assert_eq!(apply_rows(AsyncMode::Row, &Invert, &[], &mut again), Err(Error::Mismatch));
    let mut empty = Image::new(SampleType::U16, ColorModel::Rgb, Size::new(4, 0)).unwrap();
    assert_eq!(apply_rows(AsyncMode::Row, &Invert, &[], &mut empty), Ok(()));
}
