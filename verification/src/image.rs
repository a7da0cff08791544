//! Rectangles of samples, and the planes that are interleaved in one.

use vstd::arithmetic::div_mod::lemma_fundamental_div_mod_converse;
use vstd::prelude::*;

verus! {

/// Sample `x` of row `y` in a row-by-row list of samples of rows `width`
/// long.
pub open spec fn sample_at<T>(samples: Seq<T>, width: int, x: int, y: int) -> T {
    samples[y * width + x]
}

/// The samples of one of three planes that are interleaved in an image: the
/// plane is a third as wide as the image, and its sample `x` of row `y` is
/// the image's sample `3 * x + plane` of that row.
pub open spec fn plane_samples<T>(samples: Seq<T>, size: (usize, usize), plane: int) -> Seq<T> {
    Seq::new(
        (size.0 / 3 * size.1) as nat,
        |k: int| sample_at(
            samples,
            size.0 as int,
            3 * (k % (size.0 as int / 3)) + plane,
            k / (size.0 as int / 3),
        ),
    )
}

/// Sample `x` of row `y` lies inside a list of `width * height` samples.
pub proof fn lemma_sample_in_bounds(width: int, height: int, x: int, y: int)
    requires
        0 <= x < width,
        0 <= y < height,
    ensures
        0 <= y * width + x < width * height,
{
    assert(y * width + x < width * height) by (nonlinear_arith)
        requires
            0 <= x < width,
            0 <= y < height,
    ;
    assert(0 <= y * width) by (nonlinear_arith)
        requires
            0 <= y,
            0 <= width,
    ;
}

/// A rectangle of samples of one channel, held row by row.
pub struct Image<T> {
    size: (usize, usize),
    data: Vec<T>,
}

impl<T> Image<T> {
    #[verifier::type_invariant]
    spec fn inv(self) -> bool {
        self.data@.len() == self.size.0 * self.size.1
    }

    /// The width and the height.
    pub closed spec fn spec_size(self) -> (usize, usize) {
        self.size
    }

    /// The samples, row by row.
    pub closed spec fn samples(self) -> Seq<T> {
        self.data@
    }

    /// Sample `x` of row `y`.
    pub open spec fn spec_get(self, x: int, y: int) -> T {
        sample_at(self.samples(), self.spec_size().0 as int, x, y)
    }

    /// The image of the given size that holds `data` row by row, if `data`
    /// has as many samples as the size asks for.
    pub fn from_vec(size: (usize, usize), data: Vec<T>) -> (image: Option<Image<T>>)
        ensures
            match image {
                Some(image) => image.spec_size() == size && image.samples() == data@,
                None => data@.len() != size.0 * size.1,
            },
    {
        let len: usize = data.len();
        match size.0.checked_mul(size.1) {
            Some(count) => {
                if count == len {
                    Some(Image { size, data })
                } else {
                    None
                }
            },
            None => None,
        }
    }

    /// The samples, row by row.
    pub fn into_vec(self) -> (data: Vec<T>)
        ensures
            data@ == self.samples(),
    {
        self.data
    }

    /// The width and the height.
    pub fn size(&self) -> (size: (usize, usize))
        ensures
            size == self.spec_size(),
            self.samples().len() == size.0 * size.1 <= usize::MAX,
    {
        proof {
            use_type_invariant(self);
        }
        let len: usize = self.data.len();
        self.size
    }

}

impl<T: Copy> Image<T> {
    /// Sample `x` of row `y`.
    pub fn get(&self, x: usize, y: usize) -> (sample: T)
        requires
            x < self.spec_size().0,
            y < self.spec_size().1,
        ensures
            sample == self.spec_get(x as int, y as int),
    {
        proof {
            use_type_invariant(self);
            lemma_sample_in_bounds(self.size.0 as int, self.size.1 as int, x as int, y as int);
        }
        let len: usize = self.data.len();
        self.data[y * self.size.0 + x]
    }

}

/// One of the three planes that are interleaved in an image.
fn plane_from_interleaved<T: Copy>(interleaved: &Image<T>, plane: usize) -> (image: Image<T>)
    requires
        plane < 3,
    ensures
        image.spec_size() == (interleaved.spec_size().0 / 3, interleaved.spec_size().1),
        image.samples() == plane_samples(
            interleaved.samples(),
            interleaved.spec_size(),
            plane as int,
        ),
{
    let (width, height) = interleaved.size();
    let third: usize = width / 3;
    let mut data: Vec<T> = Vec::new();
    let mut y: usize = 0;
    assert(third * height <= width * height) by (nonlinear_arith)
        requires
            third <= width,
            0 <= height,
    ;
    while y < height
        invariant
            y <= height,
            plane < 3,
            third == width / 3,
            (width, height) == interleaved.spec_size(),
            third * height <= usize::MAX,
            data@.len() == y * third,
            forall|k: int|
                0 <= k < data@.len() ==> data@[k] == sample_at(
                    interleaved.samples(),
                    width as int,
                    3 * (k % (third as int)) + plane,
                    k / (third as int),
                ),
        decreases height - y,
    {
        let mut x: usize = 0;
        while x < third
            invariant
                x <= third,
                y < height,
                plane < 3,
                third == width / 3,
                (width, height) == interleaved.spec_size(),
                data@.len() == y * third + x,
                forall|k: int|
                    0 <= k < data@.len() ==> data@[k] == sample_at(
                        interleaved.samples(),
                        width as int,
                        3 * (k % (third as int)) + plane,
                        k / (third as int),
                    ),
            decreases third - x,
        {
            proof {
                lemma_fundamental_div_mod_converse(
                    y * third + x,
                    third as int,
                    y as int,
                    x as int,
                );
            }
            data.push(interleaved.get(3 * x + plane, y));
            x = x + 1;
        }
        assert((y + 1) * third == y * third + third) by (nonlinear_arith);
        y = y + 1;
    }
    assert(height * third == width / 3 * height) by (nonlinear_arith)
        requires
            third == width / 3,
    ;
    assert(data@.len() == plane_samples(
        interleaved.samples(),
        interleaved.spec_size(),
        plane as int,
    ).len());
    assert(data@ =~= plane_samples(interleaved.samples(), interleaved.spec_size(), plane as int));
    Image { size: (third, height), data }
}

/// Takes apart an image whose rows hold the samples of three planes in
/// turn: the three planes, each a third as wide as the image. Where the
/// width is no multiple of three, the one or two last samples of each row
/// are left out.
pub fn planes_from_interleaved<T: Copy>(interleaved: &Image<T>) -> (planes: Vec<Image<T>>)
    ensures
        planes@.len() == 3,
        forall|plane: int|
            0 <= plane < 3 ==> (#[trigger] planes@[plane]).spec_size() == (
                interleaved.spec_size().0 / 3,
                interleaved.spec_size().1,
            ) && planes@[plane].samples() == plane_samples(
                interleaved.samples(),
                interleaved.spec_size(),
                plane,
            ),
{
    let mut planes: Vec<Image<T>> = Vec::new();
    planes.push(plane_from_interleaved(interleaved, 0));
    planes.push(plane_from_interleaved(interleaved, 1));
    planes.push(plane_from_interleaved(interleaved, 2));
    planes
}

/// Sample `x` of row `y` of a plane is sample `3 * x + plane` of row `y` of
/// the image that the plane was taken from.
pub proof fn lemma_plane_sample<T>(
    samples: Seq<T>,
    size: (usize, usize),
    plane: int,
    x: int,
    y: int,
)
    requires
        0 <= x < size.0 / 3,
        0 <= y < size.1,
    ensures
        0 <= y * (size.0 as int / 3) + x < plane_samples(samples, size, plane).len(),
        sample_at(plane_samples(samples, size, plane), size.0 as int / 3, x, y) == sample_at(
            samples,
            size.0 as int,
            3 * x + plane,
            y,
        ),
{
    let third = size.0 as int / 3;
    lemma_sample_in_bounds(third, size.1 as int, x, y);
    lemma_fundamental_div_mod_converse(y * third + x, third, y, x);
}

} // verus!
