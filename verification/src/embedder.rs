//! Writing a byte string into the alpha channel of a picture and reading it back.

use vstd::prelude::*;
use crate::error::VaultError;

verus! {

/// The alpha value that marks a pixel as carrying no data.
pub const SENTINEL: u8 = 255;

/// A picture as a row-major grid of pixels, four bytes to the pixel: red, green,
/// blue, alpha.
#[derive(Debug, PartialEq, Eq)]
pub struct CarrierImage {
    width: u32,
    height: u32,
    data: Vec<u8>,
}

/// Whether `len` samples are exactly a `width` by `height` grid of RGBA pixels
/// whose pixel count fits in 32 bits.
pub open spec fn grid_fits(width: u32, height: u32, len: nat) -> bool {
    &&& width * height <= u32::MAX
    &&& len == 4 * (width * height)
}

/// The alpha values of the pixels of `data`, in row-major order.
pub open spec fn alpha_channel(data: Seq<u8>) -> Seq<u8> {
    Seq::new((data.len() / 4) as nat, |i: int| data[4 * i + 3])
}

/// `secret` followed by as many sentinels as bring it to `capacity` bytes.
pub open spec fn padded(secret: Seq<u8>, capacity: nat) -> Seq<u8> {
    Seq::new(capacity, |i: int| if i < secret.len() { secret[i] } else { SENTINEL })
}

/// The samples of a picture with the colours of `carrier` and the alpha values `alpha`.
pub open spec fn with_alpha(carrier: Seq<u8>, alpha: Seq<u8>) -> Seq<u8> {
    Seq::new(carrier.len(), |k: int| if k % 4 == 3 { alpha[k / 4] } else { carrier[k] })
}

/// The samples of `carrier` with the bytes of `secret` in the alpha of the first
/// pixels, every other sample as the carrier had it.
pub open spec fn alpha_overwritten(carrier: Seq<u8>, secret: Seq<u8>) -> Seq<u8> {
    Seq::new(
        carrier.len(),
        |k: int| if k % 4 == 3 && k / 4 < secret.len() { secret[k / 4] } else { carrier[k] },
    )
}

/// The samples of an RGBA picture with the colours of `rgb`, which holds three
/// samples to the pixel, and every alpha at the sentinel.
pub open spec fn opaque_samples(rgb: Seq<u8>) -> Seq<u8> {
    Seq::new(
        (4 * (rgb.len() / 3)) as nat,
        |k: int| if k % 4 == 3 { SENTINEL } else { rgb[3 * (k / 4) + k % 4] },
    )
}

/// `bytes` without its sentinels, the rest in order.
pub open spec fn without_sentinel(bytes: Seq<u8>) -> Seq<u8> {
    bytes.filter(|b: u8| b != SENTINEL)
}

/// The samples of the picture that hides `secret` in `carrier`: the carrier's
/// colours, the secret in the alpha of the first pixels, the sentinel after it.
pub open spec fn embedded(carrier: Seq<u8>, secret: Seq<u8>) -> Seq<u8> {
    with_alpha(carrier, padded(secret, (carrier.len() / 4) as nat))
}

/// The bytes that a picture with these samples carries.
pub open spec fn extracted(samples: Seq<u8>) -> Seq<u8> {
    without_sentinel(alpha_channel(samples))
}

/// Whether no byte of `bytes` is the sentinel.
pub open spec fn sentinel_free(bytes: Seq<u8>) -> bool {
    forall|i: int| 0 <= i < bytes.len() ==> bytes[i] != SENTINEL
}

impl CarrierImage {
    #[verifier::type_invariant]
    spec fn well_formed(&self) -> bool {
        grid_fits(self.width, self.height, self.data@.len())
    }

    /// The number of pixels in a row.
    pub closed spec fn spec_width(&self) -> u32 {
        self.width
    }

    /// The number of rows.
    pub closed spec fn spec_height(&self) -> u32 {
        self.height
    }

    /// The samples, four to the pixel, row by row.
    pub closed spec fn samples(&self) -> Seq<u8> {
        self.data@
    }

    /// The number of pixels, which is the number of bytes the picture can carry.
    pub open spec fn spec_capacity(&self) -> nat {
        (self.spec_width() * self.spec_height()) as nat
    }

    /// Whether the samples are exactly the grid that width and height describe.
    /// Every picture that this library hands out is one.
    pub open spec fn is_grid(&self) -> bool {
        grid_fits(self.spec_width(), self.spec_height(), self.samples().len())
    }

    /// A picture of `width` by `height` pixels over `data`, which holds four
    /// samples to the pixel, row by row. `None` when `data` has another length
    /// than that, or when the picture has more pixels than 32 bits can count.
    pub fn new(width: u32, height: u32, data: Vec<u8>) -> (image: Option<CarrierImage>)
        ensures
            image is Some <==> grid_fits(width, height, data@.len()),
            image matches Some(img) ==> {
                &&& img.spec_width() == width
                &&& img.spec_height() == height
                &&& img.samples() == data@
                &&& img.is_grid()
            },
    {
        assert(width * height <= u32::MAX * u32::MAX) by (nonlinear_arith)
            requires
                width <= u32::MAX,
                height <= u32::MAX,
        ;
        let pixels: u64 = (width as u64) * (height as u64);
        if pixels <= u32::MAX as u64 && data.len() as u64 == 4 * pixels {
            Some(CarrierImage { width, height, data })
        } else {
            None
        }
    }

    /// A picture of `width` by `height` pixels that came without an alpha
    /// channel: `rgb` holds three samples to the pixel, row by row, and every
    /// pixel gets the sentinel for its alpha, so the picture carries nothing yet.
    /// `None` when `rgb` has another length than that, or when the picture has
    /// more pixels than 32 bits can count.
    pub fn from_rgb(width: u32, height: u32, rgb: &[u8]) -> (image: Option<CarrierImage>)
        ensures
            image is Some <==> width * height <= u32::MAX && rgb@.len() == 3 * (width * height),
            image matches Some(img) ==> {
                &&& img.spec_width() == width
                &&& img.spec_height() == height
                &&& img.samples() == opaque_samples(rgb@)
                &&& img.is_grid()
            },
    {
        assert(width * height <= u32::MAX * u32::MAX) by (nonlinear_arith)
            requires
                width <= u32::MAX,
                height <= u32::MAX,
        ;
        let pixels: u64 = (width as u64) * (height as u64);
        if pixels > u32::MAX as u64 || rgb.len() as u64 != 3 * pixels {
            return None;
        }
        let mut data: Vec<u8> = Vec::new();
        let mut i: usize = 0;
        while i < rgb.len() / 3
            invariant
                rgb@.len() == 3 * pixels,
                i <= rgb@.len() / 3,
                data@.len() == 4 * i,
                forall|k: int|
                    0 <= k < data@.len() ==> #[trigger] data@[k] == (if k % 4 == 3 {
                        SENTINEL
                    } else {
                        rgb@[3 * (k / 4) + k % 4]
                    }),
            decreases rgb@.len() / 3 - i,
        {
            data.push(rgb[3 * i]);
            data.push(rgb[3 * i + 1]);
            data.push(rgb[3 * i + 2]);
            data.push(SENTINEL);
            i = i + 1;
        }
        assert(data@ =~= opaque_samples(rgb@));
        Some(CarrierImage { width, height, data })
    }

    /// The number of pixels in a row.
    pub fn width(&self) -> (w: u32)
        ensures
            w == self.spec_width(),
    {
        self.width
    }

    /// The number of rows.
    pub fn height(&self) -> (h: u32)
        ensures
            h == self.spec_height(),
    {
        self.height
    }

    /// The number of pixels, which is the number of bytes the picture can carry.
    pub fn capacity(&self) -> (n: usize)
        ensures
            n == self.spec_capacity(),
            self.is_grid(),
    {
        proof {
            use_type_invariant(self);
        }
        self.data.len() / 4
    }

    /// Gives up the picture for its samples.
    pub fn into_data(self) -> (d: Vec<u8>)
        ensures
            d@ == self.samples(),
            self.is_grid(),
    {
        proof {
            use_type_invariant(&self);
        }
        self.data
    }

    /// The samples, four to the pixel, row by row.
    pub fn data(&self) -> (d: &Vec<u8>)
        ensures
            d@ == self.samples(),
            self.is_grid(),
    {
        proof {
            use_type_invariant(self);
        }
        &self.data
    }
}

impl Clone for CarrierImage {
    /// A picture with the same size and samples.
    fn clone(&self) -> (copy: CarrierImage)
        ensures
            copy.spec_width() == self.spec_width(),
            copy.spec_height() == self.spec_height(),
            copy.samples() == self.samples(),
    {
        proof {
            use_type_invariant(self);
        }
        CarrierImage { width: self.width, height: self.height, data: self.data.clone() }
    }
}

/// Calls `steganography::encoder::Encoder::encode_alpha` on an RGBA picture built
/// from `samples`. The encoder stops the program when the secret has more bytes
/// than the picture has pixels, or when the pixel count overflows 32 bits. Else it
/// returns a picture of the same size in which the alpha of pixel `i` is byte `i`
/// of the secret while the secret lasts, and every other sample is the carrier's.
#[verifier::external_body]
fn overwrite_alpha(width: u32, height: u32, samples: &Vec<u8>, secret: &[u8]) -> (out: Vec<u8>)
    requires
        grid_fits(width, height, samples@.len()),
        secret@.len() <= width * height,
    ensures
        out@ == alpha_overwritten(samples@, secret@),
{
    let grid = image::RgbaImage::from_raw(width, height, samples.clone()).unwrap();
    let carrier = image::DynamicImage::ImageRgba8(grid);
    steganography::encoder::Encoder::new(secret, carrier).encode_alpha().into_raw()
}

/// Calls `steganography::decoder::Decoder::decode_alpha` on an RGBA picture built
/// from `samples`. The decoder returns the fourth sample of every pixel, in the
/// order in which the pixels are stored.
#[verifier::external_body]
fn read_alpha(width: u32, height: u32, samples: &Vec<u8>) -> (out: Vec<u8>)
    requires
        grid_fits(width, height, samples@.len()),
    ensures
        out@ == alpha_channel(samples@),
{
    let grid = image::RgbaImage::from_raw(width, height, samples.clone()).unwrap();
    steganography::decoder::Decoder::new(grid).decode_alpha()
}

/// Sets the alpha of every pixel from `from` on to the sentinel.
fn pad_alpha(samples: &mut Vec<u8>, from: usize)
    requires
        old(samples)@.len() % 4 == 0,
    ensures
        final(samples)@.len() == old(samples)@.len(),
        forall|k: int|
            0 <= k < old(samples)@.len() ==> #[trigger] final(samples)@[k] == (if k % 4 == 3 && k
                / 4 >= from {
                SENTINEL
            } else {
                old(samples)@[k]
            }),
{
    let pixels: usize = samples.len() / 4;
    let mut i: usize = from;
    while i < pixels
        invariant
            samples@.len() == old(samples)@.len(),
            pixels == samples@.len() / 4,
            samples@.len() % 4 == 0,
            samples@.len() <= usize::MAX,
            from <= i,
            forall|k: int|
                0 <= k < samples@.len() ==> #[trigger] samples@[k] == (if k % 4 == 3 && from <= k
                    / 4 < i {
                    SENTINEL
                } else {
                    old(samples)@[k]
                }),
        decreases pixels - i,
    {
        samples.set(4 * i + 3, SENTINEL);
        i = i + 1;
    }
}

/// Hides `secret` in the alpha channel of `carrier`: pixel `i`, counted row by
/// row, gets byte `i` of the secret as its alpha, and every pixel after the
/// secret's end gets the sentinel. Red, green and blue stay as they are. Fails
/// exactly when the secret has more bytes than the carrier has pixels, and then
/// reports both counts.
pub fn encode(carrier: &CarrierImage, secret: &[u8]) -> (r: Result<CarrierImage, VaultError>)
    ensures
        carrier.is_grid(),
        secret@.len() <= carrier.spec_capacity() ==> {
            &&& r matches Ok(encoded)
            &&& encoded.is_grid()
            &&& encoded.spec_width() == carrier.spec_width()
            &&& encoded.spec_height() == carrier.spec_height()
            &&& encoded.samples() == embedded(carrier.samples(), secret@)
        },
        secret@.len() > carrier.spec_capacity() ==> r == Err::<CarrierImage, VaultError>(
            VaultError::CapacityExceeded {
                required: secret@.len() as usize,
                available: carrier.spec_capacity() as usize,
            },
        ),
{
    proof {
        use_type_invariant(carrier);
    }
    let available = carrier.capacity();
    if secret.len() > available {
        return Err(VaultError::CapacityExceeded { required: secret.len(), available });
    }
    let mut samples = overwrite_alpha(carrier.width, carrier.height, &carrier.data, secret);
    pad_alpha(&mut samples, secret.len());
    assert(samples@ =~= embedded(carrier.samples(), secret@));
    Ok(CarrierImage { width: carrier.width, height: carrier.height, data: samples })
}

/// Copies `bytes` without its sentinels.
pub fn strip_sentinel(bytes: &[u8]) -> (out: Vec<u8>)
    ensures
        out@ == without_sentinel(bytes@),
{
    let mut out: Vec<u8> = Vec::new();
    let mut i: usize = 0;
    while i < bytes.len()
        invariant
            i <= bytes@.len(),
            out@ == without_sentinel(bytes@.take(i as int)),
        decreases bytes@.len() - i,
    {
        proof {
            lemma_without_sentinel_push(bytes@.take(i as int), bytes@[i as int]);
            assert(bytes@.take(i as int).push(bytes@[i as int]) =~= bytes@.take(i + 1));
        }
        if bytes[i] != SENTINEL {
            out.push(bytes[i]);
        }
        i = i + 1;
    }
    assert(bytes@.take(i as int) =~= bytes@);
    out
}

/// Reads the secret back out of `encoded`: the alpha values of its pixels, row by
/// row, without those that equal the sentinel.
pub fn decode(encoded: &CarrierImage) -> (secret: Vec<u8>)
    ensures
        secret@ == extracted(encoded.samples()),
{
    proof {
        use_type_invariant(encoded);
    }
    let alpha = read_alpha(encoded.width, encoded.height, &encoded.data);
    strip_sentinel(alpha.as_slice())
}

/// Dropping the sentinels of a sequence with one more byte at its end.
pub proof fn lemma_without_sentinel_push(bytes: Seq<u8>, last: u8)
    ensures
        without_sentinel(bytes.push(last)) == if last != SENTINEL {
            without_sentinel(bytes).push(last)
        } else {
            without_sentinel(bytes)
        },
{
    let keep = |b: u8| b != SENTINEL;
    assert(bytes.push(last).drop_last() =~= bytes);
    reveal(Seq::filter);
    assert(bytes.push(last).filter(keep) == if keep(last) {
        bytes.filter(keep).push(last)
    } else {
        bytes.filter(keep)
    });
}

/// A sequence without sentinels loses nothing when the sentinels are dropped.
pub proof fn lemma_sentinel_free_kept(bytes: Seq<u8>)
    requires
        sentinel_free(bytes),
    ensures
        without_sentinel(bytes) == bytes,
    decreases bytes.len(),
{
    if bytes.len() == 0 {
        reveal(Seq::filter);
        assert(without_sentinel(bytes) =~= bytes);
    } else {
        let front = bytes.drop_last();
        lemma_sentinel_free_kept(front);
        lemma_without_sentinel_push(front, bytes.last());
        assert(front.push(bytes.last()) =~= bytes);
    }
}

/// Padding adds only sentinels, so dropping the sentinels of a padded sequence
/// gives what dropping those of the sequence itself gives.
pub proof fn lemma_padding_dropped(secret: Seq<u8>, capacity: nat)
    requires
        secret.len() <= capacity,
    ensures
        without_sentinel(padded(secret, capacity)) == without_sentinel(secret),
    decreases capacity,
{
    if capacity == secret.len() {
        assert(padded(secret, capacity) =~= secret);
    } else {
        let shorter = (capacity - 1) as nat;
        lemma_padding_dropped(secret, shorter);
        lemma_without_sentinel_push(padded(secret, shorter), SENTINEL);
        assert(padded(secret, shorter).push(SENTINEL) =~= padded(secret, capacity));
    }
}

/// What comes out of a picture is what went in, less the bytes that equal the
/// sentinel: for every carrier that is a whole number of pixels and every secret
/// that fits in it, extracting from the embedding gives the secret without its
/// sentinels.
pub proof fn law_extract_embedded(carrier: Seq<u8>, secret: Seq<u8>)
    requires
        carrier.len() % 4 == 0,
        secret.len() <= carrier.len() / 4,
    ensures
        extracted(embedded(carrier, secret)) == without_sentinel(secret),
{
    let capacity = (carrier.len() / 4) as nat;
    assert(alpha_channel(embedded(carrier, secret)) =~= padded(secret, capacity));
    lemma_padding_dropped(secret, capacity);
}

/// Round trip: a secret that fits in the carrier and holds no sentinel comes back
/// unchanged from the picture that hides it.
pub proof fn law_round_trip(carrier: Seq<u8>, secret: Seq<u8>)
    requires
        carrier.len() % 4 == 0,
        secret.len() <= carrier.len() / 4,
        sentinel_free(secret),
    ensures
        extracted(embedded(carrier, secret)) == secret,
{
    law_extract_embedded(carrier, secret);
    lemma_sentinel_free_kept(secret);
}

/// Embedding touches the alpha channel only: every red, green and blue sample of
/// the result is the carrier's.
pub proof fn law_colours_kept(carrier: Seq<u8>, secret: Seq<u8>, k: int)
    requires
        0 <= k < carrier.len(),
        k % 4 != 3,
    ensures
        embedded(carrier, secret).len() == carrier.len(),
        embedded(carrier, secret)[k] == carrier[k],
{
}

/// A picture that came without an alpha channel carries the empty secret.
pub proof fn law_opaque_carries_nothing(rgb: Seq<u8>)
    ensures
        extracted(opaque_samples(rgb)) == Seq::<u8>::empty(),
{
    let capacity = (opaque_samples(rgb).len() / 4) as nat;
    assert(alpha_channel(opaque_samples(rgb)) =~= padded(Seq::<u8>::empty(), capacity));
    lemma_padding_dropped(Seq::<u8>::empty(), capacity);
    reveal(Seq::filter);
    assert(without_sentinel(Seq::<u8>::empty()) =~= Seq::<u8>::empty());
}

} // verus!
