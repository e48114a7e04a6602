use picture_vault::embedder::{decode, encode, strip_sentinel, CarrierImage, SENTINEL};
use picture_vault::error::VaultError;

fn picture(width: u32, height: u32, alpha: u8) -> CarrierImage {
    let mut data = Vec::new();
    for i in 0..(width * height) {
        data.push((i % 251) as u8);
        data.push(((i * 7) % 251) as u8);
        data.push(((i * 13) % 251) as u8);
        data.push(alpha);
    }
    CarrierImage::new(width, height, data).unwrap()
}

fn alpha_of(image: &CarrierImage) -> Vec<u8> {
    image.data().iter().skip(3).step_by(4).copied().collect()
}

#[test]
fn sentinel_is_255() {
    assert_eq!(SENTINEL, 255);
}

#[test]
fn new_takes_exactly_four_samples_to_the_pixel() {
    assert!(CarrierImage::new(2, 3, vec![0; 24]).is_some());
    assert!(CarrierImage::new(2, 3, vec![0; 23]).is_none());
    assert!(CarrierImage::new(2, 3, vec![0; 25]).is_none());
    assert!(CarrierImage::new(0, 7, Vec::new()).is_some());
    assert!(CarrierImage::new(65536, 65536, Vec::new()).is_none());
}

#[test]
fn accessors_give_back_what_new_took() {
    let image = CarrierImage::new(3, 2, (0..24).collect()).unwrap();
    assert_eq!(image.width(), 3);
    assert_eq!(image.height(), 2);
    assert_eq!(image.capacity(), 6);
    assert_eq!(image.data(), &(0..24).collect::<Vec<u8>>());
    assert_eq!(image.clone(), image);
    assert_eq!(image.into_data(), (0..24).collect::<Vec<u8>>());
}

#[test]
fn encode_writes_the_secret_row_by_row_and_pads_with_the_sentinel() {
    let carrier = picture(3, 2, 255);
    let encoded = encode(&carrier, &[10, 20, 30, 40]).unwrap();
    assert_eq!(alpha_of(&encoded), vec![10, 20, 30, 40, 255, 255]);
    assert_eq!(encoded.width(), 3);
    assert_eq!(encoded.height(), 2);
}

#[test]
fn encode_leaves_the_colours_alone() {
    let carrier = picture(4, 4, 255);
    let encoded = encode(&carrier, b"secret").unwrap();
    for (k, (before, after)) in carrier.data().iter().zip(encoded.data().iter()).enumerate() {
        if k % 4 != 3 {
            assert_eq!(before, after);
        }
    }
}

#[test]
fn encode_overwrites_alpha_that_the_carrier_already_had() {
    let carrier = picture(2, 2, 17);
    let encoded = encode(&carrier, &[1]).unwrap();
    assert_eq!(alpha_of(&encoded), vec![1, 255, 255, 255]);
    assert_eq!(decode(&encoded), vec![1]);
}

#[test]
fn round_trip_of_a_short_secret() {
    let carrier = picture(4, 3, 255);
    let encoded = encode(&carrier, b"hunter2").unwrap();
    assert_eq!(decode(&encoded), b"hunter2".to_vec());
}

#[test]
fn round_trip_of_the_empty_secret() {
    let carrier = picture(2, 2, 255);
    let encoded = encode(&carrier, &[]).unwrap();
    assert_eq!(alpha_of(&encoded), vec![255; 4]);
    assert_eq!(decode(&encoded), Vec::<u8>::new());
}

#[test]
fn round_trip_of_every_byte_but_the_sentinel() {
    let secret: Vec<u8> = (0..=254).collect();
    let carrier = picture(16, 16, 255);
    let encoded = encode(&carrier, &secret).unwrap();
    assert_eq!(decode(&encoded), secret);
}

#[test]
fn secret_of_exactly_the_capacity_fits() {
    let carrier = picture(2, 2, 255);
    let encoded = encode(&carrier, &[1, 2, 3, 4]).unwrap();
    assert_eq!(alpha_of(&encoded), vec![1, 2, 3, 4]);
    assert_eq!(decode(&encoded), vec![1, 2, 3, 4]);
}

#[test]
fn secret_longer_than_the_picture_is_refused() {
    let carrier = picture(2, 2, 255);
    let r = encode(&carrier, b"12345");
    assert_eq!(r, Err(VaultError::CapacityExceeded { required: 5, available: 4 }));
}

#[test]
fn picture_without_pixels_carries_only_the_empty_secret() {
    let carrier = CarrierImage::new(0, 0, Vec::new()).unwrap();
    assert_eq!(encode(&carrier, &[]).unwrap().into_data(), Vec::<u8>::new());
    assert_eq!(
        encode(&carrier, &[1]),
        Err(VaultError::CapacityExceeded { required: 1, available: 0 })
    );
}

#[test]
fn sentinel_byte_in_a_secret_is_lost() {
    let carrier = picture(3, 1, 255);
    let encoded = encode(&carrier, &[1, 255, 2]).unwrap();
    assert_eq!(alpha_of(&encoded), vec![1, 255, 2]);
    assert_eq!(decode(&encoded), vec![1, 2]);
    assert_ne!(decode(&encoded), vec![1, 255, 2]);
}

#[test]
fn decode_of_an_opaque_picture_is_empty() {
    assert_eq!(decode(&picture(5, 5, 255)), Vec::<u8>::new());
}

#[test]
fn decode_reads_every_pixel_row_by_row() {
    let image = CarrierImage::new(2, 2, vec![0, 0, 0, 9, 0, 0, 0, 255, 0, 0, 0, 8, 0, 0, 0, 7]).unwrap();
    assert_eq!(decode(&image), vec![9, 8, 7]);
}

#[test]
fn strip_sentinel_keeps_the_rest_in_order() {
    assert_eq!(strip_sentinel(&[255, 1, 255, 255, 2, 3, 255]), vec![1, 2, 3]);
    assert_eq!(strip_sentinel(&[]), Vec::<u8>::new());
    assert_eq!(strip_sentinel(&[255, 255]), Vec::<u8>::new());
    assert_eq!(strip_sentinel(&[0, 254]), vec![0, 254]);
}

#[test]
fn picture_without_alpha_gets_the_sentinel_everywhere() {
    let image = CarrierImage::from_rgb(2, 1, &[1, 2, 3, 4, 5, 6]).unwrap();
    assert_eq!(image.data(), &vec![1, 2, 3, 255, 4, 5, 6, 255]);
    assert_eq!(image.width(), 2);
    assert_eq!(image.height(), 1);
    assert_eq!(decode(&image), Vec::<u8>::new());
    let encoded = encode(&image, &[42]).unwrap();
    assert_eq!(encoded.data(), &vec![1, 2, 3, 42, 4, 5, 6, 255]);
}

#[test]
fn from_rgb_takes_exactly_three_samples_to_the_pixel() {
    assert!(CarrierImage::from_rgb(2, 2, &[0; 12]).is_some());
    assert!(CarrierImage::from_rgb(2, 2, &[0; 11]).is_none());
    assert!(CarrierImage::from_rgb(2, 2, &[0; 16]).is_none());
    assert!(CarrierImage::from_rgb(0, 0, &[]).is_some());
    assert!(CarrierImage::from_rgb(65536, 65536, &[]).is_none());
}
