use frameflow::encode::encode_preview;
use frameflow::error::{EncodeError, ExtractionError};
use frameflow::extract::{generate_previews, stream_duration, PreviewExtractor, StreamDuration, StreamInfo};
use frameflow::raster::{pack_rows, RasterFrame};
use frameflow::sampler::{compute_step, select, FrameSampler, Rational};

fn info(num: i32, den: i32) -> StreamInfo {
    StreamInfo {
        frame_rate: Rational { num, den },
        duration_ticks: 30_000,
        time_base: Rational { num: 1, den: 1000 },
    }
}

/// A 1x1 frame whose pixel encodes its decode position.
fn tagged_frames(n: usize) -> Vec<RasterFrame> {
    (0..n)
        .map(|i| RasterFrame {
            width: 1,
            height: 1,
            data: vec![(i % 256) as u8, (i / 256) as u8, 7, 255],
        })
        .collect()
}

fn decode_png(bytes: &[u8]) -> (u32, u32, Vec<u8>) {
    let img = image::load_from_memory(bytes).unwrap().to_rgba8();
    (img.width(), img.height(), img.into_raw())
}

#[test]
fn step_for_whole_frame_rate() {
    assert_eq!(compute_step(Rational { num: 30, den: 1 }, 5), Ok(150));
    assert_eq!(compute_step(Rational { num: 24, den: 1 }, 5), Ok(120));
}

#[test]
fn step_rounds_fractional_rate_up() {
    assert_eq!(compute_step(Rational { num: 30000, den: 1001 }, 5), Ok(150));
    assert_eq!(compute_step(Rational { num: 1, den: 2 }, 5), Ok(5));
}

#[test]
fn step_refuses_degenerate_inputs() {
    assert_eq!(compute_step(Rational { num: 30, den: 0 }, 5), Err(ExtractionError::InvalidStep));
    assert_eq!(compute_step(Rational { num: 0, den: 1 }, 5), Err(ExtractionError::InvalidStep));
    assert_eq!(compute_step(Rational { num: -30, den: 1 }, 5), Err(ExtractionError::InvalidStep));
    assert_eq!(compute_step(Rational { num: 30, den: 1 }, 0), Err(ExtractionError::InvalidStep));
}

#[test]
fn step_is_positive_for_positive_rates() {
    for num in 1..200 {
        for den in 1..5 {
            let s = compute_step(Rational { num, den }, 5).unwrap();
            assert!(s > 0);
            assert_eq!(s, ((num + den - 1) / den) as u64 * 5);
        }
    }
}

#[test]
fn select_keeps_floor_n_over_step_in_order() {
    let positions: Vec<u32> = (0..10).collect();
    assert_eq!(select(&positions, 3), vec![2, 5, 8]);
    let positions: Vec<u32> = (0..12).collect();
    assert_eq!(select(&positions, 3), vec![2, 5, 8, 11]);
    let positions: Vec<u32> = (0..1000).collect();
    let kept = select(&positions, 7);
    assert_eq!(kept.len(), 1000 / 7);
    assert!(kept.windows(2).all(|w| w[0] < w[1]));
}

#[test]
fn select_on_short_sequence_is_empty() {
    let positions: Vec<u32> = (0..149).collect();
    assert!(select(&positions, 150).is_empty());
    let empty: Vec<u32> = Vec::new();
    assert!(select(&empty, 1).is_empty());
}

#[test]
fn sampler_counts_over_global_positions() {
    let mut sampler = FrameSampler::new(150);
    let mut kept = Vec::new();
    for pos in 0..900u64 {
        if sampler.observe() {
            kept.push(pos);
        }
    }
    assert_eq!(kept, vec![149, 299, 449, 599, 749, 899]);
    assert_eq!(sampler.seen(), 900);
    assert_eq!(sampler.step(), 150);
}

#[test]
fn thirty_fps_thirty_seconds_gives_six_previews() {
    let decoded = tagged_frames(900);
    let res = generate_previews(&info(30, 1), 5, &decoded).unwrap();
    assert_eq!(res.frame_step, 150);
    assert_eq!(res.step_in_seconds, 5);
    assert_eq!(res.frames.len(), 6);
    for (k, png) in res.frames.iter().enumerate() {
        let (w, h, px) = decode_png(png);
        assert_eq!((w, h), (1, 1));
        assert_eq!(px, decoded[(k + 1) * 150 - 1].data);
    }
}

#[test]
fn short_video_gives_no_previews() {
    let decoded = tagged_frames(149);
    let res = generate_previews(&info(30, 1), 5, &decoded).unwrap();
    assert_eq!(res.frame_step, 150);
    assert!(res.frames.is_empty());
    let res = generate_previews(&info(30, 1), 5, &Vec::new()).unwrap();
    assert!(res.frames.is_empty());
}

#[test]
fn repeated_extraction_agrees() {
    let decoded = tagged_frames(451);
    let a = generate_previews(&info(30, 1), 5, &decoded).unwrap();
    let b = generate_previews(&info(30, 1), 5, &decoded).unwrap();
    assert_eq!(a.frame_step, b.frame_step);
    assert_eq!(a.frames.len(), 3);
    assert_eq!(a.frames, b.frames);
}

#[test]
fn extraction_fails_on_bad_frame_rate() {
    let decoded = tagged_frames(10);
    assert!(matches!(
        generate_previews(&info(30, 0), 5, &decoded),
        Err(ExtractionError::InvalidStep)
    ));
}

#[test]
fn extraction_fails_on_misshaped_retained_frame() {
    let mut decoded = tagged_frames(300);
    decoded[149].data.pop();
    assert!(matches!(
        generate_previews(&info(30, 1), 5, &decoded),
        Err(ExtractionError::Encode(EncodeError::BufferLength))
    ));
    // A misshaped frame that is not retained is never encoded.
    let mut decoded = tagged_frames(300);
    decoded[10].data.clear();
    assert_eq!(generate_previews(&info(30, 1), 5, &decoded).unwrap().frames.len(), 2);
}

#[test]
fn png_round_trip_is_pixel_identical() {
    let data: Vec<u8> = (0..24u8).map(|b| b.wrapping_mul(37)).collect();
    let frame = RasterFrame { width: 3, height: 2, data: data.clone() };
    let png = encode_preview(&frame).unwrap();
    assert_ne!(png, data);
    assert_eq!(&png[1..4], b"PNG");
    assert_eq!(decode_png(&png), (3, 2, data));
}

#[test]
fn encode_refuses_wrong_buffer_length() {
    let short = RasterFrame { width: 2, height: 2, data: vec![0; 15] };
    assert_eq!(encode_preview(&short), Err(EncodeError::BufferLength));
    let long = RasterFrame { width: 2, height: 2, data: vec![0; 17] };
    assert_eq!(encode_preview(&long), Err(EncodeError::BufferLength));
}

#[test]
fn pack_rows_drops_row_padding() {
    // Two rows of one pixel each, every row padded to 6 bytes.
    let plane = vec![1, 2, 3, 4, 0, 0, 5, 6, 7, 8, 0, 0];
    let f = pack_rows(&plane, 6, 1, 2).unwrap();
    assert_eq!((f.width, f.height), (1, 2));
    assert_eq!(f.data, vec![1, 2, 3, 4, 5, 6, 7, 8]);
    // The last row needs no padding.
    let f = pack_rows(&plane[..10], 6, 1, 2).unwrap();
    assert_eq!(f.data, vec![1, 2, 3, 4, 5, 6, 7, 8]);
}

#[test]
fn pack_rows_refuses_short_plane_or_narrow_stride() {
    let plane = vec![0u8; 12];
    assert!(matches!(pack_rows(&plane[..9], 6, 1, 2), Err(ExtractionError::Scale)));
    assert!(matches!(pack_rows(&plane, 3, 1, 2), Err(ExtractionError::Scale)));
    assert!(pack_rows(&plane, 6, 1, 0).unwrap().data.is_empty());
}

#[test]
fn duration_falls_back_to_zero() {
    let known = info(30, 1);
    assert_eq!(
        stream_duration(&known),
        StreamDuration { ticks: 30_000, time_base: Rational { num: 1, den: 1000 } }
    );
    let unknown = StreamInfo { duration_ticks: i64::MIN, ..known };
    assert_eq!(stream_duration(&unknown).ticks, 0);
    let no_base = StreamInfo { time_base: Rational { num: 1, den: 0 }, ..known };
    assert_eq!(stream_duration(&no_base).ticks, 0);
}

#[test]
fn extractor_streams_retained_frames() {
    let mut ex = PreviewExtractor::new(&info(1, 1), 2).unwrap();
    let decoded = tagged_frames(5);
    let mut announced = 0;
    for frame in &decoded {
        if ex.next_frame() {
            announced += 1;
            assert!(ex.is_pending());
            ex.accept(frame).unwrap();
        }
        assert!(!ex.is_pending());
    }
    assert_eq!(ex.seen(), 5);
    let res = ex.finish();
    assert_eq!(announced, 2);
    assert_eq!(res.frames.len(), 2);
    assert_eq!(decode_png(&res.frames[1]).2, decoded[3].data);
}

#[test]
fn encode_refuses_empty_picture() {
    let empty = RasterFrame { width: 0, height: 2, data: Vec::new() };
    assert_eq!(encode_preview(&empty), Err(EncodeError::Codec));
    let empty = RasterFrame { width: 3, height: 0, data: Vec::new() };
    assert_eq!(encode_preview(&empty), Err(EncodeError::Codec));
}

#[test]
fn first_unencodable_retained_frame_gives_the_error() {
    let mut decoded = tagged_frames(300);
    decoded[149] = RasterFrame { width: 0, height: 1, data: Vec::new() };
    decoded[299].data.pop();
    assert!(matches!(
        generate_previews(&info(30, 1), 5, &decoded),
        Err(ExtractionError::Encode(EncodeError::Codec))
    ));
}

#[test]
fn extractor_reports_encode_errors() {
    let mut ex = PreviewExtractor::new(&info(1, 1), 1).unwrap();
    assert!(ex.next_frame());
    let bad = RasterFrame { width: 1, height: 1, data: vec![0; 3] };
    assert_eq!(ex.accept(&bad), Err(ExtractionError::Encode(EncodeError::BufferLength)));
}
