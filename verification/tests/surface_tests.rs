use plasma_stream::banner::parse_surface_banner;
use plasma_stream::banner::parse_stream_ready;
use plasma_stream::banner::BannerScanner;
use plasma_stream::surface::RawSurfaceDescriptor;
use plasma_stream::surface::SurfaceFramer;

fn geometry(width: usize, height: usize, stride: usize, frame: usize) -> RawSurfaceDescriptor {
    RawSurfaceDescriptor {
        width,
        height,
        row_stride_bytes: stride,
        frame_size_bytes: frame,
    }
}

/// A synthetic padded frame whose every byte encodes its row index.
fn row_indexed_buffer(desc: &RawSurfaceDescriptor) -> Vec<u8> {
    let mut data = vec![0u8; desc.frame_size_bytes];
    for y in 0..desc.height {
        for x in 0..desc.row_stride_bytes {
            data[y * desc.row_stride_bytes + x] = y as u8;
        }
    }
    data
}

#[test]
fn destriding_keeps_rows_in_original_order() {
    let desc = geometry(4, 3, 20, 60);
    assert!(desc.validate());
    let data = row_indexed_buffer(&desc);
    let frame = desc.extract_frame(&data).expect("valid geometry and full buffer");
    assert_eq!(frame.width, 4);
    assert_eq!(frame.height, 3);
    assert_eq!(frame.pixels.len(), 4 * 3 * 4);
    for y in 0..3usize {
        for x in 0..16usize {
            assert_eq!(frame.pixels[y * 16 + x], y as u8);
        }
    }
}

#[test]
fn short_buffer_is_rejected_before_any_slicing() {
    let desc = geometry(100, 50, 400, 20000);
    assert!(desc.validate());
    let short = vec![7u8; 19999];
    assert!(desc.extract_frame(&short).is_none());
    let full = vec![7u8; 20000];
    assert!(desc.extract_frame(&full).is_some());
}

#[test]
fn inconsistent_geometry_is_rejected() {
    // A padded row must hold at least width * 4 bytes.
    let narrow = geometry(100, 50, 399, 20000);
    assert!(!narrow.validate());
    assert!(narrow.extract_frame(&vec![0u8; 20000]).is_none());
    // A frame must hold at least height padded rows.
    let shallow = geometry(100, 50, 400, 19999);
    assert!(!shallow.validate());
}

#[test]
fn framer_slices_fixed_frames_across_chunk_boundaries() {
    let desc = geometry(2, 2, 10, 20);
    let mut framer = SurfaceFramer::new(desc).expect("valid geometry");
    let mut stream: Vec<u8> = Vec::new();
    for f in 0..3u8 {
        for _ in 0..20 {
            stream.push(f);
        }
    }
    let mut frames = Vec::new();
    // Feed in ragged chunks of 7 bytes.
    for chunk in stream.chunks(7) {
        frames.extend(framer.push_chunk(chunk));
    }
    assert_eq!(frames.len(), 3);
    for (f, frame) in frames.iter().enumerate() {
        assert_eq!(frame.width, 2);
        assert_eq!(frame.height, 2);
        assert_eq!(frame.pixels.len(), 16);
        assert!(frame.pixels.iter().all(|b| *b == f as u8));
    }
}

#[test]
fn banner_line_parses_geometry_and_defaults() {
    let line = b"fbsimctl: Mounting Surface with Attributes: { \"width\" = 4; \"height\" = 3; \"row_size\" = 20; \"frame_size\" = 60; }";
    let desc = parse_surface_banner(line).expect("complete banner");
    assert_eq!(desc.width, 4);
    assert_eq!(desc.height, 3);
    assert_eq!(desc.row_stride_bytes, 20);
    assert_eq!(desc.frame_size_bytes, 60);

    // row_size defaults to width * 4, frame_size to row_size * height.
    let line = b"Mounting Surface with Attributes: { \"width\" = 4; \"height\" = 3; }";
    let desc = parse_surface_banner(line).expect("defaults fill in");
    assert_eq!(desc.row_stride_bytes, 16);
    assert_eq!(desc.frame_size_bytes, 48);
}

#[test]
fn banner_without_width_or_with_a_broken_part_is_rejected() {
    let missing = b"Mounting Surface with Attributes: { \"height\" = 3; }";
    assert!(parse_surface_banner(missing).is_none());
    let broken = b"Mounting Surface with Attributes: { \"width\" = 4; bogus; \"height\" = 3; }";
    assert!(parse_surface_banner(broken).is_none());
    let unrelated = b"some other log line";
    assert!(parse_surface_banner(unrelated).is_none());
}

#[test]
fn banner_scanner_joins_a_folded_banner() {
    let mut scanner = BannerScanner::new();
    assert!(scanner.on_line(b"noise before the banner").is_none());
    assert!(scanner.on_line(b"Mounting Surface with Attributes: {").is_none());
    assert!(scanner.on_line(b"  \"width\" = 2; \"height\" = 2;").is_none());
    let desc = scanner.on_line(b"}").expect("banner closed");
    assert_eq!(desc.width, 2);
    assert_eq!(desc.height, 2);
    assert_eq!(desc.row_stride_bytes, 8);
    assert_eq!(desc.frame_size_bytes, 16);
}

#[test]
fn stream_ready_line_yields_the_url() {
    let url = parse_stream_ready(b"stream_ready http://127.0.0.1:49731/stream.mjpeg\n");
    assert_eq!(url.as_deref(), Some(&b"http://127.0.0.1:49731/stream.mjpeg"[..]));
    assert!(parse_stream_ready(b"almost stream_ready http://x").is_none());
    assert!(parse_stream_ready(b"stream_ready").is_none());
}
