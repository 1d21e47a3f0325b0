use plasma_stream::decode::decode_parts;
use plasma_stream::decode::find_simulator_server;
use plasma_stream::decode::FrameDecoder;
use plasma_stream::errors::SimulatorError;
use plasma_stream::mjpeg::encode_part;
use plasma_stream::mjpeg::MjpegReader;

/// A small real JPEG, produced by the same codec the library decodes with.
fn tiny_jpeg(width: u32, height: u32) -> Vec<u8> {
    let img = image::RgbImage::from_fn(width, height, |x, y| {
        image::Rgb([(x * 40) as u8, (y * 40) as u8, 128])
    });
    let mut bytes: Vec<u8> = Vec::new();
    image::DynamicImage::ImageRgb8(img)
        .write_to(&mut std::io::Cursor::new(&mut bytes), image::ImageFormat::Jpeg)
        .expect("encoding a small image succeeds");
    bytes
}

#[test]
fn encoded_part_has_the_exact_wire_shape() {
    let body = vec![1u8, 2, 3];
    let out = encode_part(&body);
    let expected =
        b"--mjpegstream\r\nContent-Type: image/jpeg\r\nContent-Length: 3\r\n\r\n\x01\x02\x03\r\n";
    assert_eq!(out, expected.to_vec());
}

#[test]
fn reader_parses_what_the_writer_emits() {
    let p1 = vec![9u8; 5];
    let p2 = vec![3u8, 1, 4, 1, 5, 9, 2, 6];
    let mut stream = encode_part(&p1);
    stream.extend_from_slice(&encode_part(&p2));

    let mut reader = MjpegReader::new();
    let parts = reader.push_chunk(&stream);
    assert_eq!(parts, vec![p1, p2]);
}

#[test]
fn reader_is_insensitive_to_chunk_boundaries() {
    let p1 = vec![9u8; 5];
    let p2: Vec<u8> = (0..=255u8).collect();
    let mut stream = encode_part(&p1);
    stream.extend_from_slice(&encode_part(&p2));

    let mut reference = MjpegReader::new();
    let expected = reference.push_chunk(&stream);
    assert_eq!(expected.len(), 2);

    for split in 0..=stream.len() {
        let mut reader = MjpegReader::new();
        let mut parts = reader.push_chunk(&stream[..split]);
        parts.extend(reader.push_chunk(&stream[split..]));
        assert_eq!(parts, expected, "split at {split}");
    }
}

#[test]
fn reader_handles_case_insensitive_length_and_crlf_lines() {
    let body = b"abcd";
    let stream = b"--mjpegstream\r\ncontent-LENGTH: 4\r\n\r\nabcd\r\n";
    let mut reader = MjpegReader::new();
    let parts = reader.push_chunk(stream);
    assert_eq!(parts, vec![body.to_vec()]);
}

#[test]
fn corrupt_part_is_skipped_and_later_parts_still_decode() {
    let corrupt = b"this is not a jpeg at all".to_vec();
    let good = tiny_jpeg(4, 4);
    let mut stream = encode_part(&corrupt);
    stream.extend_from_slice(&encode_part(&good));

    // The reader never aborts on a corrupt body: both parts come through.
    let mut reader = MjpegReader::new();
    let parts = reader.push_chunk(&stream);
    assert_eq!(parts.len(), 2);

    // Decoding skips the corrupt body and still decodes the later one.
    let frames = decode_parts(&parts);
    assert_eq!(frames.len(), 1);
    assert_eq!(frames[0].width, 4);
    assert_eq!(frames[0].height, 4);
    assert_eq!(frames[0].pixels.len(), 4 * 4 * 4);
}

#[test]
fn frame_decoder_counts_only_successes() {
    let mut decoder = FrameDecoder::new();
    assert_eq!(decoder.frames_decoded(), 0);

    let jpeg = tiny_jpeg(3, 2);
    let frame = decoder.decode(&jpeg).expect("valid image decodes");
    assert_eq!(frame.width, 3);
    assert_eq!(frame.height, 2);
    assert_eq!(frame.pixels.len(), 3 * 2 * 4);
    assert_eq!(decoder.frames_decoded(), 1);

    let err = decoder.decode(b"garbage").unwrap_err();
    assert!(matches!(err, SimulatorError::ImageError(_)));
    assert_eq!(decoder.frames_decoded(), 1);
}

#[test]
fn frame_decoder_reports_a_missing_file_as_an_image_error() {
    let mut decoder = FrameDecoder::new();
    let err = decoder.decode_from_path("/nonexistent/plasma/frame.png").unwrap_err();
    assert!(matches!(err, SimulatorError::ImageError(_)));
    assert_eq!(decoder.frames_decoded(), 0);
}

#[test]
fn simulator_server_search_reports_no_candidate() {
    assert!(find_simulator_server().is_none());
}
