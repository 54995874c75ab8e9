use motion_trails::combine_images;
use motion_trails::extract_edges;
use motion_trails::Error;
use motion_trails::FrameStore;
use motion_trails::GrayFrame;
use motion_trails::WindowSpec;

fn frame(width: u32, height: u32, data: Vec<u8>) -> GrayFrame {
    GrayFrame::new(width, height, data).unwrap()
}

#[test]
fn gray_frame_rejects_wrong_buffer_length() {
    assert_eq!(
        GrayFrame::new(2, 2, vec![1, 2, 3]).unwrap_err(),
        Error::DimensionMismatch
    );
    assert!(GrayFrame::new(2, 2, vec![1, 2, 3, 4]).is_ok());
    assert!(GrayFrame::new(0, 5, vec![]).is_ok());
}

#[test]
fn store_rejects_empty_input() {
    assert_eq!(
        FrameStore::from_frames(&vec![]).unwrap_err(),
        Error::EmptyInput
    );
}

#[test]
fn store_rejects_mismatched_dimensions() {
    let a = frame(2, 2, vec![0, 0, 0, 0]);
    let b = frame(4, 1, vec![0, 0, 0, 0]);
    let r = FrameStore::from_frames(&vec![a, b]);
    assert_eq!(r.unwrap_err(), Error::DimensionMismatch);
}

#[test]
fn store_keeps_order_and_dimensions() {
    let a = frame(3, 2, vec![0, 10, 20, 30, 40, 50]);
    let b = frame(3, 2, vec![90, 80, 70, 60, 50, 40]);
    let ea = extract_edges(&frame(3, 2, vec![0, 10, 20, 30, 40, 50]));
    let eb = extract_edges(&frame(3, 2, vec![90, 80, 70, 60, 50, 40]));
    let store = FrameStore::from_frames(&vec![a, b]).unwrap();
    assert_eq!(store.width, 3);
    assert_eq!(store.height, 2);
    assert_eq!(store.buf_size, 6);
    assert_eq!(store.len(), 2);
    assert_eq!(store.frames[0], ea);
    assert_eq!(store.frames[1], eb);
}

#[test]
fn edges_of_a_constant_frame_are_zero() {
    // the clamped-border Sobel operator sees no gradient anywhere in a
    // constant frame, so the edge buffer is exactly zero — and plainly
    // not the input handed back
    let f = frame(4, 4, vec![5; 16]);
    assert_eq!(extract_edges(&f), vec![0; 16]);
}

#[test]
fn edges_of_a_step_frame_are_not_zero() {
    let mut data = Vec::new();
    for y in 0..4 {
        for x in 0..4 {
            let _ = y;
            data.push(if x < 2 { 0 } else { 200 });
        }
    }
    let f = frame(4, 4, data);
    let edges = extract_edges(&f);
    assert_eq!(edges.len(), 16);
    assert!(edges.iter().any(|&v| v != 0));
}

#[test]
fn composite_trails_over_five_frames() {
    // five 2x2 frames, two frames combined per output, spacing one:
    // output 0 is edge(frame 0) alone, output i is edge(frame i) OR
    // edge(frame i-1)
    let raws: Vec<Vec<u8>> = vec![
        vec![0, 0, 0, 0],
        vec![255, 0, 0, 0],
        vec![0, 255, 0, 0],
        vec![0, 0, 255, 0],
        vec![0, 0, 0, 255],
    ];
    let frames: Vec<GrayFrame> = raws.iter().map(|d| frame(2, 2, d.clone())).collect();
    let edges: Vec<Vec<u8>> = raws.iter().map(|d| extract_edges(&frame(2, 2, d.clone()))).collect();
    let store = FrameStore::from_frames(&frames).unwrap();
    let w = WindowSpec { frames_to_combine: 2, frame_spacing: 1 };

    let expected_0 = combine_images(&vec![edges[0].clone()], 4).unwrap();
    assert_eq!(store.composite(0, &w), expected_0);
    for i in 1..5 {
        let expected = combine_images(&vec![edges[i].clone(), edges[i - 1].clone()], 4).unwrap();
        assert_eq!(store.composite(i, &w), expected);
    }

    let all = store.composite_all(&w);
    assert_eq!(all.len(), 5);
    for i in 0..5 {
        assert_eq!(all[i], store.composite(i, &w));
    }
}

#[test]
fn composite_is_deterministic_under_partitioning() {
    // the same output frame, produced whole and produced from disjoint
    // offset ranges of differing shapes, byte for byte
    let raws: Vec<Vec<u8>> = vec![
        vec![1, 2, 3, 4, 5, 6],
        vec![60, 50, 40, 30, 20, 10],
        vec![7, 7, 7, 7, 7, 7],
    ];
    let frames: Vec<GrayFrame> = raws.iter().map(|d| frame(3, 2, d.clone())).collect();
    let store = FrameStore::from_frames(&frames).unwrap();
    let w = WindowSpec { frames_to_combine: 3, frame_spacing: 1 };
    let whole = store.composite(2, &w);
    let sources = store.window_buffers(2, &w);
    for chunk in 1..=7 {
        assert_eq!(
            motion_trails::combine_partitioned(&sources, 6, chunk),
            whole
        );
    }
}

#[test]
fn composite_with_zero_window_is_black() {
    let store = FrameStore::from_frames(&vec![frame(2, 2, vec![9, 9, 9, 9])]).unwrap();
    let w = WindowSpec { frames_to_combine: 0, frame_spacing: 1 };
    assert_eq!(store.composite(0, &w), vec![0, 0, 0, 0]);
}

#[test]
fn window_buffers_copy_the_selected_edges() {
    let raws: Vec<Vec<u8>> = vec![
        vec![10, 20, 30, 40],
        vec![50, 60, 70, 80],
        vec![90, 100, 110, 120],
    ];
    let frames: Vec<GrayFrame> = raws.iter().map(|d| frame(2, 2, d.clone())).collect();
    let store = FrameStore::from_frames(&frames).unwrap();
    let w = WindowSpec { frames_to_combine: 2, frame_spacing: 2 };
    let bufs = store.window_buffers(2, &w);
    assert_eq!(bufs.len(), 2);
    assert_eq!(bufs[0], store.frames[2]);
    assert_eq!(bufs[1], store.frames[0]);
}
