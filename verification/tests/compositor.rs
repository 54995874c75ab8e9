use motion_trails::combine_images;
use motion_trails::combine_partitioned;
use motion_trails::combine_range;
use motion_trails::Error;

fn or_bytes(a: &[u8], b: &[u8]) -> Vec<u8> {
    assert_eq!(a.len(), b.len());
    let mut out = Vec::new();
    let mut i = 0;
    while i < a.len() {
        out.push(a[i] | b[i]);
        i += 1;
    }
    out
}

#[test]
fn combine_single_is_identity() {
    let a: Vec<u8> = vec![0, 1, 2, 128, 255, 7];
    let r = combine_images(&vec![a.clone()], 6).unwrap();
    assert_eq!(r, a);
}

#[test]
fn combine_two_is_pointwise_or() {
    let a: Vec<u8> = vec![0b0001, 0b1000, 0xF0, 0x00];
    let b: Vec<u8> = vec![0b0010, 0b1000, 0x0F, 0x00];
    let r = combine_images(&vec![a.clone(), b.clone()], 4).unwrap();
    assert_eq!(r, vec![0b0011, 0b1000, 0xFF, 0x00]);
    assert_eq!(r, or_bytes(&a, &b));
}

#[test]
fn combine_is_commutative() {
    let a: Vec<u8> = vec![3, 5, 250, 0, 77];
    let b: Vec<u8> = vec![129, 4, 16, 255, 76];
    let ab = combine_images(&vec![a.clone(), b.clone()], 5).unwrap();
    let ba = combine_images(&vec![b, a], 5).unwrap();
    assert_eq!(ab, ba);
}

#[test]
fn combine_groups_equals_combine_all() {
    let a: Vec<u8> = vec![1, 2, 3];
    let b: Vec<u8> = vec![4, 8, 16];
    let c: Vec<u8> = vec![32, 64, 128];
    let all = combine_images(&vec![a.clone(), b.clone(), c.clone()], 3).unwrap();
    let g1 = combine_images(&vec![a, b], 3).unwrap();
    let g2 = combine_images(&vec![c], 3).unwrap();
    let grouped = combine_images(&vec![g1, g2], 3).unwrap();
    assert_eq!(all, grouped);
    assert_eq!(all, vec![1 | 4 | 32, 2 | 8 | 64, 3 | 16 | 128]);
}

#[test]
fn combine_empty_sources_is_all_zero() {
    let r = combine_images(&vec![], 5).unwrap();
    assert_eq!(r, vec![0, 0, 0, 0, 0]);
}

#[test]
fn combine_rejects_mismatched_source() {
    let a: Vec<u8> = vec![1, 2];
    let b: Vec<u8> = vec![1, 2, 3];
    let r = combine_images(&vec![a, b], 2);
    assert_eq!(r, Err(Error::DimensionMismatch));
}

#[test]
fn combine_range_produces_the_slice() {
    let a: Vec<u8> = vec![1, 2, 4, 8, 16, 32];
    let b: Vec<u8> = vec![1, 1, 1, 1, 1, 1];
    let sources = vec![a, b];
    let whole = combine_images(&sources, 6).unwrap();
    let piece = combine_range(&sources, 6, 2, 5);
    assert_eq!(piece, whole[2..5].to_vec());
    let empty = combine_range(&sources, 6, 3, 3);
    assert_eq!(empty, Vec::<u8>::new());
}

#[test]
fn partitioned_combine_matches_sequential() {
    let a: Vec<u8> = vec![9, 0, 200, 4, 31, 7, 128];
    let b: Vec<u8> = vec![64, 64, 64, 64, 64, 64, 64];
    let c: Vec<u8> = vec![0, 255, 0, 255, 0, 255, 0];
    let sources = vec![a, b, c];
    let sequential = combine_images(&sources, 7).unwrap();
    for chunk in 1..=8 {
        let partitioned = combine_partitioned(&sources, 7, chunk);
        assert_eq!(partitioned, sequential);
    }
}

#[test]
fn stitched_ranges_match_whole() {
    let a: Vec<u8> = vec![17, 34, 51, 68, 85];
    let b: Vec<u8> = vec![5, 10, 20, 40, 80];
    let sources = vec![a, b];
    let whole = combine_images(&sources, 5).unwrap();
    let mut stitched = Vec::new();
    stitched.extend(combine_range(&sources, 5, 0, 2));
    stitched.extend(combine_range(&sources, 5, 2, 4));
    stitched.extend(combine_range(&sources, 5, 4, 5));
    assert_eq!(stitched, whole);
}
