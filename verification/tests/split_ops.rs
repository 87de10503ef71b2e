use glwe_tensor::split::Split;
use glwe_tensor::tensor::Tensor;

#[test]
fn into_chunks_exact_partition() {
    let v = vec![1u8, 2, 3, 4, 5, 6];
    let chunks = Split::into_chunks(v, 3);
    assert_eq!(chunks.len(), 2);
    assert_eq!(chunks[0], vec![1, 2, 3]);
    assert_eq!(chunks[1], vec![4, 5, 6]);
}

#[test]
fn chunks_concat_round_trip() {
    let v = vec![9u32, 8, 7, 6, 5, 4, 3, 2];
    let chunks = Split::into_chunks(v.clone(), 2);
    let rebuilt: Vec<u32> = chunks.into_iter().flatten().collect();
    assert_eq!(rebuilt, v);
}

#[test]
fn split_into_counts() {
    let v = vec![1u8, 2, 3, 4, 5, 6];
    let chunks = Split::split_into(v, 3);
    assert_eq!(chunks.len(), 3);
    assert_eq!(chunks[0], vec![1, 2]);
    assert_eq!(chunks[1], vec![3, 4]);
    assert_eq!(chunks[2], vec![5, 6]);
}

#[test]
fn split_into_zero_chunks_of_empty() {
    let v: Vec<u8> = Vec::new();
    let chunks = Split::split_into(v, 0);
    assert_eq!(chunks.len(), 0);
}

#[test]
fn split_at_divides() {
    let v = vec![1u8, 2, 3, 4];
    let (a, b) = Split::split_at(v, 1);
    assert_eq!(a, vec![1]);
    assert_eq!(b, vec![2, 3, 4]);
}

#[test]
fn tensor_split_matches_vec_split() {
    let t = Tensor::from_container(vec![1u16, 2, 3, 4]);
    let chunks = Split::into_chunks(t, 2);
    assert_eq!(chunks.len(), 2);
    assert_eq!(chunks[0].len(), 2);
    assert_eq!(chunks[1].get(0), 3);
    assert_eq!(chunks[1].get(1), 4);
    let t2 = Tensor::from_container(vec![5u16, 6]);
    let (a, b) = Split::split_at(t2, 1);
    assert_eq!(a.len(), 1);
    assert_eq!(a.get(0), 5);
    assert_eq!(b.get(0), 6);
}

#[test]
fn disjoint_ranges_cover_parent() {
    // Every position of the parent buffer falls in exactly one chunk range.
    let len = 12usize;
    let k = 4usize;
    let chunk_of = |p: usize| p / k;
    for p in 0..len {
        let i = chunk_of(p);
        assert!(i * k <= p && p < i * k + k);
        for j in 0..len / k {
            if j != i {
                assert!(!(j * k <= p && p < j * k + k));
            }
        }
    }
}
