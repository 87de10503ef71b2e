use glwe_tensor::container::{AlignedBuffer, Container, ContainerOwned};
use glwe_tensor::seeder::{ConstantSeeder, Seed, Seeder};

#[test]
fn vec_container_len() {
    let v = vec![1u8, 2, 3];
    assert_eq!(v.container_len(), 3);
    let s: &[u8] = &[4, 5];
    assert_eq!(s.container_len(), 2);
}

#[test]
fn boxed_slice_container_len() {
    let b: Box<[u8]> = vec![1u8, 2, 3, 4].into_boxed_slice();
    assert_eq!(b.container_len(), 4);
}

#[test]
fn vec_collect_keeps_values() {
    let c: Vec<u32> = ContainerOwned::collect(vec![7, 8, 9]);
    assert_eq!(c, vec![7, 8, 9]);
}

#[test]
fn aligned_buffer_collect_round_trip() {
    let b: AlignedBuffer = ContainerOwned::collect(vec![5u64, 6, 7]);
    assert_eq!(b.container_len(), 3);
    assert_eq!(b.get(0), 5);
    assert_eq!(b.get(1), 6);
    assert_eq!(b.get(2), 7);
    assert_eq!(b.to_vec(), vec![5, 6, 7]);
}

#[test]
fn aligned_buffer_empty() {
    let b: AlignedBuffer = ContainerOwned::collect(Vec::new());
    assert_eq!(b.container_len(), 0);
    assert_eq!(b.to_vec(), Vec::<u64>::new());
}

#[test]
fn constant_seeder_repeats_its_seed() {
    let mut seeder = ConstantSeeder::new(Seed(42));
    assert_eq!(seeder.seed(), Seed(42));
    assert_eq!(seeder.seed(), Seed(42));
    assert!(ConstantSeeder::is_available());
}

#[test]
fn entity_kind_markers_exist() {
    let _ = glwe_tensor::entities::GlweCiphertextKind;
    let _ = glwe_tensor::entities::GlweCiphertextVectorKind;
    let _ = glwe_tensor::entities::PlaintextVectorKind;
}
