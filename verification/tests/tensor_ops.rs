use glwe_tensor::numeric::Numeric;
use glwe_tensor::tensor::Tensor;

#[test]
fn allocate_fills_with_value() {
    let t = Tensor::allocate(5u32, 10);
    assert_eq!(t.len(), 10);
    for i in 0..10 {
        assert_eq!(t.get(i), 5);
    }
}

#[test]
fn allocate_zero_length() {
    let t = Tensor::allocate(7u8, 0);
    assert_eq!(t.len(), 0);
}

#[test]
fn from_container_keeps_content() {
    let t = Tensor::from_container(vec![1u64, 2, 3]);
    assert_eq!(t.len(), 3);
    assert_eq!(t.get(0), 1);
    assert_eq!(t.get(1), 2);
    assert_eq!(t.get(2), 3);
    assert_eq!(t.into_container(), vec![1, 2, 3]);
}

#[test]
fn set_and_fill() {
    let mut t = Tensor::allocate(0u8, 4);
    t.set(2, 9);
    assert_eq!(t.get(2), 9);
    assert_eq!(t.get(1), 0);
    t.fill_with_element(3);
    assert_eq!(t.into_container(), vec![3, 3, 3, 3]);
}

#[test]
fn update_with_wrapping_add_exact() {
    let mut a = Tensor::from_container(vec![5u32, 10, u32::MAX]);
    let b = Tensor::from_container(vec![3u32, 7, 2]);
    a.update_with_wrapping_add(&b);
    assert_eq!(a.into_container(), vec![8, 17, 1]);
}

#[test]
fn update_with_wrapping_add_u8_wraps() {
    let mut a = Tensor::from_container(vec![250u8, 1]);
    let b = Tensor::from_container(vec![10u8, 1]);
    a.update_with_wrapping_add(&b);
    assert_eq!(a.into_container(), vec![4, 2]);
}

#[test]
fn numeric_zero_and_wrapping_add() {
    assert_eq!(<u8 as Numeric>::zero(), 0);
    assert_eq!(<u64 as Numeric>::zero(), 0);
    assert_eq!(Numeric::wrapping_add(200u8, 100u8), 44);
    assert_eq!(Numeric::wrapping_add(u64::MAX, 1u64), 0);
    assert_eq!(Numeric::wrapping_add(40000u16, 30000u16), 4464);
    assert_eq!(Numeric::wrapping_add(3u32, 4u32), 7);
}

#[test]
fn fill_with_two_applies_function() {
    let a = Tensor::from_container(vec![1u32, 2, 3]);
    let b = Tensor::from_container(vec![10u32, 20, 30]);
    let mut out = Tensor::allocate(0u32, 3);
    out.fill_with_two(&a, &b, |x, y| x + y);
    assert_eq!(out.into_container(), vec![11, 22, 33]);
}

#[test]
fn subtensor_iter_buffer_order() {
    let t = Tensor::from_container(vec![1u8, 2, 3, 4, 5, 6]);
    let subs = t.subtensor_iter(2);
    assert_eq!(subs.len(), 3);
    let flat: Vec<u8> = subs.into_iter().flat_map(|s| s.into_container()).collect();
    assert_eq!(flat, vec![1, 2, 3, 4, 5, 6]);
}

#[test]
fn fill_range_and_copy_range() {
    let mut t = Tensor::from_container(vec![1u8, 2, 3, 4, 5]);
    t.fill_range(1, 2, 0);
    assert_eq!(t.get(0), 1);
    assert_eq!(t.get(1), 0);
    assert_eq!(t.get(2), 0);
    assert_eq!(t.get(3), 4);
    let src = Tensor::from_container(vec![8u8, 9]);
    t.copy_range_from(3, &src);
    assert_eq!(t.into_container(), vec![1, 0, 0, 8, 9]);
}
