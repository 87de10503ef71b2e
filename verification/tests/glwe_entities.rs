use glwe_tensor::as_tensor::{AsMutTensor, AsRefTensor, IntoTensor};
use glwe_tensor::glwe::body::GlweBody;
use glwe_tensor::glwe::ciphertext::GlweCiphertext;
use glwe_tensor::glwe::list::GlweList;
use glwe_tensor::parameters::{
    CiphertextCount, GlweDimension, GlweSize, PlaintextCount, PolynomialSize,
};
use glwe_tensor::plaintext::PlaintextList;

#[test]
fn list_allocate_shape() {
    let list = GlweList::allocate(
        0u8,
        PolynomialSize(10),
        GlweDimension(20),
        CiphertextCount(30),
    );
    assert_eq!(list.ciphertext_count(), CiphertextCount(30));
    assert_eq!(list.polynomial_size(), PolynomialSize(10));
    assert_eq!(list.glwe_size(), GlweSize(21));
    assert_eq!(list.glwe_dimension(), GlweDimension(20));
    assert_eq!(list.into_tensor().len(), 10 * 21 * 30);
}

#[test]
fn list_sequential_iteration_yields_count_items() {
    let list = GlweList::allocate(
        0u8,
        PolynomialSize(10),
        GlweDimension(20),
        CiphertextCount(30),
    );
    let cts = list.ciphertext_iter();
    assert_eq!(cts.len(), 30);
    for ct in &cts {
        assert_eq!(ct.polynomial_size(), PolynomialSize(10));
        assert_eq!(ct.size(), GlweSize(21));
        let body = ct.get_body();
        assert_eq!(body.as_polynomial().polynomial_size(), PolynomialSize(10));
    }
}

#[test]
fn list_from_container_shape() {
    let list = GlweList::from_container(
        vec![0u8; 10 * 21 * 30],
        GlweDimension(20),
        PolynomialSize(10),
    );
    assert_eq!(list.ciphertext_count(), CiphertextCount(30));
    assert_eq!(list.polynomial_size(), PolynomialSize(10));
    assert_eq!(list.glwe_size(), GlweSize(21));
    assert_eq!(list.glwe_dimension(), GlweDimension(20));
}

#[test]
fn list_from_container_idempotent_accessors() {
    let a = GlweList::from_container(vec![3u8; 84], GlweDimension(1), PolynomialSize(3));
    let b = GlweList::from_container(vec![3u8; 84], GlweDimension(1), PolynomialSize(3));
    assert_eq!(a.ciphertext_count(), b.ciphertext_count());
    assert_eq!(a.ciphertext_count(), a.ciphertext_count());
    assert_eq!(a.glwe_size(), b.glwe_size());
    assert_eq!(a.polynomial_size(), b.polynomial_size());
    assert_eq!(a.glwe_dimension(), b.glwe_dimension());
    assert_eq!(a.ciphertext_count(), CiphertextCount(14));
}

#[test]
fn list_rejects_fractional_ciphertext() {
    // 10 * (20 + 1) = 210 does not divide 6299.
    let r = GlweList::checked_from_container(
        vec![0u8; 6299],
        GlweDimension(20),
        PolynomialSize(10),
    );
    assert!(r.is_none());
}

#[test]
fn list_rejects_zero_polynomial_size() {
    let r = GlweList::checked_from_container(vec![0u8; 6], GlweDimension(2), PolynomialSize(0));
    assert!(r.is_none());
}

#[test]
fn list_checked_accepts_exact_multiple() {
    let r = GlweList::checked_from_container(
        vec![0u8; 10 * 21 * 30],
        GlweDimension(20),
        PolynomialSize(10),
    );
    let list = r.expect("length is an exact multiple of the stride");
    assert_eq!(list.ciphertext_count(), CiphertextCount(30));
}

#[test]
fn list_round_trip_through_ciphertexts() {
    let data: Vec<u8> = (0..24).collect();
    let list = GlweList::from_container(data.clone(), GlweDimension(1), PolynomialSize(3));
    let cts = list.ciphertext_iter_mut();
    assert_eq!(cts.len(), 4);
    let rebuilt = GlweList::from_ciphertexts(cts, GlweDimension(1), PolynomialSize(3));
    assert_eq!(rebuilt.into_tensor().into_container(), data);
}

#[test]
fn list_trivial_encryption_layout() {
    // Two ciphertexts of one mask polynomial and one body polynomial each.
    let mut list = GlweList::allocate(
        7u8,
        PolynomialSize(2),
        GlweDimension(1),
        CiphertextCount(2),
    );
    let plain = PlaintextList::from_container(vec![1u8, 2, 3, 4]);
    list.fill_with_trivial_encryption(&plain);
    let raw = list.into_tensor().into_container();
    assert_eq!(raw, vec![0, 0, 1, 2, 0, 0, 3, 4]);
}

#[test]
fn ciphertext_trivial_encryption_layout() {
    let mut ct = GlweCiphertext::allocate(9u8, PolynomialSize(3), GlweSize(2));
    let plain = PlaintextList::from_container(vec![4u8, 5, 6]);
    ct.fill_with_trivial_encryption(&plain);
    assert_eq!(ct.into_container(), vec![0, 0, 0, 4, 5, 6]);
}

#[test]
fn ciphertext_body_is_last_polynomial() {
    let data: Vec<u8> = (0..6).collect();
    let ct = GlweCiphertext::from_container(data, PolynomialSize(2));
    assert_eq!(ct.size(), GlweSize(3));
    assert_eq!(ct.mask_size(), GlweDimension(2));
    let body = ct.get_body();
    let poly = body.into_polynomial();
    assert_eq!(poly.polynomial_size(), PolynomialSize(2));
    assert_eq!(poly.into_tensor().into_container(), vec![4, 5]);
}

#[test]
fn body_polynomial_views() {
    let mut body = GlweBody::from_container(vec![1u8, 2, 3]);
    assert_eq!(body.as_polynomial().polynomial_size(), PolynomialSize(3));
    {
        let poly = body.as_mut_polynomial();
        poly.as_mut_tensor().fill_with_element(9);
    }
    assert_eq!(body.as_tensor().get(0), 9);
    assert_eq!(body.as_tensor().get(2), 9);
    let poly = body.into_polynomial();
    assert_eq!(poly.into_tensor().into_container(), vec![9, 9, 9]);
}

#[test]
fn plaintext_sublists() {
    let plain = PlaintextList::from_container(vec![1u8, 2, 3, 4, 5, 6]);
    assert_eq!(plain.count(), PlaintextCount(6));
    let subs = plain.sublist_iter(PlaintextCount(2));
    assert_eq!(subs.len(), 3);
    assert_eq!(subs[2].count(), PlaintextCount(2));
    assert_eq!(subs[1].as_tensor().get(0), 3);
    let allocated = PlaintextList::allocate(5u8, PlaintextCount(4));
    assert_eq!(allocated.count(), PlaintextCount(4));
    assert_eq!(allocated.as_tensor().get(3), 5);
}
