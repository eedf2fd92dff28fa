use sect::tlsvec::{TlsByteVec16, TlsVec24};

#[test]
fn container_operations() {
    let mut v = TlsVec24::from_slice(&[1u8, 2, 3, 4]);
    assert_eq!(v.len(), 4);
    assert!(!v.is_empty());
    v.push(5);
    assert_eq!(v.as_slice(), &[1, 2, 3, 4, 5]);
    assert_eq!(v.pop(), Some(5));
    assert_eq!(v.remove(0), 1);
    assert_eq!(v.get(0), Some(&2));
    assert_eq!(v.get(3), None);
    v.retain(|x| x % 2 == 0);
    assert_eq!(v.iter().copied().collect::<Vec<u8>>(), vec![2, 4]);
    assert_eq!(v.clone().into_vec(), vec![2, 4]);
    let mut e: TlsVec24<u8> = TlsVec24::new(vec![]);
    assert_eq!(e.pop(), None);
    assert!(e.is_empty());
}

#[test]
fn prefix_widths() {
    assert_eq!(TlsVec24::<u8>::len_len(), 3);
    assert_eq!(TlsByteVec16::len_len(), 2);
}

#[test]
fn conversions_and_default() {
    let v: TlsVec24<u8> = vec![1u8, 2].into();
    assert_eq!(v.as_slice(), &[1, 2]);
    let back: Vec<u8> = v.into();
    assert_eq!(back, vec![1, 2]);
    let d: TlsVec24<u16> = TlsVec24::default();
    assert!(d.is_empty());
    let e: TlsByteVec16 = vec![3u8].into();
    assert_eq!(e.len(), 1);
}
