use raytracer::primitives::{GeometricPrimitives, Primitives};

/// A sphere as the tests describe it: its centre and its radius.
type SphereStandIn = ([f32; 3], f32);

#[test]
fn test_add() {
    let mut list: Primitives<SphereStandIn> = Primitives::new();
    let center = [0.0f32, 0.0, 0.0];
    let radius = 5.0;
    let s = (center, radius);
    list.add(s);
    assert_eq!(list.len(), 1);
}

#[test]
fn test_remove() {
    let mut list: Primitives<SphereStandIn> = Primitives::new();
    let center = [0.0f32, 0.0, 0.0];
    let radius = 5.0;
    let s = (center, radius);
    list.add(s);
    list.remove(0);
    assert_eq!(list.len(), 0);
}

#[test]
fn test_clone() {
    let mut list: Primitives<SphereStandIn> = Primitives::new();
    let center = [0.0f32, 0.0, 0.0];
    let radius = 5.0;
    let s = (center, radius);
    list.add(s);

    let list_clone = list;
    assert_eq!(list_clone.len(), 1);
}

#[test]
fn primitives_get_remove_split() {
    let mut list: Primitives<u32> = Primitives::new();
    assert!(list.empty());
    for i in 0..5 {
        list.add(i);
    }
    assert_eq!(list.get(3), 3);
    assert_eq!(list.remove(1), 1);
    assert_eq!(list.as_slice(), &[0, 2, 3, 4]);
    let rest = list.split_off(2);
    assert_eq!(list.as_slice(), &[0, 2]);
    assert_eq!(rest.as_slice(), &[3, 4]);
}

#[test]
fn geometric_primitives_list() {
    let mut list: GeometricPrimitives<&str> = GeometricPrimitives::new();
    list.add("triangle");
    list.add("sphere");
    list.add("rect");
    assert_eq!(list.len(), 3);
    assert!(!list.empty());
    assert_eq!(list.get(1), "sphere");
    let rest = list.split_off(1);
    assert_eq!(rest.as_slice(), &["sphere", "rect"]);
    assert_eq!(list.remove(0), "triangle");
    assert!(list.empty());
}
