use coordinates::coordinate::Coordinate;
use coordinates::point::Pt;
use coordinates::scalar::Scalar;
use std::cell::Cell;

fn even(x: i64) -> bool {
    x % 2 == 0
}

fn both_even(x: i64, y: i64) -> bool {
    even(x) && even(y)
}

#[test]
fn test_pt_using_coordinates() {
    let mut pt = Pt::<i64>::new_origin();
    *pt.val_mut(0) = 3;
    *pt.val_mut(1) = 4;

    println!("{:?}", pt);
    let a = Pt { x: 1, y: 1 };
    let b = Pt { x: 4, y: 5 };
    assert_eq!(pt.square_length(), 25);
    assert_eq!(pt.square_length(), a.square_distance(&b));

    let a = Pt { x: 2, y: 2 };
    let b = Pt { x: 1, y: 7 };
    println!("a = {:?}", a);
    println!("b = {:?}", b);
    println!("a.min_of_bounds(b) = {:?}", a.min_of_bounds(&b));
    println!("a.max_of_bounds(b) = {:?}", a.max_of_bounds(&b));

    let a = Pt { x: 2, y: 2 };
    assert_eq!(a.mult(3), Pt { x: 6, y: 6 });
    assert_eq!(a.map(|x| x * 3), Pt { x: 6, y: 6 });

    let a = Pt { x: 2, y: 2 };
    let b = Pt { x: 8, y: 10 };
    assert!(a.all_comp(&b, both_even));
    let c = a.add(&b);
    assert_eq!(c, Pt { x: 10, y: 12 });
}

#[test]
fn test_square_distance_matches_square_length() {
    let a = Pt { x: 1, y: 1 };
    let b = Pt { x: 4, y: 5 };
    assert_eq!(a.square_distance(&b), 25);
    let d = Pt { x: 3, y: 4 };
    assert_eq!(d.square_length(), 25);
}

#[test]
fn test_all_comp_and_add_integers() {
    let a = Pt { x: 2, y: 2 };
    let b = Pt { x: 8, y: 10 };
    assert!(a.all_comp(&b, both_even));
    assert_eq!(a.add(&b), Pt { x: 10, y: 12 });
    let c = Pt { x: 3, y: 2 };
    assert!(!c.all_comp(&b, both_even));
}

#[test]
fn test_scale_and_map_agree() {
    let a = Pt { x: 2, y: 2 };
    assert_eq!(a.mult(3), Pt { x: 6, y: 6 });
    assert_eq!(a.map(|v| v * 3), Pt { x: 6, y: 6 });
}

#[test]
fn test_add_then_sub_returns_original() {
    let a = Pt { x: 7, y: -9 };
    let b = Pt { x: 100, y: 23 };
    assert_eq!(a.add(&b).sub(&b), a);

    let big = Pt { x: i64::MAX, y: i64::MIN };
    let one = Pt { x: 1, y: -1 };
    assert_eq!(big.add(&one).sub(&one), big);
}

#[test]
fn test_origin_is_additive_identity() {
    let a = Pt { x: -4, y: 11 };
    let o = Pt::<i64>::new_origin();
    assert_eq!(o.add(&a), a);
    assert_eq!(a.add(&o), a);
}

#[test]
fn test_scale_by_one_and_zero() {
    let a = Pt { x: -4, y: 11 };
    assert_eq!(a.mult(1), a);
    assert_eq!(a.mult(0), Pt::<i64>::new_origin());
}

#[test]
fn test_square_distance_to_self_is_zero() {
    let a = Pt { x: -123456789, y: 987654321 };
    assert_eq!(a.square_distance(&a), 0);
    let o = Pt::<i64>::new_origin();
    assert_eq!(o.square_distance(&o), 0);
}

#[test]
fn test_bounds_are_component_wise_extrema() {
    let a = Pt { x: 2, y: 9 };
    let b = Pt { x: 5, y: 3 };
    let lo = a.min_of_bounds(&b);
    let hi = a.max_of_bounds(&b);
    assert_eq!(lo.val(0), 2);
    assert_eq!(lo.val(1), 3);
    assert_eq!(hi.val(0), 5);
    assert_eq!(hi.val(1), 9);
    assert_eq!(a.min_of_bounds(&b), b.min_of_bounds(&a));
    assert_eq!(a.max_of_bounds(&b), b.max_of_bounds(&a));
}

#[test]
fn test_bounds_with_equal_components() {
    let a = Pt { x: 4, y: 4 };
    let b = Pt { x: 4, y: -4 };
    assert_eq!(a.min_of_bounds(&b), Pt { x: 4, y: -4 });
    assert_eq!(a.max_of_bounds(&b), Pt { x: 4, y: 4 });
}

#[test]
fn test_all_comp_short_circuits_on_first_failure() {
    let a = Pt { x: 1, y: 2 };
    let b = Pt { x: 1, y: 2 };
    let calls = Cell::new(0);
    let never = |_l: i64, _r: i64| {
        calls.set(calls.get() + 1);
        false
    };
    assert!(!a.all_comp(&b, never));
    assert_eq!(calls.get(), 1);

    let seen = Cell::new(0);
    let all = |_l: i64, _r: i64| {
        seen.set(seen.get() + 1);
        true
    };
    assert!(a.all_comp(&b, all));
    assert_eq!(seen.get(), 2);

    let count = Cell::new(0);
    let fails_second = |l: i64, _r: i64| {
        count.set(count.get() + 1);
        l == 1
    };
    assert!(!a.all_comp(&b, fails_second));
    assert_eq!(count.get(), 2);
}

#[test]
fn test_fold_is_left_to_right() {
    let a = Pt { x: 2, y: 3 };
    let folded = a.fold(1, |acc, v| 2 * acc + v);
    assert_eq!(folded, 11);
    assert_ne!(folded, 2 * (2 * 1 + 3) + 2);
}

#[test]
fn test_new_from_value_fills_every_component() {
    let a = Pt::<i64>::new_from_value(42);
    assert_eq!(a, Pt { x: 42, y: 42 });
}

#[test]
fn test_comp_is_an_alias_of_sub() {
    let a = Pt { x: 10, y: 20 };
    let b = Pt { x: 3, y: 25 };
    assert_eq!(a.comp(&b), a.sub(&b));
    assert_eq!(a.comp(&b), Pt { x: 7, y: -5 });
}

#[test]
fn test_gen_uses_each_index() {
    let a = Pt::<i64>::gen(|i| (i as i64) * 10 + 1);
    assert_eq!(a, Pt { x: 1, y: 11 });
}

#[test]
fn test_val_and_val_mut() {
    let mut a = Pt { x: 5, y: 6 };
    assert_eq!(a.val(0), 5);
    assert_eq!(a.val(1), 6);
    *a.val_mut(1) = -7;
    assert_eq!(a, Pt { x: 5, y: -7 });
}

#[test]
fn test_scalar_ops_wrap() {
    assert_eq!(i64::MAX.add(1), i64::MIN);
    assert_eq!(i64::MIN.sub(1), i64::MAX);
    assert_eq!(<i64 as Scalar>::zero(), 0);
    assert_eq!(3i64.mul(-4), -12);
    assert!((-1i64).le(0));
    assert!(!(1i64).le(0));
}

#[test]
fn test_component_wise_custom_function() {
    let a = Pt { x: 3, y: 10 };
    let b = Pt { x: 4, y: -2 };
    let prod = a.component_wise(&b, |l, r| l * r);
    assert_eq!(prod, Pt { x: 12, y: -20 });
}
