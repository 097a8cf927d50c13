use rtc::intersections::{sort_by_t, Intersection};
use rtc::scalar::Scalar;

fn s(x: f32) -> Scalar {
    Scalar::from_bits(x.to_bits())
}

fn f(x: Scalar) -> f32 {
    f32::from_bits(x.to_bits())
}

fn list(ts: &[f32]) -> Vec<Intersection> {
    ts.iter().enumerate().map(|(i, t)| Intersection { t: s(*t), obj: i }).collect()
}

fn scrambled(i: u32) -> u32 {
    let mut x = i.wrapping_mul(0x9e37_79b9).wrapping_add(0x7f4a_7c15);
    x ^= x >> 15;
    x = x.wrapping_mul(0x85eb_ca6b);
    x ^= x >> 13;
    x = x.wrapping_mul(0xc2b2_ae35);
    x ^ (x >> 16)
}

#[test]
fn finding_first_hit_from_intersection_list() {
    // should pick smallest non-negative t value
    let i1 = [Intersection::ray_sphere(0, s(1.)), Intersection::ray_sphere(0, s(2.))];
    let h1 = Intersection::hit(&i1);
    assert_eq!(1., f(h1.unwrap().t));

    let i2 = [Intersection::ray_sphere(0, s(-1.)), Intersection::ray_sphere(0, s(1.))];
    let h2 = Intersection::hit(&i2);
    assert_eq!(1., f(h2.unwrap().t));

    // should return None when there is no non-negative t value
    let i3 = [Intersection::ray_sphere(0, s(-1.)), Intersection::ray_sphere(0, s(-2.))];
    let h3 = Intersection::hit(&i3);
    assert!(h3.is_none());

    // should sort entries before returning the first hit
    let i4 = [
        Intersection::ray_sphere(0, s(5.)),
        Intersection::ray_sphere(0, s(7.)),
        Intersection::ray_sphere(0, s(-3.)),
        Intersection::ray_sphere(0, s(2.)),
    ];
    let h4 = Intersection::hit(&i4);
    assert_eq!(2., f(h4.unwrap().t));
}

#[test]
fn constructors_keep_parameter_and_shape() {
    assert!(Intersection::none().is_empty());
    let a = Intersection::ray_sphere(3, s(4.5));
    assert_eq!(Intersection { t: s(4.5), obj: 3 }, a);
    let b = Intersection::ray_plane(7, s(-1.25));
    assert_eq!(-1.25, f(b.t));
    assert_eq!(7, b.obj);
}

#[test]
fn no_hit_among_nothing() {
    assert!(Intersection::hit(&[]).is_none());
    assert!(Intersection::hit(&Intersection::none()).is_none());
}

#[test]
fn of_equally_near_hits_the_first_is_taken() {
    let i = list(&[3., 1., 7., 1., 1.]);
    assert_eq!(1, Intersection::hit(&i).unwrap().obj);
    let zeros = list(&[5., -0.0, 0.0]);
    let h = Intersection::hit(&zeros).unwrap();
    assert_eq!(1, h.obj);
    assert_eq!((-0.0f32).to_bits(), h.t.to_bits());
}

#[test]
fn a_hit_at_the_origin_counts() {
    let i = list(&[-1., 0., 2.]);
    assert_eq!(1, Intersection::hit(&i).unwrap().obj);
}

#[test]
fn a_nan_is_never_hit() {
    let only = list(&[f32::NAN, -1.]);
    assert!(Intersection::hit(&only).is_none());
    let mixed = list(&[f32::NAN, 4., f32::NAN, 3.]);
    assert_eq!(3, Intersection::hit(&mixed).unwrap().obj);
    let inf = list(&[f32::NAN, f32::INFINITY]);
    assert_eq!(1, Intersection::hit(&inf).unwrap().obj);
}

#[test]
fn hit_agrees_with_filter_and_stable_sort() {
    for round in 0..2_000u32 {
        let n = (scrambled(round) % 9) as usize;
        let ts: Vec<f32> = (0..n)
            .map(|k| {
                let r = scrambled(round * 16 + k as u32 + 1);
                match r % 7 {
                    0 => f32::NAN,
                    1 => -0.0,
                    _ => ((r >> 8) % 9) as f32 - 4.0,
                }
            })
            .collect();
        let items = list(&ts);
        let mut ahead: Vec<&Intersection> = items.iter().filter(|i| f(i.t) >= 0.).collect();
        ahead.sort_by(|a, b| f(a.t).partial_cmp(&f(b.t)).unwrap());
        let expected = ahead.into_iter().next();
        assert_eq!(expected, Intersection::hit(&items), "{ts:?}");
    }
}

#[test]
fn sorting_orders_by_parameter() {
    let sorted = sort_by_t(&list(&[5., 7., -3., 2.]));
    let ts: Vec<f32> = sorted.iter().map(|i| f(i.t)).collect();
    assert_eq!(vec![-3., 2., 5., 7.], ts);
    let objs: Vec<usize> = sorted.iter().map(|i| i.obj).collect();
    assert_eq!(vec![2, 3, 0, 1], objs);
    assert!(sort_by_t(&Intersection::none()).is_empty());
}

#[test]
fn sorting_keeps_the_order_of_equal_parameters() {
    let sorted = sort_by_t(&list(&[1., 0., 1., -0.0, 1., 0.]));
    let objs: Vec<usize> = sorted.iter().map(|i| i.obj).collect();
    assert_eq!(vec![1, 3, 5, 0, 2, 4], objs);
}

#[test]
fn sorting_puts_nans_last() {
    let sorted = sort_by_t(&list(&[f32::NAN, 2., f32::INFINITY, f32::NAN, -1., f32::NEG_INFINITY]));
    let objs: Vec<usize> = sorted.iter().map(|i| i.obj).collect();
    assert_eq!(vec![5, 4, 1, 2, 0, 3], objs);
}

#[test]
fn sorting_agrees_with_the_stable_sort_of_the_machine() {
    for round in 0..2_000u32 {
        let n = (scrambled(round) % 12) as usize;
        let ts: Vec<f32> = (0..n)
            .map(|k| ((scrambled(round * 16 + k as u32 + 7) >> 5) % 11) as f32 / 2.0 - 2.5)
            .collect();
        let items = list(&ts);
        let mut expected = items.clone();
        expected.sort_by(|a, b| f(a.t).partial_cmp(&f(b.t)).unwrap());
        assert_eq!(expected, sort_by_t(&items), "{ts:?}");
    }
}

#[test]
fn sorting_does_not_change_what_is_hit() {
    for round in 0..1_000u32 {
        let n = (scrambled(round + 50_000) % 10) as usize;
        let ts: Vec<f32> = (0..n)
            .map(|k| {
                let r = scrambled(round * 16 + k as u32 + 3);
                if r % 5 == 0 {
                    f32::NAN
                } else {
                    ((r >> 8) % 7) as f32 - 3.0
                }
            })
            .collect();
        let items = list(&ts);
        let sorted = sort_by_t(&items);
        assert_eq!(Intersection::hit(&items), Intersection::hit(&sorted), "{ts:?}");
    }
}
