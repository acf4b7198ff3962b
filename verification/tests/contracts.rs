use discrete_num::integer::{t_div, t_mod, t_div_mod, f_div, f_mod, f_div_mod, Integer};
use discrete_num::modular::ModularInteger;
use discrete_num::residue::Mod5;
use discrete_num::ring::CommutativeRing;

#[test]
fn truncated_division_scenario() {
    assert_eq!(t_div(&7i64, &2i64), 3);
    assert_eq!(t_mod(&7i64, &2i64), 1);
    assert_eq!(t_div(&-7i64, &2i64), -3);
    assert_eq!(t_mod(&-7i64, &2i64), -1);
}

#[test]
fn floored_division_scenario() {
    assert_eq!(f_div(&-7i64, &2i64), -4);
    assert_eq!(f_mod(&-7i64, &2i64), 1);
}

#[test]
fn truncated_division_all_sign_cases() {
    assert_eq!(t_div_mod(&7i64, &2i64), (3, 1));
    assert_eq!(t_div_mod(&-7i64, &2i64), (-3, -1));
    assert_eq!(t_div_mod(&7i64, &-2i64), (-3, 1));
    assert_eq!(t_div_mod(&-7i64, &-2i64), (3, -1));
}

#[test]
fn floored_division_all_sign_cases() {
    assert_eq!(f_div_mod(&7i64, &2i64), (3, 1));
    assert_eq!(f_div_mod(&-7i64, &2i64), (-4, 1));
    assert_eq!(f_div_mod(&7i64, &-2i64), (-4, -1));
    assert_eq!(f_div_mod(&-7i64, &-2i64), (3, -1));
}

#[test]
fn exact_division_has_no_remainder() {
    assert_eq!(t_div_mod(&-6i64, &3i64), (-2, 0));
    assert_eq!(f_div_mod(&-6i64, &3i64), (-2, 0));
    assert_eq!(t_div_mod(&0i64, &5i64), (0, 0));
    assert_eq!(f_div_mod(&0i64, &-5i64), (0, 0));
}

#[test]
fn round_trip_identity_holds() {
    let pairs: [(i64, i64); 8] = [
        (7, 2),
        (-7, 2),
        (7, -2),
        (-7, -2),
        (123456789, 1001),
        (-123456789, 1001),
        (1, -1),
        (0, 9),
    ];
    for (a, b) in pairs {
        let (tq, tr) = t_div_mod(&a, &b);
        assert_eq!(a, b * tq + tr);
        let (fq, fr) = f_div_mod(&a, &b);
        assert_eq!(a, b * fq + fr);
    }
}

#[test]
fn remainder_signs_follow_the_conventions() {
    let pairs: [(i64, i64); 6] = [(9, 4), (-9, 4), (9, -4), (-9, -4), (8, 4), (-8, -4)];
    for (a, b) in pairs {
        let tr = t_mod(&a, &b);
        assert!(tr == 0 || ((tr > 0) == (a > 0)));
        assert!(tr.abs() < b.abs());
        let fr = f_mod(&a, &b);
        assert!(fr == 0 || ((fr > 0) == (b > 0)));
        assert!(fr.abs() < b.abs());
    }
}

#[test]
fn combined_forms_match_separate_calls() {
    let pairs: [(i64, i64); 4] = [(17, 5), (-17, 5), (17, -5), (-17, -5)];
    for (a, b) in pairs {
        assert_eq!(t_div_mod(&a, &b), (t_div(&a, &b), t_mod(&a, &b)));
        assert_eq!(f_div_mod(&a, &b), (f_div(&a, &b), f_mod(&a, &b)));
    }
}

#[test]
fn gcd_scenario() {
    assert_eq!(<i64 as Integer>::gcd(&12, &18), 6);
}

#[test]
fn gcd_is_symmetric_and_nonnegative() {
    let pairs: [(i64, i64); 5] = [(12, 18), (-12, 18), (12, -18), (-12, -18), (0, -7)];
    for (a, b) in pairs {
        let g = <i64 as Integer>::gcd(&a, &b);
        assert_eq!(g, <i64 as Integer>::gcd(&b, &a));
        assert!(g >= 0);
    }
}

#[test]
fn gcd_with_zero_is_the_absolute_value() {
    assert_eq!(<i64 as Integer>::gcd(&9, &0), 9);
    assert_eq!(<i64 as Integer>::gcd(&-9, &0), 9);
    assert_eq!(<i64 as Integer>::gcd(&0, &0), 0);
}

#[test]
fn gcd_divides_both_arguments() {
    let pairs: [(i64, i64); 4] = [(12, 18), (-12, 18), (36, -48), (-35, -21)];
    for (a, b) in pairs {
        let g = <i64 as Integer>::gcd(&a, &b);
        assert_eq!(t_mod(&a, &g), 0);
        assert_eq!(t_mod(&b, &g), 0);
    }
}

#[test]
fn lcm_scenario() {
    assert_eq!(<i64 as Integer>::lcm(&4, &6), 12);
}

#[test]
fn lcm_times_gcd_is_the_absolute_product() {
    let pairs: [(i64, i64); 5] = [(4, 6), (-4, 6), (4, -6), (-4, -6), (21, 6)];
    for (a, b) in pairs {
        let g = <i64 as Integer>::gcd(&a, &b);
        let l = <i64 as Integer>::lcm(&a, &b);
        assert_eq!(l * g, (a * b).abs());
    }
}

#[test]
fn lcm_with_zero_is_zero() {
    assert_eq!(<i64 as Integer>::lcm(&0, &6), 0);
    assert_eq!(<i64 as Integer>::lcm(&-4, &0), 0);
}

#[test]
fn successor_steps_up_by_one() {
    assert_eq!(41i64.succ(), 42);
    assert_eq!((-1i64).succ(), 0);
    assert_eq!((i64::MAX - 1).succ(), i64::MAX);
}

#[test]
fn ring_capability_of_the_machine_word() {
    assert_eq!(<i64 as CommutativeRing>::zero(), 0);
    assert_eq!(<i64 as CommutativeRing>::one(), 1);
    assert_eq!(<i64 as CommutativeRing>::add(&2, &3), 5);
    assert_eq!(<i64 as CommutativeRing>::sub(&2, &3), -1);
    assert_eq!(<i64 as CommutativeRing>::mul(&-2, &3), -6);
    assert!(<i64 as CommutativeRing>::le(&-2, &3));
    assert!(!<i64 as CommutativeRing>::le(&3, &-2));
}

#[test]
fn congruence_scenario_modulus_five() {
    assert!(Mod5::congruent(&Mod5 { rep: 7 }, &Mod5 { rep: 2 }));
    assert!(!Mod5::congruent(&Mod5 { rep: 7 }, &Mod5 { rep: 3 }));
}

#[test]
fn congruence_handles_negative_representatives() {
    assert!(Mod5::congruent(&Mod5 { rep: -3 }, &Mod5 { rep: 2 }));
    assert!(Mod5::congruent(&Mod5 { rep: -5 }, &Mod5 { rep: 0 }));
    assert!(!Mod5::congruent(&Mod5 { rep: -3 }, &Mod5 { rep: 3 }));
}

#[test]
fn congruence_is_coarser_than_equality() {
    let x = Mod5 { rep: 7 };
    let y = Mod5 { rep: 2 };
    assert!(Mod5::congruent(&x, &y));
    assert_ne!(x, y);
}

#[test]
fn successor_and_predecessor_are_inverse_inside_the_bounds() {
    let x = Mod5 { rep: 10 };
    assert_eq!(x.succ().pred(), x);
    assert_eq!(x.pred().succ(), x);
    let y = Mod5 { rep: -10 };
    assert_eq!(y.succ().pred(), y);
    assert_eq!(y.pred().succ(), y);
}

#[test]
fn bounds_of_the_modular_type() {
    assert_eq!(Mod5::min_value().rep, i64::MIN);
    assert_eq!(Mod5::max_value().rep, i64::MAX);
    assert_eq!(Mod5::min_value().succ().pred(), Mod5::min_value());
    assert_eq!(Mod5::max_value().pred().succ(), Mod5::max_value());
}

#[test]
fn modular_type_divides_like_its_representatives() {
    let q = Mod5::t_div(&Mod5 { rep: 7 }, &Mod5 { rep: 2 });
    assert_eq!(q, Mod5 { rep: 3 });
    let r = Mod5::f_mod(&Mod5 { rep: -7 }, &Mod5 { rep: 2 });
    assert_eq!(r, Mod5 { rep: 1 });
    let g = Mod5::gcd(&Mod5 { rep: 12 }, &Mod5 { rep: 18 });
    assert_eq!(g, Mod5 { rep: 6 });
    let l = Mod5::lcm(&Mod5 { rep: 4 }, &Mod5 { rep: 6 });
    assert_eq!(l, Mod5 { rep: 12 });
}

#[test]
fn division_near_the_extremes_of_the_machine_word() {
    assert_eq!(t_div_mod(&i64::MIN, &1i64), (i64::MIN, 0));
    assert_eq!(t_mod(&i64::MIN, &-1i64), 0);
    assert_eq!(t_div_mod(&i64::MAX, &-1i64), (-i64::MAX, 0));
    assert_eq!(f_div_mod(&i64::MIN, &2i64), (i64::MIN / 2, 0));
    assert_eq!(t_div_mod(&(i64::MIN + 1), &-1i64), (i64::MAX, 0));
    assert_eq!(<i64 as Integer>::gcd(&i64::MIN, &2), 2);
}
