//! Facts of arithmetic in the scalar field that the laws of the protocol rest on.

use crate::field::{field_add, field_mul, field_neg, field_sub, is_inverse, modulus};
use vstd::arithmetic::div_mod::*;
use vstd::arithmetic::mul::*;
use vstd::prelude::*;

verus! {

/// Whether no number from 2 up to `k` divides the order of the field.
pub open spec fn no_divisor_upto(k: nat) -> bool
    decreases k,
{
    if k < 2 {
        true
    } else {
        modulus() % k != 0 && no_divisor_upto((k - 1) as nat)
    }
}

/// No number from 2 up to 256 divides the order of the field. The solver
/// is led through the numbers one by one, and finds each remainder itself.
pub proof fn lemma_no_small_divisor()
    ensures
        no_divisor_upto(256),
{
    reveal_with_fuel(no_divisor_upto, 2);
    assert(no_divisor_upto(2)); assert(no_divisor_upto(3)); assert(no_divisor_upto(4));
    assert(no_divisor_upto(5)); assert(no_divisor_upto(6)); assert(no_divisor_upto(7));
    assert(no_divisor_upto(8)); assert(no_divisor_upto(9)); assert(no_divisor_upto(10));
    assert(no_divisor_upto(11)); assert(no_divisor_upto(12)); assert(no_divisor_upto(13));
    assert(no_divisor_upto(14)); assert(no_divisor_upto(15)); assert(no_divisor_upto(16));
    assert(no_divisor_upto(17)); assert(no_divisor_upto(18)); assert(no_divisor_upto(19));
    assert(no_divisor_upto(20)); assert(no_divisor_upto(21)); assert(no_divisor_upto(22));
    assert(no_divisor_upto(23)); assert(no_divisor_upto(24)); assert(no_divisor_upto(25));
    assert(no_divisor_upto(26)); assert(no_divisor_upto(27)); assert(no_divisor_upto(28));
    assert(no_divisor_upto(29)); assert(no_divisor_upto(30)); assert(no_divisor_upto(31));
    assert(no_divisor_upto(32)); assert(no_divisor_upto(33)); assert(no_divisor_upto(34));
    assert(no_divisor_upto(35)); assert(no_divisor_upto(36)); assert(no_divisor_upto(37));
    assert(no_divisor_upto(38)); assert(no_divisor_upto(39)); assert(no_divisor_upto(40));
    assert(no_divisor_upto(41)); assert(no_divisor_upto(42)); assert(no_divisor_upto(43));
    assert(no_divisor_upto(44)); assert(no_divisor_upto(45)); assert(no_divisor_upto(46));
    assert(no_divisor_upto(47)); assert(no_divisor_upto(48)); assert(no_divisor_upto(49));
    assert(no_divisor_upto(50)); assert(no_divisor_upto(51)); assert(no_divisor_upto(52));
    assert(no_divisor_upto(53)); assert(no_divisor_upto(54)); assert(no_divisor_upto(55));
    assert(no_divisor_upto(56)); assert(no_divisor_upto(57)); assert(no_divisor_upto(58));
    assert(no_divisor_upto(59)); assert(no_divisor_upto(60)); assert(no_divisor_upto(61));
    assert(no_divisor_upto(62)); assert(no_divisor_upto(63)); assert(no_divisor_upto(64));
    assert(no_divisor_upto(65)); assert(no_divisor_upto(66)); assert(no_divisor_upto(67));
    assert(no_divisor_upto(68)); assert(no_divisor_upto(69)); assert(no_divisor_upto(70));
    assert(no_divisor_upto(71)); assert(no_divisor_upto(72)); assert(no_divisor_upto(73));
    assert(no_divisor_upto(74)); assert(no_divisor_upto(75)); assert(no_divisor_upto(76));
    assert(no_divisor_upto(77)); assert(no_divisor_upto(78)); assert(no_divisor_upto(79));
    assert(no_divisor_upto(80)); assert(no_divisor_upto(81)); assert(no_divisor_upto(82));
    assert(no_divisor_upto(83)); assert(no_divisor_upto(84)); assert(no_divisor_upto(85));
    assert(no_divisor_upto(86)); assert(no_divisor_upto(87)); assert(no_divisor_upto(88));
    assert(no_divisor_upto(89)); assert(no_divisor_upto(90)); assert(no_divisor_upto(91));
    assert(no_divisor_upto(92)); assert(no_divisor_upto(93)); assert(no_divisor_upto(94));
    assert(no_divisor_upto(95)); assert(no_divisor_upto(96)); assert(no_divisor_upto(97));
    assert(no_divisor_upto(98)); assert(no_divisor_upto(99)); assert(no_divisor_upto(100));
    assert(no_divisor_upto(101)); assert(no_divisor_upto(102)); assert(no_divisor_upto(103));
    assert(no_divisor_upto(104)); assert(no_divisor_upto(105)); assert(no_divisor_upto(106));
    assert(no_divisor_upto(107)); assert(no_divisor_upto(108)); assert(no_divisor_upto(109));
    assert(no_divisor_upto(110)); assert(no_divisor_upto(111)); assert(no_divisor_upto(112));
    assert(no_divisor_upto(113)); assert(no_divisor_upto(114)); assert(no_divisor_upto(115));
    assert(no_divisor_upto(116)); assert(no_divisor_upto(117)); assert(no_divisor_upto(118));
    assert(no_divisor_upto(119)); assert(no_divisor_upto(120)); assert(no_divisor_upto(121));
    assert(no_divisor_upto(122)); assert(no_divisor_upto(123)); assert(no_divisor_upto(124));
    assert(no_divisor_upto(125)); assert(no_divisor_upto(126)); assert(no_divisor_upto(127));
    assert(no_divisor_upto(128)); assert(no_divisor_upto(129)); assert(no_divisor_upto(130));
    assert(no_divisor_upto(131)); assert(no_divisor_upto(132)); assert(no_divisor_upto(133));
    assert(no_divisor_upto(134)); assert(no_divisor_upto(135)); assert(no_divisor_upto(136));
    assert(no_divisor_upto(137)); assert(no_divisor_upto(138)); assert(no_divisor_upto(139));
    assert(no_divisor_upto(140)); assert(no_divisor_upto(141)); assert(no_divisor_upto(142));
    assert(no_divisor_upto(143)); assert(no_divisor_upto(144)); assert(no_divisor_upto(145));
    assert(no_divisor_upto(146)); assert(no_divisor_upto(147)); assert(no_divisor_upto(148));
    assert(no_divisor_upto(149)); assert(no_divisor_upto(150)); assert(no_divisor_upto(151));
    assert(no_divisor_upto(152)); assert(no_divisor_upto(153)); assert(no_divisor_upto(154));
    assert(no_divisor_upto(155)); assert(no_divisor_upto(156)); assert(no_divisor_upto(157));
    assert(no_divisor_upto(158)); assert(no_divisor_upto(159)); assert(no_divisor_upto(160));
    assert(no_divisor_upto(161)); assert(no_divisor_upto(162)); assert(no_divisor_upto(163));
    assert(no_divisor_upto(164)); assert(no_divisor_upto(165)); assert(no_divisor_upto(166));
    assert(no_divisor_upto(167)); assert(no_divisor_upto(168)); assert(no_divisor_upto(169));
    assert(no_divisor_upto(170)); assert(no_divisor_upto(171)); assert(no_divisor_upto(172));
    assert(no_divisor_upto(173)); assert(no_divisor_upto(174)); assert(no_divisor_upto(175));
    assert(no_divisor_upto(176)); assert(no_divisor_upto(177)); assert(no_divisor_upto(178));
    assert(no_divisor_upto(179)); assert(no_divisor_upto(180)); assert(no_divisor_upto(181));
    assert(no_divisor_upto(182)); assert(no_divisor_upto(183)); assert(no_divisor_upto(184));
    assert(no_divisor_upto(185)); assert(no_divisor_upto(186)); assert(no_divisor_upto(187));
    assert(no_divisor_upto(188)); assert(no_divisor_upto(189)); assert(no_divisor_upto(190));
    assert(no_divisor_upto(191)); assert(no_divisor_upto(192)); assert(no_divisor_upto(193));
    assert(no_divisor_upto(194)); assert(no_divisor_upto(195)); assert(no_divisor_upto(196));
    assert(no_divisor_upto(197)); assert(no_divisor_upto(198)); assert(no_divisor_upto(199));
    assert(no_divisor_upto(200)); assert(no_divisor_upto(201)); assert(no_divisor_upto(202));
    assert(no_divisor_upto(203)); assert(no_divisor_upto(204)); assert(no_divisor_upto(205));
    assert(no_divisor_upto(206)); assert(no_divisor_upto(207)); assert(no_divisor_upto(208));
    assert(no_divisor_upto(209)); assert(no_divisor_upto(210)); assert(no_divisor_upto(211));
    assert(no_divisor_upto(212)); assert(no_divisor_upto(213)); assert(no_divisor_upto(214));
    assert(no_divisor_upto(215)); assert(no_divisor_upto(216)); assert(no_divisor_upto(217));
    assert(no_divisor_upto(218)); assert(no_divisor_upto(219)); assert(no_divisor_upto(220));
    assert(no_divisor_upto(221)); assert(no_divisor_upto(222)); assert(no_divisor_upto(223));
    assert(no_divisor_upto(224)); assert(no_divisor_upto(225)); assert(no_divisor_upto(226));
    assert(no_divisor_upto(227)); assert(no_divisor_upto(228)); assert(no_divisor_upto(229));
    assert(no_divisor_upto(230)); assert(no_divisor_upto(231)); assert(no_divisor_upto(232));
    assert(no_divisor_upto(233)); assert(no_divisor_upto(234)); assert(no_divisor_upto(235));
    assert(no_divisor_upto(236)); assert(no_divisor_upto(237)); assert(no_divisor_upto(238));
    assert(no_divisor_upto(239)); assert(no_divisor_upto(240)); assert(no_divisor_upto(241));
    assert(no_divisor_upto(242)); assert(no_divisor_upto(243)); assert(no_divisor_upto(244));
    assert(no_divisor_upto(245)); assert(no_divisor_upto(246)); assert(no_divisor_upto(247));
    assert(no_divisor_upto(248)); assert(no_divisor_upto(249)); assert(no_divisor_upto(250));
    assert(no_divisor_upto(251)); assert(no_divisor_upto(252)); assert(no_divisor_upto(253));
    assert(no_divisor_upto(254)); assert(no_divisor_upto(255)); assert(no_divisor_upto(256));
}

/// A number from 2 up to `k` does not divide the order of the field, where
/// none up to `k` does.
pub proof fn lemma_not_a_divisor(k: nat, d: nat)
    requires
        no_divisor_upto(k),
        2 <= d <= k,
    ensures
        modulus() % d != 0,
    decreases k,
{
    if d < k {
        lemma_not_a_divisor((k - 1) as nat, d);
    }
}

/// Two integers that leave the same remainder modulo the order of the field.
pub open spec fn congruent(a: int, b: int) -> bool {
    a % (modulus() as int) == b % (modulus() as int)
}

/// A remainder is congruent to what it is the remainder of.
pub proof fn lemma_congruent_mod(a: int)
    ensures
        congruent(a % (modulus() as int), a),
{
    lemma_mod_twice(a, modulus() as int);
}

/// Sums of congruent integers are congruent.
pub proof fn lemma_congruent_add(a: int, b: int, c: int, d: int)
    requires
        congruent(a, b),
        congruent(c, d),
    ensures
        congruent(a + c, b + d),
{
    lemma_add_mod_noop(a, c, modulus() as int);
    lemma_add_mod_noop(b, d, modulus() as int);
}

/// Differences of congruent integers are congruent.
pub proof fn lemma_congruent_sub(a: int, b: int, c: int, d: int)
    requires
        congruent(a, b),
        congruent(c, d),
    ensures
        congruent(a - c, b - d),
{
    lemma_sub_mod_noop(a, c, modulus() as int);
    lemma_sub_mod_noop(b, d, modulus() as int);
}

/// Products of congruent integers are congruent.
pub proof fn lemma_congruent_mul(a: int, b: int, c: int, d: int)
    requires
        congruent(a, b),
        congruent(c, d),
    ensures
        congruent(a * c, b * d),
{
    lemma_mul_mod_noop_general(a, c, modulus() as int);
    lemma_mul_mod_noop_general(b, d, modulus() as int);
}

/// A multiple of the order is congruent to zero.
pub proof fn lemma_congruent_multiple(k: int)
    ensures
        congruent(k * (modulus() as int), 0),
{
    lemma_mod_multiples_basic(k, modulus() as int);
}

/// Congruent integers that are both reduced are equal.
pub proof fn lemma_congruent_reduced(a: int, b: int)
    requires
        congruent(a, b),
        0 <= a < modulus(),
        0 <= b < modulus(),
    ensures
        a == b,
{
    lemma_small_mod(a as nat, modulus());
    lemma_small_mod(b as nat, modulus());
}

/// The sum in the field is congruent to the sum of integers.
pub proof fn lemma_field_add_congruent(a: nat, b: nat)
    ensures
        congruent(field_add(a, b) as int, a as int + b as int),
        field_add(a, b) < modulus(),
{
    lemma_congruent_mod(a as int + b as int);
    lemma_mod_bound((a + b) as int, modulus() as int);
}

/// The difference in the field is congruent to the difference of integers.
pub proof fn lemma_field_sub_congruent(a: nat, b: nat)
    ensures
        congruent(field_sub(a, b) as int, a - b),
        field_sub(a, b) < modulus(),
{
    lemma_congruent_mod(a - b);
    lemma_mod_bound(a - b, modulus() as int);
}

/// The product in the field is congruent to the product of integers.
pub proof fn lemma_field_mul_congruent(a: nat, b: nat)
    ensures
        congruent(field_mul(a, b) as int, a as int * b as int),
        field_mul(a, b) < modulus(),
{
    lemma_congruent_mod(a as int * b as int);
    lemma_mod_bound((a * b) as int, modulus() as int);
}

/// The sum in the field of elements congruent to `x` and `y` is congruent to `x + y`.
pub proof fn lemma_add_as_int(a: nat, b: nat, x: int, y: int)
    requires
        congruent(a as int, x),
        congruent(b as int, y),
    ensures
        congruent(field_add(a, b) as int, x + y),
{
    lemma_field_add_congruent(a, b);
    lemma_congruent_add(a as int, x, b as int, y);
}

/// The difference in the field of elements congruent to `x` and `y` is congruent to `x - y`.
pub proof fn lemma_sub_as_int(a: nat, b: nat, x: int, y: int)
    requires
        congruent(a as int, x),
        congruent(b as int, y),
    ensures
        congruent(field_sub(a, b) as int, x - y),
{
    lemma_field_sub_congruent(a, b);
    lemma_congruent_sub(a as int, x, b as int, y);
}

/// The product in the field of elements congruent to `x` and `y` is congruent to `x * y`.
pub proof fn lemma_mul_as_int(a: nat, b: nat, x: int, y: int)
    requires
        congruent(a as int, x),
        congruent(b as int, y),
    ensures
        congruent(field_mul(a, b) as int, x * y),
{
    lemma_field_mul_congruent(a, b);
    lemma_congruent_mul(a as int, x, b as int, y);
}

/// Two results of field operations that are congruent are equal.
pub proof fn lemma_equal_by_congruence(a: nat, b: nat, x: int)
    requires
        congruent(a as int, x),
        congruent(b as int, x),
        a < modulus(),
        b < modulus(),
    ensures
        a == b,
{
    lemma_congruent_reduced(a as int, b as int);
}

/// The negative of an inverse is the inverse of the negative.
pub proof fn lemma_inverse_of_negative(e: nat, y: nat)
    requires
        is_inverse(e, y),
    ensures
        is_inverse(field_neg(e), field_neg(y)),
{
    let ne = field_neg(e);
    let ny = field_neg(y);
    lemma_sub_as_int(0, e, 0, e as int);
    lemma_sub_as_int(0, y, 0, y as int);
    lemma_mul_as_int(ne, ny, 0 - e as int, 0 - y as int);
    lemma_field_mul_congruent(e, y);
    assert((0 - e as int) * (0 - y as int) == e as int * y as int) by (nonlinear_arith);
    lemma_field_sub_congruent(0, y);
    lemma_small_mod(1, modulus());
}

/// Every number from 1 up to 256 has an inverse in the field.
pub proof fn lemma_small_invertible(d: nat)
    requires
        1 <= d <= 256,
    ensures
        exists|x: nat| is_inverse(d, x),
    decreases d,
{
    let m = modulus();
    if d == 1 {
        lemma_small_mod(1, m);
        assert(1nat * 1nat == 1) by (nonlinear_arith);
        assert(is_inverse(1, 1));
    } else {
        lemma_no_small_divisor();
        lemma_not_a_divisor(256, d);
        let r = m % d;
        let q = m / d;
        lemma_fundamental_div_mod(m as int, d as int);
        lemma_mod_bound(m as int, d as int);
        lemma_div_pos_is_pos(m as int, d as int);
        lemma_small_invertible(r);
        let y = choose|y: nat| is_inverse(r, y);
        let qy = field_mul(q, y);
        let x = field_neg(qy);
        // d * x = -(d q) y = -(m - r) y = r y - y m, which is congruent to r y = 1
        lemma_field_mul_congruent(q, y);
        lemma_sub_as_int(0, qy, 0, q as int * y as int);
        lemma_mul_as_int(d, x, d as int, 0 - q as int * y as int);
        assert(d as int * (0 - q as int * y as int) == r as int * y as int + (0 - y as int)
            * m as int) by (nonlinear_arith)
            requires
                m as int == d as int * q as int + r as int,
        ;
        lemma_congruent_multiple(0 - y as int);
        lemma_congruent_add(r as int * y as int, r as int * y as int, (0 - y as int) * m as int, 0);
        lemma_field_mul_congruent(r, y);
        lemma_field_mul_congruent(d, x);
        lemma_field_sub_congruent(0, qy);
        lemma_small_mod(1, m);
        assert(is_inverse(d, x));
    }
}

} // verus!
