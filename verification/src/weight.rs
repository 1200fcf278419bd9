//! Multipliers for channel values.

use vstd::prelude::*;

verus! {

/// A multiplier for channel values, given by its effect: entry `c` of the
/// table is the product of channel value `c` with the multiplier, already
/// rounded toward zero. A channel has 256 values, so the table is the whole
/// multiplier, and everything computed from it stays in the integers.
#[derive(Clone, Copy, Debug)]
pub struct Weight {
    products: [i32; 256],
}

impl View for Weight {
    type V = Seq<i32>;

    closed spec fn view(&self) -> Seq<i32> {
        self.products@
    }
}

/// The product that the table `w` holds for channel value `c`.
pub open spec fn product_of(w: Seq<i32>, c: u8) -> int {
    w[c as int] as int
}

/// `v` brought into the range of `i32`.
pub open spec fn clamp_i32(v: int) -> i32 {
    if v < i32::MIN {
        i32::MIN
    } else if v > i32::MAX {
        i32::MAX
    } else {
        v as i32
    }
}

/// The absolute value of `v`.
pub open spec fn magnitude(v: int) -> int {
    if v < 0 {
        -v
    } else {
        v
    }
}

/// `c * num / den` rounded toward zero, brought into the range of `i32`.
pub open spec fn ratio_product(c: int, num: int, den: int) -> i32 {
    let m = (c * magnitude(num)) / magnitude(den);
    clamp_i32(
        if (num < 0) != (den < 0) {
            -m
        } else {
            m
        },
    )
}

/// The table of the multiplier `num / den`.
pub open spec fn ratio_products(num: int, den: int) -> Seq<i32> {
    Seq::new(256, |c: int| ratio_product(c, num, den))
}

/// The table of the multiplier 1: every channel value is its own product.
pub open spec fn identity_products() -> Seq<i32> {
    Seq::new(256, |c: int| c as i32)
}

/// The table of the multiplier 0.
pub open spec fn zero_products() -> Seq<i32> {
    Seq::new(256, |c: int| 0i32)
}

/// Whatever the denominator, the exact multiplier `den / den` is the
/// multiplier 1 and `0 / den` the multiplier 0.
pub proof fn lemma_unit_ratios(den: int)
    requires
        den != 0,
    ensures
        ratio_products(den, den) == identity_products(),
        ratio_products(0, den) == zero_products(),
{
    let m = magnitude(den);
    assert forall|c: int| 0 <= c < 256 implies ratio_product(c, den, den) == c as i32 by {
        assert((c * m) / m == c) by (nonlinear_arith)
            requires
                m > 0,
        ;
    }
    assert forall|c: int| 0 <= c < 256 implies ratio_product(c, 0, den) == 0i32 by {
        assert(c * 0 == 0);
        assert(0int / m == 0) by (nonlinear_arith)
            requires
                m > 0,
        ;
    }
    assert(ratio_products(den, den) =~= identity_products());
    assert(ratio_products(0, den) =~= zero_products());
}

impl Weight {
    /// The multiplier whose products are `products`, entry `c` for channel
    /// value `c`. The caller may compute the products in whatever arithmetic
    /// the factor is held in; the library only reads them.
    pub fn from_products(products: [i32; 256]) -> (w: Weight)
        ensures
            w@ == products@,
    {
        Weight { products }
    }

    /// The multiplier `num / den`, exact: each product is `c * num / den`
    /// rounded toward zero, and brought into the range of `i32` should it
    /// leave it. There is none for `den == 0`.
    pub fn ratio(num: i64, den: i64) -> (r: Option<Weight>)
        ensures
            r.is_some() <==> den != 0,
            r matches Some(w) ==> w@ == ratio_products(num as int, den as int),
    {
        if den == 0 {
            return None;
        }
        let abs_n: u128 = if num < 0 { (-(num as i128)) as u128 } else { num as u128 };
        let abs_d: u128 = if den < 0 { (-(den as i128)) as u128 } else { den as u128 };
        let negative: bool = (num < 0) != (den < 0);
        let mut products: [i32; 256] = [0i32; 256];
        let mut c: usize = 0;
        while c < 256
            invariant
                c <= 256,
                abs_n == magnitude(num as int),
                abs_d == magnitude(den as int),
                abs_d > 0,
                abs_n <= 0x8000_0000_0000_0000,
                negative == ((num < 0) != (den < 0)),
                forall|k: int|
                    0 <= k < c ==> products@[k] == ratio_product(k, num as int, den as int),
            decreases 256 - c,
        {
            assert(c * abs_n <= 255 * 0x8000_0000_0000_0000) by (nonlinear_arith)
                requires
                    c <= 255,
                    abs_n <= 0x8000_0000_0000_0000,
            ;
            let scaled: u128 = (c as u128) * abs_n;
            let m: u128 = scaled / abs_d;
            let value: i32 = if negative {
                if m > 0x8000_0000 {
                    i32::MIN
                } else {
                    (-(m as i64)) as i32
                }
            } else {
                if m > 0x7fff_ffff {
                    i32::MAX
                } else {
                    m as i32
                }
            };
            products[c] = value;
            c = c + 1;
        }
        Some(Weight { products })
    }

    /// A table has one entry for each of the 256 channel values.
    pub proof fn lemma_table_length(self)
        ensures
            self@.len() == 256,
    {
    }

    /// The product of channel value `c` with this multiplier.
    pub fn product(&self, c: u8) -> (p: i32)
        ensures
            p == product_of(self@, c),
    {
        self.products[c as usize]
    }
}

} // verus!
