use vstd::prelude::*;

verus! {

/// Bit position of the overflow flag.
pub const V_BIT: u32 = 28;
/// Bit position of the carry flag.
pub const C_BIT: u32 = 29;
/// Bit position of the zero flag.
pub const Z_BIT: u32 = 30;
/// Bit position of the negative flag.
pub const N_BIT: u32 = 31;

/// Whether bit `b` of `x` is set.
pub open spec fn bit_of(x: u32, b: u32) -> bool {
    (x >> b) & 1 == 1
}

/// `x` with bit `b` set to `v`, every other bit kept.
pub open spec fn with_bit(x: u32, b: u32, v: bool) -> u32 {
    if v {
        x | (1u32 << b)
    } else {
        x & !(1u32 << b)
    }
}

/// The architecture's condition-code truth table over the four flags.
/// Only the low four bits of `cond` are significant; the value 15 (which
/// never reaches the conditional table) passes.
pub open spec fn cond_holds(n: bool, z: bool, c: bool, v: bool, cond: u32) -> bool {
    let k = cond % 16;
    if k == 0 {
        z
    } else if k == 1 {
        !z
    } else if k == 2 {
        c
    } else if k == 3 {
        !c
    } else if k == 4 {
        n
    } else if k == 5 {
        !n
    } else if k == 6 {
        v
    } else if k == 7 {
        !v
    } else if k == 8 {
        c && !z
    } else if k == 9 {
        !c || z
    } else if k == 10 {
        n == v
    } else if k == 11 {
        n != v
    } else if k == 12 {
        !z && n == v
    } else if k == 13 {
        z || n != v
    } else {
        true
    }
}

/// Program status register: one word holding the condition flags.
pub struct Psr(pub u32);

impl Psr {
    pub open spec fn spec_n(&self) -> bool {
        bit_of(self.0, N_BIT)
    }

    pub open spec fn spec_z(&self) -> bool {
        bit_of(self.0, Z_BIT)
    }

    pub open spec fn spec_c(&self) -> bool {
        bit_of(self.0, C_BIT)
    }

    pub open spec fn spec_v(&self) -> bool {
        bit_of(self.0, V_BIT)
    }

    /// Whether an instruction with condition field `cond` executes under
    /// these flags.
    pub open spec fn passes(&self, cond: u32) -> bool {
        cond_holds(self.spec_n(), self.spec_z(), self.spec_c(), self.spec_v(), cond)
    }

    pub fn new() -> (r: Self)
        ensures
            r.0 == 0,
            !r.spec_n() && !r.spec_z() && !r.spec_c() && !r.spec_v(),
    {
        assert(bit_of(0, 28) == false && bit_of(0, 29) == false && bit_of(0, 30) == false
            && bit_of(0, 31) == false) by (bit_vector);
        Psr(0)
    }

    fn get_bit(&self, b: u32) -> (r: bool)
        requires
            b < 32,
        ensures
            r == bit_of(self.0, b),
    {
        (self.0 >> b) & 1 == 1
    }

    fn put_bit(&mut self, b: u32, v: bool)
        requires
            b < 32,
        ensures
            final(self).0 == with_bit(old(self).0, b, v),
            bit_of(final(self).0, b) == v,
            forall|i: u32| i < 32 && i != b ==> bit_of(final(self).0, i) == bit_of(old(self).0, i),
    {
        let x = self.0;
        let y = if v {
            x | (1u32 << b)
        } else {
            x & !(1u32 << b)
        };
        assert(v ==> bit_of(x | (1u32 << b), b)) by (bit_vector)
            requires
                b < 32,
        ;
        assert(!v ==> !bit_of(x & !(1u32 << b), b)) by (bit_vector)
            requires
                b < 32,
        ;
        assert forall|i: u32| i < 32 && i != b implies bit_of(y, i) == bit_of(x, i) by {
            assert(i < 32 && i != b && b < 32 ==> bit_of(x | (1u32 << b), i) == bit_of(x, i)
                && bit_of(x & !(1u32 << b), i) == bit_of(x, i)) by (bit_vector);
        }
        self.0 = y;
    }

    /// Get carry.
    pub fn c(&self) -> (r: bool)
        ensures
            r == self.spec_c(),
    {
        self.get_bit(C_BIT)
    }

    /// Set carry.
    pub fn c_set(&mut self, v: bool)
        ensures
            final(self).0 == with_bit(old(self).0, C_BIT, v),
            final(self).spec_c() == v,
            final(self).spec_n() == old(self).spec_n(),
            final(self).spec_z() == old(self).spec_z(),
            final(self).spec_v() == old(self).spec_v(),
    {
        self.put_bit(C_BIT, v)
    }

    /// Get overflow.
    pub fn v(&self) -> (r: bool)
        ensures
            r == self.spec_v(),
    {
        self.get_bit(V_BIT)
    }

    /// Set overflow.
    pub fn v_set(&mut self, v: bool)
        ensures
            final(self).0 == with_bit(old(self).0, V_BIT, v),
            final(self).spec_v() == v,
            final(self).spec_n() == old(self).spec_n(),
            final(self).spec_z() == old(self).spec_z(),
            final(self).spec_c() == old(self).spec_c(),
    {
        self.put_bit(V_BIT, v)
    }

    /// Get zero.
    pub fn z(&self) -> (r: bool)
        ensures
            r == self.spec_z(),
    {
        self.get_bit(Z_BIT)
    }

    /// Set zero.
    pub fn z_set(&mut self, v: bool)
        ensures
            final(self).0 == with_bit(old(self).0, Z_BIT, v),
            final(self).spec_z() == v,
            final(self).spec_n() == old(self).spec_n(),
            final(self).spec_c() == old(self).spec_c(),
            final(self).spec_v() == old(self).spec_v(),
    {
        self.put_bit(Z_BIT, v)
    }

    /// Get negative.
    pub fn n(&self) -> (r: bool)
        ensures
            r == self.spec_n(),
    {
        self.get_bit(N_BIT)
    }

    /// Set negative.
    pub fn n_set(&mut self, v: bool)
        ensures
            final(self).0 == with_bit(old(self).0, N_BIT, v),
            final(self).spec_n() == v,
            final(self).spec_z() == old(self).spec_z(),
            final(self).spec_c() == old(self).spec_c(),
            final(self).spec_v() == old(self).spec_v(),
    {
        self.put_bit(N_BIT, v)
    }

    /// The whole register word.
    pub fn raw(&self) -> (r: u32)
        ensures
            r == self.0,
    {
        self.0
    }

    /// Evaluates a 4-bit condition field against the flags.
    pub fn condition_passed(&self, cond: u32) -> (r: bool)
        ensures
            r == self.passes(cond),
    {
        let n = self.n();
        let z = self.z();
        let c = self.c();
        let v = self.v();
        match cond % 16 {
            0 => z,
            1 => !z,
            2 => c,
            3 => !c,
            4 => n,
            5 => !n,
            6 => v,
            7 => !v,
            8 => c && !z,
            9 => !c || z,
            10 => n == v,
            11 => n != v,
            12 => !z && n == v,
            13 => z || n != v,
            _ => true,
        }
    }
}

impl Default for Psr {
    fn default() -> (r: Self)
        ensures
            r.0 == 0,
    {
        Psr::new()
    }
}

} // verus!
