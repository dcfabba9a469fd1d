use core::ops::{Add, Div, Mul, Sub};
use vstd::prelude::*;
use vstd::std_specs::cmp::PartialEqSpec;
use vstd::std_specs::ops::{AddSpec, DivSpec, MulSpec, SubSpec};

use crate::unit::Unit;
use crate::literal::literal_parts;
use crate::unit_list::{first_named, none_named, UnitList};

verus! {

/// Whether the magnitude type's arithmetic may be applied to any operands,
/// as IEEE floating point may (it never traps: a division by zero gives an
/// infinity or NaN).
pub open spec fn total_arith<V: Add<Output = V> + Sub<Output = V> + Mul<Output = V> + Div<
    Output = V,
>>() -> bool {
    &&& forall|a: V, b: V| #[trigger] a.add_req(b)
    &&& forall|a: V, b: V| #[trigger] a.sub_req(b)
    &&& forall|a: V, b: V| #[trigger] a.mul_req(b)
    &&& forall|a: V, b: V| #[trigger] a.div_req(b)
}

/// Whether the magnitude type's arithmetic has exact specifications.
pub open spec fn exact_arith<V: Add<Output = V> + Sub<Output = V> + Mul<Output = V> + Div<
    Output = V,
> + PartialEq>() -> bool {
    &&& V::obeys_add_spec()
    &&& V::obeys_sub_spec()
    &&& V::obeys_mul_spec()
    &&& V::obeys_div_spec()
    &&& V::obeys_eq_spec()
}

/// `val` in units of factor `from`, expressed in units of factor `to`:
/// `val` itself when the factors are equal, else `val / from * to`.
pub open spec fn converted<V: Mul<Output = V> + Div<Output = V> + PartialEq>(val: V, from: V, to: V) -> V {
    if from.eq_spec(&to) {
        val
    } else {
        val.div_spec(from).mul_spec(to)
    }
}

/// A magnitude bound to the unit it is expressed in.
///
/// The magnitude type also names the quantity family: measures, units and
/// lists of one family share it, so a family with a magnitude type of its
/// own (a newtype over a float) cannot be mixed with another.
#[derive(Clone, Copy)]
pub struct Measure<'a, V> {
    /// The unit `val` is expressed in.
    pub unit: &'a Unit<V>,
    /// The magnitude, in `unit`.
    pub val: V,
}

impl<'a, V: Copy + Add<Output = V> + Sub<Output = V> + Mul<Output = V> + Div<Output = V> + PartialEq> Measure<
    'a,
    V,
> {
    /// A measure of `val` in `unit`; nothing is converted.
    pub fn new(val: V, unit: &'a Unit<V>) -> (r: Self)
        ensures
            r.val == val,
            r.unit == unit,
    {
        Measure { unit, val }
    }

    /// Parses a literal such as `12m` against `system`: its number becomes
    /// the magnitude and the first unit of `system` that its token names
    /// becomes the unit. `None` when `val` is no literal, when its token
    /// names no unit of `system`, or when the magnitude type does not read
    /// the number.
    pub fn from_literal(system: &'a UnitList<V>, val: &str) -> (r: Option<Self>)
        where
            V: core::str::FromStr,
        ensures
            match r {
                Some(m) => exists|i: int, j: int, k: int, l: int, p: int|
                    #![trigger literal_parts(val@, i, j, k, l), system.units@[p]]
                    literal_parts(val@, i, j, k, l) && first_named(
                        system.units@,
                        val@.subrange(k, l),
                        p,
                    ) && *m.unit == system.units@[p],
                None => true,
            },
            (forall|i: int, j: int, k: int, l: int|
                #[trigger] literal_parts(val@, i, j, k, l) ==> none_named(
                    system.units@,
                    val@.subrange(k, l),
                )) ==> r is None,
    {
        match system.parse_str(val) {
            None => None,
            Some((v, unit)) => Some(Measure { unit, val: v }),
        }
    }

    /// The magnitude, in the stored unit.
    pub fn get_val(&self) -> (r: V)
        ensures
            r == self.val,
    {
        self.val
    }

    /// The stored unit.
    pub fn get_unit(&self) -> (r: &'a Unit<V>)
        ensures
            r == self.unit,
    {
        self.unit
    }

    /// `val`, given in `from`, expressed in `to`: `val / from.in_base *
    /// to.in_base`, or `val` itself, unchanged, when the two factors are
    /// equal (so converting into the same unit is exact).
    pub fn convert(val: V, from: &Unit<V>, to: &Unit<V>) -> (r: V)
        requires
            total_arith::<V>(),
        ensures
            V::obeys_eq_spec() && from.in_base.eq_spec(&to.in_base) ==> r == val,
            exact_arith::<V>() ==> r == converted(val, from.in_base, to.in_base),
    {
        if from.in_base == to.in_base {
            val
        } else {
            val / from.in_base * to.in_base
        }
    }

    /// The magnitude expressed in `unit`; the measure is left as it is.
    pub fn get_val_as(&self, unit: &Unit<V>) -> (r: V)
        requires
            total_arith::<V>(),
        ensures
            V::obeys_eq_spec() && self.unit.in_base.eq_spec(&unit.in_base) ==> r == self.val,
            exact_arith::<V>() ==> r == converted(self.val, self.unit.in_base, unit.in_base),
    {
        Self::convert(self.val, self.unit, unit)
    }

    /// Re-expresses the measure in `new_unit`: the magnitude is converted
    /// and the unit replaced together.
    pub fn convert_to(&mut self, new_unit: &'a Unit<V>)
        requires
            total_arith::<V>(),
        ensures
            final(self).unit == new_unit,
            V::obeys_eq_spec() && old(self).unit.in_base.eq_spec(&new_unit.in_base)
                ==> final(self).val == old(self).val,
            exact_arith::<V>() ==> final(self).val == converted(
                old(self).val,
                old(self).unit.in_base,
                new_unit.in_base,
            ),
    {
        let val = Self::convert(self.val, self.unit, new_unit);
        self.val = val;
        self.unit = new_unit;
    }

    /// Adds `other`, converted into this measure's unit; the unit stays.
    pub fn add_other(&mut self, other: &Self)
        requires
            total_arith::<V>(),
        ensures
            final(self).unit == old(self).unit,
            exact_arith::<V>() ==> final(self).val == old(self).val.add_spec(
                converted(other.val, other.unit.in_base, old(self).unit.in_base),
            ),
    {
        let c = other.get_val_as(self.unit);
        self.val = self.val + c;
    }

    /// Subtracts `other`, converted into this measure's unit; the unit
    /// stays.
    pub fn subtract_other(&mut self, other: &Self)
        requires
            total_arith::<V>(),
        ensures
            final(self).unit == old(self).unit,
            exact_arith::<V>() ==> final(self).val == old(self).val.sub_spec(
                converted(other.val, other.unit.in_base, old(self).unit.in_base),
            ),
    {
        let c = other.get_val_as(self.unit);
        self.val = self.val - c;
    }

    /// Whether `other`, converted into this measure's unit, has exactly
    /// this magnitude (no tolerance). This is the measure's equality; it is
    /// not offered as `==`, whose `eq` can carry no `total_arith`
    /// precondition for the conversion it needs.
    pub fn is_equal_to(&self, other: &Self) -> (r: bool)
        requires
            total_arith::<V>(),
        ensures
            exact_arith::<V>() ==> r == self.val.eq_spec(
                &converted(other.val, other.unit.in_base, self.unit.in_base),
            ),
    {
        let c = other.get_val_as(self.unit);
        self.val == c
    }
}

impl<'a, V> Add for Measure<'a, V> where
    V: Copy + Add<Output = V> + Sub<Output = V> + Mul<Output = V> + Div<Output = V> + PartialEq,
 {
    type Output = Self;

    fn add(self, other: Self) -> (r: Self)
        ensures
            r.unit == self.unit,
    {
        let c = other.get_val_as(self.unit);
        Measure { unit: self.unit, val: self.val + c }
    }
}

impl<'a, V> vstd::std_specs::ops::AddSpecImpl for Measure<'a, V> where
    V: Copy + Add<Output = V> + Sub<Output = V> + Mul<Output = V> + Div<Output = V> + PartialEq,
 {
    open spec fn obeys_add_spec() -> bool {
        exact_arith::<V>()
    }

    open spec fn add_req(self, rhs: Self) -> bool {
        total_arith::<V>()
    }

    open spec fn add_spec(self, rhs: Self) -> Self {
        Measure {
            unit: self.unit,
            val: self.val.add_spec(converted(rhs.val, rhs.unit.in_base, self.unit.in_base)),
        }
    }
}

impl<'a, V> Sub for Measure<'a, V> where
    V: Copy + Add<Output = V> + Sub<Output = V> + Mul<Output = V> + Div<Output = V> + PartialEq,
 {
    type Output = Self;

    fn sub(self, other: Self) -> (r: Self)
        ensures
            r.unit == self.unit,
    {
        let c = other.get_val_as(self.unit);
        Measure { unit: self.unit, val: self.val - c }
    }
}

impl<'a, V> vstd::std_specs::ops::SubSpecImpl for Measure<'a, V> where
    V: Copy + Add<Output = V> + Sub<Output = V> + Mul<Output = V> + Div<Output = V> + PartialEq,
 {
    open spec fn obeys_sub_spec() -> bool {
        exact_arith::<V>()
    }

    open spec fn sub_req(self, rhs: Self) -> bool {
        total_arith::<V>()
    }

    open spec fn sub_spec(self, rhs: Self) -> Self {
        Measure {
            unit: self.unit,
            val: self.val.sub_spec(converted(rhs.val, rhs.unit.in_base, self.unit.in_base)),
        }
    }
}

/// Adds `val2` into `val`, in `val`'s unit.
pub fn borrow<'a, V: Copy + Add<Output = V> + Sub<Output = V> + Mul<Output = V> + Div<Output = V> + PartialEq>(
    val: &mut Measure<'a, V>,
    val2: &Measure<'a, V>,
)
    requires
        total_arith::<V>(),
    ensures
        final(val).unit == old(val).unit,
        exact_arith::<V>() ==> final(val).val == old(val).val.add_spec(
            converted(val2.val, val2.unit.in_base, old(val).unit.in_base),
        ),
{
    val.add_other(val2);
}

} // verus!
