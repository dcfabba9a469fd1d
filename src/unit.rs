use vstd::prelude::*;
use vstd::string::*;

verus! {

/// An immutable descriptor of one named unit of a quantity family.
///
/// `in_base` is the number of this unit that make one base unit of the
/// family: a value `v` in this unit is `v / in_base` base units. It must be
/// positive; nothing checks it.
pub struct Unit<V> {
    /// Short code, such as `m`.
    pub abbr: String,
    /// Display name for exactly one, such as `metre`.
    pub singular: String,
    /// Display name for any other amount, such as `metres`.
    pub plural: String,
    /// How many of this unit make one base unit.
    pub in_base: V,
}

/// Whether `token` is exactly one of the three names of `u`.
pub open spec fn names_match<V>(u: Unit<V>, token: Seq<char>) -> bool {
    token == u.abbr@ || token == u.singular@ || token == u.plural@
}

/// Whether a rendered number denotes exactly one: `1`, or `1.` followed
/// only by zeros.
pub open spec fn denotes_one(number: Seq<char>) -> bool {
    number == seq!['1'] || (number.len() >= 2 && number[0] == '1' && number[1] == '.'
        && forall|i: int| 2 <= i < number.len() ==> #[trigger] number[i] == '0')
}

/// The name that follows a rendered number: singular for exactly one,
/// plural for everything else.
pub open spec fn name_for<V>(u: Unit<V>, number: Seq<char>) -> Seq<char> {
    if denotes_one(number) {
        u.singular@
    } else {
        u.plural@
    }
}

impl<V: Copy> Clone for Unit<V> {
    fn clone(&self) -> (r: Self)
        ensures
            r == *self,
    {
        Unit {
            abbr: self.abbr.clone(),
            singular: self.singular.clone(),
            plural: self.plural.clone(),
            in_base: self.in_base,
        }
    }
}

impl<V: Copy> Unit<V> {
    /// Builds a unit from its three names and its factor to the base unit.
    /// The factor must be positive: with zero or less, conversions give
    /// meaningless (though never panicking) results.
    pub fn new(abbr: &str, singular: &str, plural: &str, in_base: V) -> (r: Self)
        ensures
            r.abbr@ == abbr@,
            r.singular@ == singular@,
            r.plural@ == plural@,
            r.in_base == in_base,
    {
        Unit {
            abbr: abbr.to_owned(),
            singular: singular.to_owned(),
            plural: plural.to_owned(),
            in_base,
        }
    }

    /// The abbreviation.
    pub fn get_abbr(&self) -> (r: &str)
        ensures
            r@ == self.abbr@,
    {
        self.abbr.as_str()
    }

    /// The singular name.
    pub fn get_singular(&self) -> (r: &str)
        ensures
            r@ == self.singular@,
    {
        self.singular.as_str()
    }

    /// The plural name.
    pub fn get_plural(&self) -> (r: &str)
        ensures
            r@ == self.plural@,
    {
        self.plural.as_str()
    }

    /// How many of this unit make one base unit.
    pub fn in_base(&self) -> (r: V)
        ensures
            r == self.in_base,
    {
        self.in_base
    }

    /// Whether `token` equals the abbreviation, the singular or the plural
    /// name exactly.
    pub fn is_named(&self, token: &str) -> (r: bool)
        ensures
            r == names_match(*self, token@),
    {
        let t = token.to_owned();
        t == self.abbr || t == self.singular || t == self.plural
    }

    /// `number` directly followed by the abbreviation, as in `1.50m`.
    pub fn display_abbr(&self, number: &str) -> (r: String)
        ensures
            r@ == number@ + self.abbr@,
    {
        let r = number.to_owned();
        r.concat(self.abbr.as_str())
    }

    /// `number`, one space and the singular name, as in `1.0 metre`.
    pub fn display_singular(&self, number: &str) -> (r: String)
        ensures
            r@ == number@ + seq![' '] + self.singular@,
    {
        let r = number.to_owned();
        let r = r.concat(" ");
        proof {
            reveal_strlit(" ");
        }
        r.concat(self.singular.as_str())
    }

    /// `number`, one space and the plural name, as in `1.50 metres`.
    pub fn display_plural(&self, number: &str) -> (r: String)
        ensures
            r@ == number@ + seq![' '] + self.plural@,
    {
        let r = number.to_owned();
        let r = r.concat(" ");
        proof {
            reveal_strlit(" ");
        }
        r.concat(self.plural.as_str())
    }

    /// `number`, one space and the name that fits it: the singular when
    /// `number` reads exactly one (`1`, `1.00`), the plural otherwise
    /// (`0 metres`, `1.5 metres`, `-1 metres`).
    pub fn display(&self, number: &str) -> (r: String)
        ensures
            r@ == number@ + seq![' '] + name_for(*self, number@),
    {
        if reads_one(number) {
            self.display_singular(number)
        } else {
            self.display_plural(number)
        }
    }
}

/// Whether a rendered number reads exactly one.
pub fn reads_one(number: &str) -> (r: bool)
    ensures
        r == denotes_one(number@),
{
    let n = number.unicode_len();
    if n == 0 || number.get_char(0) != '1' {
        return false;
    }
    if n == 1 {
        assert(number@ =~= seq!['1']);
        return true;
    }
    if number.get_char(1) != '.' {
        return false;
    }
    let mut i: usize = 2;
    while i < n
        invariant
            2 <= i <= n,
            n == number@.len(),
            number@[0] == '1',
            number@[1] == '.',
            forall|k: int| 2 <= k < i ==> #[trigger] number@[k] == '0',
        decreases n - i,
    {
        if number.get_char(i) != '0' {
            return false;
        }
        i = i + 1;
    }
    true
}

} // verus!
