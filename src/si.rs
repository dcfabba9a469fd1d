use vstd::prelude::*;

use crate::unit::Unit;

verus! {

/// An SI prefix, as in "centi" / "c" / 2 for centimetres.
pub struct SiEntry {
    /// Prefix put in front of the base unit's names ("deci").
    pub prefix: &'static str,
    /// Prefix put in front of the base unit's abbreviation ("d").
    pub abbr: &'static str,
    /// The prefix's power of ten, as the unit tables count it (1 for deci):
    /// the prefixed unit's factor to the base is ten to the minus this.
    pub power: i32,
}

/// The unit that `entry` makes of a base unit with the given names: the
/// entry's abbreviation in front of `abbr`, its prefix in front of both
/// names. `in_base` is the prefixed unit's factor to the base, ten to the
/// minus `entry.power` in the magnitude type, which the caller works out.
pub fn gen_si<V: Copy>(abbr: &str, singular: &str, plural: &str, entry: &SiEntry, in_base: V) -> (r: Unit<V>)
    ensures
        r.abbr@ == entry.abbr@ + abbr@,
        r.singular@ == entry.prefix@ + singular@,
        r.plural@ == entry.prefix@ + plural@,
        r.in_base == in_base,
{
    let a = entry.abbr.to_owned().concat(abbr);
    let s = entry.prefix.to_owned().concat(singular);
    let p = entry.prefix.to_owned().concat(plural);
    Unit { abbr: a, singular: s, plural: p, in_base }
}

} // verus!
