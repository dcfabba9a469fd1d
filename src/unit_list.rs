use vstd::prelude::*;
use vstd::std_specs::cmp::PartialEqSpec;

use crate::literal::{compact_number, literal_parts, split_literal, without_spaces};
use crate::unit::{names_match, Unit};

verus! {

/// An ordered registry of the units of one system, such as "SI".
///
/// Order decides lookups: the first unit that a token names wins. Units
/// with equal names and an equal factor count as one entry when lists are
/// merged, whichever value they were copied from.
pub struct UnitList<V> {
    /// Human label of the system.
    pub title: String,
    /// The units, in registration order.
    pub units: Vec<Unit<V>>,
}

/// Whether `i` is the first position in `units` whose unit is named `token`.
pub open spec fn first_named<V>(units: Seq<Unit<V>>, token: Seq<char>, i: int) -> bool {
    &&& 0 <= i < units.len()
    &&& names_match(units[i], token)
    &&& forall|j: int| 0 <= j < i ==> !names_match(#[trigger] units[j], token)
}

/// Whether no unit in `units` is named `token`.
pub open spec fn none_named<V>(units: Seq<Unit<V>>, token: Seq<char>) -> bool {
    forall|j: int| 0 <= j < units.len() ==> !names_match(#[trigger] units[j], token)
}

/// Two units that a registry treats as the same entry: equal names and an
/// equal factor.
pub open spec fn same_unit<V: PartialEq>(a: Unit<V>, b: Unit<V>) -> bool {
    &&& a.abbr@ == b.abbr@
    &&& a.singular@ == b.singular@
    &&& a.plural@ == b.plural@
    &&& a.in_base.eq_spec(&b.in_base)
}

/// Whether `units` already holds an entry that is the same as `u`.
pub open spec fn holds_unit<V: PartialEq>(units: Seq<Unit<V>>, u: Unit<V>) -> bool {
    exists|i: int| 0 <= i < units.len() && same_unit(#[trigger] units[i], u)
}

/// Whether `u` is one of the entries of `units`.
pub open spec fn listed<V>(units: Seq<Unit<V>>, u: Unit<V>) -> bool {
    exists|j: int| 0 <= j < units.len() && units[j] == u
}

/// `cur` after appending, in order, each entry of `other` that is not
/// already held at the time it is reached.
pub open spec fn merged<V: PartialEq>(cur: Seq<Unit<V>>, other: Seq<Unit<V>>) -> Seq<Unit<V>>
    decreases other.len(),
{
    if other.len() == 0 {
        cur
    } else {
        let next = if holds_unit(cur, other[0]) {
            cur
        } else {
            cur.push(other[0])
        };
        merged(next, other.drop_first())
    }
}

/// Merging entries that are all held already leaves the list as it is.
proof fn lemma_merge_held<V: PartialEq>(cur: Seq<Unit<V>>, other: Seq<Unit<V>>)
    requires
        forall|j: int| 0 <= j < other.len() ==> holds_unit(cur, #[trigger] other[j]),
    ensures
        merged(cur, other) == cur,
    decreases other.len(),
{
    if other.len() > 0 {
        assert(holds_unit(cur, other[0]));
        let rest = other.drop_first();
        assert forall|j: int| 0 <= j < rest.len() implies holds_unit(cur, #[trigger] rest[j]) by {
            assert(rest[j] == other[j + 1]);
        }
        lemma_merge_held(cur, rest);
    }
}

/// Merging a list's own units into it leaves the list unchanged, and so
/// does merging them a second time: no entry is ever duplicated. This
/// needs each unit's factor to equal itself.
pub proof fn merge_into_itself_twice<V: PartialEq>(units: Seq<Unit<V>>)
    requires
        forall|i: int| 0 <= i < units.len() ==> #[trigger] units[i].in_base.eq_spec(&units[i].in_base),
    ensures
        merged(units, units) == units,
        merged(merged(units, units), units) == units,
{
    assert forall|j: int| 0 <= j < units.len() implies holds_unit(units, #[trigger] units[j]) by {
        assert(same_unit(units[j], units[j]));
    }
    lemma_merge_held(units, units);
}

/// Whether `a` and `b` are the same registry entry.
pub fn is_same_unit<V: Copy + PartialEq>(a: &Unit<V>, b: &Unit<V>) -> (r: bool)
    ensures
        V::obeys_eq_spec() ==> r == same_unit(*a, *b),
{
    a.abbr == b.abbr && a.singular == b.singular && a.plural == b.plural && a.in_base == b.in_base
}

impl<V: Copy> UnitList<V> {
    /// A registry with the given label and units, in that order.
    pub fn new(title: &str, units: Vec<Unit<V>>) -> (r: Self)
        ensures
            r.title@ == title@,
            r.units == units,
    {
        UnitList { title: title.to_owned(), units }
    }

    /// The label of this system.
    pub fn get_title(&self) -> (r: &str)
        ensures
            r@ == self.title@,
    {
        self.title.as_str()
    }

    /// The units, in registration order.
    pub fn get_list(&self) -> (r: &Vec<Unit<V>>)
        ensures
            r == self.units,
    {
        &self.units
    }

    /// The units, for the caller to change in place; the label stays.
    pub fn get_list_mut(&mut self) -> (r: &mut Vec<Unit<V>>)
        ensures
            *r == old(self).units,
            *final(self) == (UnitList { title: old(self).title, units: *final(r) }),
    {
        &mut self.units
    }

    /// The first unit, in list order, that `unit_str` names exactly by its
    /// abbreviation, its singular or its plural; `None` when none does.
    pub fn find_in_list(&self, unit_str: &str) -> (r: Option<&Unit<V>>)
        ensures
            match r {
                Some(u) => exists|i: int|
                    first_named(self.units@, unit_str@, i) && *u == #[trigger] self.units@[i],
                None => none_named(self.units@, unit_str@),
            },
    {
        let mut i: usize = 0;
        while i < self.units.len()
            invariant
                0 <= i <= self.units@.len(),
                forall|j: int| 0 <= j < i ==> !names_match(#[trigger] self.units@[j], unit_str@),
            decreases self.units@.len() - i,
        {
            if self.units[i].is_named(unit_str) {
                assert(first_named(self.units@, unit_str@, i as int));
                return Some(&self.units[i]);
            }
            i = i + 1;
        }
        None
    }
}

/// Relies on `str::parse` through the magnitude type's `FromStr`: the value
/// is whatever that impl reads from `digits`; a refusal becomes `None`.
#[verifier::external_body]
fn parse_number<V: core::str::FromStr>(digits: &str) -> (r: Option<V>) {
    digits.parse::<V>().ok()
}

impl<V: Copy> UnitList<V> {
    /// Reads a literal such as `"12.5 m"` against this list: the number
    /// text with its blanks taken out, and the first unit that the token
    /// names. `None` when `text` is no literal or its token names no unit
    /// of the list; the two are not told apart.
    pub fn read_literal(&self, text: &str) -> (r: Option<(String, &Unit<V>)>)
        ensures
            match r {
                Some((digits, u)) => exists|i: int, j: int, k: int, l: int, p: int|
                    #![trigger literal_parts(text@, i, j, k, l), self.units@[p]]
                    literal_parts(text@, i, j, k, l) && digits@ == without_spaces(
                        text@.subrange(i, j),
                    ) && first_named(self.units@, text@.subrange(k, l), p) && *u
                        == self.units@[p],
                None => forall|i: int, j: int, k: int, l: int|
                    #[trigger] literal_parts(text@, i, j, k, l) ==> none_named(
                        self.units@,
                        text@.subrange(k, l),
                    ),
            },
    {
        match split_literal(text) {
            None => None,
            Some((num, word)) => {
                let ghost (i, j, k, l) = choose|i: int, j: int, k: int, l: int|
                    literal_parts(text@, i, j, k, l) && num@ == text@.subrange(i, j) && word@
                        == text@.subrange(k, l);
                proof {
                    assert forall|i2: int, j2: int, k2: int, l2: int|
                        #[trigger] literal_parts(text@, i2, j2, k2, l2) implies k2 == k && l2
                        == l by {
                        crate::literal::literal_reads_one_way(text@, i, j, k, l, i2, j2, k2, l2);
                    }
                }
                match self.find_in_list(word.as_str()) {
                    None => None,
                    Some(u) => {
                        let digits = compact_number(num.as_str());
                        Some((digits, u))
                    },
                }
            },
        }
    }

    /// Parses a literal such as `"12.5 m"` into its value and the first
    /// unit of this list that its token names. `None` when `text` is no
    /// literal, when its token names no unit here, or when the magnitude
    /// type does not read the number.
    pub fn parse_str(&self, test_val: &str) -> (r: Option<(V, &Unit<V>)>)
        where
            V: core::str::FromStr,
        ensures
            match r {
                Some((_, u)) => exists|i: int, j: int, k: int, l: int, p: int|
                    #![trigger literal_parts(test_val@, i, j, k, l), self.units@[p]]
                    literal_parts(test_val@, i, j, k, l) && first_named(
                        self.units@,
                        test_val@.subrange(k, l),
                        p,
                    ) && *u == self.units@[p],
                None => true,
            },
            (forall|i: int, j: int, k: int, l: int|
                #[trigger] literal_parts(test_val@, i, j, k, l) ==> none_named(
                    self.units@,
                    test_val@.subrange(k, l),
                )) ==> r is None,
    {
        match self.read_literal(test_val) {
            None => None,
            Some((digits, u)) => match parse_number::<V>(digits.as_str()) {
                None => None,
                Some(v) => Some((v, u)),
            },
        }
    }
}

impl<V: Copy + PartialEq> UnitList<V> {
    /// Whether the list already holds an entry that is the same as `u`.
    pub fn holds(&self, u: &Unit<V>) -> (r: bool)
        ensures
            V::obeys_eq_spec() ==> r == holds_unit(self.units@, *u),
    {
        let mut i: usize = 0;
        while i < self.units.len()
            invariant
                0 <= i <= self.units@.len(),
                V::obeys_eq_spec() ==> forall|j: int|
                    0 <= j < i ==> !same_unit(#[trigger] self.units@[j], *u),
            decreases self.units@.len() - i,
        {
            if is_same_unit(&self.units[i], u) {
                return true;
            }
            i = i + 1;
        }
        false
    }

    /// Appends each entry of `other` that the list does not hold yet, in
    /// `other`'s order. An entry is held when a listed unit has the same
    /// three names and an equal factor: equal units count as one entry.
    /// Nothing already in the list moves or leaves.
    pub fn merge_other(&mut self, other: &Vec<Unit<V>>)
        ensures
            final(self).title == old(self).title,
            old(self).units@.len() <= final(self).units@.len(),
            final(self).units@.subrange(0, old(self).units@.len() as int) == old(self).units@,
            forall|k: int|
                old(self).units@.len() <= k < final(self).units@.len() ==> listed(
                    other@,
                    #[trigger] final(self).units@[k],
                ),
            V::obeys_eq_spec() ==> final(self).units@ == merged(old(self).units@, other@),
    {
        let ghost start = self.units@;
        assert(other@.subrange(0, other@.len() as int) =~= other@);
        let mut i: usize = 0;
        while i < other.len()
            invariant
                0 <= i <= other@.len(),
                self.title == old(self).title,
                start == old(self).units@,
                start.len() <= self.units@.len(),
                self.units@.subrange(0, start.len() as int) == start,
                forall|k: int|
                    start.len() <= k < self.units@.len() ==> listed(other@, #[trigger] self.units@[k]),
                V::obeys_eq_spec() ==> merged(start, other@) == merged(
                    self.units@,
                    other@.subrange(i as int, other@.len() as int),
                ),
            decreases other@.len() - i,
        {
            let ghost before = self.units@;
            let ghost rest = other@.subrange(i as int, other@.len() as int);
            assert(rest.drop_first() =~= other@.subrange(i + 1, other@.len() as int));
            assert(rest[0] == other@[i as int]);
            if !self.holds(&other[i]) {
                let u = other[i].clone();
                self.units.push(u);
                assert(self.units@[self.units@.len() - 1] == other@[i as int]);
            }
            assert forall|k: int|
                start.len() <= k < self.units@.len() implies listed(
                    other@,
                    #[trigger] self.units@[k],
                ) by {
                if k < before.len() {
                    assert(self.units@[k] == before[k]);
                } else {
                    assert(self.units@[k] == other@[i as int]);
                }
            }
            assert(self.units@.subrange(0, start.len() as int) =~= start);
            i = i + 1;
        }
        assert(other@.subrange(other@.len() as int, other@.len() as int) =~= Seq::<Unit<V>>::empty());
    }
}

} // verus!
