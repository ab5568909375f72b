//! Arma's unit loadout array.

use vstd::prelude::*;

use crate::text::{literal, plain_element, plain_name};
use crate::text::string_from_chars;
use crate::value::from_arma::{
    array_text, literal_chars, write_array, lemma_plain_literal, lemma_string_literal_round_trip, lemma_tuple_parts_of_array,
    ErrorView, FromArma, FromArmaError,
};
use crate::value::loadout::assigned::{
    assigned_names_plain, assigned_text, lemma_assigned_text_plain, lemma_assigned_text_round_trip,
};
use crate::value::loadout::container::{
    container_names_plain, container_text, lemma_container_text_plain,
    lemma_container_text_round_trip,
};
use crate::value::loadout::weapon::{
    lemma_weapon_text_plain, lemma_weapon_text_round_trip, weapon_names_plain, weapon_text,
};
use crate::value::loadout::{AssignedItems, Container, Weapon};

verus! {

/// Arma Unit Loadout Array
#[derive(Debug, Clone, PartialEq, Eq)]
pub struct Loadout(
    Weapon,
    Weapon,
    Weapon,
    Container,
    Container,
    Container,
    String,
    String,
    Weapon,
    AssignedItems,
);

/// The deep view of a loadout: one entry per slot
pub type LoadoutView = (
    <Weapon as DeepView>::V,
    <Weapon as DeepView>::V,
    <Weapon as DeepView>::V,
    <Container as DeepView>::V,
    <Container as DeepView>::V,
    <Container as DeepView>::V,
    Seq<char>,
    Seq<char>,
    <Weapon as DeepView>::V,
    <AssignedItems as DeepView>::V,
);

impl DeepView for Loadout {
    type V = LoadoutView;

    closed spec fn deep_view(&self) -> LoadoutView {
        (
            self.0.deep_view(),
            self.1.deep_view(),
            self.2.deep_view(),
            self.3.deep_view(),
            self.4.deep_view(),
            self.5.deep_view(),
            self.6@,
            self.7@,
            self.8.deep_view(),
            self.9.deep_view(),
        )
    }
}

impl Default for Loadout {
    fn default() -> (r: Self)
        ensures
            r.deep_view().0 is None,
            r.deep_view().1 is None,
            r.deep_view().2 is None,
            r.deep_view().3 is None,
            r.deep_view().4 is None,
            r.deep_view().5 is None,
            r.deep_view().6 == Seq::<char>::empty(),
            r.deep_view().7 == Seq::<char>::empty(),
            r.deep_view().8 is None,
            r.deep_view().9 == AssignedItems::default_view(),
    {
        Loadout(
            Weapon::default(),
            Weapon::default(),
            Weapon::default(),
            Container::default(),
            Container::default(),
            Container::default(),
            String::new(),
            String::new(),
            Weapon::default(),
            AssignedItems::default(),
        )
    }
}

impl Loadout {
    /// Get the primary weapon
    pub fn primary(&self) -> (r: &Weapon)
        ensures
            r.deep_view() == self.deep_view().0,
    {
        &self.0
    }

    /// Get the primary weapon mutably
    pub fn primary_mut(&mut self) -> (r: &mut Weapon)
        ensures
            r.deep_view() == old(self).deep_view().0,
            final(self).deep_view() == (final(r).deep_view(), old(self).deep_view().1, old(self).deep_view().2, old(self).deep_view().3, old(self).deep_view().4, old(self).deep_view().5, old(self).deep_view().6, old(self).deep_view().7, old(self).deep_view().8, old(self).deep_view().9),
    {
        &mut self.0
    }

    /// Set the primary weapon
    pub fn set_primary(&mut self, primary: Weapon)
        ensures
            final(self).deep_view() == (primary.deep_view(), old(self).deep_view().1, old(self).deep_view().2, old(self).deep_view().3, old(self).deep_view().4, old(self).deep_view().5, old(self).deep_view().6, old(self).deep_view().7, old(self).deep_view().8, old(self).deep_view().9),
    {
        self.0 = primary;
    }

    /// Get the secondary weapon (launcher)
    pub fn secondary(&self) -> (r: &Weapon)
        ensures
            r.deep_view() == self.deep_view().1,
    {
        &self.1
    }

    /// Get the secondary weapon (launcher) mutably
    pub fn secondary_mut(&mut self) -> (r: &mut Weapon)
        ensures
            r.deep_view() == old(self).deep_view().1,
            final(self).deep_view() == (old(self).deep_view().0, final(r).deep_view(), old(self).deep_view().2, old(self).deep_view().3, old(self).deep_view().4, old(self).deep_view().5, old(self).deep_view().6, old(self).deep_view().7, old(self).deep_view().8, old(self).deep_view().9),
    {
        &mut self.1
    }

    /// Set the secondary weapon (launcher)
    pub fn set_secondary(&mut self, secondary: Weapon)
        ensures
            final(self).deep_view() == (old(self).deep_view().0, secondary.deep_view(), old(self).deep_view().2, old(self).deep_view().3, old(self).deep_view().4, old(self).deep_view().5, old(self).deep_view().6, old(self).deep_view().7, old(self).deep_view().8, old(self).deep_view().9),
    {
        self.1 = secondary;
    }

    /// Get the handgun weapon
    pub fn handgun(&self) -> (r: &Weapon)
        ensures
            r.deep_view() == self.deep_view().2,
    {
        &self.2
    }

    /// Get the handgun weapon mutably
    pub fn handgun_mut(&mut self) -> (r: &mut Weapon)
        ensures
            r.deep_view() == old(self).deep_view().2,
            final(self).deep_view() == (old(self).deep_view().0, old(self).deep_view().1, final(r).deep_view(), old(self).deep_view().3, old(self).deep_view().4, old(self).deep_view().5, old(self).deep_view().6, old(self).deep_view().7, old(self).deep_view().8, old(self).deep_view().9),
    {
        &mut self.2
    }

    /// Set the handgun weapon
    pub fn set_handgun(&mut self, handgun: Weapon)
        ensures
            final(self).deep_view() == (old(self).deep_view().0, old(self).deep_view().1, handgun.deep_view(), old(self).deep_view().3, old(self).deep_view().4, old(self).deep_view().5, old(self).deep_view().6, old(self).deep_view().7, old(self).deep_view().8, old(self).deep_view().9),
    {
        self.2 = handgun;
    }

    /// Get the uniform
    pub fn uniform(&self) -> (r: &Container)
        ensures
            r.deep_view() == self.deep_view().3,
    {
        &self.3
    }

    /// Get the uniform mutably
    pub fn uniform_mut(&mut self) -> (r: &mut Container)
        ensures
            r.deep_view() == old(self).deep_view().3,
            final(self).deep_view() == (old(self).deep_view().0, old(self).deep_view().1, old(self).deep_view().2, final(r).deep_view(), old(self).deep_view().4, old(self).deep_view().5, old(self).deep_view().6, old(self).deep_view().7, old(self).deep_view().8, old(self).deep_view().9),
    {
        &mut self.3
    }

    /// Set the uniform
    pub fn set_uniform(&mut self, uniform: Container)
        ensures
            final(self).deep_view() == (old(self).deep_view().0, old(self).deep_view().1, old(self).deep_view().2, uniform.deep_view(), old(self).deep_view().4, old(self).deep_view().5, old(self).deep_view().6, old(self).deep_view().7, old(self).deep_view().8, old(self).deep_view().9),
    {
        self.3 = uniform;
    }

    /// Get the vest
    pub fn vest(&self) -> (r: &Container)
        ensures
            r.deep_view() == self.deep_view().4,
    {
        &self.4
    }

    /// Get the vest mutably
    pub fn vest_mut(&mut self) -> (r: &mut Container)
        ensures
            r.deep_view() == old(self).deep_view().4,
            final(self).deep_view() == (old(self).deep_view().0, old(self).deep_view().1, old(self).deep_view().2, old(self).deep_view().3, final(r).deep_view(), old(self).deep_view().5, old(self).deep_view().6, old(self).deep_view().7, old(self).deep_view().8, old(self).deep_view().9),
    {
        &mut self.4
    }

    /// Set the vest
    pub fn set_vest(&mut self, vest: Container)
        ensures
            final(self).deep_view() == (old(self).deep_view().0, old(self).deep_view().1, old(self).deep_view().2, old(self).deep_view().3, vest.deep_view(), old(self).deep_view().5, old(self).deep_view().6, old(self).deep_view().7, old(self).deep_view().8, old(self).deep_view().9),
    {
        self.4 = vest;
    }

    /// Get the backpack
    pub fn backpack(&self) -> (r: &Container)
        ensures
            r.deep_view() == self.deep_view().5,
    {
        &self.5
    }

    /// Get the backpack mutably
    pub fn backpack_mut(&mut self) -> (r: &mut Container)
        ensures
            r.deep_view() == old(self).deep_view().5,
            final(self).deep_view() == (old(self).deep_view().0, old(self).deep_view().1, old(self).deep_view().2, old(self).deep_view().3, old(self).deep_view().4, final(r).deep_view(), old(self).deep_view().6, old(self).deep_view().7, old(self).deep_view().8, old(self).deep_view().9),
    {
        &mut self.5
    }

    /// Set the backpack
    pub fn set_backpack(&mut self, backpack: Container)
        ensures
            final(self).deep_view() == (old(self).deep_view().0, old(self).deep_view().1, old(self).deep_view().2, old(self).deep_view().3, old(self).deep_view().4, backpack.deep_view(), old(self).deep_view().6, old(self).deep_view().7, old(self).deep_view().8, old(self).deep_view().9),
    {
        self.5 = backpack;
    }

    /// The class name of the current headgear
    pub fn headgear(&self) -> (r: &str)
        ensures
            r@ == self.deep_view().6,
    {
        self.6.as_str()
    }

    /// Set the class name of the current headgear
    pub fn set_headgear(&mut self, headgear: String)
        ensures
            final(self).deep_view() == (old(self).deep_view().0, old(self).deep_view().1, old(self).deep_view().2, old(self).deep_view().3, old(self).deep_view().4, old(self).deep_view().5, headgear@, old(self).deep_view().7, old(self).deep_view().8, old(self).deep_view().9),
    {
        self.6 = headgear;
    }

    /// The class name of the current goggles / facewear
    pub fn goggles(&self) -> (r: &str)
        ensures
            r@ == self.deep_view().7,
    {
        self.7.as_str()
    }

    /// Set the class name of the current goggles / facewear
    pub fn set_goggles(&mut self, goggles: String)
        ensures
            final(self).deep_view() == (old(self).deep_view().0, old(self).deep_view().1, old(self).deep_view().2, old(self).deep_view().3, old(self).deep_view().4, old(self).deep_view().5, old(self).deep_view().6, goggles@, old(self).deep_view().8, old(self).deep_view().9),
    {
        self.7 = goggles;
    }

    /// Get the binocular
    pub fn binoculars(&self) -> (r: &Weapon)
        ensures
            r.deep_view() == self.deep_view().8,
    {
        &self.8
    }

    /// Get the binocular mutably
    pub fn binoculars_mut(&mut self) -> (r: &mut Weapon)
        ensures
            r.deep_view() == old(self).deep_view().8,
            final(self).deep_view() == (old(self).deep_view().0, old(self).deep_view().1, old(self).deep_view().2, old(self).deep_view().3, old(self).deep_view().4, old(self).deep_view().5, old(self).deep_view().6, old(self).deep_view().7, final(r).deep_view(), old(self).deep_view().9),
    {
        &mut self.8
    }

    /// Set the binocular
    pub fn set_binoculars(&mut self, binoculars: Weapon)
        ensures
            final(self).deep_view() == (old(self).deep_view().0, old(self).deep_view().1, old(self).deep_view().2, old(self).deep_view().3, old(self).deep_view().4, old(self).deep_view().5, old(self).deep_view().6, old(self).deep_view().7, binoculars.deep_view(), old(self).deep_view().9),
    {
        self.8 = binoculars;
    }

    /// Get the assigned items
    pub fn assigned_items(&self) -> (r: &AssignedItems)
        ensures
            r.deep_view() == self.deep_view().9,
    {
        &self.9
    }

    /// Get the assigned items mutably
    pub fn assigned_items_mut(&mut self) -> (r: &mut AssignedItems)
        ensures
            r.deep_view() == old(self).deep_view().9,
            final(self).deep_view() == (old(self).deep_view().0, old(self).deep_view().1, old(self).deep_view().2, old(self).deep_view().3, old(self).deep_view().4, old(self).deep_view().5, old(self).deep_view().6, old(self).deep_view().7, old(self).deep_view().8, final(r).deep_view()),
    {
        &mut self.9
    }

    /// Set the assigned items
    pub fn set_assigned_items(&mut self, assigned_items: AssignedItems)
        ensures
            final(self).deep_view() == (old(self).deep_view().0, old(self).deep_view().1, old(self).deep_view().2, old(self).deep_view().3, old(self).deep_view().4, old(self).deep_view().5, old(self).deep_view().6, old(self).deep_view().7, old(self).deep_view().8, assigned_items.deep_view()),
    {
        self.9 = assigned_items;
    }
}

/// The elements Arma writes for a loadout, one per slot
pub open spec fn loadout_parts(l: LoadoutView) -> Seq<Seq<char>> {
    seq![
        weapon_text(l.0),
        weapon_text(l.1),
        weapon_text(l.2),
        container_text(l.3),
        container_text(l.4),
        container_text(l.5),
        literal(l.6),
        literal(l.7),
        weapon_text(l.8),
        assigned_text(l.9),
    ]
}

/// The text Arma writes for a loadout: the array of its ten slots
pub open spec fn loadout_text(l: LoadoutView) -> Seq<char> {
    array_text(loadout_parts(l))
}

/// Every class name in a loadout is a plain name.
pub open spec fn loadout_names_plain(l: LoadoutView) -> bool {
    &&& weapon_names_plain(l.0)
    &&& weapon_names_plain(l.1)
    &&& weapon_names_plain(l.2)
    &&& container_names_plain(l.3)
    &&& container_names_plain(l.4)
    &&& container_names_plain(l.5)
    &&& plain_name(l.6)
    &&& plain_name(l.7)
    &&& weapon_names_plain(l.8)
    &&& assigned_names_plain(l.9)
}

/// A loadout written as Arma writes one (the text of `getUnitLoadout`) is read
/// back as that loadout, for class names without double quotes, commas or
/// brackets.
pub proof fn lemma_loadout_text_round_trip(l: LoadoutView)
    requires
        loadout_names_plain(l),
    ensures
        <Loadout as FromArma>::spec_from_arma(loadout_text(l)) == Ok::<LoadoutView, ErrorView>(l),
{
    lemma_weapon_text_plain(l.0);
    lemma_weapon_text_plain(l.1);
    lemma_weapon_text_plain(l.2);
    lemma_container_text_plain(l.3);
    lemma_container_text_plain(l.4);
    lemma_container_text_plain(l.5);
    lemma_plain_literal(l.6);
    lemma_plain_literal(l.7);
    lemma_weapon_text_plain(l.8);
    lemma_assigned_text_plain(l.9);
    let parts = loadout_parts(l);
    assert forall|k: int| 0 <= k < parts.len() implies plain_element(#[trigger] parts[k]) by {}
    lemma_tuple_parts_of_array(parts);
    lemma_weapon_text_round_trip(l.0);
    lemma_weapon_text_round_trip(l.1);
    lemma_weapon_text_round_trip(l.2);
    lemma_container_text_round_trip(l.3);
    lemma_container_text_round_trip(l.4);
    lemma_container_text_round_trip(l.5);
    lemma_string_literal_round_trip(l.6);
    lemma_string_literal_round_trip(l.7);
    lemma_weapon_text_round_trip(l.8);
    lemma_assigned_text_round_trip(l.9);
}

impl Loadout {
    /// Writes the text Arma writes for the loadout (that of `getUnitLoadout`):
    /// the array of its ten slots. `from_arma` reads it back as the same
    /// loadout when no class name holds a double quote, comma or bracket
    /// (`lemma_loadout_text_round_trip`).
    pub fn arma_text(&self) -> (r: String)
        ensures
            r@ == loadout_text(self.deep_view()),
    {
        let mut parts: Vec<Vec<char>> = Vec::new();
        let p0 = self.0.text_chars();
        let p1 = self.1.text_chars();
        let p2 = self.2.text_chars();
        let p3 = self.3.text_chars();
        let p4 = self.4.text_chars();
        let p5 = self.5.text_chars();
        let p6 = literal_chars(self.6.as_str());
        let p7 = literal_chars(self.7.as_str());
        let p8 = self.8.text_chars();
        let p9 = self.9.text_chars();
        assert(p0.deep_view() =~= p0@ && p1.deep_view() =~= p1@ && p2.deep_view() =~= p2@);
        assert(p3.deep_view() =~= p3@ && p4.deep_view() =~= p4@ && p5.deep_view() =~= p5@);
        assert(p6.deep_view() =~= p6@ && p7.deep_view() =~= p7@ && p8.deep_view() =~= p8@);
        assert(p9.deep_view() =~= p9@);
        parts.push(p0);
        parts.push(p1);
        parts.push(p2);
        parts.push(p3);
        parts.push(p4);
        parts.push(p5);
        parts.push(p6);
        parts.push(p7);
        parts.push(p8);
        parts.push(p9);
        assert(parts.deep_view() =~= loadout_parts(self.deep_view()));
        let t = write_array(&parts);
        string_from_chars(t.as_slice())
    }
}

impl FromArma for Loadout {
    /// The ten element array of the loadout's slots
    open spec fn spec_from_arma(s: Seq<char>) -> Result<LoadoutView, ErrorView> {
        <(Weapon, Weapon, Weapon, Container, Container, Container, String, String, Weapon, AssignedItems) as FromArma>::spec_from_arma(s)
    }

    fn from_arma(s: String) -> (r: Result<Self, FromArmaError>) {
        match <(Weapon, Weapon, Weapon, Container, Container, Container, String, String, Weapon, AssignedItems) as FromArma>::from_arma(s) {
            Ok((p, s, h, u, v, b, hg, g, bi, a)) => Ok(Loadout(p, s, h, u, v, b, hg, g, bi, a)),
            Err(e) => Err(e),
        }
    }
}

} // verus!
