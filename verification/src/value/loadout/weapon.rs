//! A primary, secondary, or handgun weapon.

use vstd::prelude::*;

use crate::text::{lemma_plain_array, literal, plain_element, plain_name};
use crate::text::string_from_chars;
use crate::value::from_arma::{
    array_text, literal_chars, write_array, lemma_plain_literal, lemma_string_literal_round_trip, lemma_tuple_parts_of_array,
    ErrorView, FromArma, FromArmaError,
};
use crate::value::loadout::magazine::{
    lemma_magazine_text_plain, lemma_magazine_text_round_trip, magazine_names_plain, magazine_text,
};
use crate::value::loadout::Magazine;

verus! {

/// The deep view of a weapon that exists: class, suppressor, pointer, optic,
/// primary magazine, secondary magazine, bipod
pub type WeaponView = (
    Seq<char>,
    Seq<char>,
    Seq<char>,
    Seq<char>,
    Option<(Seq<char>, u32)>,
    Option<(Seq<char>, u32)>,
    Seq<char>,
);

/// A primary, secondary, or handgun weapon
#[derive(Debug, Clone, PartialEq, Eq)]
pub struct Weapon(Option<(String, String, String, String, Magazine, Magazine, String)>);

impl DeepView for Weapon {
    type V = Option<WeaponView>;

    closed spec fn deep_view(&self) -> Option<WeaponView> {
        match self.0 {
            Some(w) => Some(w.deep_view()),
            None => None,
        }
    }
}

impl Default for Weapon {
    fn default() -> (r: Self)
        ensures
            r.deep_view() is None,
    {
        Weapon(None)
    }
}

/// A weapon of the given class with nothing attached
pub open spec fn bare_weapon(class: Seq<char>) -> WeaponView {
    (class, Seq::empty(), Seq::empty(), Seq::empty(), None, None, Seq::empty())
}

impl Weapon {
    /// Create a new weapon
    pub fn new(class: String) -> (r: Self)
        ensures
            r.deep_view() == Some(bare_weapon(class@)),
    {
        let r = Weapon(
            Some(
                (
                    class,
                    String::new(),
                    String::new(),
                    String::new(),
                    Magazine::default(),
                    Magazine::default(),
                    String::new(),
                ),
            ),
        );
        assert(r.deep_view().unwrap() =~= bare_weapon(r.0.unwrap().0@));
        r
    }

    /// The weapon slot is occupied
    pub fn is_present(&self) -> (r: bool)
        ensures
            r == self.deep_view() is Some,
    {
        self.0.is_some()
    }

    /// The class name of the weapon
    pub fn class(&self) -> (r: Option<&str>)
        ensures
            match (r, self.deep_view()) {
                (Some(c), Some(w)) => c@ == w.0,
                (None, None) => true,
                _ => false,
            },
    {
        match &self.0 {
            Some(w) => Some(w.0.as_str()),
            None => None,
        }
    }

    /// Set the class name of the weapon; an empty slot gets a weapon with nothing attached
    pub fn set_class(&mut self, class: String)
        ensures
            final(self).deep_view() == match old(self).deep_view() {
                Some(w) => Some((class@, w.1, w.2, w.3, w.4, w.5, w.6)),
                None => Some(bare_weapon(class@)),
            },
    {
        match &mut self.0 {
            Some(w) => {
                w.0 = class;
            },
            None => {
                *self = Weapon::new(class);
            },
        }
    }

    /// The class name of the attached suppressor
    pub fn suppressor(&self) -> (r: Option<&str>)
        ensures
            match (r, self.deep_view()) {
                (Some(c), Some(w)) => c@ == w.1,
                (None, None) => true,
                _ => false,
            },
    {
        match &self.0 {
            Some(w) => Some(w.1.as_str()),
            None => None,
        }
    }

    /// Set the class name of the attached suppressor
    /// Returns true if the suppressor was set, false if the weapon was not initialized
    pub fn set_suppressor(&mut self, suppressor: String) -> (r: bool)
        ensures
            r == old(self).deep_view() is Some,
            final(self).deep_view() == match old(self).deep_view() {
                Some(w) => Some((w.0, suppressor@, w.2, w.3, w.4, w.5, w.6)),
                None => None,
            },
    {
        match &mut self.0 {
            Some(w) => {
                w.1 = suppressor;
                true
            },
            None => false,
        }
    }

    /// The class name of the attached pointer
    pub fn pointer(&self) -> (r: Option<&str>)
        ensures
            match (r, self.deep_view()) {
                (Some(c), Some(w)) => c@ == w.2,
                (None, None) => true,
                _ => false,
            },
    {
        match &self.0 {
            Some(w) => Some(w.2.as_str()),
            None => None,
        }
    }

    /// Set the class name of the attached pointer
    /// Returns true if the pointer was set, false if the weapon was not initialized
    pub fn set_pointer(&mut self, pointer: String) -> (r: bool)
        ensures
            r == old(self).deep_view() is Some,
            final(self).deep_view() == match old(self).deep_view() {
                Some(w) => Some((w.0, w.1, pointer@, w.3, w.4, w.5, w.6)),
                None => None,
            },
    {
        match &mut self.0 {
            Some(w) => {
                w.2 = pointer;
                true
            },
            None => false,
        }
    }

    /// The class name of the attached optic
    pub fn optic(&self) -> (r: Option<&str>)
        ensures
            match (r, self.deep_view()) {
                (Some(c), Some(w)) => c@ == w.3,
                (None, None) => true,
                _ => false,
            },
    {
        match &self.0 {
            Some(w) => Some(w.3.as_str()),
            None => None,
        }
    }

    /// Set the class name of the attached optic
    /// Returns true if the optic was set, false if the weapon was not initialized
    pub fn set_optic(&mut self, optic: String) -> (r: bool)
        ensures
            r == old(self).deep_view() is Some,
            final(self).deep_view() == match old(self).deep_view() {
                Some(w) => Some((w.0, w.1, w.2, optic@, w.4, w.5, w.6)),
                None => None,
            },
    {
        match &mut self.0 {
            Some(w) => {
                w.3 = optic;
                true
            },
            None => false,
        }
    }

    /// The class name of the attached bipod
    pub fn bipod(&self) -> (r: Option<&str>)
        ensures
            match (r, self.deep_view()) {
                (Some(c), Some(w)) => c@ == w.6,
                (None, None) => true,
                _ => false,
            },
    {
        match &self.0 {
            Some(w) => Some(w.6.as_str()),
            None => None,
        }
    }

    /// Set the class name of the attached bipod
    /// Returns true if the bipod was set, false if the weapon was not initialized
    pub fn set_bipod(&mut self, bipod: String) -> (r: bool)
        ensures
            r == old(self).deep_view() is Some,
            final(self).deep_view() == match old(self).deep_view() {
                Some(w) => Some((w.0, w.1, w.2, w.3, w.4, w.5, bipod@)),
                None => None,
            },
    {
        match &mut self.0 {
            Some(w) => {
                w.6 = bipod;
                true
            },
            None => false,
        }
    }

    /// Get the inserted primary magazine
    pub fn primary_magazine(&self) -> (r: Option<&Magazine>)
        ensures
            match (r, self.deep_view()) {
                (Some(m), Some(w)) => m.deep_view() == w.4,
                (None, None) => true,
                _ => false,
            },
    {
        match &self.0 {
            Some(w) => Some(&w.4),
            None => None,
        }
    }

    /// Get the inserted primary magazine mutably
    pub fn primary_magazine_mut(&mut self) -> (r: Option<&mut Magazine>)
        ensures
            match (r, old(self).deep_view()) {
                (Some(m), Some(w)) => {
                    &&& m.deep_view() == w.4
                    &&& final(self).deep_view() == Some((w.0, w.1, w.2, w.3, final(m).deep_view(), w.5, w.6))
                },
                (None, None) => final(self).deep_view() is None,
                _ => false,
            },
    {
        match &mut self.0 {
            Some(w) => Some(&mut w.4),
            None => None,
        }
    }

    /// Set the inserted primary magazine
    /// Returns true if the primary magazine was set, false if the weapon was not initialized
    pub fn set_primary_magazine(&mut self, primary: Magazine) -> (r: bool)
        ensures
            r == old(self).deep_view() is Some,
            final(self).deep_view() == match old(self).deep_view() {
                Some(w) => Some((w.0, w.1, w.2, w.3, primary.deep_view(), w.5, w.6)),
                None => None,
            },
    {
        match &mut self.0 {
            Some(w) => {
                w.4 = primary;
                true
            },
            None => false,
        }
    }

    /// Get the inserted secondary magazine
    pub fn secondary_magazine(&self) -> (r: Option<&Magazine>)
        ensures
            match (r, self.deep_view()) {
                (Some(m), Some(w)) => m.deep_view() == w.5,
                (None, None) => true,
                _ => false,
            },
    {
        match &self.0 {
            Some(w) => Some(&w.5),
            None => None,
        }
    }

    /// Get the inserted secondary magazine mutably
    pub fn secondary_magazine_mut(&mut self) -> (r: Option<&mut Magazine>)
        ensures
            match (r, old(self).deep_view()) {
                (Some(m), Some(w)) => {
                    &&& m.deep_view() == w.5
                    &&& final(self).deep_view() == Some((w.0, w.1, w.2, w.3, w.4, final(m).deep_view(), w.6))
                },
                (None, None) => final(self).deep_view() is None,
                _ => false,
            },
    {
        match &mut self.0 {
            Some(w) => Some(&mut w.5),
            None => None,
        }
    }

    /// Set the inserted secondary magazine
    /// Returns true if the secondary magazine was set, false if the weapon was not initialized
    pub fn set_secondary_magazine(&mut self, secondary: Magazine) -> (r: bool)
        ensures
            r == old(self).deep_view() is Some,
            final(self).deep_view() == match old(self).deep_view() {
                Some(w) => Some((w.0, w.1, w.2, w.3, w.4, secondary.deep_view(), w.6)),
                None => None,
            },
    {
        match &mut self.0 {
            Some(w) => {
                w.5 = secondary;
                true
            },
            None => false,
        }
    }
}

/// The elements Arma writes for a weapon that exists
pub open spec fn weapon_parts(w: WeaponView) -> Seq<Seq<char>> {
    seq![
        literal(w.0),
        literal(w.1),
        literal(w.2),
        literal(w.3),
        magazine_text(w.4),
        magazine_text(w.5),
        literal(w.6),
    ]
}

/// The text Arma writes for a weapon: `[]` when there is none, else the array
/// of its class, suppressor, pointer, optic, two magazines and bipod
pub open spec fn weapon_text(w: Option<WeaponView>) -> Seq<char> {
    match w {
        None => array_text(Seq::empty()),
        Some(w) => array_text(weapon_parts(w)),
    }
}

/// Every class name of a weapon, its magazines' included, is a plain name.
pub open spec fn weapon_names_plain(w: Option<WeaponView>) -> bool {
    w matches Some(w) ==> {
        &&& plain_name(w.0)
        &&& plain_name(w.1)
        &&& plain_name(w.2)
        &&& plain_name(w.3)
        &&& magazine_names_plain(w.4)
        &&& magazine_names_plain(w.5)
        &&& plain_name(w.6)
    }
}

proof fn lemma_weapon_parts_plain(w: WeaponView)
    requires
        weapon_names_plain(Some(w)),
    ensures
        forall|k: int| 0 <= k < weapon_parts(w).len() ==> plain_element(#[trigger] weapon_parts(w)[k]),
{
    lemma_plain_literal(w.0);
    lemma_plain_literal(w.1);
    lemma_plain_literal(w.2);
    lemma_plain_literal(w.3);
    lemma_magazine_text_plain(w.4);
    lemma_magazine_text_plain(w.5);
    lemma_plain_literal(w.6);
}

/// A weapon's text is a plain element.
pub proof fn lemma_weapon_text_plain(w: Option<WeaponView>)
    requires
        weapon_names_plain(w),
    ensures
        plain_element(weapon_text(w)),
{
    match w {
        None => lemma_plain_array(Seq::empty()),
        Some(v) => {
            lemma_weapon_parts_plain(v);
            lemma_plain_array(weapon_parts(v));
        },
    }
}

/// A weapon written as Arma writes one is read back as that weapon, for class
/// names without double quotes, commas or brackets.
pub proof fn lemma_weapon_text_round_trip(w: Option<WeaponView>)
    requires
        weapon_names_plain(w),
    ensures
        <Weapon as FromArma>::spec_from_arma(weapon_text(w)) == Ok::<Option<WeaponView>, ErrorView>(w),
{
    reveal_strlit("[]");
    match w {
        None => {
            assert(array_text(Seq::empty()) =~= "[]"@);
        },
        Some(v) => {
            lemma_weapon_parts_plain(v);
            lemma_tuple_parts_of_array(weapon_parts(v));
            lemma_string_literal_round_trip(v.0);
            lemma_string_literal_round_trip(v.1);
            lemma_string_literal_round_trip(v.2);
            lemma_string_literal_round_trip(v.3);
            lemma_magazine_text_round_trip(v.4);
            lemma_magazine_text_round_trip(v.5);
            lemma_string_literal_round_trip(v.6);
            assert(weapon_text(w).len() > 2);
        },
    }
}

impl Weapon {
    /// Writes the text Arma writes for the weapon: `[]` when there is none,
    /// else the array of its class, suppressor, pointer, optic, two magazines
    /// and bipod (see `lemma_weapon_text_round_trip`).
    pub fn arma_text(&self) -> (r: String)
        ensures
            r@ == weapon_text(self.deep_view()),
    {
        let t = self.text_chars();
        string_from_chars(t.as_slice())
    }

    /// The characters of `arma_text`
    pub(crate) fn text_chars(&self) -> (r: Vec<char>)
        ensures
            r@ == weapon_text(self.deep_view()),
    {
        let mut parts: Vec<Vec<char>> = Vec::new();
        match &self.0 {
            Some(w) => {
                let a = literal_chars(w.0.as_str());
                let b = literal_chars(w.1.as_str());
                let c = literal_chars(w.2.as_str());
                let d = literal_chars(w.3.as_str());
                let e = w.4.text_chars();
                let f = w.5.text_chars();
                let g = literal_chars(w.6.as_str());
                assert(a.deep_view() =~= a@ && b.deep_view() =~= b@ && c.deep_view() =~= c@);
                assert(d.deep_view() =~= d@ && e.deep_view() =~= e@ && f.deep_view() =~= f@);
                assert(g.deep_view() =~= g@);
                parts.push(a);
                parts.push(b);
                parts.push(c);
                parts.push(d);
                parts.push(e);
                parts.push(f);
                parts.push(g);
                let ghost v = w.deep_view();
                assert(parts.deep_view() =~= weapon_parts(v));
            },
            None => {
                assert(parts.deep_view() =~= Seq::<Seq<char>>::empty());
            },
        }
        write_array(&parts)
    }
}

impl FromArma for Weapon {
    /// `[]` for an empty slot, else the array
    /// `[class, suppressor, pointer, optic, primary magazine, secondary magazine, bipod]`
    open spec fn spec_from_arma(s: Seq<char>) -> Result<Option<WeaponView>, ErrorView> {
        if s == "[]"@ {
            Ok(None)
        } else {
            match <(String, String, String, String, Magazine, Magazine, String) as FromArma>::spec_from_arma(s) {
                Ok(w) => Ok(Some(w)),
                Err(e) => Err(e),
            }
        }
    }

    fn from_arma(s: String) -> (r: Result<Self, FromArmaError>) {
        let empty = String::from_str("[]");
        if s == empty {
            return Ok(Weapon(None));
        }
        match <(String, String, String, String, Magazine, Magazine, String) as FromArma>::from_arma(s) {
            Ok(w) => Ok(Weapon(Some(w))),
            Err(e) => Err(e),
        }
    }
}

} // verus!
