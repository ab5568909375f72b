//! A magazine loaded into a weapon.

use vstd::prelude::*;

use crate::text::{lemma_plain_array, literal, plain_element, plain_name};
use crate::text::string_from_chars;
use crate::value::from_arma::{
    array_text, int_chars, literal_chars, write_array, lemma_integer_text_round_trip, lemma_plain_int_text, lemma_plain_literal,
    lemma_string_literal_round_trip, lemma_tuple_parts_of_array, ErrorView,
    FromArma, FromArmaError,
};
use crate::value::number::int_text;

verus! {

/// A magazine loaded into a weapon
#[derive(Debug, Clone, PartialEq, Eq)]
pub struct Magazine(Option<(String, u32)>);

impl DeepView for Magazine {
    type V = Option<(Seq<char>, u32)>;

    /// The class name and the remaining ammo, when the magazine exists
    closed spec fn deep_view(&self) -> Option<(Seq<char>, u32)> {
        match self.0 {
            Some((c, a)) => Some((c@, a)),
            None => None,
        }
    }
}

impl Default for Magazine {
    fn default() -> (r: Self)
        ensures
            r.deep_view() is None,
    {
        Magazine(None)
    }
}

impl Magazine {
    /// Create a new magazine
    pub fn new(class: String, count: u32) -> (r: Self)
        ensures
            r.deep_view() == Some((class@, count)),
    {
        Magazine(Some((class, count)))
    }

    /// The magazine exists
    pub fn is_present(&self) -> (r: bool)
        ensures
            r == self.deep_view() is Some,
    {
        self.0.is_some()
    }

    /// Arma class name of the magazine
    pub fn class(&self) -> (r: Option<&str>)
        ensures
            match (r, self.deep_view()) {
                (Some(c), Some((class, _))) => c@ == class,
                (None, None) => true,
                _ => false,
            },
    {
        match &self.0 {
            Some((c, _)) => Some(c.as_str()),
            None => None,
        }
    }

    /// Set the class name of the magazine; a magazine that did not exist gets no ammo
    pub fn set_class(&mut self, class: &str)
        ensures
            final(self).deep_view() == Some(
                (
                    class@,
                    match old(self).deep_view() {
                        Some((_, a)) => a,
                        None => 0u32,
                    },
                ),
            ),
    {
        match &mut self.0 {
            Some(magazine) => {
                magazine.0 = String::from_str(class);
            },
            None => {
                self.0 = Some((String::from_str(class), 0));
            },
        }
    }

    /// The remaining ammo in the magazine
    pub fn ammo(&self) -> (r: Option<u32>)
        ensures
            r == match self.deep_view() {
                Some((_, a)) => Some(a),
                None => None::<u32>,
            },
    {
        match &self.0 {
            Some((_, a)) => Some(*a),
            None => None,
        }
    }

    /// Set the remaining ammo in the magazine
    /// Returns true if the ammo was set, false if the magazine was not initialized
    pub fn set_ammo(&mut self, ammo: u32) -> (r: bool)
        ensures
            r == old(self).deep_view() is Some,
            final(self).deep_view() == match old(self).deep_view() {
                Some((c, _)) => Some((c, ammo)),
                None => None,
            },
    {
        match &mut self.0 {
            Some(magazine) => {
                magazine.1 = ammo;
                true
            },
            None => false,
        }
    }
}

/// The text Arma writes for a magazine: `[]` when there is none, else the
/// array of its class name and its ammo, `["class",ammo]`
pub open spec fn magazine_text(m: Option<(Seq<char>, u32)>) -> Seq<char> {
    match m {
        None => array_text(Seq::empty()),
        Some((c, a)) => array_text(seq![literal(c), int_text(a as int)]),
    }
}

/// The class name of a magazine, if any, is a plain name.
pub open spec fn magazine_names_plain(m: Option<(Seq<char>, u32)>) -> bool {
    m matches Some((c, _)) ==> plain_name(c)
}

/// A magazine's text is a plain element.
pub proof fn lemma_magazine_text_plain(m: Option<(Seq<char>, u32)>)
    requires
        magazine_names_plain(m),
    ensures
        plain_element(magazine_text(m)),
{
    match m {
        None => {
            lemma_plain_array(Seq::empty());
        },
        Some((c, a)) => {
            let parts = seq![literal(c), int_text(a as int)];
            lemma_plain_literal(c);
            lemma_plain_int_text(a as int);
            assert forall|i: int| 0 <= i < parts.len() implies plain_element(#[trigger] parts[i]) by {}
            lemma_plain_array(parts);
        },
    }
}

/// A magazine written as Arma writes one is read back as that magazine, for
/// class names without double quotes, commas or brackets.
pub proof fn lemma_magazine_text_round_trip(m: Option<(Seq<char>, u32)>)
    requires
        magazine_names_plain(m),
    ensures
        <Magazine as FromArma>::spec_from_arma(magazine_text(m)) == Ok::<
            Option<(Seq<char>, u32)>,
            ErrorView,
        >(m),
{
    match m {
        None => {
            reveal_strlit("[]");
            assert(array_text(Seq::empty()) =~= "[]"@);
        },
        Some((class, ammo)) => {
            let parts = seq![literal(class), int_text(ammo as int)];
            lemma_plain_literal(class);
            lemma_plain_int_text(ammo as int);
            assert forall|i: int| 0 <= i < parts.len() implies plain_element(#[trigger] parts[i]) by {}
            lemma_tuple_parts_of_array(parts);
            lemma_string_literal_round_trip(class);
            lemma_integer_text_round_trip(ammo as int, 0, 0xffff_ffff, false);
            let t = array_text(parts);
            assert(t != "[]"@) by {
                reveal_strlit("[]");
                assert(t.len() > 2);
            }
        },
    }
}

impl Magazine {
    /// Writes the text Arma writes for the magazine: `[]` when there is none,
    /// else `["class",ammo]`. Read back with `from_arma`, it gives the same
    /// magazine when the class name holds no double quote, comma or bracket
    /// (`lemma_magazine_text_round_trip`).
    pub fn arma_text(&self) -> (r: String)
        ensures
            r@ == magazine_text(self.deep_view()),
    {
        let t = self.text_chars();
        string_from_chars(t.as_slice())
    }

    /// The characters of `arma_text`
    pub(crate) fn text_chars(&self) -> (r: Vec<char>)
        ensures
            r@ == magazine_text(self.deep_view()),
    {
        let mut parts: Vec<Vec<char>> = Vec::new();
        match &self.0 {
            Some((c, a)) => {
                let l = literal_chars(c.as_str());
                let n = int_chars(*a);
                assert(l.deep_view() =~= l@);
                assert(n.deep_view() =~= n@);
                parts.push(l);
                parts.push(n);
                assert(parts.deep_view() =~= seq![literal(c@), int_text(*a as int)]);
            },
            None => {
                assert(parts.deep_view() =~= Seq::<Seq<char>>::empty());
            },
        }
        write_array(&parts)
    }
}

impl FromArma for Magazine {
    /// `[]` for no magazine, else the array `[class, ammo]`
    open spec fn spec_from_arma(s: Seq<char>) -> Result<Option<(Seq<char>, u32)>, ErrorView> {
        if s == "[]"@ {
            Ok(None)
        } else {
            match <(String, u32) as FromArma>::spec_from_arma(s) {
                Ok((c, a)) => Ok(Some((c, a))),
                Err(e) => Err(e),
            }
        }
    }

    fn from_arma(s: String) -> (r: Result<Self, FromArmaError>) {
        let empty = String::from_str("[]");
        if s == empty {
            return Ok(Magazine(None));
        }
        match <(String, u32) as FromArma>::from_arma(s) {
            Ok((c, a)) => Ok(Magazine(Some((c, a)))),
            Err(e) => Err(e),
        }
    }
}

} // verus!
