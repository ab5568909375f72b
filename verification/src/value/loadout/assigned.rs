//! Assigned items in the loadout.

use vstd::prelude::*;

use crate::text::{lemma_plain_array, literal, plain_element, plain_name};
use crate::text::string_from_chars;
use crate::value::from_arma::{
    array_text, literal_chars, write_array, lemma_plain_literal, lemma_string_literal_round_trip, lemma_tuple_parts_of_array,
    ErrorView, FromArma, FromArmaError,
};

verus! {

/// Class names of the map, terminal, radio, compass, watch and NVG
pub type AssignedView = (Seq<char>, Seq<char>, Seq<char>, Seq<char>, Seq<char>, Seq<char>);

/// Assigned items in the loadout
#[derive(Debug, Clone, PartialEq, Eq)]
pub struct AssignedItems(String, String, String, String, String, String);

impl DeepView for AssignedItems {
    type V = AssignedView;

    closed spec fn deep_view(&self) -> AssignedView {
        (self.0@, self.1@, self.2@, self.3@, self.4@, self.5@)
    }
}

impl Default for AssignedItems {
    fn default() -> (r: Self)
        ensures
            r.deep_view() == AssignedItems::default_view(),
    {
        AssignedItems(
            String::new(),
            String::new(),
            String::new(),
            String::new(),
            String::new(),
            String::new(),
        )
    }
}

impl AssignedItems {
    /// The view of the default assigned items: every slot empty
    pub open spec fn default_view() -> AssignedView {
        (
            Seq::<char>::empty(),
            Seq::<char>::empty(),
            Seq::<char>::empty(),
            Seq::<char>::empty(),
            Seq::<char>::empty(),
            Seq::<char>::empty(),
        )
    }

    /// The class name of the assigned map
    pub fn map(&self) -> (r: &str)
        ensures
            r@ == self.deep_view().0,
    {
        self.0.as_str()
    }

    /// Set the class name of the assigned map
    pub fn set_map(&mut self, map: String)
        ensures
            final(self).deep_view() == (map@, old(self).deep_view().1, old(self).deep_view().2, old(self).deep_view().3, old(self).deep_view().4, old(self).deep_view().5),
    {
        self.0 = map;
    }

    /// The class name of the assigned terminal
    pub fn terminal(&self) -> (r: &str)
        ensures
            r@ == self.deep_view().1,
    {
        self.1.as_str()
    }

    /// Set the class name of the assigned terminal
    pub fn set_terminal(&mut self, terminal: String)
        ensures
            final(self).deep_view() == (old(self).deep_view().0, terminal@, old(self).deep_view().2, old(self).deep_view().3, old(self).deep_view().4, old(self).deep_view().5),
    {
        self.1 = terminal;
    }

    /// The class name of the assigned radio
    pub fn radio(&self) -> (r: &str)
        ensures
            r@ == self.deep_view().2,
    {
        self.2.as_str()
    }

    /// Set the class name of the assigned radio
    pub fn set_radio(&mut self, radio: String)
        ensures
            final(self).deep_view() == (old(self).deep_view().0, old(self).deep_view().1, radio@, old(self).deep_view().3, old(self).deep_view().4, old(self).deep_view().5),
    {
        self.2 = radio;
    }

    /// The class name of the assigned compass
    pub fn compass(&self) -> (r: &str)
        ensures
            r@ == self.deep_view().3,
    {
        self.3.as_str()
    }

    /// Set the class name of the assigned compass
    pub fn set_compass(&mut self, compass: String)
        ensures
            final(self).deep_view() == (old(self).deep_view().0, old(self).deep_view().1, old(self).deep_view().2, compass@, old(self).deep_view().4, old(self).deep_view().5),
    {
        self.3 = compass;
    }

    /// The class name of the assigned watch
    pub fn watch(&self) -> (r: &str)
        ensures
            r@ == self.deep_view().4,
    {
        self.4.as_str()
    }

    /// Set the class name of the assigned watch
    pub fn set_watch(&mut self, watch: String)
        ensures
            final(self).deep_view() == (old(self).deep_view().0, old(self).deep_view().1, old(self).deep_view().2, old(self).deep_view().3, watch@, old(self).deep_view().5),
    {
        self.4 = watch;
    }

    /// The class name of the assigned NVG
    pub fn nvg(&self) -> (r: &str)
        ensures
            r@ == self.deep_view().5,
    {
        self.5.as_str()
    }

    /// Set the class name of the assigned NVG
    pub fn set_nvg(&mut self, nvg: String)
        ensures
            final(self).deep_view() == (old(self).deep_view().0, old(self).deep_view().1, old(self).deep_view().2, old(self).deep_view().3, old(self).deep_view().4, nvg@),
    {
        self.5 = nvg;
    }

    /// Get all items: map, terminal, radio, compass, watch, NVG
    pub fn classes(&self) -> (r: [&str; 6])
        ensures
            r[0]@ == self.deep_view().0,
            r[1]@ == self.deep_view().1,
            r[2]@ == self.deep_view().2,
            r[3]@ == self.deep_view().3,
            r[4]@ == self.deep_view().4,
            r[5]@ == self.deep_view().5,
    {
        [self.map(), self.terminal(), self.radio(), self.compass(), self.watch(), self.nvg()]
    }

    /// Get all items: map, terminal, radio, compass, watch, NVG (`classes` gives the same)
    pub fn items(&self) -> (r: [&str; 6])
        ensures
            r[0]@ == self.deep_view().0,
            r[1]@ == self.deep_view().1,
            r[2]@ == self.deep_view().2,
            r[3]@ == self.deep_view().3,
            r[4]@ == self.deep_view().4,
            r[5]@ == self.deep_view().5,
    {
        self.classes()
    }
}

/// The text Arma writes for the assigned items: the array of their six class names
pub open spec fn assigned_text(a: AssignedView) -> Seq<char> {
    array_text(seq![literal(a.0), literal(a.1), literal(a.2), literal(a.3), literal(a.4), literal(a.5)])
}

/// Every class name of the assigned items is a plain name.
pub open spec fn assigned_names_plain(a: AssignedView) -> bool {
    plain_name(a.0) && plain_name(a.1) && plain_name(a.2) && plain_name(a.3) && plain_name(a.4)
        && plain_name(a.5)
}

proof fn lemma_assigned_parts(a: AssignedView)
    requires
        assigned_names_plain(a),
    ensures
        ({
            let parts = seq![literal(a.0), literal(a.1), literal(a.2), literal(a.3), literal(a.4), literal(a.5)];
            forall|k: int| 0 <= k < parts.len() ==> plain_element(#[trigger] parts[k])
        }),
{
    lemma_plain_literal(a.0);
    lemma_plain_literal(a.1);
    lemma_plain_literal(a.2);
    lemma_plain_literal(a.3);
    lemma_plain_literal(a.4);
    lemma_plain_literal(a.5);
}

/// The assigned items' text is a plain element.
pub proof fn lemma_assigned_text_plain(a: AssignedView)
    requires
        assigned_names_plain(a),
    ensures
        plain_element(assigned_text(a)),
{
    lemma_assigned_parts(a);
    lemma_plain_array(seq![literal(a.0), literal(a.1), literal(a.2), literal(a.3), literal(a.4), literal(a.5)]);
}

/// Assigned items written as Arma writes them are read back unchanged, for
/// class names without double quotes, commas or brackets.
pub proof fn lemma_assigned_text_round_trip(a: AssignedView)
    requires
        assigned_names_plain(a),
    ensures
        <AssignedItems as FromArma>::spec_from_arma(assigned_text(a)) == Ok::<AssignedView, ErrorView>(a),
{
    lemma_assigned_parts(a);
    lemma_tuple_parts_of_array(seq![literal(a.0), literal(a.1), literal(a.2), literal(a.3), literal(a.4), literal(a.5)]);
    lemma_string_literal_round_trip(a.0);
    lemma_string_literal_round_trip(a.1);
    lemma_string_literal_round_trip(a.2);
    lemma_string_literal_round_trip(a.3);
    lemma_string_literal_round_trip(a.4);
    lemma_string_literal_round_trip(a.5);
}

impl AssignedItems {
    /// Writes the text Arma writes for the assigned items: the array of their
    /// six class names (see `lemma_assigned_text_round_trip`).
    pub fn arma_text(&self) -> (r: String)
        ensures
            r@ == assigned_text(self.deep_view()),
    {
        let t = self.text_chars();
        string_from_chars(t.as_slice())
    }

    /// The characters of `arma_text`
    pub(crate) fn text_chars(&self) -> (r: Vec<char>)
        ensures
            r@ == assigned_text(self.deep_view()),
    {
        let mut parts: Vec<Vec<char>> = Vec::new();
        let a = literal_chars(self.0.as_str());
        let b = literal_chars(self.1.as_str());
        let c = literal_chars(self.2.as_str());
        let d = literal_chars(self.3.as_str());
        let e = literal_chars(self.4.as_str());
        let f = literal_chars(self.5.as_str());
        assert(a.deep_view() =~= a@ && b.deep_view() =~= b@ && c.deep_view() =~= c@);
        assert(d.deep_view() =~= d@ && e.deep_view() =~= e@ && f.deep_view() =~= f@);
        parts.push(a);
        parts.push(b);
        parts.push(c);
        parts.push(d);
        parts.push(e);
        parts.push(f);
        let ghost v = self.deep_view();
        assert(parts.deep_view() =~= seq![
            literal(v.0),
            literal(v.1),
            literal(v.2),
            literal(v.3),
            literal(v.4),
            literal(v.5),
        ]);
        write_array(&parts)
    }
}

impl FromArma for AssignedItems {
    /// The array `[map, terminal, radio, compass, watch, nvg]`
    open spec fn spec_from_arma(s: Seq<char>) -> Result<AssignedView, ErrorView> {
        <(String, String, String, String, String, String) as FromArma>::spec_from_arma(s)
    }

    fn from_arma(s: String) -> (r: Result<Self, FromArmaError>) {
        match <(String, String, String, String, String, String) as FromArma>::from_arma(s) {
            Ok((m, t, r, c, w, n)) => Ok(AssignedItems(m, t, r, c, w, n)),
            Err(e) => Err(e),
        }
    }
}

} // verus!
