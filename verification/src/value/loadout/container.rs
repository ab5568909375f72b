//! A uniform, vest, or backpack.

use vstd::prelude::*;

use crate::text::{lemma_plain_array, literal, plain_element, plain_name};
use crate::text::string_from_chars;
use crate::value::from_arma::{
    array_text, literal_chars, write_array, lemma_parse_all_of, lemma_plain_literal, lemma_string_literal_round_trip,
    lemma_tuple_parts_of_array, lemma_vec_reads_elements, ErrorView, FromArma, FromArmaError,
};
use crate::value::loadout::inventory_item::{
    item_text, lemma_item_text_plain, lemma_item_text_round_trip,
};
use crate::value::loadout::InventoryItem;

verus! {

/// A uniform, vest, or backpack
#[derive(Debug, Clone, PartialEq, Eq)]
pub struct Container(Option<(String, Vec<InventoryItem>)>);

/// The deep view of an inventory item: class, count, ammo of a magazine
pub type ItemView = (Seq<char>, u32, Option<u32>);

impl DeepView for Container {
    /// The class name and the items, when the container exists
    type V = Option<(Seq<char>, Seq<ItemView>)>;

    closed spec fn deep_view(&self) -> Option<(Seq<char>, Seq<ItemView>)> {
        match self.0 {
            Some((c, items)) => Some((c@, items.deep_view())),
            None => None,
        }
    }
}

impl Default for Container {
    fn default() -> (r: Self)
        ensures
            r.deep_view() is None,
    {
        Container(None)
    }
}

/// What `Container::classes` lists for a container: the container itself once,
/// then each item with its count.
pub open spec fn spec_classes(c: Option<(Seq<char>, Seq<ItemView>)>) -> Seq<(Seq<char>, u32)> {
    match c {
        None => Seq::empty(),
        Some((class, items)) => seq![(class, 1u32)] + items.map_values(
            |it: ItemView| (it.0, it.1),
        ),
    }
}

/// `classes` lists nothing for an absent container; for a present one it lists
/// the container's class once with count 1, then each item in order with its
/// class and its count (a magazine with its count of magazines, not its ammo).
pub proof fn lemma_classes_entries(c: Option<(Seq<char>, Seq<ItemView>)>)
    ensures
        c is None ==> spec_classes(c).len() == 0,
        c matches Some((class, items)) ==> {
            &&& spec_classes(c).len() == items.len() + 1
            &&& spec_classes(c)[0] == (class, 1u32)
            &&& forall|i: int|
                0 <= i < items.len() ==> spec_classes(c)[i + 1] == (#[trigger] items[i].0, items[i].1)
        },
{
}

impl Container {
    /// Create a new container
    pub fn new(class: String) -> (r: Self)
        ensures
            r.deep_view() == Some((class@, Seq::<ItemView>::empty())),
    {
        let r = Container(Some((class, Vec::new())));
        assert(r.0.unwrap().1.deep_view() =~= Seq::<ItemView>::empty());
        r
    }

    /// The container exists
    pub fn is_present(&self) -> (r: bool)
        ensures
            r == self.deep_view() is Some,
    {
        self.0.is_some()
    }

    /// The class name of the container
    pub fn class(&self) -> (r: Option<&str>)
        ensures
            match (r, self.deep_view()) {
                (Some(c), Some(v)) => c@ == v.0,
                (None, None) => true,
                _ => false,
            },
    {
        match &self.0 {
            Some((c, _)) => Some(c.as_str()),
            None => None,
        }
    }

    /// Set the class name of the container; a container that did not exist starts empty
    pub fn set_class(&mut self, class: String)
        ensures
            final(self).deep_view() == match old(self).deep_view() {
                Some(v) => Some((class@, v.1)),
                None => Some((class@, Seq::<ItemView>::empty())),
            },
    {
        match &mut self.0 {
            Some(c) => {
                c.0 = class;
            },
            None => {
                *self = Container::new(class);
            },
        }
    }

    /// The items in the container
    pub fn items(&self) -> (r: Option<&Vec<InventoryItem>>)
        ensures
            match (r, self.deep_view()) {
                (Some(items), Some(v)) => items.deep_view() == v.1,
                (None, None) => true,
                _ => false,
            },
    {
        match &self.0 {
            Some((_, items)) => Some(items),
            None => None,
        }
    }

    /// The items in the container, mutably
    pub fn items_mut(&mut self) -> (r: Option<&mut Vec<InventoryItem>>)
        ensures
            match (r, old(self).deep_view()) {
                (Some(items), Some(v)) => {
                    &&& items.deep_view() == v.1
                    &&& final(self).deep_view() == Some((v.0, final(items).deep_view()))
                },
                (None, None) => final(self).deep_view() is None,
                _ => false,
            },
    {
        match &mut self.0 {
            Some(c) => Some(&mut c.1),
            None => None,
        }
    }

    /// Get all classes and their quantities, including the container itself
    pub fn classes(&self) -> (r: Vec<(String, u32)>)
        ensures
            r.deep_view() == spec_classes(self.deep_view()),
    {
        let mut classes: Vec<(String, u32)> = Vec::new();
        match &self.0 {
            None => {
                assert(classes.deep_view() =~= spec_classes(self.deep_view()));
            },
            Some((class, items)) => {
                classes.push((class.clone(), 1));
                let ghost iv = items.deep_view();
                let mut k: usize = 0;
                assert(classes.deep_view() =~= seq![(class@, 1u32)] + iv.take(0).map_values(
                    |it: ItemView| (it.0, it.1),
                ));
                while k < items.len()
                    invariant
                        k <= items@.len(),
                        iv == items.deep_view(),
                        classes.deep_view() == seq![(class@, 1u32)] + iv.take(k as int).map_values(
                            |it: ItemView| (it.0, it.1),
                        ),
                    decreases items@.len() - k,
                {
                    let item = &items[k];
                    let c = item.class();
                    let entry = (String::from_str(c), item.count());
                    let ghost old_classes = classes.deep_view();
                    classes.push(entry);
                    assert(iv[k as int] == item.deep_view());
                    assert(classes.deep_view() =~= old_classes.push((iv[k as int].0, iv[k as int].1)));
                    assert(iv.take(k + 1).map_values(|it: ItemView| (it.0, it.1)) =~= iv.take(
                        k as int,
                    ).map_values(|it: ItemView| (it.0, it.1)).push((iv[k as int].0, iv[k as int].1)));
                    assert(classes.deep_view() =~= seq![(class@, 1u32)] + iv.take(k + 1).map_values(
                        |it: ItemView| (it.0, it.1),
                    ));
                    k = k + 1;
                }
                assert(iv.take(items@.len() as int) =~= iv);
            },
        }
        classes
    }
}

/// The texts Arma writes for a list of items, one per item
pub open spec fn item_texts(items: Seq<ItemView>) -> Seq<Seq<char>> {
    items.map_values(|it: ItemView| item_text(it))
}

/// The text Arma writes for a container: `[]` when there is none, else the
/// array of its class name and the array of its items
pub open spec fn container_text(c: Option<(Seq<char>, Seq<ItemView>)>) -> Seq<char> {
    match c {
        None => array_text(Seq::empty()),
        Some((class, items)) => array_text(seq![literal(class), array_text(item_texts(items))]),
    }
}

/// The class names of a container and of its items are plain names.
pub open spec fn container_names_plain(c: Option<(Seq<char>, Seq<ItemView>)>) -> bool {
    c matches Some((class, items)) ==> plain_name(class) && forall|i: int|
        0 <= i < items.len() ==> plain_name(#[trigger] items[i].0)
}

proof fn lemma_container_parts_plain(class: Seq<char>, items: Seq<ItemView>)
    requires
        plain_name(class),
        forall|i: int| 0 <= i < items.len() ==> plain_name(#[trigger] items[i].0),
    ensures
        forall|k: int|
            0 <= k < item_texts(items).len() ==> plain_element(#[trigger] item_texts(items)[k]),
        ({
            let parts = seq![literal(class), array_text(item_texts(items))];
            forall|k: int| 0 <= k < parts.len() ==> plain_element(#[trigger] parts[k])
        }),
{
    lemma_plain_literal(class);
    let t = item_texts(items);
    assert forall|k: int| 0 <= k < t.len() implies plain_element(#[trigger] t[k]) by {
        assert(plain_name(items[k].0));
        lemma_item_text_plain(items[k]);
    }
    lemma_plain_array(t);
}

/// A container's text is a plain element.
pub proof fn lemma_container_text_plain(c: Option<(Seq<char>, Seq<ItemView>)>)
    requires
        container_names_plain(c),
    ensures
        plain_element(container_text(c)),
{
    match c {
        None => lemma_plain_array(Seq::empty()),
        Some((class, items)) => {
            lemma_container_parts_plain(class, items);
            lemma_plain_array(seq![literal(class), array_text(item_texts(items))]);
        },
    }
}

/// A container written as Arma writes one is read back as that container, for
/// class names without double quotes, commas or brackets.
#[verifier::spinoff_prover]
#[verifier::rlimit(40)]
pub proof fn lemma_container_text_round_trip(c: Option<(Seq<char>, Seq<ItemView>)>)
    requires
        container_names_plain(c),
    ensures
        <Container as FromArma>::spec_from_arma(container_text(c)) == Ok::<
            Option<(Seq<char>, Seq<ItemView>)>,
            ErrorView,
        >(c),
{
    reveal_strlit("[]");
    match c {
        None => {
            assert(array_text(Seq::empty()) =~= "[]"@);
        },
        Some((class, items)) => {
            let t = item_texts(items);
            lemma_container_parts_plain(class, items);
            lemma_tuple_parts_of_array(seq![literal(class), array_text(t)]);
            lemma_string_literal_round_trip(class);
            lemma_vec_reads_elements::<InventoryItem>(t);
            assert forall|k: int| 0 <= k < t.len() implies <InventoryItem as FromArma>::spec_from_arma(
                #[trigger] t[k],
            ) == Ok::<ItemView, ErrorView>(items[k]) by {
                assert(plain_name(items[k].0));
                lemma_item_text_round_trip(items[k]);
            }
            lemma_parse_all_of::<InventoryItem>(t, items);
            assert(container_text(c).len() > 2);
        },
    }
}

impl Container {
    /// Writes the text Arma writes for the container: `[]` when there is none,
    /// else the array of its class name and the array of its items (see
    /// `lemma_container_text_round_trip`).
    pub fn arma_text(&self) -> (r: String)
        ensures
            r@ == container_text(self.deep_view()),
    {
        let t = self.text_chars();
        string_from_chars(t.as_slice())
    }

    /// The characters of `arma_text`
    pub(crate) fn text_chars(&self) -> (r: Vec<char>)
        ensures
            r@ == container_text(self.deep_view()),
    {
        let mut parts: Vec<Vec<char>> = Vec::new();
        match &self.0 {
            Some((c, items)) => {
                let ghost iv = items.deep_view();
                let mut texts: Vec<Vec<char>> = Vec::new();
                let mut k: usize = 0;
                while k < items.len()
                    invariant
                        k <= items@.len(),
                        iv == items.deep_view(),
                        texts.deep_view() =~= item_texts(iv.take(k as int)),
                    decreases items@.len() - k,
                {
                    let t = items[k].text_chars();
                    assert(t.deep_view() =~= t@);
                    let ghost before = texts.deep_view();
                    texts.push(t);
                    assert(iv[k as int] == items[k as int].deep_view());
                    assert(texts.deep_view() =~= before.push(t@));
                    assert(item_texts(iv.take(k + 1)) =~= item_texts(iv.take(k as int)).push(
                        item_text(iv[k as int]),
                    ));
                    k = k + 1;
                }
                assert(iv.take(items@.len() as int) =~= iv);
                let l = literal_chars(c.as_str());
                let a = write_array(&texts);
                assert(l.deep_view() =~= l@);
                assert(a.deep_view() =~= a@);
                parts.push(l);
                parts.push(a);
                assert(parts.deep_view() =~= seq![literal(c@), array_text(item_texts(iv))]);
            },
            None => {
                assert(parts.deep_view() =~= Seq::<Seq<char>>::empty());
            },
        }
        write_array(&parts)
    }
}

impl FromArma for Container {
    /// `[]` for no container, else the array `[class, [items...]]`
    open spec fn spec_from_arma(s: Seq<char>) -> Result<Option<(Seq<char>, Seq<ItemView>)>, ErrorView> {
        if s == "[]"@ {
            Ok(None)
        } else {
            match <(String, Vec<InventoryItem>) as FromArma>::spec_from_arma(s) {
                Ok(c) => Ok(Some(c)),
                Err(e) => Err(e),
            }
        }
    }

    fn from_arma(s: String) -> (r: Result<Self, FromArmaError>) {
        let empty = String::from_str("[]");
        if s == empty {
            return Ok(Container(None));
        }
        match <(String, Vec<InventoryItem>) as FromArma>::from_arma(s) {
            Ok(c) => Ok(Container(Some(c))),
            Err(e) => Err(e),
        }
    }
}

} // verus!
