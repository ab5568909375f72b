//! An item stored in a uniform, vest, or backpack.

use vstd::prelude::*;

use crate::text::{lemma_plain_array, literal, plain_element, plain_name};
use crate::text::string_from_chars;
use crate::value::from_arma::{
    array_text, int_chars, literal_chars, write_array, lemma_integer_text_round_trip, lemma_plain_int_text, lemma_plain_literal,
    lemma_string_literal_round_trip, lemma_tuple_parts_of_array, ErrorView, FromArma,
    FromArmaError,
};
use crate::value::number::{int_text, lemma_nat_text_digits, is_digit};

verus! {

/// An item stored in a uniform, vest, or backpack
#[derive(Debug, Clone, PartialEq, Eq)]
pub enum InventoryItem {
    /// An item that is not a magazine
    Item(String, u32),
    /// A magazine
    Magazine(String, u32, u32),
}

impl DeepView for InventoryItem {
    /// Class name, count, and the ammo when the item is a magazine
    type V = (Seq<char>, u32, Option<u32>);

    open spec fn deep_view(&self) -> (Seq<char>, u32, Option<u32>) {
        match self {
            InventoryItem::Item(c, n) => (c@, *n, None),
            InventoryItem::Magazine(c, n, a) => (c@, *n, Some(*a)),
        }
    }
}

/// How many times `c` occurs in `s`
pub open spec fn count_char(s: Seq<char>, c: char) -> nat
    decreases s.len(),
{
    if s.len() == 0 {
        0
    } else {
        count_char(s.drop_last(), c) + if s.last() == c {
            1nat
        } else {
            0nat
        }
    }
}

fn count_commas(s: &String) -> (r: usize)
    ensures
        r == count_char(s@, ','),
{
    let c = crate::text::chars_of(s.as_str());
    let mut n: usize = 0;
    let mut k: usize = 0;
    assert(c@.take(0) =~= Seq::<char>::empty());
    while k < c.len()
        invariant
            k <= c@.len(),
            c@ == s@,
            n == count_char(c@.take(k as int), ','),
            n <= k,
        decreases c@.len() - k,
    {
        assert(c@.take(k + 1).drop_last() =~= c@.take(k as int));
        if c[k] == ',' {
            n = n + 1;
        }
        k = k + 1;
    }
    assert(c@.take(c@.len() as int) =~= c@);
    n
}

/// The message of the error for text that is neither an item nor a magazine
pub open spec fn invalid_item_message(s: Seq<char>) -> Seq<char> {
    "Invalid inventory item: "@ + s
}

impl InventoryItem {
    /// Create a new item
    pub fn new_item(class: String, count: u32) -> (r: Self)
        ensures
            r.deep_view() == (class@, count, None::<u32>),
    {
        InventoryItem::Item(class, count)
    }

    /// Create a new magazine
    pub fn new_magazine(class: String, count: u32, ammo: u32) -> (r: Self)
        ensures
            r.deep_view() == (class@, count, Some(ammo)),
    {
        InventoryItem::Magazine(class, count, ammo)
    }

    /// The item is a magazine
    pub fn is_magazine(&self) -> (r: bool)
        ensures
            r == self.deep_view().2 is Some,
    {
        match self {
            InventoryItem::Magazine(_, _, _) => true,
            InventoryItem::Item(_, _) => false,
        }
    }

    /// The class name of the item
    pub fn class(&self) -> (r: &str)
        ensures
            r@ == self.deep_view().0,
    {
        match self {
            InventoryItem::Item(c, _) => c.as_str(),
            InventoryItem::Magazine(c, _, _) => c.as_str(),
        }
    }

    /// Set the class name of the item
    pub fn set_class(&mut self, class: String)
        ensures
            final(self).deep_view() == (class@, old(self).deep_view().1, old(self).deep_view().2),
    {
        match self {
            InventoryItem::Item(c, _) => {
                *c = class;
            },
            InventoryItem::Magazine(c, _, _) => {
                *c = class;
            },
        }
    }

    /// The amount of the item
    pub fn count(&self) -> (r: u32)
        ensures
            r == self.deep_view().1,
    {
        match self {
            InventoryItem::Item(_, n) => *n,
            InventoryItem::Magazine(_, n, _) => *n,
        }
    }

    /// Set the amount of the item
    pub fn set_count(&mut self, count: u32)
        ensures
            final(self).deep_view() == (old(self).deep_view().0, count, old(self).deep_view().2),
    {
        match self {
            InventoryItem::Item(_, n) => {
                *n = count;
            },
            InventoryItem::Magazine(_, n, _) => {
                *n = count;
            },
        }
    }

    /// The amount of ammo in the magazine
    pub fn ammo(&self) -> (r: Option<u32>)
        ensures
            r == self.deep_view().2,
    {
        match self {
            InventoryItem::Item(_, _) => None,
            InventoryItem::Magazine(_, _, a) => Some(*a),
        }
    }

    /// Set the amount of ammo in the magazine
    /// Returns true if the ammo was set, false if the item is not a magazine
    pub fn set_ammo(&mut self, ammo: u32) -> (r: bool)
        ensures
            r == old(self).deep_view().2 is Some,
            final(self).deep_view() == if r {
                (old(self).deep_view().0, old(self).deep_view().1, Some(ammo))
            } else {
                old(self).deep_view()
            },
    {
        match self {
            InventoryItem::Magazine(_, _, a) => {
                *a = ammo;
                true
            },
            InventoryItem::Item(_, _) => false,
        }
    }
}

proof fn lemma_count_concat(a: Seq<char>, b: Seq<char>, c: char)
    ensures
        count_char(a + b, c) == count_char(a, c) + count_char(b, c),
    decreases b.len(),
{
    if b.len() == 0 {
        assert(a + b =~= a);
    } else {
        assert((a + b).drop_last() =~= a + b.drop_last());
        assert((a + b).last() == b.last());
        lemma_count_concat(a, b.drop_last(), c);
    }
}

proof fn lemma_count_absent(s: Seq<char>, c: char)
    requires
        !s.contains(c),
    ensures
        count_char(s, c) == 0,
    decreases s.len(),
{
    if s.len() > 0 {
        assert(s[s.len() - 1] != c);
        assert(!s.drop_last().contains(c)) by {
            if s.drop_last().contains(c) {
                let j = choose|j: int| 0 <= j < s.drop_last().len() && s.drop_last()[j] == c;
                assert(s[j] == c);
            }
        }
        lemma_count_absent(s.drop_last(), c);
    }
}

proof fn lemma_literal_no_comma(c: Seq<char>)
    requires
        plain_name(c),
    ensures
        !literal(c).contains(','),
{
    crate::text::lemma_escape_plain(c);
    let l = literal(c);
    if l.contains(',') {
        let j = choose|j: int| 0 <= j < l.len() && l[j] == ',';
        if 0 < j < l.len() - 1 {
            assert(l[j] == c[j - 1]);
        }
    }
}

proof fn lemma_int_text_no_comma(v: int)
    ensures
        !int_text(v).contains(','),
{
    let t = int_text(v);
    let n = if v < 0 {
        (-v) as nat
    } else {
        v as nat
    };
    lemma_nat_text_digits(n);
    if t.contains(',') {
        let j = choose|j: int| 0 <= j < t.len() && t[j] == ',';
        if v < 0 {
            if j > 0 {
                assert(t[j] == crate::text::nat_text(n)[j - 1]);
                assert(is_digit(crate::text::nat_text(n)[j - 1]));
            }
        } else {
            assert(is_digit(crate::text::nat_text(n)[j]));
        }
    }
}

/// The text Arma writes for an inventory item: `["class",count]` for an item,
/// `["class",count,ammo]` for a magazine
pub open spec fn item_text(i: (Seq<char>, u32, Option<u32>)) -> Seq<char> {
    match i.2 {
        None => array_text(seq![literal(i.0), int_text(i.1 as int)]),
        Some(a) => array_text(seq![literal(i.0), int_text(i.1 as int), int_text(a as int)]),
    }
}

/// An inventory item's text is a plain element.
pub proof fn lemma_item_text_plain(i: (Seq<char>, u32, Option<u32>))
    requires
        plain_name(i.0),
    ensures
        plain_element(item_text(i)),
{
    lemma_plain_literal(i.0);
    lemma_plain_int_text(i.1 as int);
    match i.2 {
        None => {
            let parts = seq![literal(i.0), int_text(i.1 as int)];
            assert forall|k: int| 0 <= k < parts.len() implies plain_element(#[trigger] parts[k]) by {}
            lemma_plain_array(parts);
        },
        Some(a) => {
            lemma_plain_int_text(a as int);
            let parts = seq![literal(i.0), int_text(i.1 as int), int_text(a as int)];
            assert forall|k: int| 0 <= k < parts.len() implies plain_element(#[trigger] parts[k]) by {}
            lemma_plain_array(parts);
        },
    }
}

proof fn lemma_count_single(x: char)
    ensures
        count_char(seq![x], ',') == if x == ',' {
            1nat
        } else {
            0nat
        },
{
    assert(seq![x].drop_last() =~= Seq::<char>::empty());
    assert(count_char(Seq::<char>::empty(), ',') == 0);
}

/// Elements without commas, joined, hold one comma fewer than there are elements.
proof fn lemma_count_join(parts: Seq<Seq<char>>)
    requires
        parts.len() >= 1,
        forall|i: int| 0 <= i < parts.len() ==> !(#[trigger] parts[i]).contains(','),
    ensures
        count_char(array_text(parts), ',') == parts.len() - 1,
    decreases parts.len(),
{
    let j = crate::text::join_elements(parts);
    lemma_count_single('[');
    lemma_count_single(']');
    lemma_count_single(',');
    lemma_count_concat(seq!['['], j, ',');
    lemma_count_concat(seq!['['] + j, seq![']'], ',');
    lemma_count_join_body(parts);
}

proof fn lemma_count_join_body(parts: Seq<Seq<char>>)
    requires
        parts.len() >= 1,
        forall|i: int| 0 <= i < parts.len() ==> !(#[trigger] parts[i]).contains(','),
    ensures
        count_char(crate::text::join_elements(parts), ',') == parts.len() - 1,
    decreases parts.len(),
{
    lemma_count_absent(parts[parts.len() - 1], ',');
    if parts.len() > 1 {
        let pd = parts.drop_last();
        assert forall|i: int| 0 <= i < pd.len() implies !(#[trigger] pd[i]).contains(',') by {
            assert(pd[i] == parts[i]);
        }
        lemma_count_join_body(pd);
        let a = crate::text::join_elements(pd);
        lemma_count_single(',');
        lemma_count_concat(a, seq![','], ',');
        lemma_count_concat(a + seq![','], parts.last(), ',');
    }
}

proof fn lemma_item_parts(i: (Seq<char>, u32, Option<u32>)) -> (parts: Seq<Seq<char>>)
    requires
        plain_name(i.0),
    ensures
        item_text(i) == array_text(parts),
        parts.len() == if i.2 is Some {
            3int
        } else {
            2int
        },
        forall|k: int| 0 <= k < parts.len() ==> plain_element(#[trigger] parts[k]),
        forall|k: int| 0 <= k < parts.len() ==> !(#[trigger] parts[k]).contains(','),
        parts[0] == literal(i.0),
        parts[1] == int_text(i.1 as int),
        i.2 matches Some(a) ==> parts[2] == int_text(a as int),
{
    lemma_plain_literal(i.0);
    lemma_plain_int_text(i.1 as int);
    lemma_literal_no_comma(i.0);
    lemma_int_text_no_comma(i.1 as int);
    match i.2 {
        None => seq![literal(i.0), int_text(i.1 as int)],
        Some(a) => {
            lemma_plain_int_text(a as int);
            lemma_int_text_no_comma(a as int);
            seq![literal(i.0), int_text(i.1 as int), int_text(a as int)]
        },
    }
}

/// An inventory item written as Arma writes one is read back as that item,
/// for class names without double quotes, commas or brackets.
pub proof fn lemma_item_text_round_trip(i: (Seq<char>, u32, Option<u32>))
    requires
        plain_name(i.0),
    ensures
        <InventoryItem as FromArma>::spec_from_arma(item_text(i)) == Ok::<
            (Seq<char>, u32, Option<u32>),
            ErrorView,
        >(i),
{
    let parts = lemma_item_parts(i);
    lemma_count_join(parts);
    lemma_tuple_parts_of_array(parts);
    lemma_string_literal_round_trip(i.0);
    lemma_integer_text_round_trip(i.1 as int, 0, 0xffff_ffff, false);
    if let Some(a) = i.2 {
        lemma_integer_text_round_trip(a as int, 0, 0xffff_ffff, false);
    }
}

impl InventoryItem {
    /// Writes the text Arma writes for the item: `["class",count]`, or
    /// `["class",count,ammo]` for a magazine (see `lemma_item_text_round_trip`).
    pub fn arma_text(&self) -> (r: String)
        ensures
            r@ == item_text(self.deep_view()),
    {
        let t = self.text_chars();
        string_from_chars(t.as_slice())
    }

    /// The characters of `arma_text`
    pub(crate) fn text_chars(&self) -> (r: Vec<char>)
        ensures
            r@ == item_text(self.deep_view()),
    {
        let mut parts: Vec<Vec<char>> = Vec::new();
        match self {
            InventoryItem::Item(c, n) => {
                let l = literal_chars(c.as_str());
                let k = int_chars(*n);
                assert(l.deep_view() =~= l@);
                assert(k.deep_view() =~= k@);
                parts.push(l);
                parts.push(k);
                assert(parts.deep_view() =~= seq![literal(c@), int_text(*n as int)]);
            },
            InventoryItem::Magazine(c, n, a) => {
                let l = literal_chars(c.as_str());
                let k = int_chars(*n);
                let m = int_chars(*a);
                assert(l.deep_view() =~= l@);
                assert(k.deep_view() =~= k@);
                assert(m.deep_view() =~= m@);
                parts.push(l);
                parts.push(k);
                parts.push(m);
                assert(parts.deep_view() =~= seq![
                    literal(c@),
                    int_text(*n as int),
                    int_text(*a as int),
                ]);
            },
        }
        write_array(&parts)
    }
}

impl FromArma for InventoryItem {
    /// An array of one comma, `[class, count]`, is an item; one of two commas,
    /// `[class, count, ammo]`, a magazine
    open spec fn spec_from_arma(s: Seq<char>) -> Result<(Seq<char>, u32, Option<u32>), ErrorView> {
        let commas = count_char(s, ',');
        if commas == 1 {
            match <(String, u32) as FromArma>::spec_from_arma(s) {
                Ok((c, n)) => Ok((c, n, None)),
                Err(e) => Err(e),
            }
        } else if commas == 2 {
            match <(String, u32, u32) as FromArma>::spec_from_arma(s) {
                Ok((c, n, a)) => Ok((c, n, Some(a))),
                Err(e) => Err(e),
            }
        } else {
            Err(FromArmaError::Custom(invalid_item_message(s)))
        }
    }

    fn from_arma(s: String) -> (r: Result<Self, FromArmaError>) {
        let commas = count_commas(&s);
        if commas == 1 {
            match <(String, u32) as FromArma>::from_arma(s) {
                Ok((c, n)) => Ok(InventoryItem::Item(c, n)),
                Err(e) => Err(e),
            }
        } else if commas == 2 {
            match <(String, u32, u32) as FromArma>::from_arma(s) {
                Ok((c, n, a)) => Ok(InventoryItem::Magazine(c, n, a)),
                Err(e) => Err(e),
            }
        } else {
            let mut msg = String::from_str("Invalid inventory item: ");
            msg.append(s.as_str());
            Err(FromArmaError::Custom(msg))
        }
    }
}

} // verus!
