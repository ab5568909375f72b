//! The rules of the `FromArma`/`IntoArma` derives: how a struct's fields decide
//! its shape in Arma's text (named fields are read as `[["name", value], ..]`,
//! unnamed ones as an array, a single unnamed one as the value itself), and
//! which combinations of the `#[arma(transparent)]` and `#[arma(default)]`
//! attributes are refused, and where a derived `FromArma` takes each field's
//! value from when it reads a struct.

use vstd::prelude::*;

use crate::text::{chars_of, string_from_chars};
use crate::value::from_arma::{first_key, lemma_first_key_bound, ErrorView, FromArmaError};

verus! {

/// How a struct is written in Arma's text
#[derive(Debug, Clone, Copy, PartialEq, Eq, Structural)]
pub enum StructShape {
    /// Named fields, written as pairs of name and value; the number of fields
    Named(usize),
    /// Several unnamed fields, written as an array; the number of fields
    Tuple(usize),
    /// A single unnamed field, written as that field's value
    NewType,
}

/// Why a struct cannot be derived
#[derive(Debug, Clone, Copy, PartialEq, Eq, Structural)]
pub enum ShapeError {
    /// A unit-like struct, or one without fields
    UnitLike,
}

/// A refused combination of attributes. Where a `default` attribute is meant,
/// `None` names the container's own and `Some(i)` that of field `i`.
#[derive(Debug, Clone, Copy, PartialEq, Eq, Structural)]
pub enum AttrError {
    /// `#[arma(transparent)]` structs must have exactly one field
    TransparentNeedsOneField,
    /// `#[arma(transparent)]` cannot be used on tuple like structs
    TransparentOnTuple,
    /// `#[arma(default)]` and `#[arma(transparent)]` cannot be used together
    DefaultWithTransparent(Option<usize>),
    /// `#[arma(default)]` cannot be used on new type structs
    DefaultOnNewType(Option<usize>),
    /// A tuple field without `#[arma(default)]` after the field `after`, which has one
    DefaultRequired { field: usize, after: usize },
}

/// The shape a struct's fields give: `named` tells named fields from unnamed
/// ones, `unit` a unit-like struct.
pub open spec fn spec_struct_shape(named: bool, unit: bool, n_fields: usize) -> Result<
    StructShape,
    ShapeError,
> {
    if unit || n_fields == 0 {
        Err(ShapeError::UnitLike)
    } else if named {
        Ok(StructShape::Named(n_fields))
    } else if n_fields == 1 {
        Ok(StructShape::NewType)
    } else {
        Ok(StructShape::Tuple(n_fields))
    }
}

/// Classifies a struct by its fields: unit-like structs and structs without
/// fields are refused, named fields make a map, one unnamed field a newtype,
/// several unnamed fields a tuple.
pub fn struct_shape(named: bool, unit: bool, n_fields: usize) -> (r: Result<StructShape, ShapeError>)
    ensures
        r == spec_struct_shape(named, unit, n_fields),
{
    if unit || n_fields == 0 {
        Err(ShapeError::UnitLike)
    } else if named {
        Ok(StructShape::Named(n_fields))
    } else if n_fields == 1 {
        Ok(StructShape::NewType)
    } else {
        Ok(StructShape::Tuple(n_fields))
    }
}

/// The index of the first field with `#[arma(default)]`; the number of fields when none has it
pub open spec fn first_default(fd: Seq<bool>) -> int
    decreases fd.len(),
{
    if fd.len() == 0 {
        0
    } else if fd[0] {
        0
    } else {
        1 + first_default(fd.drop_first())
    }
}

/// The `default` attribute the rules look at: the container's when it has one,
/// else that of the first field with one, else none
pub open spec fn default_site(container_default: bool, fd: Seq<bool>) -> Option<Option<usize>> {
    if container_default {
        Some(None)
    } else if first_default(fd) < fd.len() {
        Some(Some(first_default(fd) as usize))
    } else {
        None
    }
}

/// For each field past `first` without `#[arma(default)]`, in order, the error
/// that it needs one because field `first` has one
pub open spec fn missing_defaults(fd: Seq<bool>, first: int) -> Seq<AttrError>
    decreases fd.len(),
{
    if fd.len() == 0 {
        Seq::empty()
    } else {
        let j = fd.len() - 1;
        missing_defaults(fd.drop_last(), first) + if j > first && !fd[j] {
            seq![AttrError::DefaultRequired { field: j as usize, after: first as usize }]
        } else {
            Seq::empty()
        }
    }
}

/// The errors of a struct's attributes, in the order they are reported:
/// first those of `transparent`, then those of `default`, then, for a tuple,
/// each field that lacks a `default` after one that has it.
pub open spec fn spec_attr_errors(
    transparent: bool,
    container_default: bool,
    shape: StructShape,
    fd: Seq<bool>,
) -> Seq<AttrError> {
    let t: Seq<AttrError> = if transparent {
        match shape {
            StructShape::Named(n) => if n > 1 {
                seq![AttrError::TransparentNeedsOneField]
            } else {
                Seq::empty()
            },
            StructShape::Tuple(_) => seq![AttrError::TransparentOnTuple],
            StructShape::NewType => Seq::empty(),
        }
    } else {
        Seq::empty()
    };
    let d: Seq<AttrError> = match default_site(container_default, fd) {
        Some(site) => match shape {
            StructShape::Named(_) => if transparent {
                seq![AttrError::DefaultWithTransparent(site)]
            } else {
                Seq::empty()
            },
            StructShape::NewType => seq![AttrError::DefaultOnNewType(site)],
            StructShape::Tuple(_) => Seq::empty(),
        },
        None => Seq::empty(),
    };
    let m: Seq<AttrError> = match shape {
        StructShape::Tuple(_) => missing_defaults(fd, first_default(fd)),
        _ => Seq::empty(),
    };
    t + d + m
}

/// Finds the first field with `#[arma(default)]`.
fn find_first_default(fd: &Vec<bool>) -> (r: usize)
    ensures
        r == first_default(fd@),
{
    let mut k: usize = 0;
    assert(fd@.skip(0) =~= fd@);
    while k < fd.len()
        invariant
            k <= fd@.len(),
            first_default(fd@) == k + first_default(fd@.skip(k as int)),
        decreases fd@.len() - k,
    {
        if fd[k] {
            return k;
        }
        assert(fd@.skip(k as int).drop_first() =~= fd@.skip(k + 1));
        k = k + 1;
    }
    k
}

/// Checks the `#[arma(transparent)]` and `#[arma(default)]` attributes of a
/// struct of the given shape, whose fields have `default` as `field_defaults` says.
pub fn validate_attributes(
    transparent: bool,
    container_default: bool,
    shape: StructShape,
    field_defaults: &Vec<bool>,
) -> (r: Vec<AttrError>)
    ensures
        r@ == spec_attr_errors(transparent, container_default, shape, field_defaults@),
{
    let fd = field_defaults;
    let mut errors: Vec<AttrError> = Vec::new();
    if transparent {
        match shape {
            StructShape::Named(n) => {
                if n > 1 {
                    errors.push(AttrError::TransparentNeedsOneField);
                }
            },
            StructShape::Tuple(_) => {
                errors.push(AttrError::TransparentOnTuple);
            },
            StructShape::NewType => {},
        }
    }
    let ghost t = errors@;
    let first = find_first_default(fd);
    let site: Option<Option<usize>> = if container_default {
        Some(None)
    } else if first < fd.len() {
        Some(Some(first))
    } else {
        None
    };
    if let Some(s) = site {
        match shape {
            StructShape::Named(_) => {
                if transparent {
                    errors.push(AttrError::DefaultWithTransparent(s));
                }
            },
            StructShape::NewType => {
                errors.push(AttrError::DefaultOnNewType(s));
            },
            StructShape::Tuple(_) => {},
        }
    }
    let ghost td = errors@;
    assert(td =~= t + match default_site(container_default, fd@) {
        Some(site) => match shape {
            StructShape::Named(_) => if transparent {
                seq![AttrError::DefaultWithTransparent(site)]
            } else {
                Seq::<AttrError>::empty()
            },
            StructShape::NewType => seq![AttrError::DefaultOnNewType(site)],
            StructShape::Tuple(_) => Seq::<AttrError>::empty(),
        },
        None => Seq::<AttrError>::empty(),
    });
    if let StructShape::Tuple(_) = shape {
        let mut j: usize = 0;
        assert(fd@.take(0) =~= Seq::<bool>::empty());
        while j < fd.len()
            invariant
                j <= fd@.len(),
                first == first_default(fd@),
                errors@ == td + missing_defaults(fd@.take(j as int), first as int),
            decreases fd@.len() - j,
        {
            assert(fd@.take(j + 1).drop_last() =~= fd@.take(j as int));
            let ghost before = errors@;
            if j > first && !fd[j] {
                errors.push(AttrError::DefaultRequired { field: j, after: first });
            }
            assert(errors@ =~= td + missing_defaults(fd@.take(j + 1), first as int));
            j = j + 1;
        }
        assert(fd@.take(fd@.len() as int) =~= fd@);
    } else {
        assert(errors@ =~= td + Seq::<AttrError>::empty());
    }
    errors
}

/// Where a derived `FromArma` takes a field's value from
#[derive(Debug)]
pub enum FieldSource<S = String> {
    /// The text given for the field, which the field's own `FromArma` reads
    Given(S),
    /// The default of the field's type, for a field with `#[arma(default)]`
    FieldDefault,
    /// The field of the container's default, for a container with `#[arma(default)]`
    ContainerDefault,
    /// No value: reading the struct fails with this error
    Missing(FromArmaError<S>),
}

/// A field's source with each text taken as its characters
pub type SourceView = FieldSource<Seq<char>>;

impl DeepView for FieldSource {
    type V = SourceView;

    open spec fn deep_view(&self) -> SourceView {
        match self {
            FieldSource::Given(s) => FieldSource::Given(s@),
            FieldSource::FieldDefault => FieldSource::FieldDefault,
            FieldSource::ContainerDefault => FieldSource::ContainerDefault,
            FieldSource::Missing(e) => FieldSource::Missing(e.deep_view()),
        }
    }
}

/// The first index from `j` on whose key already stands at an earlier index;
/// the number of pairs when there is none
pub open spec fn repeat_from(p: Seq<(Seq<char>, Seq<char>)>, j: nat) -> int
    decreases p.len() - j,
{
    if j >= p.len() {
        p.len() as int
    } else if first_key(p, p[j as int].0) < j {
        j as int
    } else {
        repeat_from(p, j + 1)
    }
}

/// The first index from `j` on whose key names no field; the number of pairs
/// when there is none
pub open spec fn unknown_from(p: Seq<(Seq<char>, Seq<char>)>, names: Seq<Seq<char>>, j: nat) -> int
    decreases p.len() - j,
{
    if j >= p.len() {
        p.len() as int
    } else if !names.contains(p[j as int].0) {
        j as int
    } else {
        unknown_from(p, names, j + 1)
    }
}

/// Where the field `name` of a struct with named fields is read from: the
/// value of the pair keyed by its name; without one, its own default, else the
/// container's; else the field is missing.
pub open spec fn named_source(
    p: Seq<(Seq<char>, Seq<char>)>,
    name: Seq<char>,
    field_default: bool,
    container_default: bool,
) -> SourceView {
    let k = first_key(p, name);
    if 0 <= k < p.len() {
        FieldSource::Given(p[k].1)
    } else if field_default {
        FieldSource::FieldDefault
    } else if container_default {
        FieldSource::ContainerDefault
    } else {
        FieldSource::Missing(FromArmaError::MapMissingField(name))
    }
}

/// The message for a key given twice
pub open spec fn duplicate_message(key: Seq<char>) -> Seq<char> {
    "duplicate field: "@ + key
}

/// Reading a struct with named fields from its `[name, value]` pairs `p`: a key
/// given twice fails at its second pair, before any field is read; else each
/// field, in declaration order, has its source, and the first key in input
/// order that names no field, if any, fails the read after the fields are read.
pub open spec fn spec_plan_named(
    p: Seq<(Seq<char>, Seq<char>)>,
    names: Seq<Seq<char>>,
    fd: Seq<bool>,
    container_default: bool,
) -> Result<(Seq<SourceView>, Option<Seq<char>>), ErrorView> {
    let r = repeat_from(p, 0);
    if r < p.len() {
        Err(FromArmaError::Custom(duplicate_message(p[r].0)))
    } else {
        let u = unknown_from(p, names, 0);
        Ok(
            (
                Seq::new(names.len(), |i: int| named_source(p, names[i], fd[i], container_default)),
                if u < p.len() {
                    Some(p[u].0)
                } else {
                    None
                },
            ),
        )
    }
}

/// What `first_key` gives: an index no later than the first entry keyed `k`,
/// which is that entry when there is one.
proof fn lemma_first_key_of(p: Seq<(Seq<char>, Seq<char>)>, k: Seq<char>)
    ensures
        0 <= first_key(p, k) <= p.len(),
        forall|a: int| 0 <= a < first_key(p, k) ==> #[trigger] p[a].0 != k,
        first_key(p, k) < p.len() ==> p[first_key(p, k)].0 == k,
    decreases p.len(),
{
    if p.len() > 0 && p[0].0 != k {
        lemma_first_key_of(p.drop_first(), k);
        assert forall|a: int| 0 <= a < first_key(p, k) implies #[trigger] p[a].0 != k by {
            if a > 0 {
                assert(p[a] == p.drop_first()[a - 1]);
            }
        }
    }
}

proof fn lemma_repeat_none(p: Seq<(Seq<char>, Seq<char>)>, j: nat)
    requires
        forall|a: int, b: int| 0 <= a < b < p.len() ==> #[trigger] p[a].0 != #[trigger] p[b].0,
    ensures
        repeat_from(p, j) == p.len(),
    decreases p.len() - j,
{
    if j < p.len() {
        lemma_first_key_of(p, p[j as int].0);
        let f = first_key(p, p[j as int].0);
        if f < j {
            assert(p[f].0 == p[j as int].0);
        }
        lemma_repeat_none(p, j + 1);
    }
}

proof fn lemma_repeat_some(p: Seq<(Seq<char>, Seq<char>)>, j: nat, a: int, b: int)
    requires
        0 <= a < b < p.len(),
        j <= b,
        p[a].0 == p[b].0,
    ensures
        repeat_from(p, j) < p.len(),
    decreases b - j,
{
    lemma_first_key_of(p, p[j as int].0);
    if first_key(p, p[j as int].0) >= j {
        if j == b {
            assert(p[a].0 == p[j as int].0);
        } else {
            lemma_repeat_some(p, j + 1, a, b);
        }
    }
}

proof fn lemma_unknown_at(p: Seq<(Seq<char>, Seq<char>)>, names: Seq<Seq<char>>, j: nat, u: int)
    requires
        j <= u <= p.len(),
        u < p.len() ==> !names.contains(p[u].0),
        forall|k: int| j <= k < u ==> names.contains(#[trigger] p[k].0),
    ensures
        unknown_from(p, names, j) == u,
    decreases p.len() - j,
{
    if j < u {
        assert(names.contains(p[j as int].0));
        lemma_unknown_at(p, names, j + 1, u);
    }
}

/// A key given twice makes reading a struct with named fields fail, whatever
/// the fields and their default attributes.
pub proof fn lemma_plan_named_repeated_key(
    p: Seq<(Seq<char>, Seq<char>)>,
    names: Seq<Seq<char>>,
    fd: Seq<bool>,
    container_default: bool,
    a: int,
    b: int,
)
    requires
        0 <= a < b < p.len(),
        p[a].0 == p[b].0,
    ensures
        spec_plan_named(p, names, fd, container_default) is Err,
{
    lemma_repeat_some(p, 0, a, b);
}

/// With no key given twice, reading a struct with named fields plans every
/// field, and reports the first key in input order that names no field, whatever
/// the default attributes say; when every key names a field, none is reported.
pub proof fn lemma_plan_named_unknown_key(
    p: Seq<(Seq<char>, Seq<char>)>,
    names: Seq<Seq<char>>,
    fd: Seq<bool>,
    container_default: bool,
    u: int,
)
    requires
        forall|a: int, b: int| 0 <= a < b < p.len() ==> #[trigger] p[a].0 != #[trigger] p[b].0,
        0 <= u <= p.len(),
        u < p.len() ==> !names.contains(p[u].0),
        forall|k: int| 0 <= k < u ==> names.contains(#[trigger] p[k].0),
    ensures
        match spec_plan_named(p, names, fd, container_default) {
            Ok((plan, unknown)) => plan.len() == names.len() && unknown == if u < p.len() {
                Some(p[u].0)
            } else {
                None
            },
            Err(_) => false,
        },
{
    lemma_repeat_none(p, 0);
    lemma_unknown_at(p, names, 0, u);
}

/// With no key given twice, a field whose name is the key of pair `k` is read
/// from that pair's value, whatever the default attributes say.
pub proof fn lemma_plan_named_given(
    p: Seq<(Seq<char>, Seq<char>)>,
    names: Seq<Seq<char>>,
    fd: Seq<bool>,
    container_default: bool,
    i: int,
    k: int,
)
    requires
        forall|a: int, b: int| 0 <= a < b < p.len() ==> #[trigger] p[a].0 != #[trigger] p[b].0,
        0 <= i < names.len(),
        0 <= k < p.len(),
        p[k].0 == names[i],
    ensures
        match spec_plan_named(p, names, fd, container_default) {
            Ok((plan, _)) => plan[i] == FieldSource::<Seq<char>>::Given(p[k].1),
            Err(_) => false,
        },
{
    lemma_repeat_none(p, 0);
    lemma_first_key_of(p, names[i]);
    let f = first_key(p, names[i]);
    if f < k {
        assert(p[f].0 == p[k].0);
    }
    assert(f == k);
}

/// A field whose name no pair carries is read from its own default when it has
/// one, else from the container's, else it is missing under its name.
pub proof fn lemma_plan_named_absent(
    p: Seq<(Seq<char>, Seq<char>)>,
    names: Seq<Seq<char>>,
    fd: Seq<bool>,
    container_default: bool,
    i: int,
)
    requires
        0 <= i < names.len(),
        forall|k: int| 0 <= k < p.len() ==> #[trigger] p[k].0 != names[i],
    ensures
        spec_plan_named(p, names, fd, container_default) is Ok ==> spec_plan_named(
            p,
            names,
            fd,
            container_default,
        )->Ok_0.0[i] == if fd[i] {
            FieldSource::<Seq<char>>::FieldDefault
        } else if container_default {
            FieldSource::<Seq<char>>::ContainerDefault
        } else {
            FieldSource::<Seq<char>>::Missing(FromArmaError::MapMissingField(names[i]))
        },
{
    lemma_first_key_of(p, names[i]);
}

/// Reading a struct with unnamed fields from the elements `e`: field `i` is read
/// from element `i` when there is one; a field past the elements without any
/// default is missing, with the number of fields expected and `i` found; and
/// more elements than fields fail the read with the two lengths, and fewer or as
/// many do not, whatever the default attributes say.
pub proof fn lemma_plan_tuple(e: Seq<Seq<char>>, fd: Seq<bool>, container_default: bool)
    requires
        e.len() <= usize::MAX,
    ensures
        spec_plan_tuple(e, fd, container_default).0.len() == fd.len(),
        forall|i: int|
            0 <= i < e.len() && i < fd.len() ==> #[trigger] spec_plan_tuple(e, fd, container_default).0[i]
                == FieldSource::<Seq<char>>::Given(e[i]),
        forall|i: int|
            e.len() <= i < fd.len() && !fd[i] && !container_default ==> #[trigger] spec_plan_tuple(
                e,
                fd,
                container_default,
            ).0[i] == FieldSource::<Seq<char>>::Missing(
                FromArmaError::SizeMismatch { expected: fd.len() as usize, actual: i as usize },
            ),
        e.len() > fd.len() ==> spec_plan_tuple(e, fd, container_default).1 == Some(
            FromArmaError::<Seq<char>>::SizeMismatch {
                expected: fd.len() as usize,
                actual: e.len() as usize,
            },
        ),
        e.len() <= fd.len() ==> spec_plan_tuple(e, fd, container_default).1 is None,
{
}

/// The index of the first pair keyed `key`; the number of pairs when none is
fn find_key(pairs: &Vec<(String, String)>, key: &String) -> (r: usize)
    ensures
        r == first_key(pairs.deep_view(), key@),
{
    let ghost p = pairs.deep_view();
    let mut i: usize = 0;
    assert(p.skip(0) =~= p);
    while i < pairs.len()
        invariant
            i <= pairs@.len(),
            p == pairs.deep_view(),
            p.len() == pairs@.len(),
            first_key(p, key@) == i + first_key(p.skip(i as int), key@),
        decreases pairs@.len() - i,
    {
        assert(p[i as int] == (pairs[i as int].0@, pairs[i as int].1@));
        assert(p.skip(i as int)[0] == p[i as int]);
        if pairs[i].0 == *key {
            return i;
        }
        assert(p.skip(i as int).drop_first() =~= p.skip(i + 1));
        i = i + 1;
    }
    assert(p.skip(i as int).len() == 0);
    i
}

/// Whether some field is named `key`
fn names_contain(names: &Vec<String>, key: &String) -> (r: bool)
    ensures
        r == names.deep_view().contains(key@),
{
    let ghost nm = names.deep_view();
    let mut i: usize = 0;
    while i < names.len()
        invariant
            i <= names@.len(),
            nm == names.deep_view(),
            nm.len() == names@.len(),
            forall|j: int| 0 <= j < i ==> nm[j] != key@,
        decreases names@.len() - i,
    {
        assert(nm[i as int] == names[i as int]@);
        if names[i] == *key {
            return true;
        }
        i = i + 1;
    }
    false
}

/// The index of the first pair whose key names no field; the number of pairs when none is
fn find_unknown(pairs: &Vec<(String, String)>, names: &Vec<String>) -> (r: usize)
    ensures
        r == unknown_from(pairs.deep_view(), names.deep_view(), 0),
{
    let ghost p = pairs.deep_view();
    let ghost nm = names.deep_view();
    let mut u: usize = 0;
    while u < pairs.len()
        invariant
            u <= pairs@.len(),
            p == pairs.deep_view(),
            nm == names.deep_view(),
            p.len() == pairs@.len(),
            unknown_from(p, nm, 0) == unknown_from(p, nm, u as nat),
        decreases pairs@.len() - u,
    {
        assert(p[u as int].0 == pairs[u as int].0@);
        if !names_contain(names, &pairs[u].0) {
            return u;
        }
        u = u + 1;
    }
    u
}

/// Plans how a derived `FromArma` reads a struct with named fields from the
/// `[name, value]` pairs given for it: the fields are named `names` and have
/// `#[arma(default)]` as `field_defaults` says, the container as
/// `container_default` says.
///
/// A key given twice is an error, reported before any field is read. Else each
/// field, in declaration order, is read from the value given under its name,
/// or from a default, or is missing (`FromArmaError::MapMissingField`); and
/// when some key names no field, that key, the first such in input order, is
/// returned for a `FromArmaError::MapUnknownField` reported after the fields
/// are read.
pub fn plan_named_fields(
    pairs: &Vec<(String, String)>,
    names: &Vec<String>,
    field_defaults: &Vec<bool>,
    container_default: bool,
) -> (r: Result<(Vec<FieldSource>, Option<String>), FromArmaError>)
    requires
        names@.len() == field_defaults@.len(),
    ensures
        match (
            r,
            spec_plan_named(pairs.deep_view(), names.deep_view(), field_defaults@, container_default),
        ) {
            (Ok((v, u)), Ok((sv, su))) => v.deep_view() == sv && u.deep_view() == su,
            (Err(e), Err(f)) => e.deep_view() == f,
            _ => false,
        },
{
    let ghost p = pairs.deep_view();
    let ghost nm = names.deep_view();
    let mut j: usize = 0;
    while j < pairs.len()
        invariant
            j <= pairs@.len(),
            p == pairs.deep_view(),
            p.len() == pairs@.len(),
            repeat_from(p, 0) == repeat_from(p, j as nat),
        decreases pairs@.len() - j,
    {
        assert(p[j as int] == (pairs[j as int].0@, pairs[j as int].1@));
        let k = find_key(pairs, &pairs[j].0);
        if k < j {
            let mut m = chars_of("duplicate field: ");
            let mut key = chars_of(pairs[j].0.as_str());
            m.append(&mut key);
            let msg = string_from_chars(m.as_slice());
            assert(msg@ == duplicate_message(p[j as int].0));
            return Err(FromArmaError::Custom(msg));
        }
        j = j + 1;
    }
    let mut plan: Vec<FieldSource> = Vec::new();
    let mut i: usize = 0;
    while i < names.len()
        invariant
            i <= names@.len(),
            names@.len() == field_defaults@.len(),
            p == pairs.deep_view(),
            nm == names.deep_view(),
            p.len() == pairs@.len(),
            nm.len() == names@.len(),
            plan.deep_view() =~= Seq::new(
                i as nat,
                |x: int| named_source(p, nm[x], field_defaults@[x], container_default),
            ),
        decreases names@.len() - i,
    {
        let k = find_key(pairs, &names[i]);
        proof {
            lemma_first_key_bound(p, nm[i as int]);
        }
        assert(nm[i as int] == names[i as int]@);
        let src = if k < pairs.len() {
            assert(p[k as int] == (pairs[k as int].0@, pairs[k as int].1@));
            FieldSource::Given(pairs[k].1.clone())
        } else if field_defaults[i] {
            FieldSource::FieldDefault
        } else if container_default {
            FieldSource::ContainerDefault
        } else {
            FieldSource::Missing(FromArmaError::MapMissingField(names[i].clone()))
        };
        assert(src.deep_view() == named_source(p, nm[i as int], field_defaults@[i as int], container_default));
        let ghost before = plan.deep_view();
        plan.push(src);
        assert(plan.deep_view() =~= before.push(src.deep_view()));
        i = i + 1;
    }
    let u = find_unknown(pairs, names);
    let unknown = if u < pairs.len() {
        Some(pairs[u].0.clone())
    } else {
        None
    };
    Ok((plan, unknown))
}

/// Where field `i` of `n` unnamed fields is read from, given the elements `e`:
/// its element; without one, its own default, else the container's; else the
/// read fails with the number of fields expected and `i` found.
pub open spec fn tuple_source(
    e: Seq<Seq<char>>,
    n: nat,
    i: int,
    field_default: bool,
    container_default: bool,
) -> SourceView {
    if i < e.len() {
        FieldSource::Given(e[i])
    } else if field_default {
        FieldSource::FieldDefault
    } else if container_default {
        FieldSource::ContainerDefault
    } else {
        FieldSource::Missing(FromArmaError::SizeMismatch { expected: n as usize, actual: i as usize })
    }
}

/// Reading a struct with unnamed fields from the elements `e`: each field, in
/// order, has its source, and more elements than fields fail the read after
/// the fields are read.
pub open spec fn spec_plan_tuple(e: Seq<Seq<char>>, fd: Seq<bool>, container_default: bool) -> (
    Seq<SourceView>,
    Option<ErrorView>,
) {
    (
        Seq::new(fd.len(), |i: int| tuple_source(e, fd.len(), i, fd[i], container_default)),
        if e.len() > fd.len() {
            Some(
                FromArmaError::SizeMismatch {
                    expected: fd.len() as usize,
                    actual: e.len() as usize,
                },
            )
        } else {
            None
        },
    )
}

/// Plans how a derived `FromArma` reads a struct with unnamed fields, which
/// have `#[arma(default)]` as `field_defaults` says, from the elements given
/// for it: field `i` is read from element `i`, or from a default, or is missing
/// (`FromArmaError::SizeMismatch` with `i` found); and elements past the last
/// field give the error returned beside the plan, reported after the fields are read.
pub fn plan_tuple_fields(
    elements: &Vec<String>,
    field_defaults: &Vec<bool>,
    container_default: bool,
) -> (r: (Vec<FieldSource>, Option<FromArmaError>))
    ensures
        r.0.deep_view() == spec_plan_tuple(elements.deep_view(), field_defaults@, container_default).0,
        r.1.deep_view() == spec_plan_tuple(elements.deep_view(), field_defaults@, container_default).1,
{
    let ghost e = elements.deep_view();
    let n = field_defaults.len();
    let mut plan: Vec<FieldSource> = Vec::new();
    let mut i: usize = 0;
    while i < n
        invariant
            i <= n,
            n == field_defaults@.len(),
            e == elements.deep_view(),
            e.len() == elements@.len(),
            plan.deep_view() =~= Seq::new(
                i as nat,
                |x: int| tuple_source(e, n as nat, x, field_defaults@[x], container_default),
            ),
        decreases n - i,
    {
        let src = if i < elements.len() {
            assert(e[i as int] == elements[i as int]@);
            FieldSource::Given(elements[i].clone())
        } else if field_defaults[i] {
            FieldSource::FieldDefault
        } else if container_default {
            FieldSource::ContainerDefault
        } else {
            FieldSource::Missing(FromArmaError::SizeMismatch { expected: n, actual: i })
        };
        assert(src.deep_view() == tuple_source(e, n as nat, i as int, field_defaults@[i as int], container_default));
        let ghost before = plan.deep_view();
        plan.push(src);
        assert(plan.deep_view() =~= before.push(src.deep_view()));
        i = i + 1;
    }
    let surplus = if elements.len() > n {
        Some(FromArmaError::SizeMismatch { expected: n, actual: elements.len() })
    } else {
        None
    };
    (plan, surplus)
}

} // verus!
