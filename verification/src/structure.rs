//! Parameter objects, lists and the parameter IO: ordered maps from names to
//! parameters, to objects and to lists.
use vstd::prelude::*;
use vstd::string::StringSliceAdditionalSpecFns;
use indexmap::IndexMap;
use rustc_hash::FxHasher;
use std::hash::BuildHasherDefault;
use crate::entries::{collect_entries, insert_entry, keys_unique, names, value_of};
use crate::name::Name;
use crate::parameter::Parameter;

verus! {

/// `indexmap::IndexMap`, opaque: its contents are named by the spec
/// functions below, one for each map type of this module.
#[verifier::external_type_specification]
#[verifier::external_body]
#[verifier::reject_recursive_types(K)]
#[verifier::reject_recursive_types(V)]
#[verifier::reject_recursive_types(S)]
pub struct ExIndexMap<K, V, S>(IndexMap<K, V, S>);

/// `std::hash::BuildHasherDefault`, opaque.
#[verifier::external_type_specification]
#[verifier::external_body]
#[verifier::reject_recursive_types(H)]
pub struct ExBuildHasherDefault<H>(BuildHasherDefault<H>);

/// `rustc_hash::FxHasher`, opaque.
#[verifier::external_type_specification]
#[verifier::external_body]
pub struct ExFxHasher(FxHasher);

/// `IndexMap::clone`: copies the map, entry by entry through the keys' and
/// values' own `clone`. Nothing is stated of the copy, as nothing is known of
/// what those `clone` impls return.
pub assume_specification<K, V, S>[<IndexMap<K, V, S> as Clone>::clone](
    m: &IndexMap<K, V, S>,
) -> IndexMap<K, V, S>
    where
        K: Clone,
        V: Clone,
        S: Clone,
;

/// [`Parameter`] object. This is essentially a dictionary of parameters.
#[derive(Debug, Clone)]
pub struct ParameterObject(pub IndexMap<Name, Parameter, BuildHasherDefault<FxHasher>>);

/// Newtype map of parameter objects.
#[derive(Debug, Clone)]
pub struct ParameterObjectMap(pub IndexMap<Name, ParameterObject, BuildHasherDefault<FxHasher>>);

/// Newtype map of parameter lists. The map sits in a private field of an
/// opaque struct: a list holds lists, and Verus refuses that recursion
/// through `IndexMap`'s value parameter.
#[verifier::external_body]
#[derive(Debug)]
pub struct ParameterListMap {
    map: IndexMap<Name, ParameterList, BuildHasherDefault<FxHasher>>,
}

impl Clone for ParameterListMap {
    /// `IndexMap::clone` on the held map. Nothing is stated of the copy, as
    /// nothing is known of what the lists' own `clone` returns.
    #[verifier::external_body]
    fn clone(&self) -> Self {
        ParameterListMap { map: self.map.clone() }
    }
}

/// [`Parameter`] list. This is essentially a dictionary of parameter objects and
/// a dictionary of parameter lists.
#[derive(Debug, Clone)]
pub struct ParameterList {
    /// Map of child parameter objects.
    pub objects: ParameterObjectMap,
    /// Map of child parameter lists.
    pub lists: ParameterListMap,
}

/// The entries of an `IndexMap` of parameters, in their order.
pub uninterp spec fn parameter_entries(
    m: IndexMap<Name, Parameter, BuildHasherDefault<FxHasher>>,
) -> Seq<(Name, Parameter)>;

/// `IndexMap::default`: an empty map.
#[verifier::external_body]
fn parameter_map_new() -> (m: IndexMap<Name, Parameter, BuildHasherDefault<FxHasher>>)
    ensures
        parameter_entries(m) == Seq::<(Name, Parameter)>::empty(),
{
    IndexMap::default()
}

/// `IndexMap::len`: the number of entries.
#[verifier::external_body]
fn parameter_map_len(m: &IndexMap<Name, Parameter, BuildHasherDefault<FxHasher>>) -> (n: usize)
    ensures
        n == parameter_entries(*m).len(),
        n == names(parameter_entries(*m)).to_set().len(),
{
    m.len()
}

/// `IndexMap::is_empty`: whether there is no entry.
#[verifier::external_body]
fn parameter_map_is_empty(m: &IndexMap<Name, Parameter, BuildHasherDefault<FxHasher>>) -> (b:
    bool)
    ensures
        b == (parameter_entries(*m).len() == 0),
{
    m.is_empty()
}

/// `IndexMap::insert`: an existing key keeps its place and takes the new
/// value, whose predecessor is returned; a new key goes last and `None` is
/// returned.
#[verifier::external_body]
fn parameter_map_insert(
    m: &mut IndexMap<Name, Parameter, BuildHasherDefault<FxHasher>>,
    k: Name,
    v: Parameter,
) -> (r: Option<Parameter>)
    ensures
        parameter_entries(*final(m)) == insert_entry(parameter_entries(*old(m)), k, v),
        keys_unique(parameter_entries(*final(m))),
        r == value_of(parameter_entries(*old(m)), k),
{
    m.insert(k, v)
}

impl View for ParameterObject {
    type V = Seq<(Name, Parameter)>;

    /// The object's parameters, in their order.
    open spec fn view(&self) -> Seq<(Name, Parameter)> {
        parameter_entries(self.0)
    }
}

impl ParameterObject {
    /// Return the number of parameters in the object.
    pub fn len(&self) -> (n: usize)
        ensures
            n == self@.len(),
            n == names(self@).to_set().len(),
    {
        parameter_map_len(&self.0)
    }

    /// Returns true if the object is empty.
    pub fn is_empty(&self) -> (b: bool)
        ensures
            b == (self@.len() == 0),
    {
        parameter_map_is_empty(&self.0)
    }

    /// Builds an object from named parameters, inserting them in order: a
    /// name that occurs again keeps its first place and takes the later
    /// parameter.
    pub fn from_iter(items: Vec<(Name, Parameter)>) -> (o: Self)
        ensures
            o@ == collect_entries(items@),
    {
        let mut m = parameter_map_new();
        let ghost all = items@;
        for item in it: items.into_iter()
            invariant
                it.seq() == all,
                parameter_entries(m) == collect_entries(all.take(it.index() as int)),
        {
            let ghost before = it.index() as int;
            let (k, v) = item;
            parameter_map_insert(&mut m, k, v);
            assert(all.take(before + 1).drop_last() =~= all.take(before));
        }
        assert(all.take(all.len() as int) =~= all);
        ParameterObject(m)
    }
}


/// The entries of an `IndexMap` of parameter objects, in their order.
pub uninterp spec fn object_entries(
    m: IndexMap<Name, ParameterObject, BuildHasherDefault<FxHasher>>,
) -> Seq<(Name, ParameterObject)>;

/// `IndexMap::default`: an empty map.
#[verifier::external_body]
fn object_map_new() -> (m: IndexMap<Name, ParameterObject, BuildHasherDefault<FxHasher>>)
    ensures
        object_entries(m) == Seq::<(Name, ParameterObject)>::empty(),
{
    IndexMap::default()
}

/// `IndexMap::len`: the number of entries.
#[verifier::external_body]
fn object_map_len(m: &IndexMap<Name, ParameterObject, BuildHasherDefault<FxHasher>>) -> (n: usize)
    ensures
        n == object_entries(*m).len(),
        n == names(object_entries(*m)).to_set().len(),
{
    m.len()
}

/// `IndexMap::is_empty`: whether there is no entry.
#[verifier::external_body]
fn object_map_is_empty(m: &IndexMap<Name, ParameterObject, BuildHasherDefault<FxHasher>>) -> (b: bool)
    ensures
        b == (object_entries(*m).len() == 0),
{
    m.is_empty()
}

/// `IndexMap::insert`: an existing key keeps its place and takes the new
/// value, whose predecessor is returned; a new key goes last and `None` is
/// returned.
#[verifier::external_body]
fn object_map_insert(
    m: &mut IndexMap<Name, ParameterObject, BuildHasherDefault<FxHasher>>,
    k: Name,
    v: ParameterObject,
) -> (r: Option<ParameterObject>)
    ensures
        object_entries(*final(m)) == insert_entry(object_entries(*old(m)), k, v),
        keys_unique(object_entries(*final(m))),
        r == value_of(object_entries(*old(m)), k),
{
    m.insert(k, v)
}

/// The entries of a map of parameter lists, in their order.
pub uninterp spec fn list_entries(m: ParameterListMap) -> Seq<(Name, ParameterList)>;

/// `IndexMap::default`: an empty map.
#[verifier::external_body]
fn list_map_new() -> (m: ParameterListMap)
    ensures
        list_entries(m) == Seq::<(Name, ParameterList)>::empty(),
{
    ParameterListMap { map: IndexMap::default() }
}

/// `IndexMap::len`: the number of entries.
#[verifier::external_body]
fn list_map_len(m: &ParameterListMap) -> (n: usize)
    ensures
        n == list_entries(*m).len(),
        n == names(list_entries(*m)).to_set().len(),
{
    m.map.len()
}

/// `IndexMap::is_empty`: whether there is no entry.
#[verifier::external_body]
fn list_map_is_empty(m: &ParameterListMap) -> (b: bool)
    ensures
        b == (list_entries(*m).len() == 0),
{
    m.map.is_empty()
}

/// `IndexMap::insert`: an existing key keeps its place and takes the new
/// value, whose predecessor is returned; a new key goes last and `None` is
/// returned.
#[verifier::external_body]
fn list_map_insert(m: &mut ParameterListMap, k: Name, v: ParameterList) -> (r: Option<
    ParameterList,
>)
    ensures
        list_entries(*final(m)) == insert_entry(list_entries(*old(m)), k, v),
        keys_unique(list_entries(*final(m))),
        r == value_of(list_entries(*old(m)), k),
{
    m.map.insert(k, v)
}

/// `IndexMap::get`: the value stored under `k`, if any.
#[verifier::external_body]
fn list_map_get<'a>(m: &'a ParameterListMap, k: Name) -> (r: Option<&'a ParameterList>)
    ensures
        match r {
            Some(l) => value_of(list_entries(*m), k) == Some(*l),
            None => value_of(list_entries(*m), k) is None,
        },
{
    m.map.get(&k)
}

/// `IndexMap::into_iter`, collected: the entries, in their order.
#[verifier::external_body]
fn list_map_into_entries(m: ParameterListMap) -> (v: Vec<(Name, ParameterList)>)
    ensures
        v@ == list_entries(m),
        keys_unique(v@),
{
    m.map.into_iter().collect()
}

impl Default for ParameterObject {
    fn default() -> (o: Self)
        ensures
            o@ == Seq::<(Name, Parameter)>::empty(),
    {
        ParameterObject(parameter_map_new())
    }
}

impl View for ParameterObjectMap {
    type V = Seq<(Name, ParameterObject)>;

    /// The map's objects, in their order.
    open spec fn view(&self) -> Seq<(Name, ParameterObject)> {
        object_entries(self.0)
    }
}

impl ParameterObjectMap {
    /// Return the number of parameter objects in the map.
    pub fn len(&self) -> (n: usize)
        ensures
            n == self@.len(),
            n == names(self@).to_set().len(),
    {
        object_map_len(&self.0)
    }

    /// Returns true if the map is empty.
    pub fn is_empty(&self) -> (b: bool)
        ensures
            b == (self@.len() == 0),
    {
        object_map_is_empty(&self.0)
    }

    /// Builds a map from named objects, inserting them in order: a name that
    /// occurs again keeps its first place and takes the later object.
    pub fn from_iter(items: Vec<(Name, ParameterObject)>) -> (o: Self)
        ensures
            o@ == collect_entries(items@),
    {
        let mut m = object_map_new();
        let ghost all = items@;
        for item in it: items.into_iter()
            invariant
                it.seq() == all,
                object_entries(m) == collect_entries(all.take(it.index() as int)),
        {
            let ghost before = it.index() as int;
            let (k, v) = item;
            object_map_insert(&mut m, k, v);
            assert(all.take(before + 1).drop_last() =~= all.take(before));
        }
        assert(all.take(all.len() as int) =~= all);
        ParameterObjectMap(m)
    }
}

impl Default for ParameterObjectMap {
    fn default() -> (o: Self)
        ensures
            o@ == Seq::<(Name, ParameterObject)>::empty(),
    {
        ParameterObjectMap(object_map_new())
    }
}

impl View for ParameterListMap {
    type V = Seq<(Name, ParameterList)>;

    /// The map's lists, in their order.
    open spec fn view(&self) -> Seq<(Name, ParameterList)> {
        list_entries(*self)
    }
}

impl ParameterListMap {
    /// Return the number of parameter lists in the map.
    pub fn len(&self) -> (n: usize)
        ensures
            n == self@.len(),
            n == names(self@).to_set().len(),
    {
        list_map_len(self)
    }

    /// Returns true if the map is empty.
    pub fn is_empty(&self) -> (b: bool)
        ensures
            b == (self@.len() == 0),
    {
        list_map_is_empty(self)
    }

    /// The list stored under `name`, if any.
    pub fn get(&self, name: Name) -> (r: Option<&ParameterList>)
        ensures
            match r {
                Some(l) => value_of(self@, name) == Some(*l),
                None => value_of(self@, name) is None,
            },
    {
        list_map_get(self, name)
    }

    /// Stores `list` under `name`: an existing name keeps its place and
    /// takes the new list, whose predecessor is returned; a new name goes
    /// last and `None` is returned.
    pub fn insert(&mut self, name: Name, list: ParameterList) -> (r: Option<ParameterList>)
        ensures
            final(self)@ == insert_entry(old(self)@, name, list),
            r == value_of(old(self)@, name),
    {
        list_map_insert(self, name, list)
    }

    /// The named lists, in their order.
    pub fn into_entries(self) -> (v: Vec<(Name, ParameterList)>)
        ensures
            v@ == self@,
            keys_unique(v@),
    {
        list_map_into_entries(self)
    }

    /// Builds a map from named lists, inserting them in order: a name that
    /// occurs again keeps its first place and takes the later list.
    pub fn from_iter(items: Vec<(Name, ParameterList)>) -> (o: Self)
        ensures
            o@ == collect_entries(items@),
    {
        let mut m = list_map_new();
        let ghost all = items@;
        for item in it: items.into_iter()
            invariant
                it.seq() == all,
                list_entries(m) == collect_entries(all.take(it.index() as int)),
        {
            let ghost before = it.index() as int;
            let (k, v) = item;
            list_map_insert(&mut m, k, v);
            assert(all.take(before + 1).drop_last() =~= all.take(before));
        }
        assert(all.take(all.len() as int) =~= all);
        m
    }
}

impl Default for ParameterListMap {
    fn default() -> (o: Self)
        ensures
            o@ == Seq::<(Name, ParameterList)>::empty(),
    {
        list_map_new()
    }
}

impl Default for ParameterList {
    fn default() -> (l: Self)
        ensures
            l.objects@ == Seq::<(Name, ParameterObject)>::empty(),
            l.lists@ == Seq::<(Name, ParameterList)>::empty(),
    {
        ParameterList { objects: ParameterObjectMap::default(), lists: ParameterListMap::default() }
    }
}

/// Name of the root parameter list of a parameter IO: `param_root`.
pub fn root_key() -> (n: Name)
    ensures
        n == Name::spec_from_bytes("param_root".spec_bytes()),
{
    Name::from_str("param_root")
}

/// [`Parameter`] IO. This is the root parameter list and the only structure
/// that can be serialized to or deserialized from a binary parameter archive.
#[derive(Debug, Clone)]
pub struct ParameterIO {
    /// Data version (not the AAMP format version). Typically 0.
    pub version: u32,
    /// Data type identifier. Typically “xml”.
    pub data_type: String,
    /// Root parameter list.
    pub param_root: ParameterList,
}

impl Default for ParameterIO {
    fn default() -> (p: Self)
        ensures
            p.version == 0,
            p.data_type@ == Seq::<char>::empty(),
            p.param_root.objects@ == Seq::<(Name, ParameterObject)>::empty(),
            p.param_root.lists@ == Seq::<(Name, ParameterList)>::empty(),
    {
        ParameterIO { version: 0, data_type: String::new(), param_root: ParameterList::default() }
    }
}

/// Trait abstracting over [`ParameterList`] and [`ParameterIO`]. Useful since
/// a parameter IO is all but interchangeable with the root list.
pub trait ParameterListing {
    /// Returns a map of parameter lists.
    fn lists(&self) -> &ParameterListMap;

    /// Returns a mutable map of parameter lists.
    fn lists_mut(&mut self) -> &mut ParameterListMap;

    /// Get a parameter list by name or hash.
    fn list<N: Into<Name>>(&self, name: N) -> Option<&ParameterList>;

    /// Get a mutable reference to a parameter list by name or hash.
    fn list_mut<N: Into<Name>>(&self, name: N) -> Option<&mut ParameterList>;

    /// Returns a map of parameter objects.
    fn objects(&self) -> &ParameterObjectMap;

    /// Returns a mutable map of parameter objects.
    fn objects_mut(&mut self) -> &mut ParameterObjectMap;

    /// Get a parameter object by name or hash.
    fn object<N: Into<Name>>(&self, name: N) -> Option<&ParameterObject>;

    /// Get a mutable reference to a parameter object by name or hash.
    fn object_mut<N: Into<Name>>(&self, name: N) -> Option<&mut ParameterObject>;
}

} // verus!
