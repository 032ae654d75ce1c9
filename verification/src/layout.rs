//! Reading a dbusmenu `GetLayout` reply into a [`MenuNode`] tree.
//!
//! A reply is `(id, properties, children)`, where each child is again such
//! a triple packed into a structure. Properties are read by name and
//! checked against the type the menu protocol gives them; children are
//! first all checked for their shape, then read one after another.
use vstd::prelude::*;

use crate::menu_node::{MenuNode, NodeModel, node_model};
use crate::text::{lemma_without_underscores_clean, remove_underscores, without_underscores};
use crate::value::{DbusValue, unwrap_variant, unwrap_variant_ref};

verus! {

/// Why a layout could not be read.
#[derive(Debug, Clone, Copy, PartialEq, Eq, Structural)]
pub enum LayoutError {
    /// A value does not have the D-Bus type that the menu protocol gives it.
    IncorrectType,
}

/// The three ways reading a layout can end.
pub enum Parsed<T> {
    Done(T),
    Failed,
    /// Reading stops on a structure with too few fields (the reader would
    /// take a field that is not there).
    Panics,
}

/// The value stored under `key`; where a key occurs more than once the
/// last occurrence wins, as when the pairs are collected into a map.
pub open spec fn lookup(props: Seq<(Seq<char>, DbusValue)>, key: Seq<char>) -> Option<DbusValue>
    decreases props.len(),
{
    if props.len() == 0 {
        None
    } else if props.last().0 == key {
        Some(props.last().1)
    } else {
        lookup(props.drop_last(), key)
    }
}

/// A property list given as string keys.
pub open spec fn pair_props(ps: Seq<(String, DbusValue)>) -> Seq<(Seq<char>, DbusValue)> {
    ps.map_values(|p: (String, DbusValue)| (p.0@, p.1))
}

/// The characters of a string value (empty for any other value).
pub open spec fn str_chars(v: DbusValue) -> Seq<char> {
    match v {
        DbusValue::Str(s) => s@,
        _ => Seq::empty(),
    }
}

/// A property list given as dictionary entries: one variant layer is taken
/// off every key and every value.
pub open spec fn entry_props(es: Seq<(DbusValue, DbusValue)>) -> Seq<(Seq<char>, DbusValue)> {
    es.map_values(|e: (DbusValue, DbusValue)| (str_chars(unwrap_variant(e.0)), unwrap_variant(e.1)))
}

/// Every key of the dictionary is a string (after one variant layer).
pub open spec fn keys_are_strings(es: Seq<(DbusValue, DbusValue)>) -> bool {
    forall|i: int| 0 <= i < es.len() ==> (#[trigger] unwrap_variant(es[i].0)) is Str
}

/// Whether a child is a structure `(i32, dict of string keys, array)`;
/// fields are taken in order, and running out of fields is `Panics`.
pub open spec fn child_shape(c: DbusValue) -> Parsed<()> {
    match c {
        DbusValue::Structure(f) => {
            if f@.len() == 0 {
                Parsed::Panics
            } else if !(f@[0] is I32) {
                Parsed::Failed
            } else if f@.len() == 1 {
                Parsed::Panics
            } else if !(f@[1] matches DbusValue::Dict(es) && keys_are_strings(es@)) {
                Parsed::Failed
            } else if f@.len() == 2 {
                Parsed::Panics
            } else if !(f@[2] is Array) {
                Parsed::Failed
            } else {
                Parsed::Done(())
            }
        },
        _ => Parsed::Failed,
    }
}

/// The `i`-th child; children nested inside an array lose one variant layer.
pub open spec fn child_at(s: Seq<DbusValue>, i: int, nested: bool) -> DbusValue {
    if nested {
        unwrap_variant(s[i])
    } else {
        s[i]
    }
}

/// The shapes of all children, checked in order; the first that is not
/// right decides.
pub open spec fn shapes(s: Seq<DbusValue>, nested: bool) -> Parsed<()>
    decreases s.len(),
{
    if s.len() == 0 {
        Parsed::Done(())
    } else {
        match child_shape(child_at(s, 0, nested)) {
            Parsed::Done(_) => shapes(s.drop_first(), nested),
            Parsed::Failed => Parsed::Failed,
            Parsed::Panics => Parsed::Panics,
        }
    }
}

/// A string property: absent, a string, or of another type (`None`).
pub open spec fn read_string(v: Option<DbusValue>) -> Option<Option<Seq<char>>> {
    match v {
        None => Some(None),
        Some(x) => match unwrap_variant(x) {
            DbusValue::Str(s) => Some(Some(s@)),
            _ => None,
        },
    }
}

/// A boolean property: absent, a boolean, or of another type (`None`).
pub open spec fn read_bool(v: Option<DbusValue>) -> Option<Option<bool>> {
    match v {
        None => Some(None),
        Some(x) => match unwrap_variant(x) {
            DbusValue::Bool(b) => Some(Some(b)),
            _ => None,
        },
    }
}

/// A 32-bit integer property: absent, an `i32`, or of another type (`None`).
pub open spec fn read_i32(v: Option<DbusValue>) -> Option<Option<i32>> {
    match v {
        None => Some(None),
        Some(x) => match unwrap_variant(x) {
            DbusValue::I32(n) => Some(Some(n)),
            _ => None,
        },
    }
}

pub open spec fn key_label() -> Seq<char> {
    "label"@
}

pub open spec fn key_enabled() -> Seq<char> {
    "enabled"@
}

pub open spec fn key_visible() -> Seq<char> {
    "visible"@
}

pub open spec fn key_toggle_type() -> Seq<char> {
    "toggle-type"@
}

pub open spec fn key_toggle_state() -> Seq<char> {
    "toggle-state"@
}

/// Every property that the node reads has its protocol type.
pub open spec fn props_ok(props: Seq<(Seq<char>, DbusValue)>) -> bool {
    &&& read_string(lookup(props, key_label())) is Some
    &&& read_bool(lookup(props, key_enabled())) is Some
    &&& read_bool(lookup(props, key_visible())) is Some
    &&& read_string(lookup(props, key_toggle_type())) is Some
    &&& read_i32(lookup(props, key_toggle_state())) is Some
}

/// The node built from well-typed properties and already read children;
/// underscores are taken out of the label.
pub open spec fn node_from(id: i32, props: Seq<(Seq<char>, DbusValue)>, kids: Seq<NodeModel>) -> NodeModel {
    NodeModel {
        id,
        label: match read_string(lookup(props, key_label())).unwrap() {
            Some(s) => Some(without_underscores(s)),
            None => None,
        },
        enabled: read_bool(lookup(props, key_enabled())).unwrap(),
        visible: read_bool(lookup(props, key_visible())).unwrap(),
        toggle_type: read_string(lookup(props, key_toggle_type())).unwrap(),
        toggle_state: read_i32(lookup(props, key_toggle_state())).unwrap(),
        children: kids,
    }
}

/// Reading a node: the children's shapes first, then the children one by
/// one, then the properties.
pub open spec fn parse_node(
    id: i32,
    props: Seq<(Seq<char>, DbusValue)>,
    children: Seq<DbusValue>,
    nested: bool,
) -> Parsed<NodeModel>
    decreases children, 2nat,
{
    match shapes(children, nested) {
        Parsed::Done(_) => match parse_children(children, nested) {
            Parsed::Done(kids) => if props_ok(props) {
                Parsed::Done(node_from(id, props, kids))
            } else {
                Parsed::Failed
            },
            Parsed::Failed => Parsed::Failed,
            Parsed::Panics => Parsed::Panics,
        },
        Parsed::Failed => Parsed::Failed,
        Parsed::Panics => Parsed::Panics,
    }
}

/// Reading the children in order; the first that fails decides.
pub open spec fn parse_children(s: Seq<DbusValue>, nested: bool) -> Parsed<Seq<NodeModel>>
    decreases s, 1nat,
{
    if s.len() == 0 {
        Parsed::Done(Seq::empty())
    } else {
        let first = if nested {
            match s[0] {
                DbusValue::Variant(b) => parse_child(*b),
                _ => parse_child(s[0]),
            }
        } else {
            parse_child(s[0])
        };
        match first {
            Parsed::Done(m) => match parse_children(s.drop_first(), nested) {
                Parsed::Done(ms) => Parsed::Done(seq![m] + ms),
                Parsed::Failed => Parsed::Failed,
                Parsed::Panics => Parsed::Panics,
            },
            Parsed::Failed => Parsed::Failed,
            Parsed::Panics => Parsed::Panics,
        }
    }
}

/// Reading one child of the right shape.
pub open spec fn parse_child(c: DbusValue) -> Parsed<NodeModel>
    decreases c, 0nat,
{
    match c {
        DbusValue::Structure(f) => if f@.len() >= 3 {
            match f@[0] {
                DbusValue::I32(id) => match f@[1] {
                    DbusValue::Dict(es) => match f@[2] {
                        DbusValue::Array(xs) => parse_node(id, entry_props(es@), xs@, true),
                        _ => Parsed::Failed,
                    },
                    _ => Parsed::Failed,
                },
                _ => Parsed::Failed,
            }
        } else {
            Parsed::Failed
        },
        _ => Parsed::Failed,
    }
}


/// An optional borrowed value, as a value.
pub open spec fn opt_deref(o: Option<&DbusValue>) -> Option<DbusValue> {
    match o {
        Some(v) => Some(*v),
        None => None,
    }
}

/// The result of reading a node, with running out of structure fields kept
/// apart from a type error.
pub(crate) enum LayoutFault {
    IncorrectType,
    TooFewFields,
}

/// What a node read returns for each outcome of [`parse_node`].
pub(crate) open spec fn fault_matches(r: Result<MenuNode, LayoutFault>, p: Parsed<NodeModel>) -> bool {
    match p {
        Parsed::Done(m) => r matches Ok(n) && node_model(n) == m,
        Parsed::Failed => r matches Err(LayoutFault::IncorrectType),
        Parsed::Panics => r matches Err(LayoutFault::TooFewFields),
    }
}

/// The looked-up values of the properties that a node reads.
pub(crate) struct PropValues<'a> {
    pub label: Option<&'a DbusValue>,
    pub enabled: Option<&'a DbusValue>,
    pub visible: Option<&'a DbusValue>,
    pub toggle_type: Option<&'a DbusValue>,
    pub toggle_state: Option<&'a DbusValue>,
}

pub(crate) open spec fn values_of(v: PropValues, props: Seq<(Seq<char>, DbusValue)>) -> bool {
    &&& opt_deref(v.label) == lookup(props, key_label())
    &&& opt_deref(v.enabled) == lookup(props, key_enabled())
    &&& opt_deref(v.visible) == lookup(props, key_visible())
    &&& opt_deref(v.toggle_type) == lookup(props, key_toggle_type())
    &&& opt_deref(v.toggle_state) == lookup(props, key_toggle_state())
}

/// Finds a key among string-keyed pairs; the last occurrence wins.
fn lookup_pairs<'a>(ps: &'a Vec<(String, DbusValue)>, key: &String) -> (r: Option<&'a DbusValue>)
    ensures
        opt_deref(r) == lookup(pair_props(ps@), key@),
{
    let ghost pp = pair_props(ps@);
    let mut i = ps.len();
    assert(pp.subrange(0, i as int) =~= pp);
    while i > 0
        invariant
            i <= ps@.len(),
            pp == pair_props(ps@),
            lookup(pp, key@) == lookup(pp.subrange(0, i as int), key@),
        decreases i,
    {
        assert(pp.subrange(0, i as int).drop_last() =~= pp.subrange(0, i - 1));
        if ps[i - 1].0 == *key {
            return Some(&ps[i - 1].1);
        }
        i = i - 1;
    }
    None
}

/// Finds a key among dictionary entries (one variant layer off key and
/// value); the last occurrence wins.
fn lookup_entries<'a>(es: &'a Vec<(DbusValue, DbusValue)>, key: &String) -> (r: Option<&'a DbusValue>)
    requires
        key@.len() > 0,
    ensures
        opt_deref(r) == lookup(entry_props(es@), key@),
{
    let ghost pp = entry_props(es@);
    let mut i = es.len();
    assert(pp.subrange(0, i as int) =~= pp);
    while i > 0
        invariant
            i <= es@.len(),
            pp == entry_props(es@),
            key@.len() > 0,
            lookup(pp, key@) == lookup(pp.subrange(0, i as int), key@),
        decreases i,
    {
        assert(pp.subrange(0, i as int).drop_last() =~= pp.subrange(0, i - 1));
        match unwrap_variant_ref(&es[i - 1].0) {
            DbusValue::Str(s) => {
                if *s == *key {
                    return Some(unwrap_variant_ref(&es[i - 1].1));
                }
            },
            _ => {},
        }
        i = i - 1;
    }
    None
}

fn key_strings() -> (r: (String, String, String, String, String))
    ensures
        r.0@ == key_label(),
        r.1@ == key_enabled(),
        r.2@ == key_visible(),
        r.3@ == key_toggle_type(),
        r.4@ == key_toggle_state(),
        r.0@.len() > 0,
        r.1@.len() > 0,
        r.2@.len() > 0,
        r.3@.len() > 0,
        r.4@.len() > 0,
{
    proof {
        reveal_strlit("label");
        reveal_strlit("enabled");
        reveal_strlit("visible");
        reveal_strlit("toggle-type");
        reveal_strlit("toggle-state");
    }
    (
        String::from_str("label"),
        String::from_str("enabled"),
        String::from_str("visible"),
        String::from_str("toggle-type"),
        String::from_str("toggle-state"),
    )
}

fn pair_values<'a>(ps: &'a Vec<(String, DbusValue)>) -> (r: PropValues<'a>)
    ensures
        values_of(r, pair_props(ps@)),
{
    let keys = key_strings();
    PropValues {
        label: lookup_pairs(ps, &keys.0),
        enabled: lookup_pairs(ps, &keys.1),
        visible: lookup_pairs(ps, &keys.2),
        toggle_type: lookup_pairs(ps, &keys.3),
        toggle_state: lookup_pairs(ps, &keys.4),
    }
}

fn entry_values<'a>(es: &'a Vec<(DbusValue, DbusValue)>) -> (r: PropValues<'a>)
    ensures
        values_of(r, entry_props(es@)),
{
    let keys = key_strings();
    PropValues {
        label: lookup_entries(es, &keys.0),
        enabled: lookup_entries(es, &keys.1),
        visible: lookup_entries(es, &keys.2),
        toggle_type: lookup_entries(es, &keys.3),
        toggle_state: lookup_entries(es, &keys.4),
    }
}

fn read_string_exec(v: Option<&DbusValue>) -> (r: Result<Option<String>, LayoutFault>)
    ensures
        match read_string(opt_deref(v)) {
            Some(Some(s)) => r matches Ok(Some(x)) && x@ == s,
            Some(None) => r matches Ok(None),
            None => r is Err,
        },
{
    match v {
        None => Ok(None),
        Some(x) => match unwrap_variant_ref(x) {
            DbusValue::Str(s) => Ok(Some(s.clone())),
            _ => Err(LayoutFault::IncorrectType),
        },
    }
}

fn read_bool_exec(v: Option<&DbusValue>) -> (r: Result<Option<bool>, LayoutFault>)
    ensures
        match read_bool(opt_deref(v)) {
            Some(b) => r matches Ok(x) && x == b,
            None => r is Err,
        },
{
    match v {
        None => Ok(None),
        Some(x) => match unwrap_variant_ref(x) {
            DbusValue::Bool(b) => Ok(Some(*b)),
            _ => Err(LayoutFault::IncorrectType),
        },
    }
}

fn read_i32_exec(v: Option<&DbusValue>) -> (r: Result<Option<i32>, LayoutFault>)
    ensures
        match read_i32(opt_deref(v)) {
            Some(b) => r matches Ok(x) && x == b,
            None => r is Err,
        },
{
    match v {
        None => Ok(None),
        Some(x) => match unwrap_variant_ref(x) {
            DbusValue::I32(n) => Ok(Some(*n)),
            _ => Err(LayoutFault::IncorrectType),
        },
    }
}


fn keys_are_strings_exec(es: &Vec<(DbusValue, DbusValue)>) -> (r: bool)
    ensures
        r == keys_are_strings(es@),
{
    let mut i: usize = 0;
    while i < es.len()
        invariant
            i <= es@.len(),
            forall|j: int| 0 <= j < i ==> (#[trigger] unwrap_variant(es@[j].0)) is Str,
        decreases es@.len() - i,
    {
        match unwrap_variant_ref(&es[i].0) {
            DbusValue::Str(_) => {},
            _ => {
                return false;
            },
        }
        i = i + 1;
    }
    true
}

fn child_shape_exec(c: &DbusValue) -> (r: Parsed<()>)
    ensures
        r == child_shape(*c),
{
    match c {
        DbusValue::Structure(f) => {
            if f.len() == 0 {
                return Parsed::Panics;
            }
            match &f[0] {
                DbusValue::I32(_) => {},
                _ => {
                    return Parsed::Failed;
                },
            }
            if f.len() == 1 {
                return Parsed::Panics;
            }
            match &f[1] {
                DbusValue::Dict(es) => {
                    if !keys_are_strings_exec(es) {
                        return Parsed::Failed;
                    }
                },
                _ => {
                    return Parsed::Failed;
                },
            }
            if f.len() == 2 {
                return Parsed::Panics;
            }
            match &f[2] {
                DbusValue::Array(_) => Parsed::Done(()),
                _ => Parsed::Failed,
            }
        },
        _ => Parsed::Failed,
    }
}

/// Children read so far in front of the reading of the rest.
pub open spec fn prepend(ms: Seq<NodeModel>, o: Parsed<Seq<NodeModel>>) -> Parsed<Seq<NodeModel>> {
    match o {
        Parsed::Done(r) => Parsed::Done(ms + r),
        Parsed::Failed => Parsed::Failed,
        Parsed::Panics => Parsed::Panics,
    }
}

fn child_ref(children: &Vec<DbusValue>, k: usize, nested: bool) -> (c: &DbusValue)
    requires
        k < children@.len(),
    ensures
        *c == child_at(children@, k as int, nested),
{
    if nested {
        unwrap_variant_ref(&children[k])
    } else {
        &children[k]
    }
}

/// Reads a node from its id, its looked-up properties and its children.
fn parse_node_exec(
    id: i32,
    Ghost(props): Ghost<Seq<(Seq<char>, DbusValue)>>,
    vals: PropValues<'_>,
    children: &Vec<DbusValue>,
    nested: bool,
) -> (r: Result<MenuNode, LayoutFault>)
    requires
        values_of(vals, props),
    ensures
        fault_matches(r, parse_node(id, props, children@, nested)),
    decreases children@,
{
    let ghost s = children@;
    // all shapes first
    let mut k: usize = 0;
    assert(s.skip(0) =~= s);
    while k < children.len()
        invariant
            k <= s.len(),
            s == children@,
            shapes(s, nested) == shapes(s.skip(k as int), nested),
        decreases s.len() - k,
    {
        let c = child_ref(children, k, nested);
        assert(s.skip(k as int).drop_first() =~= s.skip(k + 1));
        assert(child_at(s.skip(k as int), 0, nested) == *c);
        match child_shape_exec(c) {
            Parsed::Done(_) => {},
            Parsed::Failed => {
                return Err(LayoutFault::IncorrectType);
            },
            Parsed::Panics => {
                return Err(LayoutFault::TooFewFields);
            },
        }
        k = k + 1;
    }
    assert(shapes(s, nested) is Done);
    // then the children one by one
    let mut out: Vec<MenuNode> = Vec::new();
    let ghost mut ms: Seq<NodeModel> = Seq::empty();
    k = 0;
    assert(prepend(ms, parse_children(s.skip(0), nested)) == parse_children(s, nested)) by {
        assert(ms + Seq::<NodeModel>::empty() =~= ms);
        match parse_children(s, nested) {
            Parsed::Done(r) => assert(ms + r =~= r),
            _ => {},
        }
    }
    while k < children.len()
        invariant
            k <= s.len(),
            s == children@,
            out@.len() == k,
            ms.len() == k,
            shapes(s, nested) is Done,
            forall|i: int| 0 <= i < k ==> node_model(#[trigger] out@[i]) == ms[i],
            parse_children(s, nested) == prepend(ms, parse_children(s.skip(k as int), nested)),
        decreases s.len() - k,
    {
        let c = child_ref(children, k, nested);
        let ghost rest = s.skip(k as int);
        assert(rest.drop_first() =~= s.skip(k + 1));
        assert(rest[0] == s[k as int]);
        let child = parse_child_exec(c);
        match child {
            Ok(n) => {
                let ghost m = node_model(n);
                proof {
                    match parse_children(s.skip(k + 1), nested) {
                        Parsed::Done(r) => {
                            assert(ms + (seq![m] + r) =~= ms.push(m) + r);
                        },
                        _ => {},
                    }
                    ms = ms.push(m);
                }
                out.push(n);
            },
            Err(e) => {
                return Err(e);
            },
        }
        k = k + 1;
    }
    assert(ms + Seq::<NodeModel>::empty() =~= ms);
    let label = read_string_exec(vals.label);
    let enabled = read_bool_exec(vals.enabled);
    let visible = read_bool_exec(vals.visible);
    let toggle_type = read_string_exec(vals.toggle_type);
    let toggle_state = read_i32_exec(vals.toggle_state);
    match (label, enabled, visible, toggle_type, toggle_state) {
        (Ok(label), Ok(enabled), Ok(visible), Ok(toggle_type), Ok(toggle_state)) => {
            let label = match label {
                Some(l) => Some(remove_underscores(l.as_str())),
                None => None,
            };
            let node = MenuNode { id, label, enabled, visible, toggle_type, toggle_state, children: out };
            assert(node_model(node).children =~= ms);
            Ok(node)
        },
        _ => Err(LayoutFault::IncorrectType),
    }
}

/// Reads one child; its shape has not been checked yet.
fn parse_child_exec(c: &DbusValue) -> (r: Result<MenuNode, LayoutFault>)
    ensures
        fault_matches(r, parse_child(*c)),
    decreases *c,
{
    match c {
        DbusValue::Structure(f) => {
            if f.len() < 3 {
                return Err(LayoutFault::IncorrectType);
            }
            match &f[0] {
                DbusValue::I32(id) => match &f[1] {
                    DbusValue::Dict(es) => match &f[2] {
                        DbusValue::Array(xs) => {
                            let vals = entry_values(es);
                            parse_node_exec(*id, Ghost(entry_props(es@)), vals, xs, true)
                        },
                        _ => Err(LayoutFault::IncorrectType),
                    },
                    _ => Err(LayoutFault::IncorrectType),
                },
                _ => Err(LayoutFault::IncorrectType),
            }
        },
        _ => Err(LayoutFault::IncorrectType),
    }
}


/// What [`MenuNode::new`] returns for each outcome of [`parse_node`].
pub open spec fn read_matches(r: Result<MenuNode, LayoutError>, p: Parsed<NodeModel>) -> bool {
    match p {
        Parsed::Done(m) => r matches Ok(n) && n@ == m,
        _ => r matches Err(LayoutError::IncorrectType),
    }
}

fn to_layout_result(r: Result<MenuNode, LayoutFault>) -> (o: Result<MenuNode, LayoutError>)
    requires
        !(r matches Err(LayoutFault::TooFewFields)),
    ensures
        match r {
            Ok(n) => o == Ok::<MenuNode, LayoutError>(n),
            Err(_) => o matches Err(LayoutError::IncorrectType),
        },
{
    match r {
        Ok(n) => Ok(n),
        Err(_) => Err(LayoutError::IncorrectType),
    }
}

impl MenuNode {
    /// Reads a node from a layout triple: its id, its properties and its
    /// children (each a structure `(id, properties, children)`).
    ///
    /// Fails with [`LayoutError::IncorrectType`] where a child or a property
    /// does not have its protocol type; the label loses its underscores.
    /// A child structure with too few fields is left out by `requires`
    /// ([`layout_panics`] tells such input apart).
    pub fn new(id: i32, props: Vec<(String, DbusValue)>, children: Vec<DbusValue>) -> (r: Result<MenuNode, LayoutError>)
        requires
            !(parse_node(id, pair_props(props@), children@, false) is Panics),
        ensures
            read_matches(r, parse_node(id, pair_props(props@), children@, false)),
    {
        let vals = pair_values(&props);
        let r = parse_node_exec(id, Ghost(pair_props(props@)), vals, &children, false);
        to_layout_result(r)
    }
}

/// Whether reading this layout would run out of fields of a child
/// structure, the one input on which [`MenuNode::new`] has no answer.
pub fn layout_panics(id: i32, props: &Vec<(String, DbusValue)>, children: &Vec<DbusValue>) -> (r: bool)
    ensures
        r == parse_node(id, pair_props(props@), children@, false) is Panics,
{
    let vals = pair_values(props);
    let r = parse_node_exec(id, Ghost(pair_props(props@)), vals, children, false);
    match r {
        Err(LayoutFault::TooFewFields) => true,
        _ => false,
    }
}

/// Reads the root of a `GetLayout` reply.
pub fn get_item_menu_layout(layout: (i32, Vec<(String, DbusValue)>, Vec<DbusValue>)) -> (r: Result<MenuNode, LayoutError>)
    requires
        !(parse_node(layout.0, pair_props(layout.1@), layout.2@, false) is Panics),
    ensures
        read_matches(r, parse_node(layout.0, pair_props(layout.1@), layout.2@, false)),
{
    let (id, props, children) = layout;
    MenuNode::new(id, props, children)
}

/// The arguments of the `GetLayout` call that fetches a whole menu.
pub struct LayoutRequest {
    /// The node to start from.
    pub parent_id: i32,
    /// How deep to go (`-1`: all the way).
    pub recursion_depth: i32,
    /// The properties to send along.
    pub property_names: Vec<String>,
}

/// The properties a menu reply is asked for.
pub open spec fn requested_properties() -> Seq<Seq<char>> {
    seq!["type"@, "label"@, "toggle-type"@, "toggle-state"@, "enabled"@, "visible"@]
}

/// The request for the whole menu, from its root, with every property
/// that a [`MenuNode`] reads.
pub fn menu_layout_request() -> (r: LayoutRequest)
    ensures
        r.parent_id == 0,
        r.recursion_depth == -1,
        r.property_names@.len() == requested_properties().len(),
        forall|i: int| 0 <= i < r.property_names@.len() ==> #[trigger] r.property_names@[i]@ == requested_properties()[i],
{
    let mut names: Vec<String> = Vec::new();
    names.push(String::from_str("type"));
    names.push(String::from_str("label"));
    names.push(String::from_str("toggle-type"));
    names.push(String::from_str("toggle-state"));
    names.push(String::from_str("enabled"));
    names.push(String::from_str("visible"));
    LayoutRequest { parent_id: 0, recursion_depth: -1, property_names: names }
}


/// No label anywhere in the tree holds an underscore.
pub open spec fn labels_clean(m: NodeModel) -> bool
    decreases m,
{
    &&& m.label matches Some(l) ==> !l.contains('_')
    &&& forall|i: int| 0 <= i < m.children.len() ==> labels_clean(#[trigger] m.children[i])
}

/// A layout that is read has no underscore left in any label: the
/// mnemonic markers are taken out at every depth.
pub proof fn law_read_labels_have_no_underscores(
    id: i32,
    props: Seq<(Seq<char>, DbusValue)>,
    children: Seq<DbusValue>,
    nested: bool,
)
    ensures
        parse_node(id, props, children, nested) matches Parsed::Done(m) ==> labels_clean(m),
    decreases children, 2nat,
{
    if let Parsed::Done(m) = parse_node(id, props, children, nested) {
        lemma_children_clean(children, nested);
        if let Some(Some(l)) = read_string(lookup(props, key_label())) {
            lemma_without_underscores_clean(l);
        }
        assert(m.children == parse_children(children, nested)->Done_0);
    }
}

proof fn lemma_children_clean(s: Seq<DbusValue>, nested: bool)
    ensures
        parse_children(s, nested) matches Parsed::Done(ms) ==> forall|i: int| 0 <= i < ms.len() ==> labels_clean(#[trigger] ms[i]),
    decreases s, 1nat,
{
    if s.len() > 0 {
        if nested {
            match s[0] {
                DbusValue::Variant(b) => lemma_child_clean(*b),
                _ => lemma_child_clean(s[0]),
            }
        } else {
            lemma_child_clean(s[0]);
        }
        lemma_children_clean(s.drop_first(), nested);
        if let Parsed::Done(ms) = parse_children(s, nested) {
            let rest = parse_children(s.drop_first(), nested)->Done_0;
            assert forall|i: int| 0 <= i < ms.len() implies labels_clean(#[trigger] ms[i]) by {
                if i > 0 {
                    assert(ms[i] == rest[i - 1]);
                }
            }
        }
    }
}

proof fn lemma_child_clean(c: DbusValue)
    ensures
        parse_child(c) matches Parsed::Done(m) ==> labels_clean(m),
    decreases c, 0nat,
{
    if let DbusValue::Structure(f) = c {
        if f@.len() >= 3 {
            if let DbusValue::I32(id) = f@[0] {
                if let DbusValue::Dict(es) = f@[1] {
                    if let DbusValue::Array(xs) = f@[2] {
                        law_read_labels_have_no_underscores(id, entry_props(es@), xs@, true);
                    }
                }
            }
        }
    }
}


/// The triple `(id, properties, children)` that a child structure carries,
/// with one variant layer taken off every property key and value; `None`
/// where the child is no such structure.
pub open spec fn child_triple(c: DbusValue) -> Option<(i32, Seq<(Seq<char>, DbusValue)>, Seq<DbusValue>)> {
    match c {
        DbusValue::Structure(f) => if f@.len() >= 3 {
            match (f@[0], f@[1], f@[2]) {
                (DbusValue::I32(id), DbusValue::Dict(es), DbusValue::Array(xs)) => Some((id, entry_props(es@), xs@)),
                _ => None,
            }
        } else {
            None
        },
        _ => None,
    }
}

/// A node that is read has one child per child value, in the same order,
/// and each child is the node read from that child's own triple (its
/// children, nested in an array, losing one variant layer each).
pub proof fn law_children_are_read_as_nodes(
    id: i32,
    props: Seq<(Seq<char>, DbusValue)>,
    children: Seq<DbusValue>,
    nested: bool,
)
    ensures
        parse_node(id, props, children, nested) matches Parsed::Done(m) ==> {
            &&& m.children.len() == children.len()
            &&& forall|i: int| 0 <= i < children.len() ==> {
                let c = #[trigger] child_at(children, i, nested);
                child_triple(c) matches Some(t)
                    && parse_node(t.0, t.1, t.2, true) == Parsed::Done(m.children[i])
            }
        },
{
    if let Parsed::Done(m) = parse_node(id, props, children, nested) {
        lemma_children_read_in_order(children, nested);
        assert(m.children == parse_children(children, nested)->Done_0);
    }
}

proof fn lemma_children_read_in_order(s: Seq<DbusValue>, nested: bool)
    ensures
        parse_children(s, nested) matches Parsed::Done(ms) ==> {
            &&& ms.len() == s.len()
            &&& forall|i: int| 0 <= i < s.len() ==> {
                let c = #[trigger] child_at(s, i, nested);
                child_triple(c) matches Some(t)
                    && parse_node(t.0, t.1, t.2, true) == Parsed::Done(ms[i])
            }
        },
    decreases s.len(),
{
    if s.len() > 0 {
        lemma_children_read_in_order(s.drop_first(), nested);
        if let Parsed::Done(ms) = parse_children(s, nested) {
            let c0 = child_at(s, 0, nested);
            assert(parse_child(c0) == Parsed::Done(ms[0]));
            let rest = parse_children(s.drop_first(), nested)->Done_0;
            assert(ms == seq![ms[0]] + rest);
            assert forall|i: int| 0 <= i < s.len() implies {
                let c = #[trigger] child_at(s, i, nested);
                child_triple(c) matches Some(t)
                    && parse_node(t.0, t.1, t.2, true) == Parsed::Done(ms[i])
            } by {
                if i > 0 {
                    assert(child_at(s, i, nested) == child_at(s.drop_first(), i - 1, nested));
                    assert(ms[i] == rest[i - 1]);
                }
            }
        }
    }
}


/// One of the five properties that a node reads.
pub open spec fn is_read_key(k: Seq<char>) -> bool {
    ||| k == key_label()
    ||| k == key_enabled()
    ||| k == key_visible()
    ||| k == key_toggle_type()
    ||| k == key_toggle_state()
}

/// Two property lists that agree on the five properties a node reads give
/// the same reading, whatever else they hold.
pub proof fn law_only_read_properties_matter(
    id: i32,
    props: Seq<(Seq<char>, DbusValue)>,
    props2: Seq<(Seq<char>, DbusValue)>,
    children: Seq<DbusValue>,
    nested: bool,
)
    requires
        forall|k: Seq<char>| is_read_key(k) ==> lookup(props2, k) == lookup(props, k),
    ensures
        parse_node(id, props2, children, nested) == parse_node(id, props, children, nested),
{
    assert(is_read_key(key_label()));
    assert(is_read_key(key_enabled()));
    assert(is_read_key(key_visible()));
    assert(is_read_key(key_toggle_type()));
    assert(is_read_key(key_toggle_state()));
}

/// Setting a property other than the five a node reads (such as `type` or
/// `icon-name`) to any value changes nothing in the reading.
pub proof fn law_other_properties_are_ignored(
    id: i32,
    props: Seq<(Seq<char>, DbusValue)>,
    k: Seq<char>,
    v: DbusValue,
    children: Seq<DbusValue>,
    nested: bool,
)
    requires
        !is_read_key(k),
    ensures
        parse_node(id, props.push((k, v)), children, nested) == parse_node(id, props, children, nested),
{
    let props2 = props.push((k, v));
    assert(props2.drop_last() =~= props);
    assert forall|key: Seq<char>| is_read_key(key) implies lookup(props2, key) == lookup(props, key) by {
        assert(props2.last().0 != key);
    }
    law_only_read_properties_matter(id, props, props2, children, nested);
}


/// A node that is read carries its id and each property it reads as it was
/// given (one variant layer off the value): `enabled` and `visible` as the
/// boolean, `toggle-type` as the string, `toggle-state` as the integer, and
/// `label` as the string without its underscores; an absent property is
/// `None`, and a property of another type means the node is not read.
pub proof fn law_read_node_keeps_properties(
    id: i32,
    props: Seq<(Seq<char>, DbusValue)>,
    children: Seq<DbusValue>,
    nested: bool,
)
    ensures
        parse_node(id, props, children, nested) matches Parsed::Done(m) ==> {
            &&& m.id == id
            &&& match lookup(props, "enabled"@) {
                None => m.enabled is None,
                Some(x) => unwrap_variant(x) matches DbusValue::Bool(b) && m.enabled == Some(b),
            }
            &&& match lookup(props, "visible"@) {
                None => m.visible is None,
                Some(x) => unwrap_variant(x) matches DbusValue::Bool(b) && m.visible == Some(b),
            }
            &&& match lookup(props, "toggle-state"@) {
                None => m.toggle_state is None,
                Some(x) => unwrap_variant(x) matches DbusValue::I32(v) && m.toggle_state == Some(v),
            }
            &&& match lookup(props, "toggle-type"@) {
                None => m.toggle_type is None,
                Some(x) => unwrap_variant(x) matches DbusValue::Str(t) && m.toggle_type == Some(t@),
            }
            &&& match lookup(props, "label"@) {
                None => m.label is None,
                Some(x) => unwrap_variant(x) matches DbusValue::Str(t)
                    && m.label == Some(without_underscores(t@)),
            }
        },
{
}


/// A node without children whose read properties each have their protocol
/// type (or are absent) is always read.
pub proof fn law_well_typed_leaf_is_read(id: i32, props: Seq<(Seq<char>, DbusValue)>, nested: bool)
    requires
        lookup(props, "label"@) is None || unwrap_variant(lookup(props, "label"@).unwrap()) is Str,
        lookup(props, "enabled"@) is None || unwrap_variant(lookup(props, "enabled"@).unwrap()) is Bool,
        lookup(props, "visible"@) is None || unwrap_variant(lookup(props, "visible"@).unwrap()) is Bool,
        lookup(props, "toggle-type"@) is None || unwrap_variant(lookup(props, "toggle-type"@).unwrap()) is Str,
        lookup(props, "toggle-state"@) is None || unwrap_variant(lookup(props, "toggle-state"@).unwrap()) is I32,
    ensures
        parse_node(id, props, Seq::empty(), nested) is Done,
{
}

} // verus!
