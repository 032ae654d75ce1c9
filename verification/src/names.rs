//! Item paths and the D-Bus names they are made of.
//!
//! A registered tray item is written as its bus name followed by its object
//! path, as in `:1.298/org/ayatana/NotificationItem/TOA2Xeo1bQ`.
use vstd::prelude::*;

verus! {

/// The index of the first `'/'` of `s` (the length of `s` if it has none).
pub open spec fn first_slash(s: Seq<char>) -> int
    decreases s.len(),
{
    if s.len() == 0 {
        0
    } else if s[0] == '/' {
        0
    } else {
        1 + first_slash(s.drop_first())
    }
}

proof fn lemma_first_slash(s: Seq<char>, i: int)
    requires
        0 <= i <= s.len(),
        forall|j: int| 0 <= j < i ==> s[j] != '/',
        i == s.len() || s[i] == '/',
    ensures
        first_slash(s) == i,
    decreases i,
{
    if i > 0 {
        lemma_first_slash(s.drop_first(), i - 1);
    }
}

/// What [`split_path`] gives for `s`: the part before the first slash, and
/// the rest starting with that slash; nothing if `s` has no slash.
pub open spec fn split_path_spec(s: Seq<char>) -> Option<(Seq<char>, Seq<char>)> {
    let i = first_slash(s);
    if i < s.len() {
        Some((s.take(i), s.skip(i)))
    } else {
        None
    }
}

/// Splits an item path like `:1.298/org/ayatana/NotificationItem/TOA2Xeo1bQ`
/// into the destination `:1.298` and the path
/// `/org/ayatana/NotificationItem/TOA2Xeo1bQ`, at the first slash.
pub fn split_path(input: &str) -> (r: Option<(String, String)>)
    ensures
        match split_path_spec(input@) {
            Some((d, p)) => r matches Some((dest, path)) && dest@ == d && path@ == p,
            None => r is None,
        },
        r matches Some((dest, path)) ==> {
            &&& dest@ + path@ == input@
            &&& !dest@.contains('/')
            &&& path@.len() > 0 && path@[0] == '/'
        },
        r is None <==> !input@.contains('/'),
{
    let n = input.unicode_len();
    let mut i: usize = 0;
    while i < n
        invariant
            n == input@.len(),
            i <= n,
            forall|j: int| 0 <= j < i ==> input@[j] != '/',
        decreases n - i,
    {
        if input.get_char(i) == '/' {
            proof {
                lemma_first_slash(input@, i as int);
                assert(input@.take(i as int) + input@.skip(i as int) =~= input@);
                if input@.take(i as int).contains('/') {
                    let k = choose|k: int| 0 <= k < i && input@.take(i as int)[k] == '/';
                    assert(input@[k] == '/');
                }
            }
            let dest = String::from_str(input.substring_char(0, i));
            let path = String::from_str(input.substring_char(i, n));
            assert(input@.subrange(0, i as int) =~= input@.take(i as int));
            assert(input@.subrange(i as int, n as int) =~= input@.skip(i as int));
            return Some((dest, path));
        }
        i = i + 1;
    }
    proof {
        lemma_first_slash(input@, i as int);
    }
    None
}

/// Splitting the joining of a destination without slashes and a path that
/// starts with a slash gives back the two.
pub proof fn law_split_path_undoes_join(dest: Seq<char>, path: Seq<char>)
    requires
        !dest.contains('/'),
        path.len() > 0,
        path[0] == '/',
    ensures
        split_path_spec(dest + path) == Some((dest, path)),
{
    let s = dest + path;
    assert forall|j: int| 0 <= j < dest.len() implies s[j] != '/' by {
        assert(s[j] == dest[j]);
        if dest[j] == '/' {
            assert(dest.contains('/'));
        }
    }
    lemma_first_slash(s, dest.len() as int);
    assert(s.take(dest.len() as int) =~= dest);
    assert(s.skip(dest.len() as int) =~= path);
}


/// An ASCII letter or digit.
pub open spec fn is_alnum(c: char) -> bool {
    ('a' <= c && c <= 'z') || ('A' <= c && c <= 'Z') || ('0' <= c && c <= '9')
}

/// A character allowed in an element of a bus name.
pub open spec fn is_name_char(c: char) -> bool {
    is_alnum(c) || c == '_' || c == '-'
}

/// Two or more non-empty elements of name characters joined by single
/// dots; with `no_leading_digit`, no element starts with a digit.
pub open spec fn dotted_name(s: Seq<char>, no_leading_digit: bool) -> bool {
    &&& s.len() > 0
    &&& s[0] != '.'
    &&& s[s.len() - 1] != '.'
    &&& exists|i: int| 0 <= i < s.len() && s[i] == '.'
    &&& forall|i: int| 0 <= i < s.len() - 1 ==> !(s[i] == '.' && #[trigger] s[i + 1] == '.')
    &&& forall|i: int|
        0 <= i < s.len() && #[trigger] s[i] != '.' ==> {
            &&& is_name_char(s[i])
            &&& (no_leading_digit && (i == 0 || s[i - 1] == '.')) ==> !('0' <= s[i] && s[i] <= '9')
        }
}

/// A D-Bus bus name: a unique name (`:` and dotted elements, digits
/// allowed first) or a well-known name (dotted elements, none starting
/// with a digit), of at most 255 characters (all of them ASCII, so as many
/// bytes).
pub open spec fn is_bus_name(s: Seq<char>) -> bool {
    &&& s.len() <= 255
    &&& dotted_name(s, true) || (s.len() > 0 && s[0] == ':' && dotted_name(s.skip(1), false))
}

/// A D-Bus object path: `/`, or `/` followed by non-empty elements of ASCII
/// letters, digits and `_` joined by single slashes.
pub open spec fn is_object_path(s: Seq<char>) -> bool {
    &&& s.len() > 0
    &&& s[0] == '/'
    &&& s.len() == 1 || s[s.len() - 1] != '/'
    &&& forall|i: int| 0 <= i < s.len() - 1 ==> !(s[i] == '/' && #[trigger] s[i + 1] == '/')
    &&& forall|i: int| 0 <= i < s.len() ==> (#[trigger] s[i] == '/' || is_alnum(s[i]) || s[i] == '_')
}

/// Whether `s` is a bus name.
///
/// Trusted: `zbus::names::BusName::try_from(String)`, which accepts exactly
/// the unique and the well-known names of the D-Bus specification, as
/// [`is_bus_name`] states them.
#[verifier::external_body]
fn bus_name_is_valid(s: &str) -> (r: bool)
    ensures
        r == is_bus_name(s@),
{
    zbus::names::BusName::try_from(s.to_owned()).is_ok()
}

/// Whether `s` is an object path.
///
/// Trusted: `zbus::zvariant::ObjectPath::try_from(String)`, which accepts
/// exactly the object paths of the D-Bus specification, as
/// [`is_object_path`] states them.
#[verifier::external_body]
fn object_path_is_valid(s: &str) -> (r: bool)
    ensures
        r == is_object_path(s@),
{
    zbus::zvariant::ObjectPath::try_from(s.to_owned()).is_ok()
}

/// The interface a proxy speaks.
#[derive(Debug, Clone, Copy, PartialEq, Eq, Structural)]
pub enum ProxyKind {
    /// `org.kde.StatusNotifierItem`: the tray item itself.
    StatusNotifierItem,
    /// `com.canonical.dbusmenu`: the item's menu.
    DbusMenu,
}

/// Where a proxy points: the object to build it for.
pub struct ProxyTarget {
    pub kind: ProxyKind,
    pub destination: String,
    pub path: String,
}

/// Why no proxy can be built.
#[derive(Debug, Clone, Copy, PartialEq, Eq, Structural)]
pub enum ProxyError {
    /// The destination is no bus name.
    InvalidDestination,
    /// The path is no object path.
    InvalidPath,
}

/// What [`proxy_target`] returns for a destination and a path.
pub open spec fn proxy_target_matches(
    r: Result<ProxyTarget, ProxyError>,
    kind: ProxyKind,
    dest: Seq<char>,
    path: Seq<char>,
) -> bool {
    if !is_bus_name(dest) {
        r == Err::<ProxyTarget, ProxyError>(ProxyError::InvalidDestination)
    } else if !is_object_path(path) {
        r == Err::<ProxyTarget, ProxyError>(ProxyError::InvalidPath)
    } else {
        r matches Ok(t) && t.kind == kind && t.destination@ == dest && t.path@ == path
    }
}

/// Checks a destination, then a path, as a proxy builder does.
fn proxy_target(kind: ProxyKind, dest: &str, path: &str) -> (r: Result<ProxyTarget, ProxyError>)
    ensures
        proxy_target_matches(r, kind, dest@, path@),
{
    if !bus_name_is_valid(dest) {
        return Err(ProxyError::InvalidDestination);
    }
    if !object_path_is_valid(path) {
        return Err(ProxyError::InvalidPath);
    }
    Ok(ProxyTarget { kind, destination: String::from_str(dest), path: String::from_str(path) })
}

/// The target of a proxy for a tray item: the destination must be a bus
/// name and the path an object path.
pub fn get_item_proxy(dest: &str, path: &str) -> (r: Result<ProxyTarget, ProxyError>)
    ensures
        proxy_target_matches(r, ProxyKind::StatusNotifierItem, dest@, path@),
{
    proxy_target(ProxyKind::StatusNotifierItem, dest, path)
}

/// The target of a proxy for a tray item's menu: the destination must be a
/// bus name and the path an object path.
pub fn get_item_menu_proxy(dest: &str, path: &str) -> (r: Result<ProxyTarget, ProxyError>)
    ensures
        proxy_target_matches(r, ProxyKind::DbusMenu, dest@, path@),
{
    proxy_target(ProxyKind::DbusMenu, dest, path)
}

/// Why an item path does not lead to a proxy.
#[derive(Debug, Clone, Copy, PartialEq, Eq, Structural)]
pub enum PathError {
    /// The item path has no slash, so no destination and path in it.
    NoDestination,
    /// The destination or the path it holds is not valid.
    Proxy(ProxyError),
}

/// What [`path_target`] returns for an item path.
pub open spec fn path_target_matches(r: Result<ProxyTarget, PathError>, kind: ProxyKind, s: Seq<char>) -> bool {
    match split_path_spec(s) {
        None => r == Err::<ProxyTarget, PathError>(PathError::NoDestination),
        Some((d, p)) => if !is_bus_name(d) {
            r == Err::<ProxyTarget, PathError>(PathError::Proxy(ProxyError::InvalidDestination))
        } else if !is_object_path(p) {
            r == Err::<ProxyTarget, PathError>(PathError::Proxy(ProxyError::InvalidPath))
        } else {
            r matches Ok(t) && t.kind == kind && t.destination@ == d && t.path@ == p
        },
    }
}

/// Splits an item path and checks both halves: the proxy target that an
/// item path such as `:1.298/org/ayatana/NotificationItem/X` names.
pub fn path_target(kind: ProxyKind, item_path: &str) -> (r: Result<ProxyTarget, PathError>)
    ensures
        path_target_matches(r, kind, item_path@),
{
    match split_path(item_path) {
        None => Err(PathError::NoDestination),
        Some((dest, path)) => match proxy_target(kind, dest.as_str(), path.as_str()) {
            Ok(t) => Ok(t),
            Err(e) => Err(PathError::Proxy(e)),
        },
    }
}

} // verus!
