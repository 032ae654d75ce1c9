//! A tray item as `list` reports it, and the help text that documents it.
use vstd::prelude::*;

use crate::text::{contains_text, contains_text_exec, push_char, replace_text, replaced};

verus! {

/// A registered `org.kde.StatusNotifierItem`.
pub struct TrayItem {
    /// Id of the application.
    pub id: String,
    /// DBus `WellKnownName` of the item.
    pub name: String,
    /// Relative dbus path to `com.canonical.dbusmenu`.
    pub menu: String,
    /// Relative dbus path to `org.kde.StatusNotifierItem` (this object).
    pub item: String,
    /// Process id of the application.
    pub pid: u32,
    /// Executable path of the application.
    pub exe: String,
    /// Notifier title specified by the application.
    pub title: Option<String>,
    /// Either a path to the icon or relative to `icon_theme_path`.
    pub icon_name: Option<String>,
    /// Theme where the icon is stored.
    pub icon_theme_path: Option<String>,
    /// The icon in multiple sizes (ARGB32 format): width, height, pixels.
    pub icon_pixmap: Option<Vec<(i32, i32, Vec<u8>)>>,
}

/// The properties read from an item; `None` where reading one failed.
pub struct ItemProperties {
    pub id: Option<String>,
    pub title: Option<String>,
    /// The menu object path.
    pub menu: Option<String>,
    pub icon_name: Option<String>,
    pub icon_theme_path: Option<String>,
    pub icon_pixmap: Option<Vec<(i32, i32, Vec<u8>)>>,
}

/// A string, or the empty string.
pub open spec fn chars_or_empty(s: Option<String>) -> Seq<char> {
    match s {
        Some(x) => x@,
        None => Seq::empty(),
    }
}

/// The process id from the bus's reply (0 where the bus gave none).
pub open spec fn pid_of(reply: Option<u32>) -> u32 {
    match reply {
        Some(p) => p,
        None => 0,
    }
}

/// The process whose executable is worth looking up: only a known one
/// (process id not 0).
pub fn exe_wanted(pid_reply: Option<u32>) -> (r: Option<u32>)
    ensures
        r == (if pid_of(pid_reply) != 0 { Some(pid_of(pid_reply)) } else { None::<u32> }),
{
    match pid_reply {
        Some(p) => if p != 0 {
            Some(p)
        } else {
            None
        },
        None => None,
    }
}

fn chars_or_empty_exec(s: Option<String>) -> (r: String)
    ensures
        r@ == chars_or_empty(s),
{
    match s {
        Some(x) => x,
        None => String::new(),
    }
}

impl TrayItem {
    /// Assembles an item from its destination, its object path, the
    /// properties read from it, the process id the bus gave for the
    /// destination, and the executable looked up for that process.
    ///
    /// Missing id and menu become empty strings, a missing process id 0,
    /// and the executable is empty unless the process id is known.
    pub fn from_proxy(
        destination: String,
        item: String,
        props: ItemProperties,
        pid_reply: Option<u32>,
        exe: Option<String>,
    ) -> (r: TrayItem)
        ensures
            r.id@ == chars_or_empty(props.id),
            r.name@ == destination@,
            r.menu@ == chars_or_empty(props.menu),
            r.item@ == item@,
            r.pid == pid_of(pid_reply),
            r.exe@ == (if pid_of(pid_reply) != 0 { chars_or_empty(exe) } else { Seq::empty() }),
            r.title == props.title,
            r.icon_name == props.icon_name,
            r.icon_theme_path == props.icon_theme_path,
            r.icon_pixmap == props.icon_pixmap,
    {
        let pid = match pid_reply {
            Some(p) => p,
            None => 0,
        };
        let exe = if pid != 0 {
            chars_or_empty_exec(exe)
        } else {
            String::new()
        };
        TrayItem {
            id: chars_or_empty_exec(props.id),
            title: props.title,
            menu: chars_or_empty_exec(props.menu),
            icon_name: props.icon_name,
            icon_theme_path: props.icon_theme_path,
            icon_pixmap: props.icon_pixmap,
            item,
            name: destination,
            pid,
            exe,
        }
    }

    /// The icon pixmaps with their pixel data summed up as its length:
    /// what a debug print shows of them.
    pub fn pixmap_summary(&self) -> (r: Option<Vec<(i32, i32, usize)>>)
        ensures
            match self.icon_pixmap {
                None => r is None,
                Some(ps) => r matches Some(v) && v@.len() == ps@.len() && forall|i: int|
                    0 <= i < ps@.len() ==> #[trigger] v@[i] == (ps@[i].0, ps@[i].1, ps@[i].2@.len() as usize),
            },
    {
        match &self.icon_pixmap {
            None => None,
            Some(ps) => {
                let mut v: Vec<(i32, i32, usize)> = Vec::new();
                let mut i: usize = 0;
                while i < ps.len()
                    invariant
                        i <= ps@.len(),
                        v@.len() == i,
                        forall|k: int| 0 <= k < i ==> #[trigger] v@[k] == (ps@[k].0, ps@[k].1, ps@[k].2@.len() as usize),
                    decreases ps@.len() - i,
                {
                    let p = &ps[i];
                    v.push((p.0, p.1, p.2.len()));
                    i = i + 1;
                }
                Some(v)
            },
        }
    }
}


/// One field of a documented struct: its name, its type as written, and
/// its doc comment lines.
pub struct FieldDoc {
    pub name: String,
    pub written_type: String,
    pub docs: Vec<String>,
}

/// A field whose doc comment holds `@skip` is left out of the help.
pub open spec fn is_skipped(docs: Seq<String>) -> bool {
    exists|i: int| 0 <= i < docs.len() && contains_text(#[trigger] docs[i]@, "@skip"@)
}

/// A type as shown to readers who do not know Rust: `Vec<` becomes
/// `Array<` and `Option<` becomes `Optional<`.
pub open spec fn converted_type(t: Seq<char>) -> Seq<char> {
    replaced(replaced(t, "Vec<"@, "Array<"@), "Option<"@, "Optional<"@)
}

/// The doc comment lines, each behind `///`.
pub open spec fn doc_comment(docs: Seq<String>) -> Seq<char>
    decreases docs.len(),
{
    if docs.len() == 0 {
        Seq::empty()
    } else {
        doc_comment(docs.drop_last()) + "///"@ + docs.last()@ + "\n"@
    }
}

/// The help entry of one field: its doc comment, then `name: type` and an
/// empty line.
pub open spec fn field_text(f: FieldDoc) -> Seq<char> {
    doc_comment(f.docs@) + f.name@ + ": "@ + converted_type(f.written_type@) + "\n\n"@
}

/// The help entries of every field not marked `@skip`, in order.
pub open spec fn properties_text(fs: Seq<FieldDoc>) -> Seq<char>
    decreases fs.len(),
{
    if fs.len() == 0 {
        Seq::empty()
    } else {
        properties_text(fs.drop_last()) + if is_skipped(fs.last().docs@) {
            Seq::empty()
        } else {
            field_text(fs.last())
        }
    }
}

fn is_skipped_exec(docs: &Vec<String>) -> (r: bool)
    ensures
        r == is_skipped(docs@),
{
    let mut i: usize = 0;
    while i < docs.len()
        invariant
            i <= docs@.len(),
            forall|j: int| 0 <= j < i ==> !contains_text(#[trigger] docs@[j]@, "@skip"@),
        decreases docs@.len() - i,
    {
        if contains_text_exec(docs[i].as_str(), "@skip") {
            return true;
        }
        i = i + 1;
    }
    false
}

fn convert_type(t: &str) -> (r: String)
    ensures
        r@ == converted_type(t@),
{
    proof {
        reveal_strlit("Vec<");
        reveal_strlit("Option<");
    }
    let once = replace_text(t, "Vec<", "Array<");
    replace_text(once.as_str(), "Option<", "Optional<")
}

/// The list of properties that `list --help` prints: for each field not
/// marked `@skip`, its doc lines behind `///`, then `name: type` with the
/// type in reader-friendly words, then an empty line.
pub fn properties_help(fields: &Vec<FieldDoc>) -> (r: String)
    ensures
        r@ == properties_text(fields@),
{
    let mut out = String::new();
    let mut i: usize = 0;
    while i < fields.len()
        invariant
            i <= fields@.len(),
            out@ == properties_text(fields@.take(i as int)),
        decreases fields@.len() - i,
    {
        let f = &fields[i];
        assert(fields@.take(i + 1).drop_last() =~= fields@.take(i as int));
        if !is_skipped_exec(&f.docs) {
            let mut j: usize = 0;
            let ghost start = out@;
            while j < f.docs.len()
                invariant
                    j <= f.docs@.len(),
                    out@ == start + doc_comment(f.docs@.take(j as int)),
                decreases f.docs@.len() - j,
            {
                assert(f.docs@.take(j + 1).drop_last() =~= f.docs@.take(j as int));
                out.append("///");
                out.append(f.docs[j].as_str());
                out.append("\n");
                j = j + 1;
            }
            assert(f.docs@.take(j as int) =~= f.docs@);
            out.append(f.name.as_str());
            out.append(": ");
            let t = convert_type(f.written_type.as_str());
            out.append(t.as_str());
            out.append("\n\n");
            assert(out@ =~= start + field_text(*f));
        }
        i = i + 1;
    }
    assert(fields@.take(i as int) =~= fields@);
    out
}

/// The fields of [`TrayItem`] as its doc comments describe them: name,
/// type as written, doc lines.
pub open spec fn tray_item_docs() -> Seq<(Seq<char>, Seq<char>, Seq<Seq<char>>)> {
    seq![
        ("id"@, "String"@, seq![" Id of the application"@]),
        ("name"@, "String"@, seq![" DBus `WellKnownName` of the item"@]),
        ("menu"@, "String"@, seq![" Relative dbus path to `com.canonical.dbusmenu`"@]),
        ("item"@, "String"@, seq![" Relative dbus path to `org.kde.StatusNotifierItem` (this object)"@]),
        ("pid"@, "u32"@, seq![" Process id of the application"@]),
        ("exe"@, "String"@, seq![
            " Executable path of the application"@,
            ""@,
            " Can be used to deduce the application when it does not define `id` or `name` properly like"@,
            " electron apps often do"@,
        ]),
        ("title"@, "Option<String>"@, seq![" Notifier title specified by the application"@]),
        ("icon_name"@, "Option<String>"@, seq![" Either a path to the icon or relative to `icon_theme_path`"@, " @skip"@]),
        ("icon_theme_path"@, "Option<String>"@, seq![" Theme where the icon is stored"@, " @skip"@]),
        ("icon_pixmap"@, "Option<Vec<(i32, i32, Vec<u8>)>>"@, seq![" The icon in multiple sizes (ARGB32 format)"@, " @skip"@]),
    ]
}

/// `f` holds the given name, type and doc lines.
pub open spec fn field_is(f: FieldDoc, d: (Seq<char>, Seq<char>, Seq<Seq<char>>)) -> bool {
    &&& f.name@ == d.0
    &&& f.written_type@ == d.1
    &&& f.docs@.len() == d.2.len()
    &&& forall|j: int| 0 <= j < d.2.len() ==> #[trigger] f.docs@[j]@ == d.2[j]
}

fn field_doc(name: &str, written_type: &str, docs: Vec<&str>) -> (r: FieldDoc)
    ensures
        r.name@ == name@,
        r.written_type@ == written_type@,
        r.docs@.len() == docs@.len(),
        forall|j: int| 0 <= j < docs@.len() ==> #[trigger] r.docs@[j]@ == docs@[j]@,
{
    let mut lines: Vec<String> = Vec::new();
    let mut j: usize = 0;
    while j < docs.len()
        invariant
            j <= docs@.len(),
            lines@.len() == j,
            forall|k: int| 0 <= k < j ==> #[trigger] lines@[k]@ == docs@[k]@,
        decreases docs@.len() - j,
    {
        lines.push(String::from_str(docs[j]));
        j = j + 1;
    }
    FieldDoc { name: String::from_str(name), written_type: String::from_str(written_type), docs: lines }
}

/// The fields of [`TrayItem`] with their types and doc comments, in
/// declaration order.
pub fn tray_item_fields() -> (r: Vec<FieldDoc>)
    ensures
        r@.len() == tray_item_docs().len(),
        forall|i: int| 0 <= i < r@.len() ==> field_is(#[trigger] r@[i], tray_item_docs()[i]),
{
    let mut v: Vec<FieldDoc> = Vec::new();
    v.push(field_doc("id", "String", vec![" Id of the application"]));
    v.push(field_doc("name", "String", vec![" DBus `WellKnownName` of the item"]));
    v.push(field_doc("menu", "String", vec![" Relative dbus path to `com.canonical.dbusmenu`"]));
    v.push(field_doc("item", "String", vec![" Relative dbus path to `org.kde.StatusNotifierItem` (this object)"]));
    v.push(field_doc("pid", "u32", vec![" Process id of the application"]));
    v.push(field_doc("exe", "String", vec![
        " Executable path of the application",
        "",
        " Can be used to deduce the application when it does not define `id` or `name` properly like",
        " electron apps often do",
    ]));
    v.push(field_doc("title", "Option<String>", vec![" Notifier title specified by the application"]));
    v.push(field_doc("icon_name", "Option<String>", vec![" Either a path to the icon or relative to `icon_theme_path`", " @skip"]));
    v.push(field_doc("icon_theme_path", "Option<String>", vec![" Theme where the icon is stored", " @skip"]));
    v.push(field_doc("icon_pixmap", "Option<Vec<(i32, i32, Vec<u8>)>>", vec![" The icon in multiple sizes (ARGB32 format)", " @skip"]));
    assert forall|i: int| 0 <= i < v@.len() implies field_is(#[trigger] v@[i], tray_item_docs()[i]) by {
        let d = tray_item_docs()[i];
        assert(d.2.len() == v@[i].docs@.len());
    }
    v
}

} // verus!
