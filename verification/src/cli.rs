//! The commands of the `trayless` command line, and how a click value
//! given on it is read.
use vstd::prelude::*;

verus! {

/// `list`: print the registered tray items.
pub struct CmdList {
    /// Print help for this command.
    pub help: bool,
}

/// `activate`: call activate on a tray item.
pub struct CmdActivate {
    /// Call the context menu.
    pub context_menu: bool,
    /// Call secondary activate.
    pub secondary: bool,
    /// The item path, destination included.
    pub path: String,
    /// X position of activation.
    pub x: i32,
    /// Y position of activation.
    pub y: i32,
}

/// `scroll`: call scroll on a tray item.
pub struct CmdScroll {
    /// Path to the StatusNotifierItem object, destination included.
    pub path: String,
    /// How much was scrolled.
    pub delta: i32,
    /// Direction of scrolling.
    pub orientation: String,
}

/// `layout`: print the menu layout of a tray item.
pub struct CmdLayout {
    /// Show hidden menu items.
    pub hidden: bool,
    /// Show disabled menu items.
    pub disabled: bool,
    /// Path to the dbusmenu object, destination included.
    pub path: String,
}

/// The data sent along with a menu click.
pub enum ClickData {
    I32(i32),
    /// A floating-point number, kept as the text it was given as.
    F64(String),
    Bool(bool),
    Str(String),
}

/// `click`: activate one entry of a menu.
pub struct CmdClick {
    /// Path to the dbusmenu object, destination included.
    pub path: String,
    /// Id of the menu entry.
    pub id: i32,
    /// Data sent along with the click.
    pub data: Option<ClickData>,
}

/// `daemon`: provide the StatusNotifierWatcher service.
pub struct CmdDaemon {
    /// Run in the foreground.
    pub foreground: bool,
}

/// `gui`: the graphical task-switcher like interface.
pub struct CmdGui {
    /// Start the GTK inspector with the application.
    pub inspector: bool,
    /// A CSS file to style the interface with.
    pub style: String,
}

/// The subcommands.
pub enum CliCommands {
    List(CmdList),
    Activate(CmdActivate),
    Scroll(CmdScroll),
    Layout(CmdLayout),
    Click(CmdClick),
    Daemon,
    Gui(CmdGui),
}

/// The command line.
pub struct Cli {
    pub cmd: CliCommands,
}

/// An ASCII decimal digit.
pub open spec fn is_digit(c: char) -> bool {
    '0' <= c && c <= '9'
}

/// The value of a string of decimal digits.
pub open spec fn digits_value(s: Seq<char>) -> int
    decreases s.len(),
{
    if s.len() == 0 {
        0
    } else {
        digits_value(s.drop_last()) * 10 + (s.last() as int - '0' as int)
    }
}

/// The digits after an optional sign.
pub open spec fn unsigned_part(s: Seq<char>) -> Seq<char> {
    if s.len() > 0 && (s[0] == '-' || s[0] == '+') {
        s.skip(1)
    } else {
        s
    }
}

/// The value that `s` writes: an optional `+` or `-` and one or more
/// decimal digits, nothing else.
pub open spec fn signed_value(s: Seq<char>) -> int {
    if s.len() > 0 && s[0] == '-' {
        -digits_value(unsigned_part(s))
    } else {
        digits_value(unsigned_part(s))
    }
}

/// How a string reads as an `i32`: an optional sign and one or more
/// digits, with the value in range; anything else (whitespace included)
/// is no number.
pub open spec fn parse_i32_spec(s: Seq<char>) -> Option<i32> {
    let ds = unsigned_part(s);
    if ds.len() > 0 && (forall|i: int| 0 <= i < ds.len() ==> is_digit(#[trigger] ds[i]))
        && i32::MIN <= signed_value(s) <= i32::MAX {
        Some(signed_value(s) as i32)
    } else {
        None
    }
}

proof fn lemma_digits_value_nonneg(s: Seq<char>)
    requires
        forall|i: int| 0 <= i < s.len() ==> is_digit(#[trigger] s[i]),
    ensures
        digits_value(s) >= 0,
    decreases s.len(),
{
    if s.len() > 0 {
        lemma_digits_value_nonneg(s.drop_last());
    }
}

proof fn lemma_digits_value_grows(s: Seq<char>, j: int)
    requires
        0 <= j <= s.len(),
        forall|i: int| 0 <= i < s.len() ==> is_digit(#[trigger] s[i]),
    ensures
        digits_value(s.take(j)) <= digits_value(s),
    decreases s.len() - j,
{
    if j < s.len() {
        lemma_digits_value_grows(s, j + 1);
        assert(s.take(j + 1).drop_last() =~= s.take(j));
        lemma_digits_value_nonneg(s.take(j));
    } else {
        assert(s.take(j) =~= s);
    }
}

/// Reads a decimal `i32` as `str::parse::<i32>` does: an optional sign and
/// one or more ASCII digits, in range.
pub fn parse_i32(s: &str) -> (r: Option<i32>)
    ensures
        r == parse_i32_spec(s@),
{
    let n = s.unicode_len();
    let mut start: usize = 0;
    let mut negative = false;
    if n > 0 {
        let c0 = s.get_char(0);
        if c0 == '-' {
            negative = true;
            start = 1;
        } else if c0 == '+' {
            start = 1;
        }
    }
    let ghost ds = unsigned_part(s@);
    assert(ds =~= s@.skip(start as int));
    if start == n {
        return None;
    }
    // the value so far, kept within the range of an i32 by its magnitude
    let mut value: i64 = 0;
    let mut i: usize = start;
    while i < n
        invariant
            n == s@.len(),
            start <= i <= n,
            ds == s@.skip(start as int),
            ds == unsigned_part(s@),
            negative == (s@.len() > 0 && s@[0] == '-'),
            forall|k: int| 0 <= k < i - start ==> is_digit(#[trigger] ds[k]),
            value == digits_value(ds.take(i - start)),
            0 <= value <= 2147483648,
        decreases n - i,
    {
        let c = s.get_char(i);
        let ghost k = i - start;
        assert(ds[k] == c);
        if !('0' <= c && c <= '9') {
            assert(!is_digit(ds[k]));
            return None;
        }
        assert(ds.take(k + 1).drop_last() =~= ds.take(k));
        let d = (c as u32 - '0' as u32) as i64;
        let next = value * 10 + d;
        assert(next == digits_value(ds.take(k + 1)));
        if next > 2147483648 {
            proof {
                if forall|m: int| 0 <= m < ds.len() ==> is_digit(#[trigger] ds[m]) {
                    lemma_digits_value_grows(ds, k + 1);
                    assert(digits_value(ds) > 2147483648);
                    assert(signed_value(s@) > 2147483647 || signed_value(s@) < -2147483648);
                }
            }
            return None;
        }
        value = next;
        i = i + 1;
    }
    assert(ds.take(ds.len() as int) =~= ds);
    if negative {
        Some((0 - value) as i32)
    } else if value <= 2147483647 {
        Some(value as i32)
    } else {
        None
    }
}



/// How a click value given on the command line is read: an `i32` if it is
/// one, else a float if `is_float` (the text reads as an `f64`), else a
/// boolean for `true`/`false`, else the string itself.
pub open spec fn parse_data_matches(r: ClickData, input: Seq<char>, is_float: bool) -> bool {
    match parse_i32_spec(input) {
        Some(v) => r == ClickData::I32(v),
        None => if is_float {
            r matches ClickData::F64(t) && t@ == input
        } else if input == "true"@ || input == "false"@ {
            r == ClickData::Bool(input == "true"@)
        } else {
            r matches ClickData::Str(t) && t@ == input
        },
    }
}

/// Reads a click value; `is_float` says whether `input` reads as an `f64`
/// (floating point is left to the caller).
pub fn parse_data(input: &str, is_float: bool) -> (r: ClickData)
    ensures
        parse_data_matches(r, input@, is_float),
{
    if let Some(v) = parse_i32(input) {
        return ClickData::I32(v);
    }
    let text = String::from_str(input);
    if is_float {
        return ClickData::F64(text);
    }
    let t = String::from_str("true");
    let f = String::from_str("false");
    if text == t {
        ClickData::Bool(true)
    } else if text == f {
        ClickData::Bool(false)
    } else {
        ClickData::Str(text)
    }
}


/// Whatever reads as an `i32`, negative numbers included, is sent as an
/// `i32`, even where it would also read as a float.
pub proof fn law_integers_are_sent_as_i32(r: ClickData, input: Seq<char>, is_float: bool, v: i32)
    requires
        parse_data_matches(r, input, is_float),
        parse_i32_spec(input) == Some(v),
    ensures
        r == ClickData::I32(v),
{
}

/// A minus sign before decimal digits reads as the negative number, down to
/// `i32::MIN`.
pub proof fn law_negative_numbers_read(ds: Seq<char>)
    requires
        ds.len() > 0,
        forall|i: int| 0 <= i < ds.len() ==> is_digit(#[trigger] ds[i]),
        digits_value(ds) <= 2147483648,
    ensures
        parse_i32_spec(seq!['-'] + ds) == Some((-digits_value(ds)) as i32),
{
    let s = seq!['-'] + ds;
    assert(unsigned_part(s) =~= ds);
    lemma_digits_value_nonneg(ds);
}


/// What does not read as an `i32` is sent as a float when it reads as one,
/// else as a boolean when it is `true` or `false`, else as the text itself.
pub proof fn law_other_values_read(r: ClickData, input: Seq<char>, is_float: bool)
    requires
        parse_data_matches(r, input, is_float),
        parse_i32_spec(input) is None,
    ensures
        is_float ==> (r matches ClickData::F64(t) && t@ == input),
        !is_float && input == "true"@ ==> r == ClickData::Bool(true),
        !is_float && input == "false"@ ==> r == ClickData::Bool(false),
        !is_float && input != "true"@ && input != "false"@ ==> (r matches ClickData::Str(t) && t@ == input),
{
    reveal_strlit("true");
    reveal_strlit("false");
}

} // verus!
