//! Choosing the audio devices: the microphone menu and the user's choice in
//! it, and finding the virtual cable that the soundpad plays into.

use crate::text::{
    append_decimal, char_vec, contains_text, decimal_text, find_text, is_digit, is_white_space,
    law_decimal_text_parses_back, lemma_decimal_text_digits, parse_usize, parse_usize_chars, trim,
    trim_end, trim_start, trimmed_chars,
};
use vstd::prelude::*;

verus! {

broadcast use vstd::seq_lib::group_seq_properties;

/// The index of the menu entry that the typed `line` picks, where `count`
/// entries were offered, numbered from 1: the line, trimmed of white space,
/// must read as a number from 1 to `count`.
pub open spec fn device_choice(line: Seq<char>, count: usize) -> Option<usize> {
    match parse_usize(trim(line)) {
        Some(n) => if 1 <= n <= count {
            Some((n - 1) as usize)
        } else {
            None
        },
        None => None,
    }
}

/// A pick is always one of the offered entries, and it is the number typed
/// minus one: a line whose trimmed text reads as no number from 1 to
/// `count` picks nothing.
pub proof fn law_device_choice_in_menu(line: Seq<char>, count: usize)
    ensures
        device_choice(line, count) matches Some(k) ==> k < count && parse_usize(trim(line))
            == Some((k + 1) as usize),
        (parse_usize(trim(line)) matches Some(n) && 1 <= n <= count) ==> device_choice(line, count)
            is Some,
{
}

/// Reads the user's pick in a menu of `count` devices.
pub fn parse_device_choice(line: &str, count: usize) -> (r: Option<usize>)
    ensures
        r == device_choice(line@, count),
{
    let t = trimmed_chars(line);
    match parse_usize_chars(&t) {
        Some(n) => if 1 <= n && n <= count {
            Some(n - 1)
        } else {
            None
        },
        None => None,
    }
}

/// The menu entry for the device at `index`: its number (one more than the
/// index), a dot, a space and its name.
pub open spec fn menu_line_text(index: usize, name: Seq<char>) -> Seq<char> {
    decimal_text((index + 1) as nat) + ". "@ + name
}

/// The menu entry for the device at `index`.
pub fn device_menu_line(index: usize, name: &str) -> (m: String)
    requires
        index < usize::MAX,
    ensures
        m@ == menu_line_text(index, name@),
{
    let mut m = String::new();
    append_decimal(&mut m, (index + 1) as u64);
    m.append(". ");
    m.append(name);
    m
}

/// The question that follows a menu of `count` devices.
pub open spec fn selection_prompt_text(count: usize) -> Seq<char> {
    "\nSelect one (1-"@ + decimal_text(count as nat) + ")"@
}

/// The question that follows a menu of `count` devices.
pub fn selection_prompt(count: usize) -> (m: String)
    ensures
        m@ == selection_prompt_text(count),
{
    let mut m = "\nSelect one (1-".to_owned();
    append_decimal(&mut m, count as u64);
    m.append(")");
    m
}

/// The notice naming the device in use.
pub fn selected_message(name: &str) -> (m: String)
    ensures
        m@ == "Selected: "@ + name@,
{
    let mut m = "Selected: ".to_owned();
    m.append(name);
    m
}

proof fn lemma_trim_number_line(n: nat)
    ensures
        trim(decimal_text(n) + "\n"@) == decimal_text(n),
{
    reveal_strlit("\n");
    let t = decimal_text(n);
    let l = t + "\n"@;
    lemma_decimal_text_digits(n);
    assert(is_digit(t[0]));
    assert(l[0] == t[0]);
    assert(trim_start(l) == l);
    assert(l.drop_last() =~= t);
    assert(is_white_space(l.last()));
    assert(trim_end(l) == trim_end(t));
    assert(is_digit(t.last()));
    assert(trim_end(t) == t);
}

/// The number printed beside a device in the menu selects that device when
/// the user types it and presses return.
pub proof fn law_menu_number_selects_device(index: usize, count: usize)
    requires
        index < count,
    ensures
        device_choice(decimal_text((index + 1) as nat) + "\n"@, count) == Some(index),
{
    lemma_trim_number_line((index + 1) as nat);
    law_decimal_text_parses_back((index + 1) as usize);
}

// ---------------------------------------------------------------- the virtual cable

/// The text that `str::to_uppercase` gives for `s`.
pub uninterp spec fn uppercase_text(s: Seq<char>) -> Seq<char>;

/// An ASCII character.
pub open spec fn is_ascii_char(c: char) -> bool {
    (c as u32) < 128
}

/// The capital of an ASCII lowercase letter; any other character as it is.
pub open spec fn ascii_capital(c: char) -> char {
    if 97 <= (c as u32) <= 122 {
        ((c as u32) - 32) as char
    } else {
        c
    }
}

/// Calls `str::to_uppercase`; its result, which follows the Unicode case
/// tables, is named `uppercase_text`. Besides, the Unicode tables map each
/// ASCII lowercase letter to its capital and leave every other ASCII
/// character as it is, so an ASCII text is uppercased character by
/// character.
#[verifier::external_body]
fn to_uppercase(s: &str) -> (u: String)
    ensures
        u@ == uppercase_text(s@),
        (forall|i: int| 0 <= i < s@.len() ==> is_ascii_char(#[trigger] s@[i])) ==> u@
            == s@.map_values(|c: char| ascii_capital(c)),
{
    s.to_uppercase()
}

/// An uppercased device name that marks a virtual audio cable: it holds
/// `VB` or `CABLE`.
pub open spec fn names_virtual_cable(upper: Seq<char>) -> bool {
    contains_text(upper, "VB"@) || contains_text(upper, "CABLE"@)
}

/// An uppercased name is taken for the virtual cable exactly when `VB` or
/// `CABLE` occurs in it as a run of characters; a name holding neither is
/// never taken for it.
pub proof fn law_virtual_cable_marks(upper: Seq<char>)
    ensures
        names_virtual_cable(upper) <==> (exists|i: int|
            0 <= i && i + 2 <= upper.len() && #[trigger] upper.subrange(i, i + 2) == "VB"@)
            || (exists|i: int|
            0 <= i && i + 5 <= upper.len() && #[trigger] upper.subrange(i, i + 5) == "CABLE"@),
{
    reveal_strlit("VB");
    reveal_strlit("CABLE");
    let vb = "VB"@;
    let cable = "CABLE"@;
    assert(vb.len() == 2);
    assert(cable.len() == 5);
    if contains_text(upper, vb) {
        let i = choose|i: int|
            0 <= i && i + vb.len() <= upper.len() && #[trigger] upper.subrange(i, i + vb.len())
                == vb;
        assert(upper.subrange(i, i + 2) == vb);
    }
    if contains_text(upper, cable) {
        let i = choose|i: int|
            0 <= i && i + cable.len() <= upper.len() && #[trigger] upper.subrange(
                i,
                i + cable.len(),
            ) == cable;
        assert(upper.subrange(i, i + 5) == cable);
    }
    if exists|i: int| 0 <= i && i + 2 <= upper.len() && #[trigger] upper.subrange(i, i + 2) == vb {
        let i = choose|i: int| 0 <= i && i + 2 <= upper.len() && #[trigger] upper.subrange(i, i + 2) == vb;
        assert(upper.subrange(i, i + vb.len()) == vb);
    }
    if exists|i: int| 0 <= i && i + 5 <= upper.len() && #[trigger] upper.subrange(i, i + 5) == cable {
        let i = choose|i: int| 0 <= i && i + 5 <= upper.len() && #[trigger] upper.subrange(i, i + 5) == cable;
        assert(upper.subrange(i, i + cable.len()) == cable);
    }
}

/// Tests an already uppercased device name for the virtual cable marks.
pub fn mentions_virtual_cable(upper: &str) -> (b: bool)
    ensures
        b == names_virtual_cable(upper@),
        b <==> (exists|i: int|
            0 <= i && i + 2 <= upper@.len() && #[trigger] upper@.subrange(i, i + 2) == "VB"@)
            || (exists|i: int|
            0 <= i && i + 5 <= upper@.len() && #[trigger] upper@.subrange(i, i + 5) == "CABLE"@),
{
    proof {
        law_virtual_cable_marks(upper@);
    }
    let hay = char_vec(upper);
    let vb = char_vec("VB");
    let cable = char_vec("CABLE");
    find_text(&hay, &vb) || find_text(&hay, &cable)
}

/// Tests a device name for the virtual cable marks, in any letter case.
pub fn is_virtual_cable(name: &str) -> (b: bool)
    ensures
        b == names_virtual_cable(uppercase_text(name@)),
        (forall|i: int| 0 <= i < name@.len() ==> is_ascii_char(#[trigger] name@[i])) ==> b
            == names_virtual_cable(name@.map_values(|c: char| ascii_capital(c))),
{
    let upper = to_uppercase(name);
    mentions_virtual_cable(upper.as_str())
}

/// The first of the named output devices that is a virtual cable.
pub fn first_virtual_cable(names: &Vec<String>) -> (r: Option<usize>)
    ensures
        match r {
            Some(i) => {
                &&& i < names@.len()
                &&& names_virtual_cable(uppercase_text(names@[i as int]@))
                &&& forall|j: int|
                    0 <= j < i ==> !names_virtual_cable(uppercase_text(#[trigger] names@[j]@))
            },
            None => forall|j: int|
                0 <= j < names@.len() ==> !names_virtual_cable(
                    uppercase_text(#[trigger] names@[j]@),
                ),
        },
{
    let n = names.len();
    let mut i: usize = 0;
    while i < n
        invariant
            n == names@.len(),
            i <= n,
            forall|j: int|
                0 <= j < i ==> !names_virtual_cable(uppercase_text(#[trigger] names@[j]@)),
        decreases n - i,
    {
        if is_virtual_cable(names[i].as_str()) {
            return Some(i);
        }
        i = i + 1;
    }
    None
}

} // verus!
