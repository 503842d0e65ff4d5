//! The short texts that stand for a choice of files or of a folder.

use vstd::prelude::*;
use vstd::string::StringExecFns;
use crate::text::str_eq;

verus! {

/// The last component of a path, as `std::path::Path::file_name` finds it:
/// `None` where the path has none, as the root or a path that ends in
/// `..`.
pub uninterp spec fn path_file_name(path: Seq<char>) -> Option<Seq<char>>;

/// Calls `std::path::Path::file_name`, which reads nothing but the text of
/// the path, and hands the name out as a string.
#[verifier::external_body]
fn file_name(path: &str) -> (name: Option<String>)
    ensures
        name.deep_view() == path_file_name(path@),
{
    std::path::Path::new(path).file_name().and_then(|name| name.to_str()).map(|name| name.to_owned())
}

/// The character of a decimal digit.
pub open spec fn digit_char(digit: nat) -> char {
    if digit == 0 {
        '0'
    } else if digit == 1 {
        '1'
    } else if digit == 2 {
        '2'
    } else if digit == 3 {
        '3'
    } else if digit == 4 {
        '4'
    } else if digit == 5 {
        '5'
    } else if digit == 6 {
        '6'
    } else if digit == 7 {
        '7'
    } else if digit == 8 {
        '8'
    } else {
        '9'
    }
}

/// A number in decimal digits, without leading zeros.
pub open spec fn decimal(n: nat) -> Seq<char>
    decreases n,
{
    if n < 10 {
        seq![digit_char(n)]
    } else {
        decimal(n / 10).push(digit_char(n % 10))
    }
}

fn digit_text(digit: usize) -> (text: &'static str)
    requires
        digit < 10,
    ensures
        text@ == seq![digit_char(digit as nat)],
{
    proof {
        reveal_strlit("0");
        reveal_strlit("1");
        reveal_strlit("2");
        reveal_strlit("3");
        reveal_strlit("4");
        reveal_strlit("5");
        reveal_strlit("6");
        reveal_strlit("7");
        reveal_strlit("8");
        reveal_strlit("9");
    }
    let text = if digit == 0 {
        "0"
    } else if digit == 1 {
        "1"
    } else if digit == 2 {
        "2"
    } else if digit == 3 {
        "3"
    } else if digit == 4 {
        "4"
    } else if digit == 5 {
        "5"
    } else if digit == 6 {
        "6"
    } else if digit == 7 {
        "7"
    } else if digit == 8 {
        "8"
    } else {
        "9"
    };
    assert(text@ =~= seq![digit_char(digit as nat)]);
    text
}

/// Writes a number in decimal digits.
pub fn decimal_text(n: usize) -> (text: String)
    ensures
        text@ == decimal(n as nat),
    decreases n,
{
    if n < 10 {
        String::from_str(digit_text(n))
    } else {
        let mut text = decimal_text(n / 10);
        text.append(digit_text(n % 10));
        assert(text@ =~= decimal((n / 10) as nat).push(digit_char((n % 10) as nat)));
        text
    }
}

/// The label of a choice of `count` files, of which `name` is the file
/// name of the first: "(None)" for no file, the name for one file that has
/// a name, and the number of files for more.
pub open spec fn choice_label(count: nat, name: Option<Seq<char>>) -> Seq<char> {
    if count == 0 {
        "(None)"@
    } else if count == 1 {
        match name {
            Some(name) => name,
            None => "(None)"@,
        }
    } else {
        "("@ + decimal(count) + " files)"@
    }
}

/// Writes the label of a choice of `count` files, `name` being the file
/// name of the first.
pub fn label_for(count: usize, name: Option<String>) -> (label: String)
    ensures
        label@ == choice_label(count as nat, name.deep_view()),
{
    if count == 0 {
        String::from_str("(None)")
    } else if count == 1 {
        match name {
            Some(name) => name,
            None => String::from_str("(None)"),
        }
    } else {
        let digits = decimal_text(count);
        String::from_str("(").concat(digits.as_str()).concat(" files)")
    }
}

/// The label of the chosen files: that of their number and of the file
/// name of the first.
pub open spec fn files_label_of(files: Seq<Seq<char>>) -> Seq<char> {
    choice_label(
        files.len(),
        if files.len() == 1 {
            path_file_name(files[0])
        } else {
            None
        },
    )
}

/// Writes the label of the chosen files.
pub fn files_label(files: &Vec<String>) -> (label: String)
    ensures
        label@ == files_label_of(files.deep_view()),
{
    if files.len() == 1 {
        label_for(1, file_name(files[0].as_str()))
    } else {
        label_for(files.len(), None)
    }
}

/// The label of a folder of which `name` is the last component: the name
/// where it has one that is not empty, and "(None)" otherwise.
pub open spec fn folder_label_of(name: Option<Seq<char>>) -> Seq<char> {
    match name {
        Some(name) => if name.len() > 0 {
            name
        } else {
            "(None)"@
        },
        None => "(None)"@,
    }
}

/// Writes the label of a folder, `name` being its last component.
pub fn label_for_folder(name: Option<String>) -> (label: String)
    ensures
        label@ == folder_label_of(name.deep_view()),
{
    match name {
        Some(name) => {
            if name.as_str().is_empty() {
                String::from_str("(None)")
            } else {
                name
            }
        },
        None => String::from_str("(None)"),
    }
}

/// Writes the label of the chosen folder.
pub fn folder_label(folder: &str) -> (label: String)
    ensures
        label@ == folder_label_of(path_file_name(folder@)),
{
    label_for_folder(file_name(folder))
}

/// Tells whether a chosen folder is another than the default one.
pub fn differs_from_default(folder: &str, default_folder: &str) -> (differs: bool)
    ensures
        differs == (folder@ != default_folder@),
{
    !str_eq(folder, default_folder)
}

/// The files that a choice goes back to: the default file, or none where
/// there is no default.
pub open spec fn default_files_of(default_file: Seq<char>) -> Seq<Seq<char>> {
    if default_file.len() == 0 {
        Seq::empty()
    } else {
        seq![default_file]
    }
}

/// Lists the files that a choice goes back to.
pub fn default_files(default_file: &str) -> (files: Vec<String>)
    ensures
        files.deep_view() == default_files_of(default_file@),
{
    let mut files: Vec<String> = Vec::new();
    if !default_file.is_empty() {
        files.push(default_file.to_owned());
        assert(files.deep_view() =~= seq![default_file@]);
    } else {
        assert(files.deep_view() =~= Seq::<Seq<char>>::empty());
    }
    files
}

} // verus!
