//! Building the texts the game shows and the paths it reads.

use vstd::prelude::*;
use vstd::string::StringExecFns;

verus! {

/// The character of the decimal digit `d`.
pub open spec fn digit_char(d: int) -> char {
    if d == 0 {
        '0'
    } else if d == 1 {
        '1'
    } else if d == 2 {
        '2'
    } else if d == 3 {
        '3'
    } else if d == 4 {
        '4'
    } else if d == 5 {
        '5'
    } else if d == 6 {
        '6'
    } else if d == 7 {
        '7'
    } else if d == 8 {
        '8'
    } else {
        '9'
    }
}

/// The decimal digits of `n`, most significant first, without leading zeros.
pub open spec fn decimal_spec(n: nat) -> Seq<char>
    decreases n,
{
    if n < 10 {
        seq![digit_char(n as int)]
    } else {
        decimal_spec(n / 10).push(digit_char((n % 10) as int))
    }
}

fn digit_str(d: usize) -> (s: &'static str)
    requires
        d < 10,
    ensures
        s@ == seq![digit_char(d as int)],
{
    proof {
        reveal_strlit("0");
        reveal_strlit("1");
        reveal_strlit("2");
        reveal_strlit("3");
        reveal_strlit("4");
        reveal_strlit("5");
        reveal_strlit("6");
        reveal_strlit("7");
        reveal_strlit("8");
        reveal_strlit("9");
    }
    let s = if d == 0 {
        "0"
    } else if d == 1 {
        "1"
    } else if d == 2 {
        "2"
    } else if d == 3 {
        "3"
    } else if d == 4 {
        "4"
    } else if d == 5 {
        "5"
    } else if d == 6 {
        "6"
    } else if d == 7 {
        "7"
    } else if d == 8 {
        "8"
    } else {
        "9"
    };
    assert(s@ =~= seq![digit_char(d as int)]);
    s
}

/// `n` written in decimal.
pub fn decimal(n: usize) -> (s: String)
    ensures
        s@ == decimal_spec(n as nat),
    decreases n,
{
    if n < 10 {
        String::from_str(digit_str(n))
    } else {
        let mut s = decimal(n / 10);
        s.append(digit_str(n % 10));
        assert(s@ =~= decimal_spec((n / 10) as nat).push(digit_char((n % 10) as int)));
        s
    }
}

/// The texts of a list of strings.
pub open spec fn texts_of(strings: Seq<String>) -> Seq<Seq<char>> {
    Seq::new(strings.len(), |i: int| strings[i]@)
}

/// The numbers of `numbers` after the first and before the `upto`-th, in
/// decimal, each after a comma and a blank.
pub open spec fn list_tail(numbers: Seq<usize>, upto: int) -> Seq<char>
    decreases upto,
{
    if upto <= 1 {
        Seq::empty()
    } else {
        list_tail(numbers, upto - 1) + ", "@ + decimal_spec(numbers[upto - 1] as nat)
    }
}

/// A list of numbers the way it is written in a program: in brackets, with
/// commas between the numbers.
pub open spec fn number_list_spec(numbers: Seq<usize>) -> Seq<char> {
    if numbers.len() == 0 {
        "[]"@
    } else {
        "["@ + decimal_spec(numbers[0] as nat) + list_tail(numbers, numbers.len() as int) + "]"@
    }
}

/// A list of numbers as text.
pub fn number_list(numbers: &Vec<usize>) -> (text: String)
    ensures
        text@ == number_list_spec(numbers@),
{
    if numbers.len() == 0 {
        return String::from_str("[]");
    }
    let mut text = String::from_str("[");
    text.append(decimal(numbers[0]).as_str());
    let mut i: usize = 1;
    while i < numbers.len()
        invariant
            1 <= i <= numbers@.len(),
            text@ == "["@ + decimal_spec(numbers@[0] as nat) + list_tail(numbers@, i as int),
        decreases numbers@.len() - i,
    {
        let ghost before = text@;
        text.append(", ");
        text.append(decimal(numbers[i]).as_str());
        assert(text@ =~= "["@ + decimal_spec(numbers@[0] as nat) + list_tail(
            numbers@,
            i as int + 1,
        ));
        i += 1;
    }
    text.append("]");
    text
}

/// Where the text of a screen is kept.
pub open spec fn text_path_spec(data_path: Seq<char>, screen_no: usize) -> Seq<char> {
    data_path + "/text/"@ + decimal_spec(screen_no as nat) + ".txt"@
}

/// Where the actions of a screen are kept.
pub open spec fn actions_path_spec(data_path: Seq<char>, screen_no: usize) -> Seq<char> {
    data_path + "/actions/"@ + decimal_spec(screen_no as nat) + ".json"@
}

/// Where the main image of a screen is kept.
pub open spec fn image_path_spec(data_path: Seq<char>, screen_no: usize) -> Seq<char> {
    data_path + "/images/"@ + decimal_spec(screen_no as nat) + ".png"@
}

/// The pattern that the names of the further images of a screen follow.
pub open spec fn image_pattern_spec(data_path: Seq<char>, screen_no: usize) -> Seq<char> {
    data_path + "/images/"@ + decimal_spec(screen_no as nat) + "_*.png"@
}

fn numbered_path(data_path: &str, folder: &str, screen_no: usize, ending: &str) -> (path: String)
    ensures
        path@ == data_path@ + folder@ + decimal_spec(screen_no as nat) + ending@,
{
    let mut path = String::from_str(data_path);
    path.append(folder);
    path.append(decimal(screen_no).as_str());
    path.append(ending);
    path
}

/// Where the text of a screen is kept.
pub fn text_path(data_path: &str, screen_no: usize) -> (path: String)
    ensures
        path@ == text_path_spec(data_path@, screen_no),
{
    numbered_path(data_path, "/text/", screen_no, ".txt")
}

/// Where the actions of a screen are kept.
pub fn actions_path(data_path: &str, screen_no: usize) -> (path: String)
    ensures
        path@ == actions_path_spec(data_path@, screen_no),
{
    numbered_path(data_path, "/actions/", screen_no, ".json")
}

/// Where the main image of a screen is kept.
pub fn image_path(data_path: &str, screen_no: usize) -> (path: String)
    ensures
        path@ == image_path_spec(data_path@, screen_no),
{
    numbered_path(data_path, "/images/", screen_no, ".png")
}

/// The pattern that the names of the further images of a screen follow.
pub fn image_pattern(data_path: &str, screen_no: usize) -> (pattern: String)
    ensures
        pattern@ == image_pattern_spec(data_path@, screen_no),
{
    numbered_path(data_path, "/images/", screen_no, "_*.png")
}

/// Where the image of the intro screen is kept.
pub fn intro_image_path(data_path: &str) -> (path: String)
    ensures
        path@ == data_path@ + "/images/intro.png"@,
{
    let mut path = String::from_str(data_path);
    path.append("/images/intro.png");
    path
}

/// Where the image of the achievements screen is kept.
pub fn achievements_image_path(data_path: &str) -> (path: String)
    ensures
        path@ == data_path@ + "/images/achievements.png"@,
{
    let mut path = String::from_str(data_path);
    path.append("/images/achievements.png");
    path
}

} // verus!
