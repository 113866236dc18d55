//! Names of the output files: the page number in decimal, padded with zeros
//! to the number of digits of the page count, and the extension.

use vstd::prelude::*;
use vstd::string::*;

verus! {

/// The number of decimal digits of a number; zero has one.
pub open spec fn digit_count(n: nat) -> nat
    decreases n,
{
    if n < 10 {
        1
    } else {
        1 + digit_count(n / 10)
    }
}

/// The character of a digit below ten.
pub open spec fn digit_char(d: nat) -> char {
    if d == 0 {
        '0'
    } else if d == 1 {
        '1'
    } else if d == 2 {
        '2'
    } else if d == 3 {
        '3'
    } else if d == 4 {
        '4'
    } else if d == 5 {
        '5'
    } else if d == 6 {
        '6'
    } else if d == 7 {
        '7'
    } else if d == 8 {
        '8'
    } else {
        '9'
    }
}

/// A number in decimal, most significant digit first, without leading zeros.
pub open spec fn decimal(n: nat) -> Seq<char>
    decreases n,
{
    if n < 10 {
        seq![digit_char(n)]
    } else {
        decimal(n / 10).push(digit_char(n % 10))
    }
}

/// A run of zeros.
pub open spec fn zeros(count: nat) -> Seq<char> {
    Seq::new(count, |i: int| '0')
}

/// A number in decimal, with zeros in front up to the given width. A number
/// with more digits than the width keeps them all.
pub open spec fn zero_padded(n: nat, width: nat) -> Seq<char> {
    if digit_count(n) >= width {
        decimal(n)
    } else {
        zeros((width - digit_count(n)) as nat) + decimal(n)
    }
}

/// The extension of an output file, with its dot.
pub open spec fn extension(jpeg: bool) -> Seq<char> {
    if jpeg {
        ".jpg"@
    } else {
        ".png"@
    }
}

/// The name of the file that holds an image of a page.
pub open spec fn file_name(page_num: u32, total_pages: usize, jpeg: bool) -> Seq<char> {
    zero_padded(page_num as nat, digit_count(total_pages as nat)) + extension(jpeg)
}

/// A number in decimal has as many characters as it has digits.
pub proof fn lemma_decimal_len(n: nat)
    ensures
        decimal(n).len() == digit_count(n),
    decreases n,
{
    if n >= 10 {
        lemma_decimal_len(n / 10);
    }
}

/// A number has no more digits than a number that is at least as large.
pub proof fn lemma_digit_count_monotonic(a: nat, b: nat)
    requires
        a <= b,
    ensures
        digit_count(a) <= digit_count(b),
    decreases b,
{
    if a >= 10 {
        lemma_digit_count_monotonic(a / 10, b / 10);
    }
}

/// The padding width of a run: the number of digits of its page count.
pub fn padding_width(total_pages: usize) -> (width: usize)
    ensures
        width == digit_count(total_pages as nat),
{
    let mut width: usize = 1;
    let mut rest: usize = total_pages;
    while rest >= 10
        invariant
            digit_count(total_pages as nat) == width - 1 + digit_count(rest as nat),
            1 <= width,
            width + rest <= total_pages + 1,
        decreases rest,
    {
        rest = rest / 10;
        width = width + 1;
    }
    width
}

fn digit_text(d: u32) -> (text: &'static str)
    requires
        d < 10,
    ensures
        text@ == seq![digit_char(d as nat)],
{
    proof {
        reveal_strlit("0");
        reveal_strlit("1");
        reveal_strlit("2");
        reveal_strlit("3");
        reveal_strlit("4");
        reveal_strlit("5");
        reveal_strlit("6");
        reveal_strlit("7");
        reveal_strlit("8");
        reveal_strlit("9");
    }
    if d == 0 {
        "0"
    } else if d == 1 {
        "1"
    } else if d == 2 {
        "2"
    } else if d == 3 {
        "3"
    } else if d == 4 {
        "4"
    } else if d == 5 {
        "5"
    } else if d == 6 {
        "6"
    } else if d == 7 {
        "7"
    } else if d == 8 {
        "8"
    } else {
        "9"
    }
}

fn push_decimal(text: &mut String, n: u32)
    ensures
        final(text)@ == old(text)@ + decimal(n as nat),
    decreases n,
{
    if n >= 10 {
        push_decimal(text, n / 10);
    }
    text.append(digit_text(n % 10));
}

/// The name of the file that holds an image of page `page_num` in a run
/// over `total_pages` pages: `001.jpg`, `12.png`.
pub fn page_file_name(page_num: u32, total_pages: usize, jpeg: bool) -> (name: String)
    ensures
        name@ == file_name(page_num, total_pages, jpeg),
{
    let width = padding_width(total_pages);
    let digits = padding_width(page_num as usize);
    let mut name = String::new();
    let mut written: usize = digits;
    while written < width
        invariant
            digits <= written,
            digits < width ==> written <= width,
            digits >= width ==> written == digits,
            name@ == zeros((written - digits) as nat),
        decreases width - written,
    {
        proof {
            reveal_strlit("0");
        }
        name.append("0");
        written = written + 1;
    }
    push_decimal(&mut name, page_num);
    assert(name@ =~= zero_padded(page_num as nat, width as nat));
    if jpeg {
        name.append(".jpg");
    } else {
        name.append(".png");
    }
    name
}

} // verus!
