//! Where a new data file goes and what it is called.
//!
//! A file name is `{prefix}-{count}[-{suffix}].{format}`, in which the count
//! is written in decimal and padded with zeros to five digits; the location of
//! a file is the table's data directory, a slash, and the file name. Names
//! that differ only in their count are different names.

use vstd::prelude::*;
use vstd::string::*;

verus! {

/// The formats in which a data file can be written.
#[derive(Clone, Copy, Debug, PartialEq, Eq, Structural)]
pub enum FileFormat {
    Avro,
    Orc,
    Parquet,
}

/// The least number of digits that a count is written with.
pub const COUNT_WIDTH: usize = 5;

/// The tag of the format, as it ends a file name.
pub open spec fn format_tag(format: FileFormat) -> Seq<char> {
    match format {
        FileFormat::Avro => seq!['a', 'v', 'r', 'o'],
        FileFormat::Orc => seq!['o', 'r', 'c'],
        FileFormat::Parquet => seq!['p', 'a', 'r', 'q', 'u', 'e', 't'],
    }
}

/// The decimal digit for `d`.
pub open spec fn digit_char(d: nat) -> char {
    if d == 0 {
        '0'
    } else if d == 1 {
        '1'
    } else if d == 2 {
        '2'
    } else if d == 3 {
        '3'
    } else if d == 4 {
        '4'
    } else if d == 5 {
        '5'
    } else if d == 6 {
        '6'
    } else if d == 7 {
        '7'
    } else if d == 8 {
        '8'
    } else {
        '9'
    }
}

/// The number that a decimal digit stands for.
pub open spec fn digit_value(c: char) -> nat {
    if c == '1' {
        1
    } else if c == '2' {
        2
    } else if c == '3' {
        3
    } else if c == '4' {
        4
    } else if c == '5' {
        5
    } else if c == '6' {
        6
    } else if c == '7' {
        7
    } else if c == '8' {
        8
    } else if c == '9' {
        9
    } else {
        0
    }
}

/// `n` in decimal, without leading zeros.
pub open spec fn decimal(n: nat) -> Seq<char>
    decreases n,
{
    if n < 10 {
        seq![digit_char(n)]
    } else {
        decimal(n / 10).push(digit_char(n % 10))
    }
}

/// `k` zeros.
pub open spec fn zeros(k: nat) -> Seq<char> {
    Seq::new(k, |i: int| '0')
}

/// `n` in decimal, padded on the left with zeros to at least `width` digits.
pub open spec fn padded(n: nat, width: nat) -> Seq<char> {
    let digits = decimal(n);
    if digits.len() >= width {
        digits
    } else {
        zeros((width - digits.len()) as nat) + digits
    }
}

/// The number that a sequence of decimal digits stands for.
pub open spec fn digits_value(digits: Seq<char>) -> nat
    decreases digits.len(),
{
    if digits.len() == 0 {
        0
    } else {
        digits_value(digits.drop_last()) * 10 + digit_value(digits.last())
    }
}

/// What follows the count in a file name: the suffix, if any, behind a
/// hyphen, then a dot and the format's tag.
pub open spec fn name_tail(suffix: Option<Seq<char>>, format: FileFormat) -> Seq<char> {
    let middle = match suffix {
        Some(s) => seq!['-'] + s,
        None => Seq::empty(),
    };
    middle + seq!['.'] + format_tag(format)
}

/// The name of the data file with this count.
pub open spec fn file_name_spec(
    prefix: Seq<char>,
    count: nat,
    suffix: Option<Seq<char>>,
    format: FileFormat,
) -> Seq<char> {
    prefix + seq!['-'] + padded(count, COUNT_WIDTH as nat) + name_tail(suffix, format)
}

/// The directory that holds the data files of the table at `table_location`.
pub open spec fn data_dir_spec(table_location: Seq<char>) -> Seq<char> {
    table_location + seq!['/', 'd', 'a', 't', 'a']
}

/// The location of the file `file_name` in the directory `dir`.
pub open spec fn file_location_spec(dir: Seq<char>, file_name: Seq<char>) -> Seq<char> {
    dir + seq!['/'] + file_name
}

/// The location of the data file with this count in the table at
/// `table_location`.
pub open spec fn data_file_path_spec(
    table_location: Seq<char>,
    prefix: Seq<char>,
    count: nat,
    format: FileFormat,
) -> Seq<char> {
    file_location_spec(data_dir_spec(table_location), file_name_spec(prefix, count, None, format))
}

/// Reading the decimal form of a number gives the number back.
pub proof fn lemma_decimal_value(n: nat)
    ensures
        digits_value(decimal(n)) == n,
    decreases n,
{
    if n < 10 {
        let digits = decimal(n);
        assert(digits_value(digits.drop_last()) == 0);
    } else {
        lemma_decimal_value(n / 10);
        let digits = decimal(n);
        assert(digits.drop_last() =~= decimal(n / 10));
    }
}

/// Leading zeros do not change the number that digits stand for.
pub proof fn lemma_leading_zeros(k: nat, digits: Seq<char>)
    ensures
        digits_value(zeros(k) + digits) == digits_value(digits),
    decreases digits.len(), k,
{
    let all = zeros(k) + digits;
    if digits.len() == 0 {
        if k > 0 {
            assert(zeros(k).drop_last() =~= zeros((k - 1) as nat) + digits);
            lemma_leading_zeros((k - 1) as nat, digits);
        }
    } else {
        assert(all.drop_last() =~= zeros(k) + digits.drop_last());
        lemma_leading_zeros(k, digits.drop_last());
    }
}

/// Counts that are written alike are the same count.
pub proof fn lemma_padded_injective(a: nat, b: nat, width: nat)
    requires
        padded(a, width) == padded(b, width),
    ensures
        a == b,
{
    lemma_decimal_value(a);
    lemma_decimal_value(b);
    if decimal(a).len() < width {
        lemma_leading_zeros((width - decimal(a).len()) as nat, decimal(a));
    }
    if decimal(b).len() < width {
        lemma_leading_zeros((width - decimal(b).len()) as nat, decimal(b));
    }
}

/// File names that differ only in their count are different: a count is
/// never used for two names.
pub proof fn lemma_file_names_differ(
    prefix: Seq<char>,
    a: nat,
    b: nat,
    suffix: Option<Seq<char>>,
    format: FileFormat,
)
    requires
        a != b,
    ensures
        file_name_spec(prefix, a, suffix, format) != file_name_spec(prefix, b, suffix, format),
{
    let head = prefix + seq!['-'];
    let tail = name_tail(suffix, format);
    let pa = padded(a, COUNT_WIDTH as nat);
    let pb = padded(b, COUNT_WIDTH as nat);
    let name_a = file_name_spec(prefix, a, suffix, format);
    let name_b = file_name_spec(prefix, b, suffix, format);
    if name_a == name_b {
        assert(name_b.len() == head.len() + pb.len() + tail.len());
        assert(pa =~= name_a.subrange(head.len() as int, (head.len() + pa.len()) as int));
        assert(pb =~= name_b.subrange(head.len() as int, (head.len() + pb.len()) as int));
        lemma_padded_injective(a, b, COUNT_WIDTH as nat);
    }
}

/// Files of one directory with different names have different locations.
pub proof fn lemma_file_locations_differ(dir: Seq<char>, a: Seq<char>, b: Seq<char>)
    requires
        a != b,
    ensures
        file_location_spec(dir, a) != file_location_spec(dir, b),
{
    let head = dir + seq!['/'];
    let la = file_location_spec(dir, a);
    let lb = file_location_spec(dir, b);
    if la == lb {
        assert(a =~= la.subrange(head.len() as int, la.len() as int));
        assert(b =~= lb.subrange(head.len() as int, lb.len() as int));
    }
}

/// Data files of one table and one prefix with different counts have
/// different locations.
pub proof fn lemma_data_file_paths_differ(
    table_location: Seq<char>,
    prefix: Seq<char>,
    a: nat,
    b: nat,
    format: FileFormat,
)
    requires
        a != b,
    ensures
        data_file_path_spec(table_location, prefix, a, format) != data_file_path_spec(
            table_location,
            prefix,
            b,
            format,
        ),
{
    lemma_file_names_differ(prefix, a, b, None, format);
    lemma_file_locations_differ(
        data_dir_spec(table_location),
        file_name_spec(prefix, a, None, format),
        file_name_spec(prefix, b, None, format),
    );
}

impl FileFormat {
    /// The tag of the format, as it ends a file name.
    pub fn tag(self) -> (tag: &'static str)
        ensures
            tag@ == format_tag(self),
    {
        proof {
            reveal_strlit("avro");
            reveal_strlit("orc");
            reveal_strlit("parquet");
        }
        match self {
            FileFormat::Avro => {
                "avro"
            },
            FileFormat::Orc => {
                "orc"
            },
            FileFormat::Parquet => {
                "parquet"
            },
        }
    }
}

/// The decimal digit for `d`, as a string.
fn digit_str(d: u64) -> (digit: &'static str)
    requires
        d < 10,
    ensures
        digit@ == seq![digit_char(d as nat)],
{
    proof {
        reveal_strlit("0");
        reveal_strlit("1");
        reveal_strlit("2");
        reveal_strlit("3");
        reveal_strlit("4");
        reveal_strlit("5");
        reveal_strlit("6");
        reveal_strlit("7");
        reveal_strlit("8");
        reveal_strlit("9");
    }
    let digit = if d == 0 {
        "0"
    } else if d == 1 {
        "1"
    } else if d == 2 {
        "2"
    } else if d == 3 {
        "3"
    } else if d == 4 {
        "4"
    } else if d == 5 {
        "5"
    } else if d == 6 {
        "6"
    } else if d == 7 {
        "7"
    } else if d == 8 {
        "8"
    } else {
        "9"
    };
    digit
}

/// `n` in decimal, without leading zeros.
pub fn decimal_string(n: u64) -> (digits: String)
    ensures
        digits@ == decimal(n as nat),
    decreases n,
{
    if n < 10 {
        String::from_str(digit_str(n))
    } else {
        let mut digits = decimal_string(n / 10);
        digits.append(digit_str(n % 10));
        digits
    }
}

/// `n` in decimal, padded on the left with zeros to at least five digits.
pub fn padded_string(n: u64) -> (digits: String)
    ensures
        digits@ == padded(n as nat, COUNT_WIDTH as nat),
{
    let digits = decimal_string(n);
    let len = digits.as_str().unicode_len();
    if len >= COUNT_WIDTH {
        return digits;
    }
    let missing = COUNT_WIDTH - len;
    let mut out = String::new();
    let mut k: usize = 0;
    while k < missing
        invariant
            k <= missing,
            out@ == zeros(k as nat),
        decreases missing - k,
    {
        proof {
            reveal_strlit("0");
        }
        out.append("0");
        k += 1;
    }
    out.append(digits.as_str());
    out
}

/// The name of the data file with this count:
/// `{prefix}-{count}[-{suffix}].{format}`.
pub fn file_name(prefix: &str, count: u64, suffix: Option<&str>, format: FileFormat) -> (name:
    String)
    ensures
        name@ == file_name_spec(
            prefix@,
            count as nat,
            match suffix {
                Some(s) => Some(s@),
                None => None,
            },
            format,
        ),
{
    proof {
        reveal_strlit("-");
        reveal_strlit(".");
    }
    let digits = padded_string(count);
    let mut name = String::from_str(prefix);
    name.append("-");
    name.append(digits.as_str());
    match suffix {
        Some(s) => {
            name.append("-");
            name.append(s);
        },
        None => {},
    }
    name.append(".");
    name.append(format.tag());
    name
}

/// The directory that holds the data files of the table at `table_location`.
pub fn data_dir(table_location: &str) -> (dir: String)
    ensures
        dir@ == data_dir_spec(table_location@),
{
    proof {
        reveal_strlit("/data");
    }
    let mut dir = String::from_str(table_location);
    dir.append("/data");
    dir
}

/// The location of the file `file_name` in the directory `dir`.
pub fn file_location(dir: &str, file_name: &str) -> (location: String)
    ensures
        location@ == file_location_spec(dir@, file_name@),
{
    proof {
        reveal_strlit("/");
    }
    let mut location = String::from_str(dir);
    location.append("/");
    location.append(file_name);
    location
}

} // verus!
