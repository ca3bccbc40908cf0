//! Small text helpers: comparing, cutting and writing numbers.
use vstd::prelude::*;
use vstd::string::*;

verus! {

/// The character of a decimal digit.
pub open spec fn digit_char(d: nat) -> char {
    if d == 0 {
        '0'
    } else if d == 1 {
        '1'
    } else if d == 2 {
        '2'
    } else if d == 3 {
        '3'
    } else if d == 4 {
        '4'
    } else if d == 5 {
        '5'
    } else if d == 6 {
        '6'
    } else if d == 7 {
        '7'
    } else if d == 8 {
        '8'
    } else {
        '9'
    }
}

/// The decimal digits of a number, without leading zeros ("0" for zero).
pub open spec fn digits(n: nat) -> Seq<char>
    decreases n,
{
    if n < 10 {
        seq![digit_char(n)]
    } else {
        digits(n / 10).push(digit_char(n % 10))
    }
}

/// `s` preceded by as many '0' as make it `width` characters long.
pub open spec fn pad_zeros(s: Seq<char>, width: nat) -> Seq<char> {
    if s.len() >= width {
        s
    } else {
        Seq::new((width - s.len()) as nat, |i: int| '0') + s
    }
}

/// The position of the first `c` in `s`, or the length of `s` if there is none.
pub open spec fn first_index_of(s: Seq<char>, c: char) -> nat
    decreases s.len(),
{
    if s.len() == 0 {
        0
    } else if s[0] == c {
        0
    } else {
        1 + first_index_of(s.drop_first(), c)
    }
}

/// What stands before the first `c` in `s` (all of `s` if there is none).
pub open spec fn prefix_before(s: Seq<char>, c: char) -> Seq<char> {
    s.take(first_index_of(s, c) as int)
}

/// What `str::to_lowercase` gives for a text.
pub uninterp spec fn lowercase_of(s: Seq<char>) -> Seq<char>;

/// What `format!("{:?}", s)` writes for a text (quoted and escaped).
pub uninterp spec fn debug_quoted(s: Seq<char>) -> Seq<char>;

/// What `std::path::Path::extension` gives for a path written as text,
/// read back as text.
pub uninterp spec fn path_extension(s: Seq<char>) -> Option<Seq<char>>;

/// What stands before the first `c` of `d`, `c` and `rest`, where `d` holds
/// no `c`, is `d`.
pub proof fn lemma_prefix_before_split(d: Seq<char>, c: char, rest: Seq<char>)
    requires
        forall|j: int| 0 <= j < d.len() ==> d[j] != c,
    ensures
        prefix_before(d + seq![c] + rest, c) == d,
{
    let s = d + seq![c] + rest;
    assert(s[d.len() as int] == c);
    assert forall|j: int| 0 <= j < d.len() implies s[j] != c by {
        assert(s[j] == d[j]);
    }
    lemma_first_index_of_char(s, c, d.len() as int);
    assert(s.take(d.len() as int) =~= d);
}

proof fn lemma_first_index_of_bound(s: Seq<char>, c: char)
    ensures
        first_index_of(s, c) <= s.len(),
        first_index_of(s, c) < s.len() ==> s[first_index_of(s, c) as int] == c,
        forall|j: int| 0 <= j < first_index_of(s, c) ==> s[j] != c,
    decreases s.len(),
{
    if s.len() > 0 && s[0] != c {
        lemma_first_index_of_bound(s.drop_first(), c);
        assert forall|j: int| 0 <= j < first_index_of(s, c) implies s[j] != c by {
            if j > 0 {
                assert(s[j] == s.drop_first()[j - 1]);
            }
        }
        if first_index_of(s, c) < s.len() {
            assert(s[first_index_of(s, c) as int] == s.drop_first()[first_index_of(
                s.drop_first(),
                c,
            ) as int]);
        }
    }
}

proof fn lemma_first_index_of_char(s: Seq<char>, c: char, i: int)
    requires
        0 <= i < s.len(),
        s[i] == c,
        forall|j: int| 0 <= j < i ==> s[j] != c,
    ensures
        first_index_of(s, c) == i,
    decreases s.len(),
{
    if i > 0 {
        assert(s.drop_first()[i - 1] == c);
        assert forall|j: int| 0 <= j < i - 1 implies s.drop_first()[j] != c by {
            assert(s.drop_first()[j] == s[j + 1]);
        }
        lemma_first_index_of_char(s.drop_first(), c, i - 1);
    }
}

proof fn lemma_first_index_of_none(s: Seq<char>, c: char)
    requires
        forall|j: int| 0 <= j < s.len() ==> s[j] != c,
    ensures
        first_index_of(s, c) == s.len(),
    decreases s.len(),
{
    if s.len() > 0 {
        assert forall|j: int| 0 <= j < s.drop_first().len() implies s.drop_first()[j] != c by {
            assert(s.drop_first()[j] == s[j + 1]);
        }
        lemma_first_index_of_none(s.drop_first(), c);
    }
}

/// Whether two texts are the same.
pub fn str_eq(a: &str, b: &str) -> (res: bool)
    ensures
        res == (a@ == b@),
{
    let n = a.unicode_len();
    if n != b.unicode_len() {
        return false;
    }
    let mut i: usize = 0;
    while i < n
        invariant
            n == a@.len(),
            n == b@.len(),
            i <= n,
            forall|j: int| 0 <= j < i ==> a@[j] == b@[j],
        decreases n - i,
    {
        if a.get_char(i) != b.get_char(i) {
            return false;
        }
        i = i + 1;
    }
    assert(a@ =~= b@);
    true
}

/// The part of `s` before the first `c` (all of `s` if `c` does not occur).
pub fn take_before(s: &str, c: char) -> (res: String)
    ensures
        res@ == prefix_before(s@, c),
{
    let n = s.unicode_len();
    let mut i: usize = 0;
    while i < n
        invariant
            n == s@.len(),
            i <= n,
            forall|j: int| 0 <= j < i ==> s@[j] != c,
        decreases n - i,
    {
        if s.get_char(i) == c {
            proof {
                lemma_first_index_of_char(s@, c, i as int);
            }
            return String::from_str(s.substring_char(0, i));
        }
        i = i + 1;
    }
    proof {
        lemma_first_index_of_none(s@, c);
    }
    assert(s@.take(n as int) =~= s@);
    String::from_str(s)
}

/// The text of one decimal digit.
fn digit_text(d: u64) -> (res: &'static str)
    requires
        d < 10,
    ensures
        res@ == seq![digit_char(d as nat)],
{
    if d == 0 {
        proof {
            reveal_strlit("0");
        }
        "0"
    } else if d == 1 {
        proof {
            reveal_strlit("1");
        }
        "1"
    } else if d == 2 {
        proof {
            reveal_strlit("2");
        }
        "2"
    } else if d == 3 {
        proof {
            reveal_strlit("3");
        }
        "3"
    } else if d == 4 {
        proof {
            reveal_strlit("4");
        }
        "4"
    } else if d == 5 {
        proof {
            reveal_strlit("5");
        }
        "5"
    } else if d == 6 {
        proof {
            reveal_strlit("6");
        }
        "6"
    } else if d == 7 {
        proof {
            reveal_strlit("7");
        }
        "7"
    } else if d == 8 {
        proof {
            reveal_strlit("8");
        }
        "8"
    } else {
        proof {
            reveal_strlit("9");
        }
        "9"
    }
}

/// The decimal digits of `n`.
pub fn u64_to_text(n: u64) -> (res: String)
    ensures
        res@ == digits(n as nat),
{
    let mut rest = n;
    let mut acc = String::new();
    while rest >= 10
        invariant
            digits(n as nat) == digits(rest as nat) + acc@,
        decreases rest,
    {
        let d = rest % 10;
        let head = String::from_str(digit_text(d));
        let ghost old_acc = acc@;
        acc = head.concat(acc.as_str());
        assert(digits(rest as nat) == digits((rest / 10) as nat).push(digit_char(d as nat)));
        assert(digits((rest / 10) as nat) + acc@ =~= digits((rest / 10) as nat).push(
            digit_char(d as nat),
        ) + old_acc);
        rest = rest / 10;
    }
    let head = String::from_str(digit_text(rest));
    head.concat(acc.as_str())
}

/// `s` preceded by as many '0' as make it `width` characters long.
pub fn pad_with_zeros(s: String, width: usize) -> (res: String)
    ensures
        res@ == pad_zeros(s@, width as nat),
{
    let n = s.as_str().unicode_len();
    if n >= width {
        return s;
    }
    let mut pad = String::new();
    let mut i: usize = 0;
    proof {
        reveal_strlit("0");
    }
    while i < width - n
        invariant
            n == s@.len(),
            n < width,
            i <= width - n,
            pad@ =~= Seq::new(i as nat, |j: int| '0'),
        decreases width - n - i,
    {
        proof {
            reveal_strlit("0");
        }
        pad.append("0");
        i = i + 1;
    }
    pad.concat(s.as_str())
}

/// `str::to_lowercase`. Claimed: the result is `lowercase_of` of the text.
#[verifier::external_body]
pub(crate) fn to_lowercase(s: &str) -> (res: String)
    ensures
        res@ == lowercase_of(s@),
{
    s.to_lowercase()
}

/// `format!("{:?}", s)` for a text. Claimed: the result is `debug_quoted` of
/// the text.
#[verifier::external_body]
pub(crate) fn debug_text(s: &str) -> (res: String)
    ensures
        res@ == debug_quoted(s@),
{
    format!("{:?}", s)
}

/// `std::path::Path::extension` of a path given as text, read back as text
/// with `to_str` (an extension that is not valid UTF-8 reads as "", which a
/// path built from a `str` cannot have). Claimed: the result is
/// `path_extension` of the text.
#[verifier::external_body]
pub(crate) fn extension_of(path: &str) -> (res: Option<String>)
    ensures
        match res {
            Some(e) => path_extension(path@) == Some(e@),
            None => path_extension(path@) is None,
        },
{
    match std::path::Path::new(path).extension() {
        Some(ext) => Some(ext.to_str().unwrap_or("").to_string()),
        None => None,
    }
}

} // verus!
