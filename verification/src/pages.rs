//! Deterministic page file naming.
//!
//! Each downloaded page image is persisted under its locator index plus a
//! fixed image extension, so a numeric sort of the file names reproduces the
//! locator order exactly: the decimal representation written here is
//! injective, and parsing it back returns the index.

use vstd::arithmetic::div_mod::lemma_fundamental_div_mod;
use vstd::prelude::*;
use vstd::string::StringExecFns;
use vstd::string::StrSliceExecFns;

verus! {

/// The decimal digit character for `d` (meaningful for `0 <= d <= 9`).
pub open spec fn digit_char(d: int) -> char {
    if d == 0 {
        '0'
    } else if d == 1 {
        '1'
    } else if d == 2 {
        '2'
    } else if d == 3 {
        '3'
    } else if d == 4 {
        '4'
    } else if d == 5 {
        '5'
    } else if d == 6 {
        '6'
    } else if d == 7 {
        '7'
    } else if d == 8 {
        '8'
    } else {
        '9'
    }
}

/// The decimal digits of `n`, most significant first, with no leading zeros
/// (and `0` written as the single digit `0`).
pub open spec fn decimal_digits(n: nat) -> Seq<char>
    decreases n,
{
    if n < 10 {
        seq![digit_char(n as int)]
    } else {
        decimal_digits(n / 10) + seq![digit_char((n % 10) as int)]
    }
}

/// True when `c` is a decimal digit.
pub open spec fn is_digit(c: char) -> bool {
    48 <= c as u32 <= 57
}

/// The numeric value of the digit `c`.
pub open spec fn digit_val(c: char) -> int {
    c as u32 - 48
}

/// True when every character of `s` is a decimal digit.
pub open spec fn all_digits(s: Seq<char>) -> bool {
    forall|i: int| 0 <= i < s.len() ==> is_digit(#[trigger] s[i])
}

/// The number the digit string `s` denotes (most significant digit first;
/// meaningful when `all_digits(s)`).
pub open spec fn digits_value(s: Seq<char>) -> int
    decreases s.len(),
{
    if s.len() == 0 {
        0
    } else {
        digits_value(s.drop_last()) * 10 + digit_val(s.last())
    }
}

fn digit_str(d: u64) -> (r: &'static str)
    requires
        d < 10,
    ensures
        r@ == seq![digit_char(d as int)],
{
    let r: &'static str = match d {
        0 => "0",
        1 => "1",
        2 => "2",
        3 => "3",
        4 => "4",
        5 => "5",
        6 => "6",
        7 => "7",
        8 => "8",
        _ => "9",
    };
    proof {
        reveal_strlit("0");
        reveal_strlit("1");
        reveal_strlit("2");
        reveal_strlit("3");
        reveal_strlit("4");
        reveal_strlit("5");
        reveal_strlit("6");
        reveal_strlit("7");
        reveal_strlit("8");
        reveal_strlit("9");
        assert(r@ =~= seq![digit_char(d as int)]);
    }
    r
}

/// Writes `n` in decimal, most significant digit first, no leading zeros.
pub fn u64_to_string(n: u64) -> (r: String)
    ensures
        r@ == decimal_digits(n as nat),
    decreases n,
{
    if n < 10 {
        let d = digit_str(n);
        let r = String::from_str(d);
        r
    } else {
        let mut r = u64_to_string(n / 10);
        r.append(digit_str(n % 10));
        r
    }
}

/// The decimal digits of `n` are digits, denote `n`, and are never empty.
pub proof fn lemma_decimal_value(n: nat)
    ensures
        all_digits(decimal_digits(n)),
        digits_value(decimal_digits(n)) == n,
        decimal_digits(n).len() >= 1,
    decreases n,
{
    if n < 10 {
        assert(decimal_digits(n) == seq![digit_char(n as int)]);
        assert(decimal_digits(n).drop_last() =~= Seq::<char>::empty());
        assert(decimal_digits(n).last() == digit_char(n as int));
        assert(digit_val(digit_char(n as int)) == n);
        assert(digits_value(decimal_digits(n)) == digits_value(Seq::<char>::empty()) * 10
            + digit_val(digit_char(n as int)));
    } else {
        lemma_decimal_value(n / 10);
        assert(decimal_digits(n).drop_last() =~= decimal_digits(n / 10));
        assert(decimal_digits(n).last() == digit_char((n % 10) as int));
        assert(digit_val(digit_char((n % 10) as int)) == n % 10);
        lemma_fundamental_div_mod(n as int, 10);
        assert(digits_value(decimal_digits(n)) == digits_value(decimal_digits(n / 10)) * 10 + (n
            % 10));
    }
}

/// Naming law: the decimal name is injective — two locator indices with the
/// same page file name are the same index.
pub proof fn lemma_decimal_injective(a: nat, b: nat)
    ensures
        decimal_digits(a) == decimal_digits(b) ==> a == b,
{
    if decimal_digits(a) == decimal_digits(b) {
        lemma_decimal_value(a);
        lemma_decimal_value(b);
    }
}

/// The file name of the page with locator index `index`: its decimal index
/// plus the fixed image extension.
pub fn page_file_name(index: u64) -> (r: String)
    ensures
        r@ == decimal_digits(index as nat) + ".png"@,
{
    let mut r = u64_to_string(index);
    r.append(".png");
    r
}

/// The file name of a book's assembled document: the book's decimal
/// identifier plus the fixed document extension, placed in the book's own
/// directory.
pub fn document_file_name(id: u64) -> (r: String)
    ensures
        r@ == decimal_digits(id as nat) + ".pdf"@,
{
    let mut r = u64_to_string(id);
    r.append(".pdf");
    r
}

/// Naming law for whole file names: two locator indices with the same page
/// file name are the same index, so the coordinator writes one distinct
/// file per locator.
pub proof fn lemma_page_name_injective(a: nat, b: nat)
    ensures
        decimal_digits(a) + ".png"@ == decimal_digits(b) + ".png"@ ==> a == b,
{
    if decimal_digits(a) + ".png"@ == decimal_digits(b) + ".png"@ {
        let da = decimal_digits(a);
        let db = decimal_digits(b);
        assert((da + ".png"@).len() == da.len() + ".png"@.len());
        assert(da.len() == db.len());
        assert(da =~= db) by {
            assert forall|i: int| 0 <= i < da.len() implies da[i] == db[i] by {
                assert(da[i] == (da + ".png"@)[i]);
                assert(db[i] == (db + ".png"@)[i]);
            }
        }
        lemma_decimal_injective(a, b);
    }
}

proof fn lemma_digits_value_nonneg(s: Seq<char>)
    requires
        all_digits(s),
    ensures
        digits_value(s) >= 0,
    decreases s.len(),
{
    if s.len() > 0 {
        assert(all_digits(s.drop_last()));
        lemma_digits_value_nonneg(s.drop_last());
    }
}

proof fn lemma_digits_value_step_mono(s: Seq<char>, j: int)
    requires
        0 <= j < s.len(),
        all_digits(s.take(j + 1)),
    ensures
        digits_value(s.take(j)) <= digits_value(s.take(j + 1)),
{
    assert(s.take(j + 1).drop_last() =~= s.take(j));
    assert(all_digits(s.take(j)));
    lemma_digits_value_nonneg(s.take(j));
}

/// If a digit prefix already denotes more than `bound`, so does every longer
/// digit prefix.
proof fn lemma_digits_value_mono(s: Seq<char>, i: int, j: int)
    requires
        0 <= i <= j <= s.len(),
        all_digits(s.take(j)),
    ensures
        digits_value(s.take(i)) <= digits_value(s.take(j)),
    decreases j - i,
{
    if i < j {
        assert(s.take(j - 1) =~= s.take(j).take(j - 1));
        assert(all_digits(s.take(j - 1)));
        lemma_digits_value_mono(s, i, j - 1);
        lemma_digits_value_step_mono(s, j - 1);
    }
}

/// Reads a decimal number: `Some(v)` exactly when `s` is non-empty, all
/// digits, and denotes a value that fits in a `u64`; `None` otherwise.
pub fn parse_u64(s: &str) -> (r: Option<u64>)
    ensures
        match r {
            Some(v) => s@.len() > 0 && all_digits(s@) && digits_value(s@) == v as int,
            None => s@.len() == 0 || !all_digits(s@) || digits_value(s@) > u64::MAX,
        },
{
    let len = s.unicode_len();
    if len == 0 {
        return None;
    }
    let mut i: usize = 0;
    let mut acc: u64 = 0;
    while i < len
        invariant
            0 <= i <= len,
            len == s@.len(),
            all_digits(s@.take(i as int)),
            acc as int == digits_value(s@.take(i as int)),
        decreases len - i,
    {
        let c = s.get_char(i);
        let d = c as u32;
        if d < 48 || d > 57 {
            assert(!is_digit(s@[i as int]));
            return None;
        }
        proof {
            assert(s@.take(i + 1).drop_last() =~= s@.take(i as int));
            assert(s@.take(i + 1).last() == s@[i as int]);
            assert forall|k: int| 0 <= k < i + 1 implies is_digit(#[trigger] s@.take(i + 1)[k]) by {
                if k < i {
                    assert(s@.take(i + 1)[k] == s@.take(i as int)[k]);
                } else {
                    assert(s@.take(i + 1)[k] == s@[i as int]);
                }
            }
        }
        let step = match acc.checked_mul(10) {
            Some(m) => m.checked_add((d - 48) as u64),
            None => None,
        };
        match step {
            Some(v) => {
                acc = v;
            }
            None => {
                proof {
                    assert(digits_value(s@.take(i + 1)) > u64::MAX);
                    if all_digits(s@) {
                        assert(s@.take(len as int) =~= s@);
                        lemma_digits_value_mono(s@, i + 1, len as int);
                    }
                }
                return None;
            }
        }
        i = i + 1;
    }
    proof {
        assert(s@.take(len as int) =~= s@);
    }
    Some(acc)
}

} // verus!
