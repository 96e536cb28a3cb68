use vstd::prelude::*;
use vstd::string::*;

verus! {

/// The character that stands for one digit value, decimal or hexadecimal.
pub open spec fn digit_char(d: nat) -> char {
    if d == 0 {
        '0'
    } else if d == 1 {
        '1'
    } else if d == 2 {
        '2'
    } else if d == 3 {
        '3'
    } else if d == 4 {
        '4'
    } else if d == 5 {
        '5'
    } else if d == 6 {
        '6'
    } else if d == 7 {
        '7'
    } else if d == 8 {
        '8'
    } else if d == 9 {
        '9'
    } else if d == 10 {
        'a'
    } else if d == 11 {
        'b'
    } else if d == 12 {
        'c'
    } else if d == 13 {
        'd'
    } else if d == 14 {
        'e'
    } else {
        'f'
    }
}

/// The decimal rendering of a number, without leading zeroes.
pub open spec fn dec_of(n: nat) -> Seq<char>
    decreases n,
{
    if n < 10 {
        seq![digit_char(n)]
    } else {
        dec_of(n / 10).push(digit_char(n % 10))
    }
}

/// The lower-case hexadecimal rendering of a number, without leading zeroes.
pub open spec fn hex_of(n: nat) -> Seq<char>
    decreases n,
{
    if n < 16 {
        seq![digit_char(n)]
    } else {
        hex_of(n / 16).push(digit_char(n % 16))
    }
}

/// The digit characters of `ds`, last digit first.
pub open spec fn rev_digits(ds: Seq<u8>) -> Seq<char> {
    Seq::new(ds.len(), |i: int| digit_char(ds[ds.len() - 1 - i] as nat))
}

/// Appends the character of one digit value to a string.
pub fn append_digit(s: &mut String, d: u8)
    requires
        d < 16,
    ensures
        final(s)@ == old(s)@.push(digit_char(d as nat)),
{
    match d {
        0 => {
            proof {
                reveal_strlit("0");
            }
            s.append("0");
        },
        1 => {
            proof {
                reveal_strlit("1");
            }
            s.append("1");
        },
        2 => {
            proof {
                reveal_strlit("2");
            }
            s.append("2");
        },
        3 => {
            proof {
                reveal_strlit("3");
            }
            s.append("3");
        },
        4 => {
            proof {
                reveal_strlit("4");
            }
            s.append("4");
        },
        5 => {
            proof {
                reveal_strlit("5");
            }
            s.append("5");
        },
        6 => {
            proof {
                reveal_strlit("6");
            }
            s.append("6");
        },
        7 => {
            proof {
                reveal_strlit("7");
            }
            s.append("7");
        },
        8 => {
            proof {
                reveal_strlit("8");
            }
            s.append("8");
        },
        9 => {
            proof {
                reveal_strlit("9");
            }
            s.append("9");
        },
        10 => {
            proof {
                reveal_strlit("a");
            }
            s.append("a");
        },
        11 => {
            proof {
                reveal_strlit("b");
            }
            s.append("b");
        },
        12 => {
            proof {
                reveal_strlit("c");
            }
            s.append("c");
        },
        13 => {
            proof {
                reveal_strlit("d");
            }
            s.append("d");
        },
        14 => {
            proof {
                reveal_strlit("e");
            }
            s.append("e");
        },
        _ => {
            proof {
                reveal_strlit("f");
            }
            s.append("f");
        },
    }
    proof {
        assert(s@ =~= old(s)@.push(digit_char(d as nat)));
    }
}

proof fn lemma_rev_digits_push(ds: Seq<u8>, d: u8)
    ensures
        rev_digits(ds.push(d)) =~= seq![digit_char(d as nat)] + rev_digits(ds),
{
}

/// Renders a number in decimal, as `{}` formatting of an unsigned integer does.
pub fn u64_to_dec(n: u64) -> (s: String)
    ensures
        s@ == dec_of(n as nat),
{
    let mut digits: Vec<u8> = Vec::new();
    let mut cur: u64 = n;
    if cur == 0 {
        digits.push(0);
        proof {
            assert(rev_digits(digits@) =~= seq![digit_char(0)]);
        }
    }
    proof {
        assert(rev_digits(Seq::<u8>::empty()) =~= Seq::<char>::empty());
        assert(cur > 0 ==> dec_of(n as nat) =~= dec_of(cur as nat) + rev_digits(digits@));
    }
    while cur > 0
        invariant
            forall|j: int| 0 <= j < digits@.len() ==> digits@[j] < 10,
            cur > 0 ==> dec_of(n as nat) == dec_of(cur as nat) + rev_digits(digits@),
            cur == 0 ==> dec_of(n as nat) == rev_digits(digits@),
        decreases cur,
    {
        let ghost pre = digits@;
        let ghost precur = cur as nat;
        let d: u8 = (cur % 10) as u8;
        digits.push(d);
        cur = cur / 10;
        proof {
            lemma_rev_digits_push(pre, d);
            if precur < 10 {
                assert(dec_of(precur) =~= seq![digit_char(d as nat)]);
                assert(dec_of(n as nat) =~= rev_digits(digits@));
            } else {
                assert(dec_of(precur) == dec_of(precur / 10).push(digit_char(precur % 10)));
                assert(dec_of(precur) =~= dec_of(cur as nat) + seq![digit_char(d as nat)]);
                assert(dec_of(n as nat) =~= dec_of(cur as nat) + rev_digits(digits@));
            }
        }
    }
    digits_to_string(&digits)
}

/// Renders a number in lower-case hexadecimal, as `{:x}` formatting does.
pub fn u16_to_hex(n: u16) -> (s: String)
    ensures
        s@ == hex_of(n as nat),
{
    let mut digits: Vec<u8> = Vec::new();
    let mut cur: u16 = n;
    if cur == 0 {
        digits.push(0);
        proof {
            assert(rev_digits(digits@) =~= seq![digit_char(0)]);
        }
    }
    proof {
        assert(rev_digits(Seq::<u8>::empty()) =~= Seq::<char>::empty());
        assert(cur > 0 ==> hex_of(n as nat) =~= hex_of(cur as nat) + rev_digits(digits@));
    }
    while cur > 0
        invariant
            forall|j: int| 0 <= j < digits@.len() ==> digits@[j] < 16,
            cur > 0 ==> hex_of(n as nat) == hex_of(cur as nat) + rev_digits(digits@),
            cur == 0 ==> hex_of(n as nat) == rev_digits(digits@),
        decreases cur,
    {
        let ghost pre = digits@;
        let ghost precur = cur as nat;
        let d: u8 = (cur % 16) as u8;
        digits.push(d);
        cur = cur / 16;
        proof {
            lemma_rev_digits_push(pre, d);
            if precur < 16 {
                assert(hex_of(precur) =~= seq![digit_char(d as nat)]);
                assert(hex_of(n as nat) =~= rev_digits(digits@));
            } else {
                assert(hex_of(precur) == hex_of(precur / 16).push(digit_char(precur % 16)));
                assert(hex_of(precur) =~= hex_of(cur as nat) + seq![digit_char(d as nat)]);
                assert(hex_of(n as nat) =~= hex_of(cur as nat) + rev_digits(digits@));
            }
        }
    }
    digits_to_string(&digits)
}

/// Builds the string of a digit sequence, last collected digit first.
fn digits_to_string(digits: &Vec<u8>) -> (s: String)
    requires
        forall|j: int| 0 <= j < digits@.len() ==> digits@[j] < 16,
    ensures
        s@ == rev_digits(digits@),
{
    let mut s = String::new();
    let mut i: usize = digits.len();
    proof {
        assert(s@ =~= rev_digits(digits@).subrange(0, 0));
    }
    while i > 0
        invariant
            i <= digits@.len(),
            forall|j: int| 0 <= j < digits@.len() ==> digits@[j] < 16,
            s@ == rev_digits(digits@).subrange(0, digits@.len() - i),
        decreases i,
    {
        let ghost pre = s@;
        let d = digits[i - 1];
        append_digit(&mut s, d);
        i = i - 1;
        proof {
            assert(rev_digits(digits@)[digits@.len() - 1 - (i as int)] == digit_char(
                digits@[i as int] as nat,
            ));
            assert(s@ =~= rev_digits(digits@).subrange(0, digits@.len() - i));
        }
    }
    proof {
        assert(s@ =~= rev_digits(digits@));
    }
    s
}

} // verus!
