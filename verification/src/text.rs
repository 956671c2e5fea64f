//! Text that the crawler writes: numbers, flags and filled-in templates.

use vstd::prelude::*;

verus! {

/// A result whose error is text, with the text by its characters.
pub open spec fn text_result<T>(r: Result<T, String>) -> Result<T, Seq<char>> {
    match r {
        Ok(v) => Ok(v),
        Err(e) => Err(e@),
    }
}

/// The decimal digit for `n`, which is below ten.
pub open spec fn digit(n: nat) -> char {
    if n == 0 {
        '0'
    } else if n == 1 {
        '1'
    } else if n == 2 {
        '2'
    } else if n == 3 {
        '3'
    } else if n == 4 {
        '4'
    } else if n == 5 {
        '5'
    } else if n == 6 {
        '6'
    } else if n == 7 {
        '7'
    } else if n == 8 {
        '8'
    } else {
        '9'
    }
}

/// `n` in decimal notation, without leading zeros.
pub open spec fn decimal_text(n: nat) -> Seq<char>
    decreases n,
{
    if n < 10 {
        seq![digit(n)]
    } else {
        decimal_text(n / 10).push(digit(n % 10))
    }
}

/// `n` in decimal notation, with a minus sign in front of a negative number.
pub open spec fn signed_text(n: int) -> Seq<char> {
    if n < 0 {
        "-"@ + decimal_text((-n) as nat)
    } else {
        decimal_text(n as nat)
    }
}

/// A truth value in words.
pub open spec fn flag_text(b: bool) -> Seq<char> {
    if b {
        "true"@
    } else {
        "false"@
    }
}

/// The number that a sequence of decimal digits stands for.
pub open spec fn decimal_value(s: Seq<char>) -> nat
    decreases s.len(),
{
    if s.len() == 0 {
        0
    } else {
        decimal_value(s.drop_last()) * 10 + (s.last() as nat - '0' as nat) as nat
    }
}

/// A number can be read back from its decimal notation, so no two numbers share one.
pub proof fn law_decimal_reads_back(n: nat)
    ensures
        decimal_value(decimal_text(n)) == n,
    decreases n,
{
    reveal_with_fuel(decimal_value, 2);
    if n < 10 {
        assert(decimal_text(n).drop_last() =~= Seq::empty());
    } else {
        law_decimal_reads_back(n / 10);
        assert(decimal_text(n).drop_last() =~= decimal_text(n / 10));
    }
}

/// One decimal digit.
pub(crate) fn digit_str(n: u64) -> (s: &'static str)
    requires
        n < 10,
    ensures
        s@ == seq![digit(n as nat)],
{
    proof {
        reveal_strlit("0");
        reveal_strlit("1");
        reveal_strlit("2");
        reveal_strlit("3");
        reveal_strlit("4");
        reveal_strlit("5");
        reveal_strlit("6");
        reveal_strlit("7");
        reveal_strlit("8");
        reveal_strlit("9");
    }
    match n {
        0 => "0",
        1 => "1",
        2 => "2",
        3 => "3",
        4 => "4",
        5 => "5",
        6 => "6",
        7 => "7",
        8 => "8",
        _ => "9",
    }
}

/// Writes `n` in decimal notation.
pub fn decimal(n: u64) -> (s: String)
    ensures
        s@ == decimal_text(n as nat),
    decreases n,
{
    if n < 10 {
        digit_str(n).to_owned()
    } else {
        let mut s = decimal(n / 10);
        s.append(digit_str(n % 10));
        s
    }
}

/// Writes `n` in decimal notation, with a minus sign in front of a negative number.
pub fn signed_decimal(n: i32) -> (s: String)
    ensures
        s@ == signed_text(n as int),
{
    if n < 0 {
        let mut s = "-".to_owned();
        s.append(decimal((-(n as i64)) as u64).as_str());
        s
    } else {
        decimal(n as u64)
    }
}

/// Writes a truth value in words.
pub fn flag(b: bool) -> (s: &'static str)
    ensures
        s@ == flag_text(b),
        b ==> s@ == "true"@,
        !b ==> s@ == "false"@,
{
    if b {
        "true"
    } else {
        "false"
    }
}

/// Whether `pattern` stands in `s` at position `at`.
pub open spec fn occurs_at(s: Seq<char>, pattern: Seq<char>, at: int) -> bool {
    &&& 0 <= at
    &&& at + pattern.len() <= s.len()
    &&& s.subrange(at, at + pattern.len()) == pattern
}

/// `s` with every occurrence of `from` replaced by `to`, found from left to right and without
/// overlap. An empty `from` occurs before each character and at the end.
pub open spec fn replaced(s: Seq<char>, from: Seq<char>, to: Seq<char>) -> Seq<char>
    decreases s.len(),
{
    if from.len() == 0 {
        if s.len() == 0 {
            to
        } else {
            to + s.take(1) + replaced(s.skip(1), from, to)
        }
    } else if s.len() < from.len() {
        s
    } else if occurs_at(s, from, 0) {
        to + replaced(s.skip(from.len() as int), from, to)
    } else {
        s.take(1) + replaced(s.skip(1), from, to)
    }
}

/// A text in which the pattern does not occur stays as it is.
pub proof fn law_replace_absent(s: Seq<char>, from: Seq<char>, to: Seq<char>)
    requires
        from.len() > 0,
        forall|i: int| !occurs_at(s, from, i),
    ensures
        replaced(s, from, to) == s,
    decreases s.len(),
{
    if s.len() >= from.len() {
        assert forall|i: int| !occurs_at(s.skip(1), from, i) by {
            if occurs_at(s.skip(1), from, i) {
                assert(s.skip(1).subrange(i, i + from.len()) =~= s.subrange(
                    i + 1,
                    i + 1 + from.len(),
                ));
                assert(occurs_at(s, from, i + 1));
            }
        }
        law_replace_absent(s.skip(1), from, to);
        assert(s.take(1) + s.skip(1) =~= s);
    }
}

/// What stands before the first occurrence of the pattern is kept, the occurrence gives way to
/// the replacement, and the search goes on behind it.
pub proof fn law_replace_first(s: Seq<char>, from: Seq<char>, to: Seq<char>, at: int)
    requires
        from.len() > 0,
        occurs_at(s, from, at),
        forall|i: int| i < at ==> !occurs_at(s, from, i),
    ensures
        replaced(s, from, to) == s.take(at) + to + replaced(s.skip(at + from.len()), from, to),
    decreases s.len(),
{
    if at == 0 {
        assert(s.take(0) + to =~= to);
    } else {
        let rest = s.skip(1);
        assert(rest.subrange(at - 1, at - 1 + from.len()) =~= s.subrange(at, at + from.len()));
        assert forall|i: int| i < at - 1 implies !occurs_at(rest, from, i) by {
            if occurs_at(rest, from, i) {
                assert(rest.subrange(i, i + from.len()) =~= s.subrange(i + 1, i + 1 + from.len()));
                assert(occurs_at(s, from, i + 1));
            }
        }
        law_replace_first(rest, from, to, at - 1);
        assert(!occurs_at(s, from, 0));
        assert(rest.skip(at - 1 + from.len()) =~= s.skip(at + from.len()));
        assert(s.take(1) + (rest.take(at - 1) + to + replaced(s.skip(at + from.len()), from, to))
            =~= s.take(at) + to + replaced(s.skip(at + from.len()), from, to));
    }
}

/// The characters of `s`.
fn characters(s: &str) -> (v: Vec<char>)
    ensures
        v@ == s@,
{
    let mut v: Vec<char> = Vec::new();
    for c in it: s.chars()
        invariant
            v@ == it.seq().take(it.index()),
            it.seq() == s@,
    {
        v.push(c);
    }
    assert(s@.take(s@.len() as int) =~= s@);
    v
}

/// Whether `pattern` stands in `s` at position `at`.
fn matches_at(s: &Vec<char>, pattern: &Vec<char>, at: usize) -> (found: bool)
    requires
        at <= s.len(),
    ensures
        found == occurs_at(s@, pattern@, at as int),
{
    if s.len() - at < pattern.len() {
        return false;
    }
    let mut i: usize = 0;
    while i < pattern.len()
        invariant
            i <= pattern.len(),
            at + pattern.len() <= s.len(),
            forall|k: int| 0 <= k < i ==> s@[at + k] == pattern@[k],
        decreases pattern.len() - i,
    {
        if s[at + i] != pattern[i] {
            assert(s@.subrange(at as int, at + pattern.len())[i as int] != pattern@[i as int]);
            return false;
        }
        i = i + 1;
    }
    assert(s@.subrange(at as int, at + pattern.len()) =~= pattern@);
    true
}

/// Replaces every occurrence of `from` in `s` by `to`.
pub fn replace(s: &str, from: &str, to: &str) -> (out: String)
    ensures
        out@ == replaced(s@, from@, to@),
{
    let chars: Vec<char> = characters(s);
    let pattern: Vec<char> = characters(from);
    let mut out = String::new();
    let mut i: usize = 0;
    assert(s@.skip(0) =~= s@);
    while i < chars.len()
        invariant
            i <= chars.len(),
            chars@ == s@,
            pattern@ == from@,
            out@ + replaced(s@.skip(i as int), from@, to@) == replaced(s@, from@, to@),
        decreases chars.len() - i,
    {
        let ghost before = out@;
        let ghost rest = s@.skip(i as int);
        proof {
            if from@.len() == 0 {
                assert(s@.subrange(i as int, i as int) =~= from@);
            }
            if i + from@.len() <= s@.len() {
                assert(rest.subrange(0, from@.len() as int) =~= s@.subrange(
                    i as int,
                    i + from@.len(),
                ));
            }
        }
        let found = matches_at(&chars, &pattern, i);
        if found {
            out.append(to);
        }
        if found && pattern.len() > 0 {
            proof {
                assert(rest.skip(from@.len() as int) =~= s@.skip(i + from@.len()));
                assert(before + (to@ + replaced(s@.skip(i + from@.len()), from@, to@)) =~= before
                    + to@ + replaced(s@.skip(i + from@.len()), from@, to@));
            }
            i = i + pattern.len();
        } else {
            out.append(s.substring_char(i, i + 1));
            proof {
                let tail = replaced(s@.skip(i + 1), from@, to@);
                assert(rest.skip(1) =~= s@.skip(i + 1));
                assert(rest.take(1) =~= s@.subrange(i as int, i + 1));
                if from@.len() == 0 {
                    assert(before + (to@ + rest.take(1) + tail) =~= before + to@ + rest.take(1)
                        + tail);
                } else if rest.len() < from@.len() {
                    assert(tail == s@.skip(i + 1));
                    assert(before + rest.take(1) + tail =~= before + rest);
                } else {
                    assert(before + (rest.take(1) + tail) =~= before + rest.take(1) + tail);
                }
            }
            i = i + 1;
        }
    }
    assert(s@.skip(i as int) =~= Seq::<char>::empty());
    if pattern.len() == 0 {
        out.append(to);
    } else {
        assert(out@ + Seq::<char>::empty() =~= out@);
    }
    out
}

/// Whether `s` is made of decimal digits, without a leading zero unless it is the only digit.
pub open spec fn is_plain_decimal(s: Seq<char>) -> bool {
    &&& s.len() >= 1
    &&& forall|i: int| 0 <= i < s.len() ==> '0' <= #[trigger] s[i] <= '9'
    &&& s[0] == '0' ==> s.len() == 1
}

/// Decimal notation is made of digits and has no leading zeros.
pub proof fn law_decimal_is_plain(n: nat)
    ensures
        is_plain_decimal(decimal_text(n)),
        n > 0 ==> decimal_text(n)[0] != '0',
    decreases n,
{
    if n >= 10 {
        law_decimal_is_plain(n / 10);
        let front = decimal_text(n / 10);
        assert forall|i: int| 0 <= i < decimal_text(n).len() implies '0'
            <= #[trigger] decimal_text(n)[i] <= '9' by {
            if i < front.len() {
                assert(decimal_text(n)[i] == front[i]);
            }
        }
        assert(decimal_text(n)[0] == front[0]);
    }
}

/// A number that is not negative is written without a sign, and a negative one as a minus sign
/// and its amount.
pub proof fn law_signed_reads_back(n: int)
    ensures
        n >= 0 ==> is_plain_decimal(signed_text(n)) && decimal_value(signed_text(n)) == n,
        n < 0 ==> {
            &&& signed_text(n)[0] == '-'
            &&& is_plain_decimal(signed_text(n).skip(1))
            &&& decimal_value(signed_text(n).skip(1)) == -n
        },
{
    reveal_strlit("-");
    if n >= 0 {
        law_decimal_is_plain(n as nat);
        law_decimal_reads_back(n as nat);
    } else {
        law_decimal_is_plain((-n) as nat);
        law_decimal_reads_back((-n) as nat);
        assert(signed_text(n).skip(1) =~= decimal_text((-n) as nat));
    }
}

/// A pattern stands at a position exactly if each of its characters stands there in turn.
pub proof fn law_occurrence_is_letter_by_letter(s: Seq<char>, pattern: Seq<char>, at: int)
    ensures
        occurs_at(s, pattern, at) <==> {
            &&& 0 <= at <= s.len() - pattern.len()
            &&& forall|k: int| 0 <= k < pattern.len() ==> #[trigger] s[at + k] == pattern[k]
        },
{
    if 0 <= at <= s.len() - pattern.len() {
        let part = s.subrange(at, at + pattern.len());
        if occurs_at(s, pattern, at) {
            assert forall|k: int| 0 <= k < pattern.len() implies #[trigger] s[at + k]
                == pattern[k] by {
                assert(part[k] == s[at + k]);
            }
        }
        if forall|k: int| 0 <= k < pattern.len() ==> #[trigger] s[at + k] == pattern[k] {
            assert forall|k: int| 0 <= k < pattern.len() implies part[k] == pattern[k] by {
                assert(part[k] == s[at + k]);
            }
            assert(part =~= pattern);
        }
    }
}

/// An empty pattern puts the replacement in front of each character and at the end, and keeps
/// the characters.
pub proof fn law_replace_empty(s: Seq<char>, to: Seq<char>)
    ensures
        replaced(Seq::empty(), Seq::empty(), to) == to,
        s.len() > 0 ==> replaced(s, Seq::empty(), to) == to + s.take(1) + replaced(
            s.skip(1),
            Seq::empty(),
            to,
        ),
        replaced(s, Seq::empty(), Seq::empty()) == s,
    decreases s.len(),
{
    if s.len() > 0 {
        law_replace_empty(s.skip(1), to);
        assert(Seq::<char>::empty() + s.take(1) + s.skip(1) =~= s);
    }
}

} // verus!
