//! At which frames the panel is drawn into a picture, for development.

use crate::split::{parts, split};
use crate::sync::settings::texts;
use crate::trim::{trim, trimmed};
use vstd::prelude::*;
use vstd::string::*;

verus! {

/// The number that decimal digits stand for; zero without any.
pub open spec fn digits_value(s: Seq<char>) -> Option<int>
    decreases s.len(),
{
    if s.len() == 0 {
        Some(0)
    } else {
        match digits_value(s.drop_last()) {
            Some(v) => if 48 <= s.last() as u32 <= 57 {
                Some(10 * v + (s.last() as u32 - 48))
            } else {
                None
            },
            None => None,
        }
    }
}

/// The number that a text stands for, where it is one: decimal digits, with a plus sign in
/// front or none, up to what sixty-four bits hold.
pub open spec fn number_in(s: Seq<char>) -> Option<int> {
    let body = if s.len() > 0 && s[0] == '+' {
        s.drop_first()
    } else {
        s
    };
    if body.len() == 0 {
        None
    } else {
        match digits_value(body) {
            Some(v) => if v <= u64::MAX {
                Some(v)
            } else {
                None
            },
            None => None,
        }
    }
}

/// What follows a character that is no digit does not mend it, and what follows a number does
/// not make it smaller.
proof fn lemma_longer(s: Seq<char>, n: int)
    requires
        0 <= n <= s.len(),
    ensures
        digits_value(s.subrange(0, n)) is None ==> digits_value(s) is None,
        digits_value(s) is Some ==> digits_value(s.subrange(0, n)) is Some && 0 <= digits_value(
            s.subrange(0, n),
        )->0 <= digits_value(s)->0,
    decreases s.len() - n,
{
    if n == s.len() {
        assert(s.subrange(0, n) =~= s);
        lemma_not_negative(s);
    } else {
        lemma_longer(s, n + 1);
        assert(s.subrange(0, n + 1).drop_last() =~= s.subrange(0, n));
        lemma_not_negative(s.subrange(0, n));
    }
}

proof fn lemma_not_negative(s: Seq<char>)
    ensures
        digits_value(s) is Some ==> digits_value(s)->0 >= 0,
    decreases s.len(),
{
    if s.len() > 0 {
        lemma_not_negative(s.drop_last());
    }
}

/// Reads a number.
pub fn read_number(s: &str) -> (v: Option<u64>)
    ensures
        v is Some <==> number_in(s@) is Some,
        v is Some ==> v->0 == number_in(s@)->0,
{
    let n: usize = s.unicode_len();
    let from: usize = if n > 0 && s.get_char(0) == '+' {
        1
    } else {
        0
    };
    let ghost body = s@.subrange(from as int, n as int);
    proof {
        if from == 1 {
            assert(body =~= s@.drop_first());
        } else {
            assert(body =~= s@);
        }
    }
    if from == n {
        return None;
    }
    let mut value: u64 = 0;
    let mut i: usize = from;
    assert(body.subrange(0, 0) =~= Seq::empty());
    while i < n
        invariant
            from <= i <= n == s@.len(),
            body == s@.subrange(from as int, n as int),
            body.len() > 0,
            number_in(s@) == (match digits_value(body) {
                Some(v) => if v <= u64::MAX {
                    Some(v)
                } else {
                    None
                },
                None => None,
            }),
            digits_value(body.subrange(0, i - from)) == Some(value as int),
        decreases n - i,
    {
        let c: u32 = s.get_char(i) as u32;
        proof {
            let longer = body.subrange(0, i - from + 1);
            assert(longer.drop_last() =~= body.subrange(0, i - from));
            assert(longer.last() == s@[i as int]);
            lemma_longer(body, i - from + 1);
        }
        if c < 48 || c > 57 {
            return None;
        }
        let wide: u128 = value as u128 * 10 + (c - 48) as u128;
        if wide > u64::MAX as u128 {
            return None;
        }
        value = wide as u64;
        i = i + 1;
    }
    assert(body.subrange(0, n - from) =~= body);
    Some(value)
}

/// The numbers among the parts of a list, in order; what is no number is passed over.
pub open spec fn numbers_among(v: Seq<Seq<char>>) -> Seq<u64>
    decreases v.len(),
{
    if v.len() == 0 {
        Seq::empty()
    } else {
        let front = numbers_among(v.drop_last());
        match number_in(trimmed(v.last())) {
            Some(n) => front.push(n as u64),
            None => front,
        }
    }
}

/// The frames at which to take a picture: those of a list with commas where there is one, else
/// the frames 120 and 900.
pub fn snapshot_frames(list: Option<&str>) -> (frames: Vec<u64>)
    ensures
        frames@ == (match list {
            Some(s) => numbers_among(parts(s@, ',')),
            None => seq![120u64, 900u64],
        }),
{
    let s: &str = match list {
        Some(s) => s,
        None => {
            let mut usual: Vec<u64> = Vec::new();
            usual.push(120);
            usual.push(900);
            assert(usual@ =~= seq![120u64, 900u64]);
            return usual;
        },
    };
    let v: Vec<String> = split(s, ',');
    let mut frames: Vec<u64> = Vec::new();
    let mut i: usize = 0;
    let ghost all = texts(v@);
    while i < v.len()
        invariant
            i <= v@.len(),
            all == texts(v@),
            frames@ == numbers_among(all.subrange(0, i as int)),
        decreases v@.len() - i,
    {
        proof {
            assert(all.subrange(0, i + 1).drop_last() =~= all.subrange(0, i as int));
            assert(all.subrange(0, i + 1).last() == v@[i as int]@);
        }
        if let Some(n) = read_number(trim(v[i].as_str()).as_str()) {
            frames.push(n);
        }
        i = i + 1;
    }
    assert(all.subrange(0, i as int) =~= all);
    frames
}

/// A number that was written is read as itself, with a plus sign in front or without, as long as
/// it fits.
pub proof fn a_written_number_is_read_back(n: nat)
    requires
        n <= u64::MAX,
    ensures
        number_in(crate::decimal::decimal(n)) == Some(n as int),
        number_in(seq!['+'] + crate::decimal::decimal(n)) == Some(n as int),
{
    lemma_digits_of(n);
    let d = crate::decimal::decimal(n);
    crate::decimal::decimal_lengths(n, 0);
    let s = seq!['+'] + d;
    assert(s.drop_first() =~= d);
}

proof fn lemma_digits_of(n: nat)
    ensures
        digits_value(crate::decimal::decimal(n)) == Some(n as int),
        crate::decimal::decimal(n).len() > 0,
        crate::decimal::decimal(n)[0] != '+',
    decreases n,
{
    let d = crate::decimal::decimal(n);
    if n < 10 {
        assert(d.drop_last() =~= Seq::empty());
        assert(digits_value(Seq::<char>::empty()) == Some(0int));
    } else {
        lemma_digits_of(n / 10);
        assert(d.drop_last() =~= crate::decimal::decimal(n / 10));
    }
}

/// What has a character other than a digit behind its sign is no number, and neither is a sign
/// alone or nothing.
pub proof fn only_digits_make_a_number(s: Seq<char>, i: int)
    requires
        0 <= i < s.len(),
        i > 0 || s[0] != '+',
        !(48 <= s[i] as u32 <= 57),
    ensures
        number_in(s) is None,
        number_in(Seq::<char>::empty()) is None,
        number_in(seq!['+']) is None,
{
    let body = if s[0] == '+' {
        s.drop_first()
    } else {
        s
    };
    let k = if s[0] == '+' {
        i - 1
    } else {
        i
    };
    assert(body[k] == s[i]);
    let c = s[i];
    let up_to = body.subrange(0, k + 1);
    assert(up_to.last() == c);
    assert(digits_value(up_to) is None);
    lemma_longer(body, k + 1);
    assert(seq!['+'].drop_first() =~= Seq::<char>::empty());
}

/// The numbers of a list are read part by part, and a part that is none is passed over.
pub proof fn numbers_are_read_part_by_part(v: Seq<Seq<char>>, s: Seq<char>)
    ensures
        numbers_among(Seq::<Seq<char>>::empty()) == Seq::<u64>::empty(),
        number_in(trimmed(s)) is None ==> numbers_among(v.push(s)) == numbers_among(v),
        number_in(trimmed(s)) matches Some(n) ==> numbers_among(v.push(s)) == numbers_among(v).push(
            n as u64,
        ),
{
    assert(v.push(s).drop_last() =~= v);
}

} // verus!
