//! Taking a text apart at a character.

use crate::sync::settings::texts;
use vstd::prelude::*;
use vstd::string::*;

verus! {

/// The parts of a text between its separators: one more than there are separators.
pub open spec fn parts(s: Seq<char>, at: char) -> Seq<Seq<char>>
    decreases s.len(),
{
    if s.len() == 0 {
        seq![Seq::empty()]
    } else {
        let front = parts(s.drop_last(), at);
        if s.last() == at {
            front.push(Seq::empty())
        } else {
            front.drop_last().push(front.last().push(s.last()))
        }
    }
}

/// Takes a text apart.
pub fn split(s: &str, at: char) -> (v: Vec<String>)
    ensures
        texts(v@) == parts(s@, at),
        v@.len() > 0,
{
    let n: usize = s.unicode_len();
    let mut v: Vec<String> = Vec::new();
    let mut start: usize = 0;
    let mut i: usize = 0;
    proof {
        assert(s@.subrange(0, 0) =~= Seq::empty());
        assert(texts(v@).push(s@.subrange(0, 0)) =~= parts(s@.subrange(0, 0), at));
    }
    while i < n
        invariant
            start <= i <= n == s@.len(),
            texts(v@).push(s@.subrange(start as int, i as int)) == parts(
                s@.subrange(0, i as int),
                at,
            ),
        decreases n - i,
    {
        let ghost seen = s@.subrange(0, i as int);
        let ghost longer = s@.subrange(0, i + 1);
        let ghost done = texts(v@);
        let ghost current = s@.subrange(start as int, i as int);
        let c: char = s.get_char(i);
        proof {
            assert(longer.drop_last() =~= seen);
            assert(longer.last() == c);
        }
        if c == at {
            v.push(s.substring_char(start, i).to_owned());
            start = i + 1;
            proof {
                assert(texts(v@) =~= done.push(current));
                assert(s@.subrange(i + 1, i + 1) =~= Seq::empty());
            }
        } else {
            proof {
                assert(s@.subrange(start as int, i + 1) =~= current.push(c));
                assert(done.push(current).drop_last() =~= done);
            }
        }
        i = i + 1;
    }
    let ghost done = texts(v@);
    let ghost current = s@.subrange(start as int, n as int);
    v.push(s.substring_char(start, n).to_owned());
    proof {
        assert(s@.subrange(0, n as int) =~= s@);
        assert(texts(v@) =~= done.push(current));
    }
    v
}

/// Putting the parts together again with the separator between them gives the text, and no part
/// has the separator in it.
pub proof fn the_parts_make_up_the_text(s: Seq<char>, at: char)
    ensures
        parts(s, at).len() > 0,
        crate::sync::event::joined(parts(s, at), seq![at]) == s,
        forall|i: int|
            0 <= i < parts(s, at).len() ==> !(#[trigger] parts(s, at)[i]).contains(at),
    decreases s.len(),
{
    let p = parts(s, at);
    if s.len() == 0 {
        assert(crate::sync::event::joined(p, seq![at]) =~= s);
    } else {
        let rest = s.drop_last();
        the_parts_make_up_the_text(rest, at);
        let front = parts(rest, at);
        let c = s.last();
        if c == at {
            assert(p.drop_last() =~= front);
            assert(crate::sync::event::joined(p, seq![at]) =~= s);
        } else {
            let grown = front.last().push(c);
            assert(p.drop_last() =~= front.drop_last());
            assert forall|i: int| 0 <= i < p.len() implies !(#[trigger] p[i]).contains(at) by {
                if i < p.len() - 1 {
                    assert(p[i] == front[i]);
                } else {
                    assert(!front[front.len() - 1].contains(at));
                    if grown.contains(at) {
                        let k = choose|k: int| 0 <= k < grown.len() && grown[k] == at;
                        assert(front.last()[k] == at);
                    }
                }
            }
            assert(s =~= rest.push(c));
            assert(p.last() == grown);
            if front.len() == 1 {
                assert(p[0] == grown && front[0] == front.last());
                assert(grown =~= s);
            } else {
                let head = crate::sync::event::joined(front.drop_last(), seq![at]);
                assert(crate::sync::event::joined(front, seq![at]) == head + seq![at]
                    + front.last());
                assert(crate::sync::event::joined(p, seq![at]) == head + seq![at] + grown);
                assert(head + seq![at] + grown =~= (head + seq![at] + front.last()).push(c));
            }
        }
    }
}

} // verus!
