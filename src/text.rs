//! Small verified helpers on text.
use vstd::prelude::*;
use vstd::string::StringExecFns;

verus! {

/// The characters of `s`, in order.
pub fn chars_of(s: &str) -> (r: Vec<char>)
    ensures
        r@ == s@,
{
    let mut r: Vec<char> = Vec::new();
    for c in it: s.chars()
        invariant
            r@ == it.seq().take(it.index() as int),
            it.seq() == s@,
    {
        r.push(c);
    }
    r
}

} // verus!

verus! {

/// `a` followed by `b`.
pub fn concat(a: &str, b: &str) -> (r: String)
    ensures
        r@ == a@ + b@,
{
    let mut r = a.to_owned();
    r.append(b);
    r
}

} // verus!

verus! {

/// Whether `a` and `b` hold the same characters.
pub fn same_text(a: &str, b: &str) -> (r: bool)
    ensures
        r == (a@ == b@),
{
    a.to_owned() == b.to_owned()
}

} // verus!

verus! {

/// The texts of a list of strings.
pub open spec fn texts(v: Seq<String>) -> Seq<Seq<char>> {
    v.map_values(|s: String| s@)
}

} // verus!

verus! {

/// The parts joined by single slashes.
pub open spec fn join_slash(parts: Seq<Seq<char>>) -> Seq<char>
    decreases parts.len(),
{
    if parts.len() == 0 {
        Seq::empty()
    } else if parts.len() == 1 {
        parts[0]
    } else {
        join_slash(parts.drop_last()) + seq!['/'] + parts.last()
    }
}

/// The strings of `parts` from index `start` on, joined by single slashes.
pub fn join_slash_from(parts: &Vec<String>, start: usize) -> (r: String)
    requires
        start <= parts@.len(),
    ensures
        r@ == join_slash(texts(parts@).skip(start as int)),
{
    let mut r = String::new();
    let n = parts.len();
    let ghost all = texts(parts@);
    proof {
        assert(all.skip(start as int).take(0) =~= Seq::<Seq<char>>::empty());
    }
    for i in start..n
        invariant
            n == parts@.len(),
            all == texts(parts@),
            r@ == join_slash(all.skip(start as int).take(i - start)),
    {
        let ghost before = all.skip(start as int).take(i - start);
        let ghost after = all.skip(start as int).take(i + 1 - start);
        proof {
            assert(after.drop_last() =~= before);
            assert(after.last() == parts@[i as int]@);
        }
        if i > start {
            r.append("/");
            proof {
                reveal_strlit("/");
            }
        }
        r.append(parts[i].as_str());
        proof {
            if i == start {
                assert(before.len() == 0);
            }
        }
    }
    proof {
        assert(all.skip(start as int).take(n - start) =~= all.skip(start as int));
    }
    r
}

} // verus!

verus! {

/// Relies on std's `FromIterator<char>` for `String` (through `collect`): the
/// string holds the characters, in order.
#[verifier::external_body]
pub(crate) fn string_from_chars(cs: &Vec<char>) -> (r: String)
    ensures
        r@ == cs@,
{
    cs.iter().collect()
}

} // verus!
