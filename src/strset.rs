//! String helpers: vectors of strings read as sets of character sequences,
//! searching and prefixes, and decimal numbers.

use vstd::prelude::*;

verus! {

/// The set of strings held by `v`.
pub open spec fn set_of(v: Seq<String>) -> Set<Seq<char>> {
    Set::new(|s: Seq<char>| exists|i: int| 0 <= i < v.len() && v[i]@ == s)
}

/// The first position from `i` on where `s` holds `c`.
pub open spec fn index_of_from(s: Seq<char>, c: char, i: int) -> Option<int>
    decreases s.len() - i,
{
    if i < 0 || i >= s.len() {
        None
    } else if s[i] == c {
        Some(i)
    } else {
        index_of_from(s, c, i + 1)
    }
}

/// A position found holds `c` and lies between `i` and the end.
pub proof fn lemma_index_of_from(s: Seq<char>, c: char, i: int)
    requires
        0 <= i,
    ensures
        index_of_from(s, c, i) matches Some(j) ==> i <= j < s.len() && s[j] == c,
    decreases s.len() - i,
{
    if i < s.len() && s[i] != c {
        lemma_index_of_from(s, c, i + 1);
    }
}

/// The first position from `from` on where `s` holds `c`; `len` is the
/// length of `s`.
pub fn index_of(s: &str, len: usize, c: char, from: usize) -> (r: Option<usize>)
    requires
        len == s@.len(),
    ensures
        match r {
            Some(j) => index_of_from(s@, c, from as int) == Some(j as int),
            None => index_of_from(s@, c, from as int).is_none(),
        },
{
    let mut i: usize = from;
    while i < len
        invariant
            from <= i,
            len == s@.len(),
            index_of_from(s@, c, from as int) == index_of_from(s@, c, i as int),
        decreases len - i,
    {
        if s.get_char(i) == c {
            return Some(i);
        }
        i = i + 1;
    }
    None
}


/// `s` begins with `p`.
pub open spec fn starts_with(s: Seq<char>, p: Seq<char>) -> bool {
    p.len() <= s.len() && s.subrange(0, p.len() as int) == p
}

/// Whether `s` begins with `p`.
pub fn has_prefix(s: &str, p: &str) -> (r: bool)
    ensures
        r == starts_with(s@, p@),
{
    let n = s.unicode_len();
    let m = p.unicode_len();
    if m > n {
        return false;
    }
    let mut i: usize = 0;
    while i < m
        invariant
            n == s@.len(),
            m == p@.len(),
            m <= n,
            i <= m,
            forall|k: int| 0 <= k < i ==> s@[k] == p@[k],
        decreases m - i,
    {
        if s.get_char(i) != p.get_char(i) {
            assert(s@.subrange(0, m as int)[i as int] != p@[i as int]);
            return false;
        }
        i = i + 1;
    }
    assert(s@.subrange(0, m as int) =~= p@);
    true
}

/// What follows the prefix `p` of `s`, if `s` begins with it.
pub fn strip_prefix(s: &str, p: &str) -> (r: Option<String>)
    ensures
        match r {
            Some(rest) => starts_with(s@, p@) && rest@ == s@.subrange(p@.len() as int, s@.len() as int),
            None => !starts_with(s@, p@),
        },
{
    if has_prefix(s, p) {
        let n = s.unicode_len();
        let m = p.unicode_len();
        Some(String::from_str(s.substring_char(m, n)))
    } else {
        None
    }
}

/// The characters of an optional string.
pub open spec fn opt_seq(o: Option<String>) -> Option<Seq<char>> {
    match o {
        Some(s) => Some(s@),
        None => None,
    }
}

/// No string occurs twice in `v`.
pub open spec fn no_dups(v: Seq<String>) -> bool {
    forall|i: int, j: int| 0 <= i < v.len() && 0 <= j < v.len() && i != j ==> v[i]@ != v[j]@
}

pub proof fn lemma_set_of_empty(v: Seq<String>)
    requires
        v.len() == 0,
    ensures
        set_of(v) == Set::<Seq<char>>::empty(),
{
    assert(set_of(v) =~= Set::<Seq<char>>::empty());
}

/// Taking one more element of `v` adds that element to the set.
pub proof fn lemma_set_of_prefix(v: Seq<String>, i: int)
    requires
        0 <= i < v.len(),
    ensures
        set_of(v.subrange(0, i + 1)) == set_of(v.subrange(0, i)).insert(v[i]@),
{
    let a = v.subrange(0, i + 1);
    let b = v.subrange(0, i);
    assert forall|x: Seq<char>| set_of(a).contains(x) implies set_of(b).insert(v[i]@).contains(x) by {
        let k = choose|k: int| 0 <= k < a.len() && #[trigger] a[k]@ == x;
        if k < i {
            assert(b[k] == v[k]);
        }
    }
    assert forall|x: Seq<char>| set_of(b).insert(v[i]@).contains(x) implies set_of(a).contains(x) by {
        if x == v[i]@ {
            assert(a[i] == v[i]);
        } else {
            let k = choose|k: int| 0 <= k < b.len() && #[trigger] b[k]@ == x;
            assert(a[k] == v[k]);
        }
    }
    assert(set_of(a) =~= set_of(b).insert(v[i]@));
}

/// Whether `a` and `b` hold the same characters.
pub fn str_eq(a: &str, b: &str) -> (r: bool)
    ensures
        r == (a@ == b@),
{
    let x = String::from_str(a);
    let y = String::from_str(b);
    x == y
}

/// Whether `v` holds a string equal to `s`.
pub fn contains_str(v: &Vec<String>, s: &str) -> (r: bool)
    ensures
        r == set_of(v@).contains(s@),
{
    let mut i: usize = 0;
    while i < v.len()
        invariant
            i <= v@.len(),
            forall|k: int| 0 <= k < i ==> v@[k]@ != s@,
        decreases v.len() - i,
    {
        if str_eq(v[i].as_str(), s) {
            return true;
        }
        i = i + 1;
    }
    false
}

/// Adds `s` to `v` unless it is already there.
pub fn insert_str(v: &mut Vec<String>, s: &str)
    requires
        no_dups(old(v)@),
    ensures
        no_dups(final(v)@),
        set_of(final(v)@) == set_of(old(v)@).insert(s@),
{
    if !contains_str(v, s) {
        v.push(String::from_str(s));
        assert(set_of(v@) =~= set_of(old(v)@).insert(s@)) by {
            assert forall|x: Seq<char>| set_of(v@).contains(x) implies set_of(old(v)@).insert(s@).contains(x) by {
                let i = choose|i: int| 0 <= i < v@.len() && v@[i]@ == x;
                if i < old(v)@.len() {
                    assert(v@[i] == old(v)@[i]);
                }
            }
            assert forall|x: Seq<char>| set_of(old(v)@).insert(s@).contains(x) implies set_of(v@).contains(x) by {
                if x == s@ {
                    assert(v@[old(v)@.len() as int]@ == x);
                } else {
                    let i = choose|i: int| 0 <= i < old(v)@.len() && old(v)@[i]@ == x;
                    assert(v@[i] == old(v)@[i]);
                }
            }
        }
    } else {
        assert(set_of(v@) =~= set_of(old(v)@).insert(s@));
    }
}

/// Adds every string of `items` to `out`, keeping `out` free of repeats.
pub fn extend_unique(out: &mut Vec<String>, items: &Vec<String>)
    requires
        no_dups(old(out)@),
    ensures
        no_dups(final(out)@),
        set_of(final(out)@) == set_of(old(out)@).union(set_of(items@)),
{
    let mut i: usize = 0;
    while i < items.len()
        invariant
            i <= items@.len(),
            no_dups(out@),
            set_of(out@) == set_of(old(out)@).union(set_of(items@.subrange(0, i as int))),
        decreases items.len() - i,
    {
        insert_str(out, items[i].as_str());
        proof { lemma_set_of_prefix(items@, i as int); }
        i = i + 1;
    }
    assert(items@.subrange(0, items@.len() as int) =~= items@);
    assert(set_of(old(out)@).union(set_of(items@)) =~= set_of(out@));
}

/// The decimal digit for `d`, which is below ten.
pub open spec fn digit_char(d: nat) -> char {
    if d == 0 { '0' } else if d == 1 { '1' } else if d == 2 { '2' } else if d == 3 { '3' }
    else if d == 4 { '4' } else if d == 5 { '5' } else if d == 6 { '6' } else if d == 7 { '7' }
    else if d == 8 { '8' } else { '9' }
}

/// `n` written in decimal, without leading zeros.
pub open spec fn decimal_spec(n: nat) -> Seq<char>
    decreases n,
{
    if n < 10 {
        seq![digit_char(n)]
    } else {
        decimal_spec(n / 10).push(digit_char(n % 10))
    }
}

fn digit_string(d: usize) -> (r: String)
    requires
        d < 10,
    ensures
        r@ == seq![digit_char(d as nat)],
{
    if d == 0 {
        proof { reveal_strlit("0"); }
        String::from_str("0")
    } else if d == 1 {
        proof { reveal_strlit("1"); }
        String::from_str("1")
    } else if d == 2 {
        proof { reveal_strlit("2"); }
        String::from_str("2")
    } else if d == 3 {
        proof { reveal_strlit("3"); }
        String::from_str("3")
    } else if d == 4 {
        proof { reveal_strlit("4"); }
        String::from_str("4")
    } else if d == 5 {
        proof { reveal_strlit("5"); }
        String::from_str("5")
    } else if d == 6 {
        proof { reveal_strlit("6"); }
        String::from_str("6")
    } else if d == 7 {
        proof { reveal_strlit("7"); }
        String::from_str("7")
    } else if d == 8 {
        proof { reveal_strlit("8"); }
        String::from_str("8")
    } else {
        proof { reveal_strlit("9"); }
        String::from_str("9")
    }
}

/// `n` written in decimal.
pub fn decimal(n: usize) -> (r: String)
    ensures
        r@ == decimal_spec(n as nat),
    decreases n,
{
    if n < 10 {
        digit_string(n)
    } else {
        let mut s = decimal(n / 10);
        let d = digit_string(n % 10);
        s.append(d.as_str());
        assert(s@ =~= decimal_spec(n as nat));
        s
    }
}

} // verus!
