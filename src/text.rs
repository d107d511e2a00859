//! Small operations on text that the rest of the library shares.
use vstd::prelude::*;

verus! {

/// The text of each string of a sequence.
pub open spec fn strs(v: Seq<String>) -> Seq<Seq<char>> {
    v.map_values(|s: String| s@)
}

/// The decimal digits of `n`, most significant first, with no leading zero.
pub open spec fn decimal(n: nat) -> Seq<char>
    decreases n,
{
    if n < 10 {
        seq![digit(n)]
    } else {
        decimal(n / 10).push(digit(n % 10))
    }
}

pub open spec fn digit(d: nat) -> char {
    if d == 0 {
        '0'
    } else if d == 1 {
        '1'
    } else if d == 2 {
        '2'
    } else if d == 3 {
        '3'
    } else if d == 4 {
        '4'
    } else if d == 5 {
        '5'
    } else if d == 6 {
        '6'
    } else if d == 7 {
        '7'
    } else if d == 8 {
        '8'
    } else {
        '9'
    }
}

/// `c` with an ASCII upper-case letter turned into its lower-case letter.
pub open spec fn ascii_lower(c: char) -> char {
    if 'A' <= c <= 'Z' {
        ((c as u32) + 32) as char
    } else {
        c
    }
}

pub open spec fn ascii_lower_seq(s: Seq<char>) -> Seq<char> {
    s.map_values(|c: char| ascii_lower(c))
}

/// Relies on `String::push`: `c` is appended.
#[verifier::external_body]
pub(crate) fn push_char(s: &mut String, c: char)
    ensures
        final(s)@ == old(s)@.push(c),
{
    s.push(c)
}

/// Relies on `char::to_ascii_lowercase`: ASCII upper-case letters become
/// lower-case, every other character stays.
#[verifier::external_body]
pub(crate) fn char_to_ascii_lowercase(c: char) -> (r: char)
    ensures
        r == ascii_lower(c),
{
    c.to_ascii_lowercase()
}

/// Relies on `usize`'s `Display`, through `to_string`: the decimal digits.
#[verifier::external_body]
pub(crate) fn usize_to_string(n: usize) -> (r: String)
    ensures
        r@ == decimal(n as nat),
{
    n.to_string()
}

/// Whether two texts are equal.
pub(crate) fn str_eq(a: &str, b: &str) -> (r: bool)
    ensures
        r == (a@ == b@),
{
    let n = a.unicode_len();
    if n != b.unicode_len() {
        return false;
    }
    let mut i: usize = 0;
    while i < n
        invariant
            n == a@.len(),
            n == b@.len(),
            i <= n,
            forall|j: int| 0 <= j < i ==> a@[j] == b@[j],
        decreases n - i,
    {
        if a.get_char(i) != b.get_char(i) {
            return false;
        }
        i += 1;
    }
    assert(a@ =~= b@);
    true
}

/// Index of the first string of `v` whose text is `x`, or -1.
pub open spec fn index_in(v: Seq<Seq<char>>, x: Seq<char>) -> int
    decreases v.len(),
{
    if v.len() == 0 {
        -1
    } else if v[0] == x {
        0
    } else {
        let k = index_in(v.drop_first(), x);
        if k < 0 {
            -1
        } else {
            k + 1
        }
    }
}

pub proof fn lemma_index_in(v: Seq<Seq<char>>, x: Seq<char>, i: int)
    requires
        i == -1 || (0 <= i < v.len() && v[i] == x),
        forall|j: int| 0 <= j < v.len() && (i == -1 || j < i) ==> v[j] != x,
    ensures
        index_in(v, x) == i,
    decreases v.len(),
{
    if v.len() > 0 && v[0] != x {
        lemma_index_in(v.drop_first(), x, if i == -1 { -1 } else { i - 1 });
    }
}

pub proof fn lemma_index_in_contains(v: Seq<Seq<char>>, x: Seq<char>)
    ensures
        (index_in(v, x) >= 0) == v.contains(x),
        index_in(v, x) >= 0 ==> index_in(v, x) < v.len() && v[index_in(v, x)] == x,
        -1 <= index_in(v, x),
    decreases v.len(),
{
    if v.len() > 0 {
        if v[0] != x {
            lemma_index_in_contains(v.drop_first(), x);
            if v.contains(x) {
                let j = choose|j: int| 0 <= j < v.len() && v[j] == x;
                assert(v.drop_first()[j - 1] == x);
            }
            if v.drop_first().contains(x) {
                let j = choose|j: int| 0 <= j < v.len() - 1 && v.drop_first()[j] == x;
                assert(v[j + 1] == x);
            }
        } else {
            assert(v[0] == x);
        }
    }
}

/// A found index stays the first one when more strings follow.
pub proof fn lemma_index_in_first(v: Seq<Seq<char>>, x: Seq<char>)
    requires
        index_in(v, x) >= 0,
    ensures
        forall|j: int| 0 <= j < index_in(v, x) ==> v[j] != x,
    decreases v.len(),
{
    lemma_index_in_contains(v, x);
    if v.len() > 0 && v[0] != x {
        lemma_index_in_first(v.drop_first(), x);
        assert forall|j: int| 0 <= j < index_in(v, x) implies v[j] != x by {
            if j > 0 {
                assert(v.drop_first()[j - 1] == v[j]);
            }
        };
    }
}

pub proof fn lemma_push_contains(s: Seq<Seq<char>>, x: Seq<char>)
    ensures
        forall|id: Seq<char>| #[trigger] s.push(x).contains(id) <==> (s.contains(id) || id == x),
{
    assert forall|id: Seq<char>| #[trigger] s.push(x).contains(id) <==> (s.contains(id) || id == x) by {
        if s.contains(id) {
            let j = choose|j: int| 0 <= j < s.len() && s[j] == id;
            assert(s.push(x)[j] == id);
        }
        if id == x {
            assert(s.push(x)[s.len() as int] == id);
        }
        if s.push(x).contains(id) {
            let j = choose|j: int| 0 <= j < s.len() + 1 && s.push(x)[j] == id;
            if j < s.len() {
                assert(s[j] == id);
            }
        }
    };
}

/// Appending a string that is not there keeps a sequence free of repeats.
pub proof fn lemma_push_fresh(s: Seq<Seq<char>>, x: Seq<char>)
    requires
        s.no_duplicates(),
        !s.contains(x),
    ensures
        s.push(x).no_duplicates(),
{
    let t = s.push(x);
    assert forall|i: int, j: int| 0 <= i < t.len() && 0 <= j < t.len() && i != j implies t[i] != t[j] by {
        if i == s.len() {
            assert(s[j] == t[j]);
        } else if j == s.len() {
            assert(s[i] == t[i]);
        } else {
            assert(s[i] == t[i] && s[j] == t[j]);
        }
    };
}

/// Position of the first string of `v` whose text is `x`.
pub(crate) fn find_str(v: &Vec<String>, x: &str) -> (r: Option<usize>)
    ensures
        match r {
            None => index_in(strs(v@), x@) == -1 && !strs(v@).contains(x@),
            Some(i) => index_in(strs(v@), x@) == i as int && i < v@.len() && strs(v@).contains(x@),
        },
{
    let mut i: usize = 0;
    while i < v.len()
        invariant
            i <= v@.len(),
            forall|j: int| 0 <= j < i ==> strs(v@)[j] != x@,
        decreases v@.len() - i,
    {
        if str_eq(v[i].as_str(), x) {
            proof {
                lemma_index_in(strs(v@), x@, i as int);
                lemma_index_in_contains(strs(v@), x@);
            }
            return Some(i);
        }
        i += 1;
    }
    proof {
        lemma_index_in(strs(v@), x@, -1);
        lemma_index_in_contains(strs(v@), x@);
    }
    None
}

/// Whether some string of `v` has the text `x`.
pub(crate) fn contains_str(v: &Vec<String>, x: &str) -> (r: bool)
    ensures
        r == strs(v@).contains(x@),
{
    find_str(v, x).is_some()
}

} // verus!
