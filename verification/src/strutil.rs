//! Small verified helpers over strings and characters.

use vstd::prelude::*;

verus! {

/// Character-wise string equality: returns whether the two views are the
/// same sequence of characters.
pub fn str_eq(a: &str, b: &str) -> (r: bool)
    ensures
        r == (a@ == b@),
{
    let n = a.unicode_len();
    let m = b.unicode_len();
    if n != m {
        assert(a@ != b@) by {
            assert(a@.len() != b@.len());
        }
        return false;
    }
    let mut i: usize = 0;
    while i < n
        invariant
            n == a@.len(),
            n == b@.len(),
            i <= n,
            forall|j: int| 0 <= j < i ==> a@[j] == b@[j],
        decreases n - i,
    {
        if a.get_char(i) != b.get_char(i) {
            return false;
        }
        i += 1;
    }
    proof {
        assert(a@ =~= b@);
    }
    true
}

/// The character for a single decimal digit.
pub open spec fn digit_char(d: int) -> char {
    if d == 0 {
        '0'
    } else if d == 1 {
        '1'
    } else if d == 2 {
        '2'
    } else if d == 3 {
        '3'
    } else if d == 4 {
        '4'
    } else if d == 5 {
        '5'
    } else if d == 6 {
        '6'
    } else if d == 7 {
        '7'
    } else if d == 8 {
        '8'
    } else {
        '9'
    }
}

/// The decimal rendering of `n`, without leading zeros (`0` for zero).
pub open spec fn dec_rep(n: nat) -> Seq<char>
    decreases n,
{
    if n < 10 {
        seq![digit_char(n as int)]
    } else {
        dec_rep(n / 10).push(digit_char((n % 10) as int))
    }
}

pub proof fn lemma_dec_rep_len(n: nat)
    ensures
        dec_rep(n).len() >= 1,
        n >= 10 ==> dec_rep(n).len() >= 2,
    decreases n,
{
    if n >= 10 {
        lemma_dec_rep_len(n / 10);
    }
}

/// Distinct numbers render to distinct decimal strings.
pub proof fn lemma_dec_rep_injective(a: nat, b: nat)
    requires
        dec_rep(a) == dec_rep(b),
    ensures
        a == b,
    decreases a,
{
    lemma_dec_rep_len(a);
    lemma_dec_rep_len(b);
    if a < 10 && b < 10 {
        assert(dec_rep(a)[0] == digit_char(a as int));
        assert(dec_rep(b)[0] == digit_char(b as int));
    } else if a < 10 {
        assert(dec_rep(a).len() == 1);
        assert(dec_rep(b).len() >= 2);
    } else if b < 10 {
        assert(dec_rep(b).len() == 1);
        assert(dec_rep(a).len() >= 2);
    } else {
        assert(dec_rep(a).last() == digit_char((a % 10) as int));
        assert(dec_rep(b).last() == digit_char((b % 10) as int));
        assert(a % 10 == b % 10);
        assert(dec_rep(a).drop_last() =~= dec_rep(a / 10));
        assert(dec_rep(b).drop_last() =~= dec_rep(b / 10));
        lemma_dec_rep_injective(a / 10, b / 10);
    }
}

/// One decimal digit as a string slice.
pub fn digit_str(d: u8) -> (r: &'static str)
    requires
        d < 10,
    ensures
        r@ =~= seq![digit_char(d as int)],
{
    proof {
        reveal_strlit("0");
        reveal_strlit("1");
        reveal_strlit("2");
        reveal_strlit("3");
        reveal_strlit("4");
        reveal_strlit("5");
        reveal_strlit("6");
        reveal_strlit("7");
        reveal_strlit("8");
        reveal_strlit("9");
    }
    match d {
        0 => "0",
        1 => "1",
        2 => "2",
        3 => "3",
        4 => "4",
        5 => "5",
        6 => "6",
        7 => "7",
        8 => "8",
        _ => "9",
    }
}

/// Render `n` in decimal.
pub fn u64_to_dec(n: u64) -> (s: String)
    ensures
        s@ == dec_rep(n as nat),
    decreases n,
{
    if n < 10 {
        let s = String::from_str(digit_str(n as u8));
        proof {
            assert(s@ =~= dec_rep(n as nat));
        }
        s
    } else {
        let mut s = u64_to_dec(n / 10);
        s.append(digit_str((n % 10) as u8));
        proof {
            assert(s@ =~= dec_rep(n as nat));
        }
        s
    }
}

/// ASCII lowercase on a character's scalar value.
pub open spec fn lower_u32(u: u32) -> u32 {
    if 65 <= u && u <= 90 {
        (u + 32) as u32
    } else {
        u
    }
}

/// The two sequences are equal up to ASCII case.
pub open spec fn eq_ignore_case(a: Seq<char>, b: Seq<char>) -> bool {
    a.len() == b.len() && forall|i: int|
        0 <= i < a.len() ==> lower_u32(a[i] as u32) == lower_u32(b[i] as u32)
}

fn lower_scalar(c: char) -> (r: u32)
    ensures
        r == lower_u32(c as u32),
{
    let u = c as u32;
    if 65 <= u && u <= 90 {
        u + 32
    } else {
        u
    }
}

/// Character-wise comparison, ignoring ASCII case.
pub fn eq_ignore_ascii_case(a: &str, b: &str) -> (r: bool)
    ensures
        r == eq_ignore_case(a@, b@),
{
    let n = a.unicode_len();
    let m = b.unicode_len();
    if n != m {
        return false;
    }
    let mut i: usize = 0;
    while i < n
        invariant
            n == a@.len(),
            n == b@.len(),
            i <= n,
            forall|j: int| 0 <= j < i ==> lower_u32(a@[j] as u32) == lower_u32(b@[j] as u32),
        decreases n - i,
    {
        if lower_scalar(a.get_char(i)) != lower_scalar(b.get_char(i)) {
            return false;
        }
        i += 1;
    }
    true
}

/// The part of `name` after its last `.`, the dot not counting when it
/// opens the name (a hidden file has no extension).
pub open spec fn extension_of(name: Seq<char>) -> Option<Seq<char>>
    decreases name.len(),
{
    if name.len() <= 1 {
        None
    } else if name.last() == '.' {
        Some(seq![])
    } else {
        match extension_of(name.drop_last()) {
            Some(e) => Some(e.push(name.last())),
            None => None,
        }
    }
}

/// The part of `p` after its last `/`: the file name of a path.
pub open spec fn spec_file_name(p: Seq<char>) -> Seq<char>
    decreases p.len(),
{
    if p.len() == 0 {
        seq![]
    } else if p.last() == '/' {
        seq![]
    } else {
        spec_file_name(p.drop_last()).push(p.last())
    }
}

proof fn lemma_extension_skip(name: Seq<char>, i: int)
    requires
        1 <= i < name.len(),
        name[i] == '.',
        forall|j: int| i < j < name.len() ==> name[j] != '.',
    ensures
        extension_of(name) == Some(name.skip(i + 1)),
    decreases name.len(),
{
    if i == name.len() - 1 {
        assert(name.last() == '.');
        assert(name.skip(i + 1) =~= seq![]);
    } else {
        assert(name.last() != '.');
        assert(name.drop_last()[i] == '.');
        lemma_extension_skip(name.drop_last(), i);
        assert(name.drop_last().skip(i + 1).push(name.last()) =~= name.skip(i + 1));
    }
}

proof fn lemma_extension_none(name: Seq<char>)
    requires
        forall|j: int| 1 <= j < name.len() ==> name[j] != '.',
    ensures
        extension_of(name) is None,
    decreases name.len(),
{
    if name.len() > 1 {
        lemma_extension_none(name.drop_last());
    }
}

proof fn lemma_file_name_skip(p: Seq<char>, i: int)
    requires
        0 <= i < p.len(),
        p[i] == '/',
        forall|j: int| i < j < p.len() ==> p[j] != '/',
    ensures
        spec_file_name(p) == p.skip(i + 1),
    decreases p.len(),
{
    if i == p.len() - 1 {
        assert(p.skip(i + 1) =~= seq![]);
    } else {
        assert(p.drop_last()[i] == '/');
        lemma_file_name_skip(p.drop_last(), i);
        assert(p.drop_last().skip(i + 1).push(p.last()) =~= p.skip(i + 1));
    }
}

proof fn lemma_file_name_whole(p: Seq<char>)
    requires
        forall|j: int| 0 <= j < p.len() ==> p[j] != '/',
    ensures
        spec_file_name(p) == p,
    decreases p.len(),
{
    if p.len() > 0 {
        lemma_file_name_whole(p.drop_last());
        assert(spec_file_name(p.drop_last()).push(p.last()) =~= p);
    }
}

/// The extension of `name`, as [`extension_of`] defines it.
pub fn extension(name: &str) -> (r: Option<String>)
    ensures
        match r {
            Some(e) => extension_of(name@) == Some(e@),
            None => extension_of(name@) is None,
        },
{
    let n = name.unicode_len();
    let mut i: usize = n;
    while i > 0
        invariant
            n == name@.len(),
            i <= n,
            forall|j: int| i <= j < n && 1 <= j ==> name@[j] != '.',
        decreases i,
    {
        i -= 1;
        if name.get_char(i) == '.' {
            if i == 0 {
                proof {
                    lemma_extension_none(name@);
                }
                return None;
            }
            let e = name.substring_char(i + 1, n);
            proof {
                lemma_extension_skip(name@, i as int);
                assert(name@.subrange(i + 1, n as int) =~= name@.skip(i + 1));
            }
            return Some(String::from_str(e));
        }
    }
    proof {
        lemma_extension_none(name@);
    }
    None
}

/// The file name of `p`, as [`spec_file_name`] defines it.
pub fn file_name(p: &str) -> (r: String)
    ensures
        r@ == spec_file_name(p@),
{
    let n = p.unicode_len();
    let mut i: usize = n;
    while i > 0
        invariant
            n == p@.len(),
            i <= n,
            forall|j: int| i <= j < n ==> p@[j] != '/',
        decreases i,
    {
        i -= 1;
        if p.get_char(i) == '/' {
            let e = p.substring_char(i + 1, n);
            proof {
                lemma_file_name_skip(p@, i as int);
                assert(p@.subrange(i + 1, n as int) =~= p@.skip(i + 1));
            }
            return String::from_str(e);
        }
    }
    proof {
        lemma_file_name_whole(p@);
    }
    String::from_str(p)
}

/// Whether `p` is an absolute path: it opens with `/`.
pub fn is_absolute_path(p: &str) -> (r: bool)
    ensures
        r == (p@.len() > 0 && p@[0] == '/'),
{
    if p.unicode_len() == 0 {
        false
    } else {
        p.get_char(0) == '/'
    }
}

/// A copy of a list of strings, character for character.
pub fn clone_strings(v: &Vec<String>) -> (r: Vec<String>)
    ensures
        r@ == v@,
{
    let mut r: Vec<String> = Vec::new();
    let n = v.len();
    let mut i: usize = 0;
    while i < n
        invariant
            n == v@.len(),
            i <= n,
            r@ =~= v@.subrange(0, i as int),
        decreases n - i,
    {
        r.push(v[i].clone());
        proof {
            assert(r@ =~= v@.subrange(0, i + 1));
        }
        i += 1;
    }
    proof {
        assert(v@.subrange(0, n as int) =~= v@);
    }
    r
}

/// `dir` and `name` joined with a single `/`.
pub fn path_join(dir: &str, name: &str) -> (r: String)
    ensures
        r@ == dir@ + seq!['/'] + name@,
{
    let mut s = String::from_str(dir);
    s.append("/");
    s.append(name);
    proof {
        reveal_strlit("/");
        assert(s@ =~= dir@ + seq!['/'] + name@);
    }
    s
}

} // verus!
