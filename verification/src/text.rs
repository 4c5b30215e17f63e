//! Character-level string helpers shared by the library.
use vstd::prelude::*;

verus! {

broadcast use vstd::string::group_string_axioms;

/// The characters of `s`, in order.
pub fn chars_of(s: &str) -> (v: Vec<char>)
    ensures
        v@ == s@,
{
    let mut v: Vec<char> = Vec::new();
    for c in it: s.chars()
        invariant
            v@ == it.seq().take(it.index() as int),
    {
        v.push(c);
    }
    v
}


pub assume_specification[ String::push ](string: &mut String, ch: char)
    ensures
        final(string)@ == old(string)@.push(ch),
;

/// The string with the characters of `v`.
pub fn string_of(v: &Vec<char>) -> (s: String)
    ensures
        s@ == v@,
{
    let mut s = String::new();
    let mut i: usize = 0;
    while i < v.len()
        invariant
            i <= v@.len(),
            s@ == v@.take(i as int),
        decreases v@.len() - i,
    {
        s.push(v[i]);
        proof {
            assert(v@.take(i + 1) =~= v@.take(i as int).push(v@[i as int]));
        }
        i = i + 1;
    }
    proof {
        assert(v@.take(v@.len() as int) =~= v@);
    }
    s
}

/// `pat` stands in `s` at index `i`.
pub open spec fn occurs_at(s: Seq<char>, pat: Seq<char>, i: int) -> bool {
    0 <= i && i + pat.len() <= s.len() && s.subrange(i, i + pat.len()) == pat
}

/// `pat` stands somewhere in `s`.
pub open spec fn occurs(s: Seq<char>, pat: Seq<char>) -> bool {
    exists|i: int| occurs_at(s, pat, i)
}

fn occurs_at_exec(s: &Vec<char>, pat: &Vec<char>, i: usize) -> (b: bool)
    ensures
        b == occurs_at(s@, pat@, i as int),
{
    let n = s.len();
    if i > n || pat.len() > n - i {
        return false;
    }
    let mut j: usize = 0;
    while j < pat.len()
        invariant
            j <= pat@.len(),
            n == s@.len(),
            i + pat@.len() <= n,
            forall|k: int| 0 <= k < j ==> s@[i + k] == pat@[k],
        decreases pat@.len() - j,
    {
        if s[i + j] != pat[j] {
            proof {
                assert(s@.subrange(i as int, i + pat@.len())[j as int] != pat@[j as int]);
            }
            return false;
        }
        j = j + 1;
    }
    proof {
        assert(s@.subrange(i as int, i + pat@.len()) =~= pat@);
    }
    true
}

/// Whether `pat` stands somewhere in `s`, as `str::contains` answers.
pub fn contains(s: &str, pat: &str) -> (b: bool)
    ensures
        b == occurs(s@, pat@),
{
    let sv = chars_of(s);
    let pv = chars_of(pat);
    if pv.len() > sv.len() {
        proof {
            assert forall|i: int| !occurs_at(s@, pat@, i) by {}
        }
        return false;
    }
    let last = sv.len() - pv.len();
    let mut i: usize = 0;
    loop
        invariant
            pv@.len() <= sv@.len(),
            last == sv@.len() - pv@.len(),
            i <= last,
            sv@ == s@,
            pv@ == pat@,
            forall|k: int| 0 <= k < i ==> !occurs_at(s@, pat@, k),
        ensures
            forall|k: int| 0 <= k <= last ==> !occurs_at(s@, pat@, k),
        decreases last - i,
    {
        if occurs_at_exec(&sv, &pv, i) {
            return true;
        }
        if i == last {
            break;
        }
        i = i + 1;
    }
    proof {
        assert forall|k: int| !occurs_at(s@, pat@, k) by {
            if 0 <= k && k + pat@.len() <= s@.len() {
                assert(k <= last);
            }
        }
    }
    false
}

/// `s` with each occurrence of `pat`, taken from the left without overlap,
/// replaced by `rep`.
pub open spec fn replace_all(s: Seq<char>, pat: Seq<char>, rep: Seq<char>) -> Seq<char>
    decreases s.len(),
{
    if s.len() == 0 {
        s
    } else if pat.len() > 0 && occurs_at(s, pat, 0) {
        rep + replace_all(s.subrange(pat.len() as int, s.len() as int), pat, rep)
    } else {
        seq![s[0]] + replace_all(s.drop_first(), pat, rep)
    }
}

/// `s` with each occurrence of a non-empty `pat` replaced by `rep`, as
/// `str::replace` does.
pub fn replace(s: &str, pat: &str, rep: &str) -> (r: String)
    requires
        pat@.len() > 0,
    ensures
        r@ == replace_all(s@, pat@, rep@),
{
    let sv = chars_of(s);
    let pv = chars_of(pat);
    let rv = chars_of(rep);
    let mut out: Vec<char> = Vec::new();
    let mut i: usize = 0;
    proof {
        assert(sv@.subrange(0, sv@.len() as int) =~= sv@);
        assert(out@ + replace_all(sv@, pv@, rv@) =~= replace_all(sv@, pv@, rv@));
    }
    while i < sv.len()
        invariant
            i <= sv@.len(),
            sv@ == s@,
            pv@ == pat@,
            rv@ == rep@,
            pv@.len() > 0,
            out@ + replace_all(sv@.subrange(i as int, sv@.len() as int), pv@, rv@)
                == replace_all(s@, pat@, rep@),
        decreases sv@.len() - i,
    {
        let ghost rest = sv@.subrange(i as int, sv@.len() as int);
        if occurs_at_exec(&sv, &pv, i) {
            let ghost base = out@;
            proof {
                assert(occurs_at(rest, pv@, 0)) by {
                    assert(rest.subrange(0, pv@.len() as int) =~= sv@.subrange(
                        i as int,
                        i + pv@.len(),
                    ));
                }
                assert(rest.subrange(pv@.len() as int, rest.len() as int) =~= sv@.subrange(
                    i + pv@.len(),
                    sv@.len() as int,
                ));
                let tail = replace_all(sv@.subrange(i + pv@.len(), sv@.len() as int), pv@, rv@);
                assert(base + rv@ + tail =~= base + (rv@ + tail));
            }
            let mut j: usize = 0;
            while j < rv.len()
                invariant
                    j <= rv@.len(),
                    i + pv@.len() <= sv@.len(),
                    sv@ == s@,
                    pv@ == pat@,
                    rv@ == rep@,
                    pv@.len() > 0,
                    out@ == base + rv@.take(j as int),
                    base + rv@ + replace_all(sv@.subrange(i + pv@.len(), sv@.len() as int), pv@, rv@)
                        == replace_all(s@, pat@, rep@),
                decreases rv@.len() - j,
            {
                out.push(rv[j]);
                proof {
                    assert(rv@.take(j + 1) =~= rv@.take(j as int).push(rv@[j as int]));
                }
                j = j + 1;
            }
            proof {
                assert(rv@.take(rv@.len() as int) =~= rv@);
            }
            i = i + pv.len();
        } else {
            proof {
                assert(!occurs_at(rest, pv@, 0)) by {
                    if occurs_at(rest, pv@, 0) {
                        assert(rest.subrange(0, pv@.len() as int) =~= sv@.subrange(
                            i as int,
                            i + pv@.len(),
                        ));
                    }
                }
                assert(rest.drop_first() =~= sv@.subrange(i + 1, sv@.len() as int));
                assert(out@.push(sv@[i as int]) + replace_all(sv@.subrange(i + 1, sv@.len() as int), pv@, rv@)
                    =~= out@ + (seq![sv@[i as int]] + replace_all(sv@.subrange(i + 1, sv@.len() as int), pv@, rv@)));
            }
            out.push(sv[i]);
            i = i + 1;
        }
    }
    proof {
        assert(sv@.subrange(i as int, sv@.len() as int) =~= Seq::<char>::empty());
        assert(out@ + Seq::<char>::empty() =~= out@);
    }
    string_of(&out)
}


/// The character of decimal digit `d`.
pub open spec fn digit_char(d: nat) -> char {
    if d == 0 { '0' } else if d == 1 { '1' } else if d == 2 { '2' } else if d == 3 { '3' }
    else if d == 4 { '4' } else if d == 5 { '5' } else if d == 6 { '6' } else if d == 7 { '7' }
    else if d == 8 { '8' } else { '9' }
}

/// The decimal digits of `n`, as `to_string` writes an unsigned integer.
pub open spec fn decimal(n: nat) -> Seq<char>
    decreases n,
{
    if n < 10 {
        seq![digit_char(n)]
    } else {
        decimal(n / 10).push(digit_char(n % 10))
    }
}

fn push_digit(out: &mut Vec<char>, d: u64)
    requires
        d < 10,
    ensures
        final(out)@ == old(out)@.push(digit_char(d as nat)),
{
    let c = if d == 0 { '0' } else if d == 1 { '1' } else if d == 2 { '2' } else if d == 3 { '3' }
        else if d == 4 { '4' } else if d == 5 { '5' } else if d == 6 { '6' } else if d == 7 { '7' }
        else if d == 8 { '8' } else { '9' };
    out.push(c);
}

fn push_decimal(out: &mut Vec<char>, n: u64)
    ensures
        final(out)@ == old(out)@ + decimal(n as nat),
    decreases n,
{
    if n >= 10 {
        push_decimal(out, n / 10);
    }
    push_digit(out, n % 10);
    proof {
        if n >= 10 {
            assert(old(out)@ + decimal((n / 10) as nat) + seq![digit_char((n % 10) as nat)]
                =~= old(out)@ + decimal(n as nat));
        } else {
            assert(old(out)@.push(digit_char(n as nat)) =~= old(out)@ + decimal(n as nat));
        }
    }
}

/// The decimal form of `n`.
pub fn u64_decimal(n: u64) -> (s: String)
    ensures
        s@ == decimal(n as nat),
{
    let mut v: Vec<char> = Vec::new();
    push_decimal(&mut v, n);
    proof {
        assert(Seq::<char>::empty() + decimal(n as nat) =~= decimal(n as nat));
    }
    string_of(&v)
}

/// What `str::to_lowercase` gives for `s`: each character mapped by the
/// Unicode lowercase tables, with the context rules they carry.
pub uninterp spec fn lowercase(s: Seq<char>) -> Seq<char>;

/// Calls `str::to_lowercase`, a function of its argument alone; what it
/// gives is named `lowercase` and not spelled out here.
#[verifier::external_body]
pub(crate) fn to_lowercase(s: &str) -> (r: String)
    ensures
        r@ == lowercase(s@),
{
    s.to_lowercase()
}

} // verus!
