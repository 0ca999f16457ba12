//! Call identities.
use vstd::prelude::*;
use vstd::string::StringSliceAdditionalSpecFns;

verus! {

/// Uniquely identifies a remote function on a server.
pub trait RpcId {
    /// A short identifier, lowercase and hyphenated.
    const ID: &'static str;
}


pub open spec fn is_upper(c: u8) -> bool {
    65 <= c <= 90
}

pub open spec fn is_lower_or_digit(c: u8) -> bool {
    (97 <= c <= 122) || (48 <= c <= 57)
}

/// What one byte of a type name becomes, given the byte before it: an
/// uppercase letter becomes lowercase, after a hyphen where it starts a new
/// word; an underscore becomes a hyphen.
pub open spec fn kebab_piece(prev: Option<u8>, c: u8) -> Seq<u8> {
    if is_upper(c) {
        let low = (c + 32) as u8;
        match prev {
            Some(p) => if is_lower_or_digit(p) {
                seq![45u8, low]
            } else {
                seq![low]
            },
            None => seq![low],
        }
    } else if c == 95 {
        seq![45u8]
    } else {
        seq![c]
    }
}

/// The lowercase-hyphenated form of a name.
pub open spec fn kebab(s: Seq<u8>) -> Seq<u8>
    decreases s.len(),
{
    if s.len() == 0 {
        Seq::empty()
    } else {
        let i = s.len() - 1;
        kebab(s.drop_last()) + kebab_piece(if i == 0 { None } else { Some(s[i - 1]) }, s[i])
    }
}

/// `k` is where generic parameters start in `s`: its first `<`, or its end.
pub open spec fn generics_at(s: Seq<u8>, k: int) -> bool {
    &&& 0 <= k <= s.len()
    &&& (k == s.len() || s[k] == 60)
    &&& forall|j: int| 0 <= j < k ==> s[j] != 60
}

/// `m` is where the last path segment before `k` starts: just after the
/// last `:` before `k`, or at the start.
pub open spec fn segment_at(s: Seq<u8>, k: int, m: int) -> bool {
    &&& 0 <= m <= k
    &&& (m == 0 || s[m - 1] == 58)
    &&& forall|j: int| m <= j < k ==> s[j] != 58
}

/// Derives a call identity from a type name: the type's own name, without
/// its module path or generic parameters, in lowercase-hyphenated form.
/// For example `calls::TryMultiply<T>` gives `try-multiply`.
pub fn derive_id(name: &str) -> (r: Vec<u8>)
    ensures
        exists|k: int, m: int|
            generics_at(name.spec_bytes(), k) && segment_at(name.spec_bytes(), k, m) && r@
                == kebab(name.spec_bytes().subrange(m, k)),
{
    let s = name.as_bytes();
    let mut k: usize = 0;
    while k < s.len() && s[k] != 60
        invariant
            k <= s@.len(),
            forall|j: int| 0 <= j < k ==> s@[j] != 60,
        decreases s@.len() - k,
    {
        k = k + 1;
    }
    let mut m: usize = k;
    while m > 0 && s[m - 1] != 58
        invariant
            m <= k <= s@.len(),
            forall|j: int| m <= j < k ==> s@[j] != 58,
        decreases m,
    {
        m = m - 1;
    }
    let mut out: Vec<u8> = Vec::new();
    let mut i: usize = m;
    while i < k
        invariant
            m <= i <= k <= s@.len(),
            out@ == kebab(s@.subrange(m as int, i as int)),
        decreases k - i,
    {
        let c = s[i];
        let ghost before = s@.subrange(m as int, i as int);
        if 65 <= c && c <= 90 {
            let low = c + 32;
            let p: u8 = if i > m {
                s[i - 1]
            } else {
                0
            };
            if i > m && ((97 <= p && p <= 122) || (48 <= p && p <= 57)) {
                out.push(45u8);
            }
            out.push(low);
        } else if c == 95 {
            out.push(45u8);
        } else {
            out.push(c);
        }
        i = i + 1;
        proof {
            let now = s@.subrange(m as int, i as int);
            assert(now.drop_last() =~= before);
            if i - 1 > m {
                assert(now[now.len() - 2] == s@[i - 2]);
            }
            assert(out@ =~= kebab(now));
        }
    }
    assert(generics_at(s@, k as int) && segment_at(s@, k as int, m as int));
    out
}

} // verus!
