use vstd::prelude::*;
use crate::error::Error;

verus! {

/// A license identifier, as the license list service reports it.
#[derive(Debug, Clone)]
pub struct License {
    pub spdx_id: String,
}

/// A license identifier together with the full license text.
#[derive(Debug, Clone)]
pub struct LicenseDetails {
    base_license: License,
    pub body: String,
}

impl Default for License {
    fn default() -> (r: Self)
        ensures
            r.spdx_id@ == Seq::<char>::empty(),
    {
        License { spdx_id: String::new() }
    }
}

impl LicenseDetails {
    /// The identifier this license text belongs to, as contracts see it.
    pub closed spec fn spec_spdx_id(&self) -> Seq<char> {
        self.base_license.spdx_id@
    }

    /// The license text, as contracts see it.
    pub closed spec fn spec_body(&self) -> Seq<char> {
        self.body@
    }

    pub fn new(spdx_id: String, body: String) -> (r: Self)
        ensures
            r.spec_spdx_id() == spdx_id@,
            r.spec_body() == body@,
    {
        LicenseDetails { base_license: License { spdx_id }, body }
    }

    /// The identifier this license text belongs to.
    pub fn spdx_id(&self) -> (r: &String)
        ensures
            r@ == self.spec_spdx_id(),
    {
        &self.base_license.spdx_id
    }
}

impl Default for LicenseDetails {
    fn default() -> (r: Self)
        ensures
            r.spec_spdx_id() == Seq::<char>::empty(),
            r.spec_body() == Seq::<char>::empty(),
    {
        LicenseDetails { base_license: License { spdx_id: String::new() }, body: String::new() }
    }
}

/// Lexicographic order on character sequences by code point: `a` is a prefix
/// of `b`, or the two differ first at some position where `a` is smaller.
pub open spec fn lex_le(a: Seq<char>, b: Seq<char>) -> bool {
    ||| (a.len() <= b.len() && forall|k: int| 0 <= k < a.len() ==> a[k] == b[k])
    ||| (exists|i: int|
        {
            &&& 0 <= i < a.len()
            &&& i < b.len()
            &&& (a[i] as u32) < (b[i] as u32)
            &&& forall|k: int| 0 <= k < i ==> a[k] == b[k]
        })
}

proof fn lemma_lex_le_antisymmetric(a: Seq<char>, b: Seq<char>)
    requires
        lex_le(a, b),
        lex_le(b, a),
    ensures
        a == b,
{
    let prefix_ab = a.len() <= b.len() && forall|k: int| 0 <= k < a.len() ==> a[k] == b[k];
    let prefix_ba = b.len() <= a.len() && forall|k: int| 0 <= k < b.len() ==> b[k] == a[k];
    if prefix_ab && prefix_ba {
        assert(a =~= b);
    } else if prefix_ab {
        let i = choose|i: int|
            {
                &&& 0 <= i < b.len()
                &&& i < a.len()
                &&& (b[i] as u32) < (a[i] as u32)
                &&& forall|k: int| 0 <= k < i ==> b[k] == a[k]
            };
        assert(a[i] == b[i]);
    } else {
        let i1 = choose|i: int|
            {
                &&& 0 <= i < a.len()
                &&& i < b.len()
                &&& (a[i] as u32) < (b[i] as u32)
                &&& forall|k: int| 0 <= k < i ==> a[k] == b[k]
            };
        if prefix_ba {
            assert(b[i1] == a[i1]);
        } else {
            let i2 = choose|i: int|
                {
                    &&& 0 <= i < b.len()
                    &&& i < a.len()
                    &&& (b[i] as u32) < (a[i] as u32)
                    &&& forall|k: int| 0 <= k < i ==> b[k] == a[k]
                };
            if i1 < i2 {
                assert(b[i1] == a[i1]);
            } else if i2 < i1 {
                assert(a[i2] == b[i2]);
            } else {
                assert((a[i1] as u32) < (a[i1] as u32));
            }
        }
    }
}

/// Three-way lexicographic comparison of two strings, character by
/// character.
fn str_lex_cmp(a: &str, b: &str) -> (r: i8)
    ensures
        r == 0 <==> a@ == b@,
        r < 0 <==> (lex_le(a@, b@) && a@ != b@),
        r > 0 <==> !lex_le(a@, b@),
{
    let alen = a.unicode_len();
    let blen = b.unicode_len();
    let mut i: usize = 0;
    loop
        invariant_except_break
            alen == a@.len(),
            blen == b@.len(),
            i <= alen,
            i <= blen,
            forall|k: int| 0 <= k < i ==> a@[k] == b@[k],
        ensures
            alen == a@.len(),
            blen == b@.len(),
            i <= alen,
            i <= blen,
            i == alen || i == blen,
            forall|k: int| 0 <= k < i ==> a@[k] == b@[k],
        decreases alen - i,
    {
        if i == alen || i == blen {
            break ;
        }
        let ca = a.get_char(i);
        let cb = b.get_char(i);
        if (ca as u32) < (cb as u32) {
            proof {
                assert(a@ != b@) by {
                    assert(a@[i as int] != b@[i as int]);
                }
            }
            return -1;
        }
        if (ca as u32) > (cb as u32) {
            proof {
                assert(!lex_le(a@, b@)) by {
                    if a@.len() <= b@.len() && forall|k: int| 0 <= k < a@.len() ==> a@[k] == b@[k] {
                        assert(a@[i as int] == b@[i as int]);
                    }
                    if exists|j: int|
                        {
                            &&& 0 <= j < a@.len()
                            &&& j < b@.len()
                            &&& (a@[j] as u32) < (b@[j] as u32)
                            &&& forall|k: int| 0 <= k < j ==> a@[k] == b@[k]
                        } {
                        let j = choose|j: int|
                            {
                                &&& 0 <= j < a@.len()
                                &&& j < b@.len()
                                &&& (a@[j] as u32) < (b@[j] as u32)
                                &&& forall|k: int| 0 <= k < j ==> a@[k] == b@[k]
                            };
                        if j < i {
                            assert(a@[j] == b@[j]);
                        } else if j == i {
                        } else {
                            assert(a@[i as int] == b@[i as int]);
                        }
                    }
                }
            }
            return 1;
        }
        i = i + 1;
    }
    if alen == blen {
        proof {
            assert(a@ =~= b@);
        }
        0
    } else if alen < blen {
        proof {
            assert(a@ != b@) by {
                assert(a@.len() != b@.len());
            }
        }
        -1
    } else {
        proof {
            assert(!lex_le(a@, b@)) by {
                if exists|j: int|
                    {
                        &&& 0 <= j < a@.len()
                        &&& j < b@.len()
                        &&& (a@[j] as u32) < (b@[j] as u32)
                        &&& forall|k: int| 0 <= k < j ==> a@[k] == b@[k]
                    } {
                    let j = choose|j: int|
                        {
                            &&& 0 <= j < a@.len()
                            &&& j < b@.len()
                            &&& (a@[j] as u32) < (b@[j] as u32)
                            &&& forall|k: int| 0 <= k < j ==> a@[k] == b@[k]
                        };
                    assert(a@[j] == b@[j]);
                }
            }
        }
        1
    }
}

/// The candidate list is in ascending lexicographic order.
pub open spec fn sorted_by_id(l: Seq<String>) -> bool {
    forall|i: int, j: int| 0 <= i <= j < l.len() ==> #[trigger] lex_le(l[i]@, l[j]@)
}

/// Some candidate equals `s`.
pub open spec fn contains_str(l: Seq<String>, s: Seq<char>) -> bool {
    exists|i: int| 0 <= i < l.len() && (#[trigger] l[i])@ == s
}

/// Locates the default entry, the literal identifier `MIT`, in the candidate
/// list by binary search. The caller is expected to supply a sorted list; on
/// a sorted list the search succeeds exactly when `MIT` is present.
/// An empty list, or a sorted list without `MIT`, is reported as
/// `LicenseNotFound`.
pub fn mit_default_index(candidates: &Vec<String>) -> (r: Result<usize, Error>)
    ensures
        r matches Ok(i) ==> i < candidates@.len() && candidates@[i as int]@ == "MIT"@,
        sorted_by_id(candidates@) ==> (r is Ok <==> contains_str(candidates@, "MIT"@)),
        r is Err ==> r == Err::<usize, Error>(Error::LicenseNotFound),
{
    let mut lo: usize = 0;
    let mut hi: usize = candidates.len();
    while lo < hi
        invariant
            lo <= hi <= candidates@.len(),
            sorted_by_id(candidates@) ==> forall|i: int|
                0 <= i < candidates@.len() && (#[trigger] candidates@[i])@ == "MIT"@ ==> lo <= i
                    < hi,
        decreases hi - lo,
    {
        let mid = lo + (hi - lo) / 2;
        let r = str_lex_cmp(candidates[mid].as_str(), "MIT");
        if r == 0 {
            return Ok(mid);
        } else if r < 0 {
            proof {
                if sorted_by_id(candidates@) {
                    assert forall|i: int|
                        0 <= i < candidates@.len() && (#[trigger] candidates@[i])@ == "MIT"@
                            implies mid < i < hi by {
                        if i <= mid {
                            assert(lex_le(candidates@[i]@, candidates@[mid as int]@));
                            lemma_lex_le_antisymmetric(candidates@[mid as int]@, "MIT"@);
                        }
                    }
                }
            }
            lo = mid + 1;
        } else {
            proof {
                if sorted_by_id(candidates@) {
                    assert forall|i: int|
                        0 <= i < candidates@.len() && (#[trigger] candidates@[i])@ == "MIT"@
                            implies lo <= i < mid by {
                        if i >= mid {
                            assert(lex_le(candidates@[mid as int]@, candidates@[i]@));
                        }
                    }
                }
            }
            hi = mid;
        }
    }
    Err(Error::LicenseNotFound)
}

/// Resolves the user's confirmed choice to a license identifier: the entry
/// at the chosen index, or `LicenseNotFound` when the index lies out of
/// range.
pub fn select_license(candidates: &Vec<String>, chosen: usize) -> (r: Result<String, Error>)
    ensures
        chosen < candidates@.len() ==> (r matches Ok(s) && s@ == candidates@[chosen as int]@),
        chosen >= candidates@.len() ==> r == Err::<String, Error>(Error::LicenseNotFound),
{
    if chosen < candidates.len() {
        Ok(candidates[chosen].clone())
    } else {
        Err(Error::LicenseNotFound)
    }
}

/// The identifiers of a fetched license list, in order.
pub fn spdx_ids(licenses: &Vec<License>) -> (r: Vec<String>)
    ensures
        r@.len() == licenses@.len(),
        forall|k: int| 0 <= k < r@.len() ==> (#[trigger] r@[k])@ == licenses@[k].spdx_id@,
{
    let mut r: Vec<String> = Vec::new();
    let mut i: usize = 0;
    while i < licenses.len()
        invariant
            i <= licenses@.len(),
            r@.len() == i,
            forall|k: int| 0 <= k < i ==> (#[trigger] r@[k])@ == licenses@[k].spdx_id@,
        decreases licenses@.len() - i,
    {
        r.push(licenses[i].spdx_id.clone());
        i = i + 1;
    }
    r
}

} // verus!
