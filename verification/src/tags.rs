//! Classification of a mod's free-text tag set into a fixed summary:
//! membership flags, a required/approval status, and the ordered set of
//! version-like tags (those whose first character is a digit).

use vstd::prelude::*;
use vstd::string::StrSliceExecFns;
use crate::codec::is_digit;

verus! {

#[derive(Debug, Clone, Copy, PartialEq, Eq)]
pub enum RequiredStatus {
    RequiredByAll,
    Optional,
}

#[derive(Debug, Clone, Copy, PartialEq, Eq)]
pub enum ApprovalStatus {
    Verified,
    Approved,
    Sandbox,
}

/// The derived tag summary of a mod.
#[derive(Debug, PartialEq, Eq)]
pub struct ModioTags {
    pub qol: bool,
    pub gameplay: bool,
    pub audio: bool,
    pub visual: bool,
    pub framework: bool,
    /// Version-like tags, lexicographically ordered and without duplicates.
    pub versions: Vec<String>,
    pub required_status: RequiredStatus,
    pub approval_status: ApprovalStatus,
}

/// Whether some tag in the list reads exactly `t`.
pub open spec fn contains_tag(tags: Seq<String>, t: Seq<char>) -> bool {
    exists|i: int| 0 <= i < tags.len() && (#[trigger] tags[i])@ == t
}

/// A tag that names a game version: its first character is a digit.
pub open spec fn is_version_tag(t: Seq<char>) -> bool {
    t.len() > 0 && is_digit(t[0])
}

/// Strict lexicographic order on character sequences.
pub open spec fn str_lt(a: Seq<char>, b: Seq<char>) -> bool
    decreases a.len(),
{
    if b.len() == 0 {
        false
    } else if a.len() == 0 {
        true
    } else if a[0] != b[0] {
        a[0] < b[0]
    } else {
        str_lt(a.drop_first(), b.drop_first())
    }
}

/// Strictly ascending, hence duplicate-free, list of strings.
pub open spec fn sorted_strings(v: Seq<String>) -> bool {
    forall|i: int, j: int| 0 <= i < j < v.len() ==> str_lt((#[trigger] v[i])@, (#[trigger] v[j])@)
}

/// Equal prefixes do not affect the lexicographic comparison of the rest.
proof fn lemma_str_lt_skip(a: Seq<char>, b: Seq<char>, i: int)
    requires
        0 <= i <= a.len(),
        i <= b.len(),
        forall|t: int| 0 <= t < i ==> a[t] == b[t],
    ensures
        str_lt(a, b) <==> str_lt(a.skip(i), b.skip(i)),
    decreases i,
{
    if i > 0 {
        lemma_str_lt_skip(a.drop_first(), b.drop_first(), i - 1);
        assert(a.drop_first().skip(i - 1) =~= a.skip(i));
        assert(b.drop_first().skip(i - 1) =~= b.skip(i));
    } else {
        assert(a.skip(0) =~= a);
        assert(b.skip(0) =~= b);
    }
}

/// The order is strict: it never holds both ways nor on equal strings.
proof fn lemma_str_lt_asym(a: Seq<char>, b: Seq<char>)
    requires
        str_lt(a, b),
    ensures
        !str_lt(b, a),
        a != b,
    decreases a.len(),
{
    if a.len() > 0 && b.len() > 0 && a[0] == b[0] {
        lemma_str_lt_asym(a.drop_first(), b.drop_first());
        assert(a != b) by {
            if a == b {
                assert(a.drop_first() == b.drop_first());
            }
        }
    }
}

/// Two distinct strings compare one way or the other.
proof fn lemma_str_lt_trichotomy(a: Seq<char>, b: Seq<char>)
    requires
        !str_lt(a, b),
        a != b,
    ensures
        str_lt(b, a),
    decreases a.len(),
{
    if a.len() == 0 {
        if b.len() == 0 {
            assert(a =~= b);
        }
    } else if b.len() == 0 {
    } else if a[0] != b[0] {
    } else {
        if a.drop_first() == b.drop_first() {
            assert(a.len() == b.len()) by {
                assert(a.drop_first().len() == b.drop_first().len());
            }
            assert forall|t: int| 0 <= t < a.len() implies a[t] == b[t] by {
                if t > 0 {
                    assert(a.drop_first()[t - 1] == a[t]);
                    assert(b.drop_first()[t - 1] == b[t]);
                }
            }
            assert(a =~= b);
        }
        lemma_str_lt_trichotomy(a.drop_first(), b.drop_first());
    }
}

/// The order is transitive.
proof fn lemma_str_lt_trans(a: Seq<char>, b: Seq<char>, c: Seq<char>)
    requires
        str_lt(a, b),
        str_lt(b, c),
    ensures
        str_lt(a, c),
    decreases a.len(),
{
    if a.len() > 0 && b.len() > 0 && c.len() > 0 && a[0] == b[0] && b[0] == c[0] {
        lemma_str_lt_trans(a.drop_first(), b.drop_first(), c.drop_first());
    }
}

enum StrOrder {
    Less,
    Equal,
    Greater,
}

/// Three-way lexicographic comparison of two strings.
fn compare_strings(a: &String, b: &String) -> (r: StrOrder)
    ensures
        r is Less ==> str_lt(a@, b@),
        r is Equal ==> a@ == b@,
        r is Greater ==> str_lt(b@, a@),
{
    let alen = a.as_str().unicode_len();
    let blen = b.as_str().unicode_len();
    let mut i: usize = 0;
    while i < alen && i < blen
        invariant
            0 <= i <= alen == a@.len(),
            i <= blen == b@.len(),
            forall|t: int| 0 <= t < i ==> a@[t] == b@[t],
        decreases alen - i,
    {
        let ca = a.as_str().get_char(i);
        let cb = b.as_str().get_char(i);
        if (ca as u32) < (cb as u32) {
            proof {
                lemma_str_lt_skip(a@, b@, i as int);
                assert(a@.skip(i as int)[0] == ca);
                assert(b@.skip(i as int)[0] == cb);
            }
            return StrOrder::Less;
        }
        if (ca as u32) > (cb as u32) {
            proof {
                lemma_str_lt_skip(b@, a@, i as int);
                assert(a@.skip(i as int)[0] == ca);
                assert(b@.skip(i as int)[0] == cb);
            }
            return StrOrder::Greater;
        }
        proof {
            assert(ca == cb) by {
                assert(ca as u32 == cb as u32);
                vstd::utf8::char_u32_cast(ca, cb as u32);
            }
        }
        i = i + 1;
    }
    if i < blen {
        proof {
            lemma_str_lt_skip(a@, b@, i as int);
            assert(a@.skip(i as int).len() == 0);
            assert(b@.skip(i as int).len() > 0);
        }
        StrOrder::Less
    } else if i < alen {
        proof {
            lemma_str_lt_skip(b@, a@, i as int);
            assert(b@.skip(i as int).len() == 0);
            assert(a@.skip(i as int).len() > 0);
        }
        StrOrder::Greater
    } else {
        proof {
            assert(a@ =~= b@);
        }
        StrOrder::Equal
    }
}

/// Whether the tag list holds the given tag.
pub fn has_tag(tags: &Vec<String>, t: &str) -> (r: bool)
    ensures
        r == contains_tag(tags@, t@),
{
    let needle = t.to_owned();
    let n = tags.len();
    let mut i: usize = 0;
    while i < n
        invariant
            0 <= i <= n == tags@.len(),
            needle@ == t@,
            forall|j: int| 0 <= j < i ==> (#[trigger] tags@[j])@ != t@,
        decreases n - i,
    {
        if tags[i].eq(&needle) {
            proof {
                assert((tags@[i as int])@ == t@);
            }
            return true;
        }
        i = i + 1;
    }
    false
}

/// Inserts a string into a strictly sorted list, keeping it sorted and
/// ignoring a string already present.
fn insert_sorted(versions: &mut Vec<String>, tag: &String)
    requires
        sorted_strings(old(versions)@),
    ensures
        sorted_strings(final(versions)@),
        forall|t: Seq<char>|
            #![trigger contains_tag(final(versions)@, t)]
            #![trigger contains_tag(old(versions)@, t)]
            contains_tag(final(versions)@, t) <==> contains_tag(old(versions)@, t) || t == tag@,
{
    let n = versions.len();
    let mut idx: usize = 0;
    let mut stop = false;
    while !stop && idx < n
        invariant
            0 <= idx <= n == versions@.len(),
            versions == old(versions),
            sorted_strings(versions@),
            forall|t: int| 0 <= t < idx ==> str_lt((#[trigger] versions@[t])@, tag@),
            stop ==> idx < n && !str_lt(versions@[idx as int]@, tag@),
        decreases n - idx + (if stop { 0int } else { 1int }),
    {
        match compare_strings(&versions[idx], tag) {
            StrOrder::Less => {
                idx = idx + 1;
            },
            _ => {
                proof {
                    let v = versions@[idx as int]@;
                    if str_lt(v, tag@) {
                        lemma_str_lt_asym(v, tag@);
                    }
                }
                stop = true;
            },
        }
    }
    if idx < n {
        match compare_strings(&versions[idx], tag) {
            StrOrder::Equal => {
                proof {
                    assert(contains_tag(versions@, tag@)) by {
                        assert((versions@[idx as int])@ == tag@);
                    }
                    assert forall|t: Seq<char>|
                        #![trigger contains_tag(final(versions)@, t)]
                        #![trigger contains_tag(old(versions)@, t)]
                        contains_tag(versions@, t) <==> contains_tag(
                            old(versions)@,
                            t,
                        ) || t == tag@ by {
                        if t == tag@ {
                            assert(contains_tag(versions@, t));
                        }
                    }
                }
                return ;
            },
            _ => {},
        }
    }
    proof {
        if idx < versions@.len() {
            let v = versions@[idx as int]@;
            if !str_lt(v, tag@) && v != tag@ {
                lemma_str_lt_trichotomy(v, tag@);
            }
        }
    }
    let ghost pre = versions@;
    versions.insert(idx, tag.clone());
    proof {
        assert(versions@ =~= pre.insert(idx as int, *tag));
        assert forall|i: int, j: int| 0 <= i < j < versions@.len() implies str_lt(
            (#[trigger] versions@[i])@,
            (#[trigger] versions@[j])@,
        ) by {
            let vi = versions@[i]@;
            let vj = versions@[j]@;
            if i == idx as int {
                if j > idx as int {
                    assert(vj == pre[j - 1]@);
                    if j - 1 > idx as int {
                        assert(str_lt(pre[idx as int]@, pre[j - 1]@));
                        lemma_str_lt_trans(tag@, pre[idx as int]@, pre[j - 1]@);
                    }
                }
            } else if j == idx as int {
                assert(vi == pre[i]@);
                assert(str_lt(vi, tag@));
            } else if i < idx as int && j > idx as int {
                assert(vi == pre[i]@ && vj == pre[j - 1]@);
                if j - 1 == idx as int {
                    assert(str_lt(vi, tag@));
                    if i < idx as int {
                        assert(str_lt(vi, tag@));
                    }
                } else {
                    assert(str_lt(pre[i]@, pre[j - 1]@));
                }
            } else if j < idx as int {
                assert(vi == pre[i]@ && vj == pre[j]@);
            } else {
                assert(vi == pre[i - 1]@ && vj == pre[j - 1]@);
            }
        }
        assert forall|t: Seq<char>|
            #![trigger contains_tag(final(versions)@, t)]
            #![trigger contains_tag(old(versions)@, t)]
            contains_tag(versions@, t) <==> contains_tag(pre, t) || t == tag@ by {
            if contains_tag(versions@, t) {
                let i = choose|i: int| 0 <= i < versions@.len() && (#[trigger] versions@[i])@ == t;
                if i < idx as int {
                    assert(pre[i]@ == t);
                } else if i > idx as int {
                    assert(pre[i - 1]@ == t);
                }
            }
            if contains_tag(pre, t) {
                let i = choose|i: int| 0 <= i < pre.len() && (#[trigger] pre[i])@ == t;
                if i < idx as int {
                    assert(versions@[i]@ == t);
                } else {
                    assert(versions@[i + 1]@ == t);
                }
            }
            if t == tag@ {
                assert(versions@[idx as int]@ == t);
            }
        }
    }
}

/// Derives the tag summary of a mod from its free-text tag list, as the
/// resolution engine reports it.
pub fn process_modio_tags(set: &Vec<String>) -> (r: ModioTags)
    ensures
        r.qol == contains_tag(set@, "QoL"@),
        r.gameplay == contains_tag(set@, "Gameplay"@),
        r.audio == contains_tag(set@, "Audio"@),
        r.visual == contains_tag(set@, "Visual"@),
        r.framework == contains_tag(set@, "Framework"@),
        r.required_status == (if contains_tag(set@, "RequiredByAll"@) {
            RequiredStatus::RequiredByAll
        } else {
            RequiredStatus::Optional
        }),
        r.approval_status == (if contains_tag(set@, "Verified"@) || contains_tag(
            set@,
            "Auto-Verified"@,
        ) {
            ApprovalStatus::Verified
        } else if contains_tag(set@, "Approved"@) {
            ApprovalStatus::Approved
        } else {
            ApprovalStatus::Sandbox
        }),
        sorted_strings(r.versions@),
        forall|t: Seq<char>|
            #![trigger contains_tag(r.versions@, t)]
            #![trigger contains_tag(set@, t)]
            contains_tag(r.versions@, t) <==> contains_tag(set@, t) && is_version_tag(t),
{
    let qol = has_tag(set, "QoL");
    let gameplay = has_tag(set, "Gameplay");
    let audio = has_tag(set, "Audio");
    let visual = has_tag(set, "Visual");
    let framework = has_tag(set, "Framework");
    let required_status = if has_tag(set, "RequiredByAll") {
        RequiredStatus::RequiredByAll
    } else {
        RequiredStatus::Optional
    };
    let approval_status = if has_tag(set, "Verified") || has_tag(set, "Auto-Verified") {
        ApprovalStatus::Verified
    } else if has_tag(set, "Approved") {
        ApprovalStatus::Approved
    } else {
        ApprovalStatus::Sandbox
    };
    let mut versions: Vec<String> = Vec::new();
    let n = set.len();
    let mut i: usize = 0;
    while i < n
        invariant
            0 <= i <= n == set@.len(),
            sorted_strings(versions@),
            forall|t: Seq<char>|
                #![trigger contains_tag(versions@, t)]
                contains_tag(versions@, t) <==> (exists|j: int|
                    0 <= j < i && (#[trigger] set@[j])@ == t) && is_version_tag(t),
        decreases n - i,
    {
        let tag = &set[i];
        let tlen = tag.as_str().unicode_len();
        let ghost before = versions@;
        let mut is_version = false;
        if tlen > 0 {
            let c0 = tag.as_str().get_char(0);
            let cv = c0 as u32;
            if 48 <= cv && cv <= 57 {
                proof {
                    assert(is_digit(tag@[0]));
                }
                is_version = true;
                insert_sorted(&mut versions, tag);
            }
        }
        proof {
            assert(is_version == is_version_tag(tag@));
            if !is_version {
                assert(versions@ == before);
            }
            assert forall|t: Seq<char>|
                #![trigger contains_tag(versions@, t)]
                contains_tag(versions@, t) <==> (exists|j: int|
                    0 <= j < i + 1 && (#[trigger] set@[j])@ == t) && is_version_tag(t) by {
                if contains_tag(versions@, t) {
                    if contains_tag(before, t) {
                        let j = choose|j: int| 0 <= j < i && (#[trigger] set@[j])@ == t;
                        assert(0 <= j < i + 1 && set@[j]@ == t);
                    } else {
                        assert(t == tag@);
                        assert(set@[i as int]@ == t);
                    }
                } else {
                    if (exists|j: int| 0 <= j < i + 1 && (#[trigger] set@[j])@ == t)
                        && is_version_tag(t) {
                        let j = choose|j: int| 0 <= j < i + 1 && (#[trigger] set@[j])@ == t;
                        if j < i {
                            assert(contains_tag(before, t));
                            assert(contains_tag(versions@, t));
                        } else {
                            assert(t == tag@);
                            assert(contains_tag(versions@, t));
                        }
                        assert(false);
                    }
                }
            }
        }
        i = i + 1;
    }
    proof {
        assert forall|t: Seq<char>|
            #![trigger contains_tag(versions@, t)]
            #![trigger contains_tag(set@, t)]
            contains_tag(versions@, t) <==> contains_tag(set@, t) && is_version_tag(t) by {
            if contains_tag(versions@, t) {
                let j = choose|j: int| 0 <= j < n && (#[trigger] set@[j])@ == t;
                assert(contains_tag(set@, t));
            }
            if contains_tag(set@, t) && is_version_tag(t) {
                let j = choose|j: int| 0 <= j < set@.len() && (#[trigger] set@[j])@ == t;
                assert(0 <= j < n && set@[j]@ == t);
            }
        }
    }
    ModioTags { qol, gameplay, audio, visual, framework, versions, required_status, approval_status }
}

} // verus!
