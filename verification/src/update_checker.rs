//! Whether a newer release exists: version comparison, and the result shown
//! to the user.

use vstd::prelude::*;
use std::cmp::Ordering;
use crate::text::{owned, push_str, version_numbers, version_of};

verus! {

/// Lexicographic order of version numbers: -1, 0 or 1. A sequence that is a
/// proper prefix of another comes first.
pub open spec fn lex_order(a: Seq<u32>, b: Seq<u32>) -> int
    decreases a.len(),
{
    if a.len() == 0 && b.len() == 0 {
        0
    } else if a.len() == 0 {
        -1
    } else if b.len() == 0 {
        1
    } else if a[0] < b[0] {
        -1
    } else if a[0] > b[0] {
        1
    } else {
        lex_order(a.drop_first(), b.drop_first())
    }
}

/// The order of two versions, as -1, 0 or 1.
pub open spec fn version_order(current: Seq<char>, latest: Seq<char>) -> int {
    lex_order(version_of(current), version_of(latest))
}

/// The lexicographic order of two number sequences, as -1, 0 or 1.
fn lex_sign(a: &Vec<u32>, b: &Vec<u32>) -> (r: i8)
    ensures
        r == lex_order(a@, b@),
        r == -1 || r == 0 || r == 1,
{
    let mut i: usize = 0;
    assert(a@.skip(0) =~= a@);
    assert(b@.skip(0) =~= b@);
    while i < a.len() && i < b.len()
        invariant
            i <= a@.len(),
            i <= b@.len(),
            lex_order(a@, b@) == lex_order(a@.skip(i as int), b@.skip(i as int)),
        decreases a@.len() - i,
    {
        assert(a@.skip(i as int).drop_first() =~= a@.skip(i + 1));
        assert(b@.skip(i as int).drop_first() =~= b@.skip(i + 1));
        if a[i] < b[i] {
            return -1;
        }
        if a[i] > b[i] {
            return 1;
        }
        i = i + 1;
    }
    if i < a.len() {
        1
    } else if i < b.len() {
        -1
    } else {
        0
    }
}

/// Compares two version strings by their numbers (a leading `v` ignored);
/// `Less` means `latest` is newer.
pub fn compare_versions(current: &str, latest: &str) -> (r: Ordering)
    ensures
        match r {
            Ordering::Less => version_order(current@, latest@) == -1,
            Ordering::Equal => version_order(current@, latest@) == 0,
            Ordering::Greater => version_order(current@, latest@) == 1,
        },
{
    let a = version_numbers(current);
    let b = version_numbers(latest);
    let sign = lex_sign(&a, &b);
    if sign < 0 {
        Ordering::Less
    } else if sign == 0 {
        Ordering::Equal
    } else {
        Ordering::Greater
    }
}

/// Version order is reflexive and antisymmetric: a version equals itself,
/// and swapping two versions reverses their order.
pub proof fn law_lex_order_antisymmetric(a: Seq<u32>, b: Seq<u32>)
    ensures
        lex_order(a, a) == 0,
        lex_order(a, b) == -lex_order(b, a),
    decreases a.len(),
{
    if a.len() > 0 && b.len() > 0 {
        law_lex_order_antisymmetric(a.drop_first(), b.drop_first());
    }
    if a.len() > 0 {
        law_lex_order_antisymmetric(a.drop_first(), a.drop_first());
    }
}

/// Version order is transitive.
pub proof fn law_lex_order_transitive(a: Seq<u32>, b: Seq<u32>, c: Seq<u32>)
    requires
        lex_order(a, b) <= 0,
        lex_order(b, c) <= 0,
    ensures
        lex_order(a, c) <= 0,
        lex_order(a, b) == -1 || lex_order(b, c) == -1 ==> lex_order(a, c) == -1,
    decreases a.len(),
{
    if a.len() > 0 && b.len() > 0 && c.len() > 0 && a[0] == b[0] && b[0] == c[0] {
        law_lex_order_transitive(a.drop_first(), b.drop_first(), c.drop_first());
    }
}

/// Number sequences are ordered by their first difference, at whatever
/// place it comes: equal up to `i`, the sequences order as their numbers at
/// `i`; and a sequence that is a proper prefix of the other comes first.
proof fn lemma_lex_first_difference(a: Seq<u32>, b: Seq<u32>, i: int)
    requires
        0 <= i <= a.len(),
        i <= b.len(),
        forall|j: int| 0 <= j < i ==> a[j] == b[j],
    ensures
        i < a.len() && i < b.len() && a[i] < b[i] ==> lex_order(a, b) == -1,
        i < a.len() && i < b.len() && a[i] > b[i] ==> lex_order(a, b) == 1,
        i == a.len() && i < b.len() ==> lex_order(a, b) == -1,
        i == a.len() && i == b.len() ==> lex_order(a, b) == 0,
    decreases i,
{
    if i > 0 {
        assert forall|j: int| 0 <= j < i - 1 implies a.drop_first()[j] == b.drop_first()[j] by {
            assert(a.drop_first()[j] == a[j + 1]);
            assert(b.drop_first()[j] == b[j + 1]);
        }
        lemma_lex_first_difference(a.drop_first(), b.drop_first(), i - 1);
        assert(a[0] == b[0]);
        if i < a.len() {
            assert(a.drop_first()[i - 1] == a[i]);
        }
        if i < b.len() {
            assert(b.drop_first()[i - 1] == b[i]);
        }
    }
}

/// Two versions compare by all their numbers, in order: where they first
/// differ, at any place (the patch number too), that number decides; a
/// version whose numbers are a proper prefix of the other's is older; equal
/// numbers give equal versions. So `0.1.0` is older than `0.1.1`.
pub proof fn law_version_first_difference(current: Seq<char>, latest: Seq<char>, i: int)
    requires
        0 <= i,
        i <= version_of(current).len(),
        i <= version_of(latest).len(),
        forall|j: int| 0 <= j < i ==> version_of(current)[j] == version_of(latest)[j],
    ensures
        ({
            let a = version_of(current);
            let b = version_of(latest);
            &&& i < a.len() && i < b.len() && a[i] < b[i] ==> version_order(current, latest) == -1
            &&& i < a.len() && i < b.len() && a[i] > b[i] ==> version_order(current, latest) == 1
            &&& i == a.len() && i < b.len() ==> version_order(current, latest) == -1
            &&& i == a.len() && i == b.len() ==> version_order(current, latest) == 0
        }),
{
    lemma_lex_first_difference(version_of(current), version_of(latest), i);
}

/// The outcome of an update check.
#[derive(Debug)]
pub struct UpdateCheckResult {
    pub current_version: String,
    pub latest_version: String,
    pub update_available: bool,
    pub download_url: String,
}

impl UpdateCheckResult {
    /// The message shown to the user.
    pub open spec fn display(&self) -> Seq<char> {
        if self.update_available {
            "New version available: "@ + self.latest_version@ + " (current: "@ + self.current_version@
                + ") — download: "@ + self.download_url@
        } else {
            "Up to date (v"@ + self.current_version@ + ")"@
        }
    }

    pub fn to_string(&self) -> (r: String)
        ensures
            r@ == self.display(),
    {
        if self.update_available {
            let mut out = owned("New version available: ");
            push_str(&mut out, self.latest_version.as_str());
            push_str(&mut out, " (current: ");
            push_str(&mut out, self.current_version.as_str());
            push_str(&mut out, ") — download: ");
            push_str(&mut out, self.download_url.as_str());
            out
        } else {
            let mut out = owned("Up to date (v");
            push_str(&mut out, self.current_version.as_str());
            push_str(&mut out, ")");
            out
        }
    }
}

/// The result of an update check from the latest release's tag and page:
/// an update is available when the current version orders before the tag.
pub fn update_check_result(current_version: &str, tag_name: &str, html_url: &str) -> (r: UpdateCheckResult)
    ensures
        r.current_version@ == current_version@,
        r.latest_version@ == tag_name@,
        r.download_url@ == html_url@,
        r.update_available == (version_order(current_version@, tag_name@) == -1),
{
    let update_available = match compare_versions(current_version, tag_name) {
        Ordering::Less => true,
        _ => false,
    };
    UpdateCheckResult {
        current_version: owned(current_version),
        latest_version: owned(tag_name),
        update_available,
        download_url: owned(html_url),
    }
}

} // verus!
