//! Small text helpers shared by the other modules.

use vstd::prelude::*;

verus! {

/// `str` equality of the standard library: two string slices are equal
/// exactly when they hold the same characters.
pub assume_specification[ <str as PartialEq>::eq ](a: &str, b: &str) -> (same: bool)
    ensures
        same == (a@ == b@),
;

/// Whether two texts hold the same characters.
pub fn text_eq(a: &str, b: &str) -> (same: bool)
    ensures
        same == (a@ == b@),
{
    a.eq(b)
}

/// `a` comes before `b` in the order of texts: at the first position at
/// which they differ `a` holds the character with the lesser code point,
/// or `a` ends there and `b` goes on.
pub open spec fn text_lt(a: Seq<char>, b: Seq<char>) -> bool {
    exists|i: int| parts_before(a, b, i)
}

/// `a` and `b` agree before position `i`, and `a` comes first by what
/// stands at `i`.
pub open spec fn parts_before(a: Seq<char>, b: Seq<char>, i: int) -> bool {
    &&& 0 <= i <= a.len()
    &&& i < b.len()
    &&& a.take(i) == b.take(i)
    &&& (i == a.len() || (a[i] as u32) < (b[i] as u32))
}

/// How two texts stand to each other in the order of texts.
#[derive(Clone, Copy, Debug, PartialEq, Eq, Structural)]
pub enum TextOrder {
    Before,
    Same,
    After,
}

/// How `a` stands to `b` in the order of texts.
pub fn text_order(a: &str, b: &str) -> (order: TextOrder)
    ensures
        match order {
            TextOrder::Before => text_lt(a@, b@),
            TextOrder::Same => a@ == b@,
            TextOrder::After => text_lt(b@, a@),
        },
{
    let n: usize = a.unicode_len();
    let m: usize = b.unicode_len();
    let mut i: usize = 0;
    while i < n && i < m
        invariant
            i <= n,
            i <= m,
            n == a@.len(),
            m == b@.len(),
            a@.take(i as int) == b@.take(i as int),
        decreases n - i,
    {
        let x: u32 = a.get_char(i) as u32;
        let y: u32 = b.get_char(i) as u32;
        if x < y {
            assert(parts_before(a@, b@, i as int));
            return TextOrder::Before;
        }
        if y < x {
            assert(parts_before(b@, a@, i as int));
            return TextOrder::After;
        }
        assert(a@[i as int] == b@[i as int]);
        assert(a@.take(i + 1) =~= a@.take(i as int).push(a@[i as int]));
        assert(b@.take(i + 1) =~= b@.take(i as int).push(b@[i as int]));
        i += 1;
    }
    if i < m {
        assert(parts_before(a@, b@, i as int));
        TextOrder::Before
    } else if i < n {
        assert(parts_before(b@, a@, i as int));
        TextOrder::After
    } else {
        assert(a@ =~= a@.take(i as int));
        assert(b@ =~= b@.take(i as int));
        TextOrder::Same
    }
}

/// No text comes before itself.
pub proof fn lemma_text_lt_irreflexive(a: Seq<char>)
    ensures
        !text_lt(a, a),
{
    assert forall|i: int| !parts_before(a, a, i) by {}
}

/// The order of texts is transitive.
pub proof fn lemma_text_lt_transitive(a: Seq<char>, b: Seq<char>, c: Seq<char>)
    requires
        text_lt(a, b),
        text_lt(b, c),
    ensures
        text_lt(a, c),
{
    let i = choose|i: int| parts_before(a, b, i);
    let j = choose|j: int| parts_before(b, c, j);
    if i <= j {
        assert(b.take(j).take(i) =~= b.take(i));
        assert(c.take(j).take(i) =~= c.take(i));
        if i < a.len() && i < j {
            assert(b.take(j)[i] == c.take(j)[i]);
        }
        assert(parts_before(a, c, i));
    } else {
        assert(a.take(i).take(j) =~= a.take(j));
        assert(b.take(i).take(j) =~= b.take(j));
        assert(a.take(i)[j] == b.take(i)[j]);
        assert(parts_before(a, c, j));
    }
}

/// The texts stand in ascending order: each comes before the next one.
pub open spec fn ascending(s: Seq<Seq<char>>) -> bool {
    forall|i: int| 0 <= i < s.len() - 1 ==> text_lt(#[trigger] s[i], s[i + 1])
}

/// In an ascending list every text comes before every later one.
pub proof fn lemma_ascending_pairs(s: Seq<Seq<char>>, i: int, j: int)
    requires
        ascending(s),
        0 <= i < j < s.len(),
    ensures
        text_lt(s[i], s[j]),
    decreases j - i,
{
    if i + 1 < j {
        lemma_ascending_pairs(s, i, j - 1);
        assert(text_lt(s[j - 1], s[j - 1 + 1]));
        lemma_text_lt_transitive(s[i], s[j - 1], s[j]);
    }
}

/// The texts of a list of strings, in order.
pub open spec fn texts(items: Seq<String>) -> Seq<Seq<char>> {
    items.map_values(|s: String| s@)
}

/// Copies a list of strings.
pub fn copy_texts(items: &Vec<String>) -> (copy: Vec<String>)
    ensures
        texts(copy@) == texts(items@),
{
    let mut copy: Vec<String> = Vec::new();
    let mut i: usize = 0;
    while i < items.len()
        invariant
            i <= items.len(),
            copy.len() == i,
            forall|j: int| 0 <= j < i ==> copy@[j]@ == items@[j]@,
        decreases items.len() - i,
    {
        copy.push(items[i].clone());
        i += 1;
    }
    assert(texts(copy@) =~= texts(items@));
    copy
}

} // verus!
