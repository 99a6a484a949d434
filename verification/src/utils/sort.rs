//! Ordering file names: ASCII letters and digits in natural order, Chinese
//! characters by their pinyin.

use vstd::prelude::*;

use crate::text::{ascii_alnum, ascii_lower, chars_of, is_ascii_alnum, string_from_chars, to_ascii_lower};

use pinyin::ToPinyin;

verus! {

broadcast use vstd::string::group_string_axioms;

/// The outcome of comparing two names.
#[derive(Debug, Clone, Copy, PartialEq, Eq, Structural)]
pub enum NameOrder {
    Less,
    Equal,
    Greater,
}

/// The outcome of the comparison with its two sides swapped.
pub open spec fn reversed(o: NameOrder) -> NameOrder {
    match o {
        NameOrder::Less => NameOrder::Greater,
        NameOrder::Equal => NameOrder::Equal,
        NameOrder::Greater => NameOrder::Less,
    }
}

/// The plain (toneless) pinyin of a character, as `pinyin` gives it; `None`
/// for a character without one.
pub uninterp spec fn pinyin_plain_of(c: char) -> Option<Seq<char>>;

/// The plain pinyin of `c` (`ToPinyin::to_pinyin` for `char`, then `Pinyin::plain`).
/// The result is the crate's table entry for `c`, named by `pinyin_plain_of`.
#[verifier::external_body]
fn pinyin_plain(c: char) -> (r: Option<&'static str>)
    ensures
        match r {
            Some(p) => pinyin_plain_of(c) == Some(p@),
            None => pinyin_plain_of(c) is None,
        },
{
    match c.to_pinyin() {
        Some(p) => Some(p.plain()),
        None => None,
    }
}

/// The natural, case-insensitive order of two strings, as
/// `natord::compare_ignore_case` gives it.
pub uninterp spec fn natord_order(left: Seq<char>, right: Seq<char>) -> NameOrder;

/// `natord::compare_ignore_case`. Its result is named by `natord_order`; the
/// crate's source treats both sides alike, so that swapping them swaps
/// `Less` and `Greater` and keeps `Equal`.
#[verifier::external_body]
fn natord_compare(left: &str, right: &str) -> (r: NameOrder)
    ensures
        r == natord_order(left@, right@),
        natord_order(right@, left@) == reversed(r),
{
    match natord::compare_ignore_case(left, right) {
        std::cmp::Ordering::Less => NameOrder::Less,
        std::cmp::Ordering::Equal => NameOrder::Equal,
        std::cmp::Ordering::Greater => NameOrder::Greater,
    }
}

/// Whether `c` is an ASCII character.
pub open spec fn is_ascii_char(c: char) -> bool {
    (c as u32) < 128
}

/// What a character contributes to the sort key of a name: an ASCII letter
/// or digit in lower case, any other ASCII character as it is, a character
/// with a pinyin its pinyin and a space, any other character as it is.
pub open spec fn key_piece(c: char) -> Seq<char> {
    if ascii_alnum(c) {
        seq![ascii_lower(c)]
    } else if is_ascii_char(c) {
        seq![c]
    } else {
        match pinyin_plain_of(c) {
            Some(p) => p.push(' '),
            None => seq![c],
        }
    }
}

/// The sort key of a name: the pieces of its characters, in order.
pub open spec fn sort_key(s: Seq<char>) -> Seq<char>
    decreases s.len(),
{
    if s.len() == 0 {
        Seq::empty()
    } else {
        sort_key(s.drop_last()) + key_piece(s.last())
    }
}

/// The sort key of a name (see [`sort_key`]).
pub fn normalize_for_sort(s: &str) -> (r: String)
    ensures
        r@ == sort_key(s@),
{
    let v = chars_of(s);
    let mut out: Vec<char> = Vec::new();
    let mut i: usize = 0;
    while i < v.len()
        invariant
            0 <= i <= v.len(),
            v@ == s@,
            out@ == sort_key(v@.take(i as int)),
        decreases v.len() - i,
    {
        let ch = v[i];
        let ghost before = out@;
        if is_ascii_alnum(ch) {
            out.push(to_ascii_lower(ch));
        } else if (ch as u32) < 128 {
            out.push(ch);
        } else {
            match pinyin_plain(ch) {
                Some(py) => {
                    let pv = chars_of(py);
                    let mut k: usize = 0;
                    while k < pv.len()
                        invariant
                            0 <= k <= pv.len(),
                            out@ == before + pv@.take(k as int),
                        decreases pv.len() - k,
                    {
                        out.push(pv[k]);
                        assert(pv@.take(k + 1) =~= pv@.take(k as int).push(pv@[k as int]));
                        k = k + 1;
                    }
                    assert(pv@.take(k as int) =~= pv@);
                    out.push(' ');
                },
                None => {
                    out.push(ch);
                },
            }
        }
        proof {
            assert(v@.take(i + 1).drop_last() =~= v@.take(i as int));
            assert(v@.take(i + 1).last() == ch);
            assert(out@ =~= before + key_piece(ch));
        }
        i = i + 1;
    }
    assert(v@.take(i as int) =~= v@);
    string_from_chars(&out)
}

/// The order of two file names: by their sort keys, and where those are
/// equal, by the names themselves.
#[verifier::opaque]
pub open spec fn name_order(a: Seq<char>, b: Seq<char>) -> NameOrder {
    let k = natord_order(sort_key(a), sort_key(b));
    if k == NameOrder::Equal {
        natord_order(a, b)
    } else {
        k
    }
}

/// Compare two file names (see [`name_order`]); swapping them swaps the outcome.
pub fn compare_names(a: &str, b: &str) -> (r: NameOrder)
    ensures
        r == name_order(a@, b@),
        name_order(b@, a@) == reversed(r),
{
    reveal(name_order);
    let ka = normalize_for_sort(a);
    let kb = normalize_for_sort(b);
    let k = natord_compare(ka.as_str(), kb.as_str());
    match k {
        NameOrder::Equal => natord_compare(a, b),
        _ => k,
    }
}

/// Whether `order` lists each index below `n` exactly once.
pub open spec fn is_index_permutation(order: Seq<usize>, n: int) -> bool {
    &&& order.len() == n
    &&& forall|k: int| 0 <= k < order.len() ==> #[trigger] order[k] < n
    &&& forall|k: int, l: int| 0 <= k < l < order.len() ==> order[k] != order[l]
}

/// Whether the names, taken in `order`, never have a name ordered after its successor.
pub open spec fn is_name_sorted(names: Seq<String>, order: Seq<usize>) -> bool {
    forall|k: int, l: int|
        0 <= k && l == k + 1 && l < order.len() ==> name_order(
            #[trigger] names[order[k] as int]@,
            #[trigger] names[order[l] as int]@,
        ) != NameOrder::Greater
}

/// Whether a name comes before a name given earlier in `names` only where it
/// is ordered strictly before it; names that compare equal keep their order.
pub open spec fn keeps_ties_in_input_order(names: Seq<String>, order: Seq<usize>) -> bool {
    forall|k: int, l: int|
        #![trigger order[k], order[l]]
        0 <= k < l < order.len() && order[k] > order[l] ==> name_order(
            names[order[k] as int]@,
            names[order[l] as int]@,
        ) == NameOrder::Less
}

/// Inserting position `i` at `j` into a sorted arrangement of the positions
/// below `i` keeps it a sorted arrangement, when the name before the gap is
/// not ordered after name `i` and name `i` is ordered before the name after it.
proof fn lemma_insert_keeps_sorted(names: Seq<String>, old: Seq<usize>, j: int, i: int, new: Seq<usize>)
    requires
        is_index_permutation(old, i),
        is_name_sorted(names, old),
        0 <= j <= i,
        i < names.len(),
        i <= usize::MAX,
        new == old.subrange(0, j).push(i as usize) + old.subrange(j, i),
        j > 0 ==> name_order(names[old[j - 1] as int]@, names[i]@) != NameOrder::Greater,
        j < i ==> name_order(names[i]@, names[old[j] as int]@) == NameOrder::Less,
        keeps_ties_in_input_order(names, old),
        forall|m: int| j <= m < i ==> name_order(names[i]@, #[trigger] names[old[m] as int]@) == NameOrder::Less,
    ensures
        is_index_permutation(new, i + 1),
        is_name_sorted(names, new),
        keeps_ties_in_input_order(names, new),
{
    assert(new.len() == i + 1);
    assert forall|k: int| 0 <= k < new.len() implies #[trigger] new[k] < i + 1 by {
        if k < j {
            assert(new[k] == old[k]);
        } else if k > j {
            assert(new[k] == old[k - 1]);
        }
    }
    assert forall|k: int, l: int| 0 <= k < l < new.len() implies new[k] != new[l] by {
        if k < j {
            assert(new[k] == old[k]);
        } else if k > j {
            assert(new[k] == old[k - 1]);
        }
        if l < j {
            assert(new[l] == old[l]);
        } else if l > j {
            assert(new[l] == old[l - 1]);
        }
    }
    assert forall|k: int, l: int| 0 <= k && l == k + 1 && l < new.len() implies name_order(
        #[trigger] names[new[k] as int]@,
        #[trigger] names[new[l] as int]@,
    ) != NameOrder::Greater by {
        if k + 1 < j {
            assert(new[k] == old[k]);
            assert(new[k + 1] == old[k + 1]);
        } else if k + 1 == j {
            assert(new[k] == old[k]);
            assert(new[k + 1] == i);
        } else if k == j {
            assert(new[k] == i);
            assert(new[k + 1] == old[j]);
        } else {
            assert(new[k] == old[k - 1]);
            assert(new[k + 1] == old[k]);
            assert(names[old[k - 1] as int]@ == names[new[k] as int]@);
        }
    }
    assert forall|k: int, l: int|
        #![trigger new[k], new[l]]
        0 <= k < l < new.len() && new[k] > new[l] implies name_order(
            names[new[k] as int]@,
            names[new[l] as int]@,
        ) == NameOrder::Less by {
        if l < j {
            assert(new[k] == old[k]);
            assert(new[l] == old[l]);
        } else if l == j {
            assert(new[k] == old[k]);
            assert(new[l] == i);
            assert(old[k] < i);
        } else if k < j {
            assert(new[k] == old[k]);
            assert(new[l] == old[l - 1]);
        } else if k == j {
            assert(new[k] == i);
            assert(new[l] == old[l - 1]);
            assert(name_order(names[i]@, names[old[l - 1] as int]@) == NameOrder::Less);
        } else {
            assert(new[k] == old[k - 1]);
            assert(new[l] == old[l - 1]);
        }
    }
}

/// The order in which file names are listed: the positions of `names`,
/// arranged so that no name is ordered after the one that follows it. Names
/// that compare equal keep their relative order.
pub fn sorted_name_order(names: &Vec<String>) -> (order: Vec<usize>)
    ensures
        is_index_permutation(order@, names@.len() as int),
        is_name_sorted(names@, order@),
        keeps_ties_in_input_order(names@, order@),
{
    let mut order: Vec<usize> = Vec::new();
    let mut i: usize = 0;
    while i < names.len()
        invariant
            0 <= i <= names.len(),
            is_index_permutation(order@, i as int),
            is_name_sorted(names@, order@),
            keeps_ties_in_input_order(names@, order@),
        decreases names.len() - i,
    {
        let x = names[i].as_str();
        let mut j: usize = i;
        while j > 0
            invariant
                0 <= j <= i,
                i < names.len(),
                x@ == names@[i as int]@,
                is_index_permutation(order@, i as int),
                is_name_sorted(names@, order@),
                keeps_ties_in_input_order(names@, order@),
                j < i ==> name_order(x@, names@[order@[j as int] as int]@) == NameOrder::Less,
                forall|m: int| j <= m < i ==> name_order(x@, #[trigger] names@[order@[m] as int]@) == NameOrder::Less,
            ensures
                j > 0 ==> name_order(names@[order@[j - 1] as int]@, x@) != NameOrder::Greater,
            decreases j,
        {
            let prev = order[j - 1];
            let c = compare_names(names[prev].as_str(), x);
            if matches!(c, NameOrder::Greater) {
                j = j - 1;
            } else {
                break;
            }
        }
        let ghost old_order = order@;
        order.insert(j, i);
        proof {
            lemma_insert_keeps_sorted(names@, old_order, j as int, i as int, order@);
        }
        i = i + 1;
    }
    order
}

} // verus!
