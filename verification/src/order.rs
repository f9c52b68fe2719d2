//! The order of texts, stable sorting, and sets of texts.

use vstd::prelude::*;

use crate::text;

verus! {

// ---------------------------------------------------------------------------
// The order of texts
// ---------------------------------------------------------------------------

/// Lexicographic order by code point: the order of strings by their bytes.
pub open spec fn text_le(left: Seq<char>, right: Seq<char>) -> bool
    decreases left.len(),
{
    if left.len() == 0 {
        true
    } else if right.len() == 0 {
        false
    } else if left[0] != right[0] {
        left[0] < right[0]
    } else {
        text_le(left.drop_first(), right.drop_first())
    }
}

/// Of two texts, one does not come after the other.
pub proof fn law_text_order_is_total(left: Seq<char>, right: Seq<char>)
    ensures
        text_le(left, right) || text_le(right, left),
    decreases left.len(),
{
    if left.len() > 0 && right.len() > 0 && left[0] == right[0] {
        law_text_order_is_total(left.drop_first(), right.drop_first());
    }
}

/// The order of texts is transitive.
pub proof fn law_text_order_is_transitive(first: Seq<char>, second: Seq<char>, third: Seq<char>)
    requires
        text_le(first, second),
        text_le(second, third),
    ensures
        text_le(first, third),
    decreases first.len(),
{
    if first.len() > 0 && first[0] == second[0] && second[0] == third[0] {
        law_text_order_is_transitive(
            first.drop_first(),
            second.drop_first(),
            third.drop_first(),
        );
    }
}

/// Two texts neither of which comes after the other are equal.
pub proof fn law_text_order_is_antisymmetric(left: Seq<char>, right: Seq<char>)
    requires
        text_le(left, right),
        text_le(right, left),
    ensures
        left == right,
    decreases left.len(),
{
    if left.len() > 0 {
        law_text_order_is_antisymmetric(left.drop_first(), right.drop_first());
        assert(left =~= seq![left[0]] + left.drop_first());
        assert(right =~= seq![right[0]] + right.drop_first());
    } else {
        assert(left =~= right);
    }
}

/// A text comes before every longer one that begins with it; otherwise the first
/// characters that differ decide, by their code points.
pub proof fn law_the_first_difference_decides(
    beginning: Seq<char>,
    left: char,
    behind_left: Seq<char>,
    right: char,
    behind_right: Seq<char>,
)
    ensures
        text_le(beginning, beginning.push(left) + behind_left),
        !text_le(beginning.push(left) + behind_left, beginning),
        left != right ==> (text_le(
            beginning.push(left) + behind_left,
            beginning.push(right) + behind_right,
        ) <==> (left as u32) < right as u32),
    decreases beginning.len(),
{
    let first = beginning.push(left) + behind_left;
    let second = beginning.push(right) + behind_right;
    if beginning.len() > 0 {
        let shorter = beginning.drop_first();
        law_the_first_difference_decides(shorter, left, behind_left, right, behind_right);
        assert(first.drop_first() =~= shorter.push(left) + behind_left);
        assert(second.drop_first() =~= shorter.push(right) + behind_right);
    }
}

/// Whether one text does not come after another.
pub fn text_not_after(left: &str, right: &str) -> (ordered: bool)
    ensures
        ordered == text_le(left@, right@),
{
    let first = text::chars_of(left);
    let second = text::chars_of(right);
    let mut index: usize = 0;
    assert(first@.skip(0) =~= first@);
    assert(second@.skip(0) =~= second@);
    loop
        invariant
            first@ == left@,
            second@ == right@,
            index <= first@.len(),
            index <= second@.len(),
            text_le(left@, right@) == text_le(left@.skip(index as int), right@.skip(index as int)),
        decreases first@.len() - index,
    {
        if index == first.len() {
            return true;
        }
        if index == second.len() {
            return false;
        }
        if first[index] != second[index] {
            return first[index] < second[index];
        }
        proof {
            assert(left@.skip(index as int).drop_first() =~= left@.skip(index + 1));
            assert(right@.skip(index as int).drop_first() =~= right@.skip(index + 1));
        }
        index += 1;
    }
}

/// Lexicographic order of bytes.
pub open spec fn bytes_le(left: Seq<u8>, right: Seq<u8>) -> bool
    decreases left.len(),
{
    if left.len() == 0 {
        true
    } else if right.len() == 0 {
        false
    } else if left[0] != right[0] {
        left[0] < right[0]
    } else {
        bytes_le(left.drop_first(), right.drop_first())
    }
}

/// Whether the first byte in which two sequences differ is smaller on the left.
spec fn is_below(left: Seq<u8>, right: Seq<u8>, place: int) -> bool {
    &&& 0 <= place < left.len()
    &&& place < right.len()
    &&& forall|i: int| 0 <= i < place ==> left[i] == right[i]
    &&& left[place] < right[place]
}

proof fn lemma_below(
    left: Seq<u8>,
    right: Seq<u8>,
    behind_left: Seq<u8>,
    behind_right: Seq<u8>,
    place: int,
)
    requires
        is_below(left, right, place),
    ensures
        bytes_le(left + behind_left, right + behind_right),
        !bytes_le(right + behind_right, left + behind_left),
    decreases place,
{
    if place > 0 {
        let first = left.drop_first();
        let second = right.drop_first();
        assert(left[0] == right[0]);
        assert forall|i: int| 0 <= i < place - 1 implies first[i] == second[i] by {
            assert(left[i + 1] == right[i + 1]);
        }
        assert(is_below(first, second, place - 1));
        lemma_below(first, second, behind_left, behind_right, place - 1);
        assert((left + behind_left).drop_first() =~= first + behind_left);
        assert((right + behind_right).drop_first() =~= second + behind_right);
    }
}

proof fn lemma_same_beginning(beginning: Seq<u8>, left: Seq<u8>, right: Seq<u8>)
    ensures
        bytes_le(beginning + left, beginning + right) == bytes_le(left, right),
    decreases beginning.len(),
{
    if beginning.len() == 0 {
        assert(beginning + left =~= left);
        assert(beginning + right =~= right);
    } else {
        lemma_same_beginning(beginning.drop_first(), left, right);
        assert((beginning + left).drop_first() =~= beginning.drop_first() + left);
        assert((beginning + right).drop_first() =~= beginning.drop_first() + right);
    }
}

proof fn lemma_leading_bytes(scalar: u32)
    requires
        vstd::utf8::is_scalar(scalar),
    ensures
        vstd::utf8::has_width_1_encoding(scalar) ==> vstd::utf8::leading_byte_width_1(scalar)
            == scalar,
        vstd::utf8::has_width_2_encoding(scalar) ==> 0xc0 <= vstd::utf8::leading_byte_width_2(
            scalar,
        ) < 0xe0,
        vstd::utf8::has_width_3_encoding(scalar) ==> 0xe0 <= vstd::utf8::leading_byte_width_3(
            scalar,
        ) < 0xf0,
        vstd::utf8::has_width_4_encoding(scalar) ==> 0xf0 <= vstd::utf8::leading_byte_width_4(
            scalar,
        ),
{
    assert(scalar <= 0x7f ==> (scalar & 0x7f) as u8 == scalar) by (bit_vector);
    assert(0xc0u8 <= (0xc0u8 | (((scalar >> 6) & 0x1f) as u8))) by (bit_vector);
    assert((0xc0u8 | (((scalar >> 6) & 0x1f) as u8)) < 0xe0u8) by (bit_vector);
    assert(0xe0u8 <= (0xe0u8 | (((scalar >> 12) & 0x0f) as u8))) by (bit_vector);
    assert((0xe0u8 | (((scalar >> 12) & 0x0f) as u8)) < 0xf0u8) by (bit_vector);
    assert(0xf0u8 <= (0xf0u8 | (((scalar >> 18) & 0x7) as u8))) by (bit_vector);
}

proof fn lemma_scalar_order(smaller: u32, larger: u32) -> (place: int)
    requires
        vstd::utf8::is_scalar(smaller),
        vstd::utf8::is_scalar(larger),
        smaller < larger,
    ensures
        is_below(
            vstd::utf8::encode_scalar(smaller),
            vstd::utf8::encode_scalar(larger),
            place,
        ),
{
    let left = vstd::utf8::encode_scalar(smaller);
    let right = vstd::utf8::encode_scalar(larger);
    lemma_leading_bytes(smaller);
    lemma_leading_bytes(larger);
    if left.len() != right.len() || left[0] != right[0] {
        if left.len() == 2 && right.len() == 2 {
            assert(smaller < larger <= 0x7ff ==> (0xc0u8 | (((smaller >> 6) & 0x1f) as u8)) <= (0xc0u8 | (((larger >> 6) & 0x1f) as u8))) by (bit_vector);
        } else if left.len() == 3 && right.len() == 3 {
            assert(smaller < larger <= 0xffff ==> (0xe0u8 | (((smaller >> 12) & 0x0f) as u8)) <= (0xe0u8 | (((larger >> 12) & 0x0f) as u8))) by (bit_vector);
        } else if left.len() == 4 && right.len() == 4 {
            assert(smaller < larger <= 0x10ffff ==> (0xf0u8 | (((smaller >> 18) & 0x7) as u8)) <= (0xf0u8 | (((larger >> 18) & 0x7) as u8))) by (bit_vector);
        }
        assert(is_below(left, right, 0));
        0
    } else if left.len() == 2 {
        assert(smaller < larger <= 0x7ff && (0xc0u8 | (((smaller >> 6) & 0x1f) as u8)) == (0xc0u8 | (((larger >> 6) & 0x1f) as u8)) ==> (0x80u8 | ((smaller & 0x3f) as u8)) < (0x80u8 | ((larger & 0x3f) as u8))) by (bit_vector);
        assert(is_below(left, right, 1));
        1
    } else if left.len() == 3 {
        if left[1] != right[1] {
            assert(smaller < larger <= 0xffff && (0xe0u8 | (((smaller >> 12) & 0x0f) as u8)) == (0xe0u8 | (((larger >> 12) & 0x0f) as u8)) ==> (0x80u8 | (((smaller >> 6) & 0x3f) as u8))
                <= (0x80u8 | (((larger >> 6) & 0x3f) as u8))) by (bit_vector);
            assert(is_below(left, right, 1));
            1
        } else {
            assert(smaller < larger <= 0xffff && (0xe0u8 | (((smaller >> 12) & 0x0f) as u8)) == (0xe0u8 | (((larger >> 12) & 0x0f) as u8)) && (0x80u8 | (((smaller >> 6) & 0x3f) as u8))
                == (0x80u8 | (((larger >> 6) & 0x3f) as u8)) ==> (0x80u8 | ((smaller & 0x3f) as u8))
                < (0x80u8 | ((larger & 0x3f) as u8))) by (bit_vector);
            assert(is_below(left, right, 2));
            2
        }
    } else if left[1] != right[1] {
        assert(smaller < larger <= 0x10ffff && (0xf0u8 | (((smaller >> 18) & 0x7) as u8)) == (0xf0u8 | (((larger >> 18) & 0x7) as u8)) ==> (0x80u8 | (((smaller >> 12) & 0x3f) as u8)) <= (0x80u8 | (((larger >> 12) & 0x3f) as u8))) by (bit_vector);
        assert(is_below(left, right, 1));
        1
    } else if left[2] != right[2] {
        assert(smaller < larger <= 0x10ffff && (0xf0u8 | (((smaller >> 18) & 0x7) as u8)) == (0xf0u8 | (((larger >> 18) & 0x7) as u8)) && (0x80u8 | (((smaller >> 12) & 0x3f) as u8)) == (0x80u8 | (((larger >> 12) & 0x3f) as u8)) ==> (0x80u8 | (((smaller >> 6) & 0x3f) as u8)) <= (0x80u8 | (((larger >> 6) & 0x3f) as u8))) by (bit_vector);
        assert(is_below(left, right, 2));
        2
    } else {
        assert(smaller < larger <= 0x10ffff && (0xf0u8 | (((smaller >> 18) & 0x7) as u8)) == (0xf0u8 | (((larger >> 18) & 0x7) as u8)) && (0x80u8 | (((smaller >> 12) & 0x3f) as u8)) == (0x80u8 | (((larger >> 12) & 0x3f) as u8)) && (0x80u8 | (((smaller >> 6) & 0x3f) as u8)) == (0x80u8 | (((larger >> 6) & 0x3f) as u8)) ==> (0x80u8 | ((smaller & 0x3f) as u8)) < (0x80u8 | ((larger & 0x3f) as u8)))
            by (bit_vector);
        assert(is_below(left, right, 3));
        3
    }
}

proof fn lemma_char_order(left: char, right: char)
    ensures
        left == right <==> left as u32 == right as u32,
        left < right <==> (left as u32) < right as u32,
{
}

/// The order of texts is that of the bytes of their encodings.
pub proof fn law_text_order_is_that_of_the_bytes(left: Seq<char>, right: Seq<char>)
    ensures
        text_le(left, right) == bytes_le(
            vstd::utf8::encode_utf8(left),
            vstd::utf8::encode_utf8(right),
        ),
    decreases left.len(),
{
    if left.len() > 0 && right.len() > 0 {
        let first = left[0] as u32;
        let second = right[0] as u32;
        let behind_left = vstd::utf8::encode_utf8(left.drop_first());
        let behind_right = vstd::utf8::encode_utf8(right.drop_first());
        vstd::utf8::char_is_scalar(left[0]);
        vstd::utf8::char_is_scalar(right[0]);
        lemma_char_order(left[0], right[0]);
        if left[0] == right[0] {
            law_text_order_is_that_of_the_bytes(left.drop_first(), right.drop_first());
            lemma_same_beginning(vstd::utf8::encode_scalar(first), behind_left, behind_right);
        } else if first < second {
            let place = lemma_scalar_order(first, second);
            lemma_below(
                vstd::utf8::encode_scalar(first),
                vstd::utf8::encode_scalar(second),
                behind_left,
                behind_right,
                place,
            );
        } else {
            let place = lemma_scalar_order(second, first);
            lemma_below(
                vstd::utf8::encode_scalar(second),
                vstd::utf8::encode_scalar(first),
                behind_right,
                behind_left,
                place,
            );
        }
    }
}

// ---------------------------------------------------------------------------
// Stable sorting
// ---------------------------------------------------------------------------

/// The views of the items of a sequence.
pub open spec fn views<T: View>(items: Seq<T>) -> Seq<T::V> {
    items.map_values(|item: T| item@)
}

/// A sorted sequence with an item added behind all items that need not come
/// after it.
pub open spec fn inserted<V>(sorted: Seq<V>, item: V, le: spec_fn(V, V) -> bool) -> Seq<V>
    decreases sorted.len(),
{
    if sorted.len() == 0 || le(sorted.last(), item) {
        sorted.push(item)
    } else {
        inserted(sorted.drop_last(), item, le).push(sorted.last())
    }
}

/// A sequence in ascending order, items of equal rank in the order they had.
pub open spec fn stable_sort<V>(items: Seq<V>, le: spec_fn(V, V) -> bool) -> Seq<V>
    decreases items.len(),
{
    if items.len() == 0 {
        Seq::empty()
    } else {
        inserted(stable_sort(items.drop_last(), le), items.last(), le)
    }
}

/// Whether a relation is total and transitive.
pub open spec fn is_total_preorder<V>(le: spec_fn(V, V) -> bool) -> bool {
    &&& forall|left: V, right: V| #[trigger] le(left, right) || le(right, left)
    &&& forall|first: V, second: V, third: V|
        #[trigger] le(first, second) && #[trigger] le(second, third) ==> le(first, third)
}

/// Whether each item need not come after any later one.
pub open spec fn is_ascending<V>(items: Seq<V>, le: spec_fn(V, V) -> bool) -> bool {
    forall|i: int, j: int| 0 <= i < j < items.len() ==> le(#[trigger] items[i], #[trigger] items[j])
}

/// The items of the same rank as a given one, in their order.
pub open spec fn same_rank<V>(items: Seq<V>, item: V, le: spec_fn(V, V) -> bool) -> Seq<V> {
    items.filter(|other: V| le(item, other) && le(other, item))
}

proof fn lemma_inserted<V>(sorted: Seq<V>, item: V, le: spec_fn(V, V) -> bool)
    requires
        is_total_preorder(le),
        is_ascending(sorted, le),
    ensures
        is_ascending(inserted(sorted, item, le), le),
        inserted(sorted, item, le).to_multiset() == sorted.push(item).to_multiset(),
        inserted(sorted, item, le).len() == sorted.len() + 1,
        forall|i: int|
            0 <= i <= sorted.len() ==> {
                ||| #[trigger] inserted(sorted, item, le)[i] == item
                ||| exists|j: int| 0 <= j < sorted.len() && inserted(sorted, item, le)[i] == sorted[j]
            },
    decreases sorted.len(),
{
    broadcast use vstd::seq_lib::group_to_multiset_ensures;

    if sorted.len() == 0 || le(sorted.last(), item) {
        assert(forall|i: int| 0 <= i < sorted.len() ==> #[trigger] sorted.push(item)[i] == sorted[i]);
        assert forall|i: int, j: int| 0 <= i < j < sorted.push(item).len() implies le(
            #[trigger] sorted.push(item)[i],
            #[trigger] sorted.push(item)[j],
        ) by {
            if j == sorted.len() && i < sorted.len() - 1 {
                assert(le(sorted[i], sorted.last()));
            }
        }
    } else {
        let front = sorted.drop_last();
        let placed = inserted(front, item, le);
        lemma_inserted(front, item, le);
        let result = placed.push(sorted.last());
        assert(le(item, sorted.last()));
        assert forall|i: int, j: int| 0 <= i < j < result.len() implies le(
            #[trigger] result[i],
            #[trigger] result[j],
        ) by {
            if j == placed.len() {
                assert(placed[i] == item || exists|k: int|
                    0 <= k < front.len() && placed[i] == front[k]);
                if placed[i] != item {
                    let k = choose|k: int| 0 <= k < front.len() && placed[i] == front[k];
                    assert(le(sorted[k], sorted.last()));
                }
            } else {
                assert(result[i] == placed[i] && result[j] == placed[j]);
            }
        }
        assert forall|i: int| 0 <= i <= sorted.len() implies {
            ||| #[trigger] result[i] == item
            ||| exists|j: int| 0 <= j < sorted.len() && result[i] == sorted[j]
        } by {
            if i == placed.len() {
                assert(result[i] == sorted[sorted.len() - 1]);
            } else {
                assert(result[i] == placed[i]);
                if placed[i] != item {
                    let k = choose|k: int| 0 <= k < front.len() && placed[i] == front[k];
                    assert(result[i] == sorted[k]);
                }
            }
        }
        assert(sorted =~= front.push(sorted.last()));
        assert(result.to_multiset() =~= sorted.push(item).to_multiset());
    }
}

proof fn lemma_inserted_is_stable<V>(
    sorted: Seq<V>,
    item: V,
    le: spec_fn(V, V) -> bool,
    rank: V,
)
    requires
        is_total_preorder(le),
    ensures
        same_rank(inserted(sorted, item, le), rank, le) == same_rank(sorted.push(item), rank, le),
    decreases sorted.len(),
{
    reveal_with_fuel(Seq::filter, 3);
    if !(sorted.len() == 0 || le(sorted.last(), item)) {
        let front = sorted.drop_last();
        lemma_inserted_is_stable(front, item, le, rank);
        assert(sorted.push(item).drop_last() =~= sorted);
        assert(front.push(item).drop_last() =~= front);
        assert(inserted(front, item, le).push(sorted.last()).drop_last() =~= inserted(
            front,
            item,
            le,
        ));
    }
}

/// A stable sort puts the items in ascending order.
pub proof fn law_sort_is_ascending<V>(items: Seq<V>, le: spec_fn(V, V) -> bool)
    requires
        is_total_preorder(le),
    ensures
        is_ascending(stable_sort(items, le), le),
        stable_sort(items, le).len() == items.len(),
    decreases items.len(),
{
    if items.len() > 0 {
        law_sort_is_ascending(items.drop_last(), le);
        lemma_inserted(stable_sort(items.drop_last(), le), items.last(), le);
    }
}

/// A stable sort keeps every item, as often as it occurs.
pub proof fn law_sort_keeps_the_items<V>(items: Seq<V>, le: spec_fn(V, V) -> bool)
    requires
        is_total_preorder(le),
    ensures
        stable_sort(items, le).to_multiset() == items.to_multiset(),
    decreases items.len(),
{
    broadcast use vstd::seq_lib::group_to_multiset_ensures;

    if items.len() > 0 {
        let front = stable_sort(items.drop_last(), le);
        law_sort_is_ascending(items.drop_last(), le);
        law_sort_keeps_the_items(items.drop_last(), le);
        lemma_inserted(front, items.last(), le);
        assert(items =~= items.drop_last().push(items.last()));
        assert(front.push(items.last()).to_multiset() =~= items.to_multiset());
    } else {
        assert(items =~= Seq::<V>::empty());
    }
}

/// A stable sort leaves items of equal rank in the order they had.
pub proof fn law_sort_is_stable<V>(items: Seq<V>, le: spec_fn(V, V) -> bool, rank: V)
    requires
        is_total_preorder(le),
    ensures
        same_rank(stable_sort(items, le), rank, le) == same_rank(items, rank, le),
    decreases items.len(),
{
    reveal_with_fuel(Seq::filter, 2);
    if items.len() > 0 {
        let front = stable_sort(items.drop_last(), le);
        law_sort_is_stable(items.drop_last(), le, rank);
        lemma_inserted_is_stable(front, items.last(), le, rank);
        assert(front.push(items.last()).drop_last() =~= front);
    } else {
        assert(items =~= Seq::<V>::empty());
    }
}

/// Two items of a sorted sequence stood at two places of the sequence.
pub proof fn lemma_sorted_places<V>(
    items: Seq<V>,
    le: spec_fn(V, V) -> bool,
    left: int,
    right: int,
) -> (places: (int, int))
    requires
        is_total_preorder(le),
        0 <= left < right < stable_sort(items, le).len(),
    ensures
        ({
            let (i, j) = places;
            &&& 0 <= i < items.len() && 0 <= j < items.len() && i != j
            &&& items[i] == stable_sort(items, le)[left]
            &&& items[j] == stable_sort(items, le)[right]
        }),
    decreases items.len(),
{
    law_sort_is_ascending(items, le);
    let front = stable_sort(items.drop_last(), le);
    let position = lemma_inserted_somewhere(front, items.last(), le);
    let end = items.len() - 1;
    law_sort_is_ascending(items.drop_last(), le);
    if left == position {
        (end, lemma_sorted_place(items.drop_last(), le, right - 1))
    } else if right == position {
        (lemma_sorted_place(items.drop_last(), le, left), end)
    } else {
        let first = if left < position {
            left
        } else {
            left - 1
        };
        let second = if right < position {
            right
        } else {
            right - 1
        };
        lemma_sorted_places(items.drop_last(), le, first, second)
    }
}

proof fn lemma_sorted_place<V>(items: Seq<V>, le: spec_fn(V, V) -> bool, place: int) -> (index: int)
    requires
        is_total_preorder(le),
        0 <= place < stable_sort(items, le).len(),
    ensures
        0 <= index < items.len(),
        items[index] == stable_sort(items, le)[place],
    decreases items.len(),
{
    law_sort_is_ascending(items, le);
    let front = stable_sort(items.drop_last(), le);
    let position = lemma_inserted_somewhere(front, items.last(), le);
    law_sort_is_ascending(items.drop_last(), le);
    if place == position {
        items.len() - 1
    } else if place < position {
        lemma_sorted_place(items.drop_last(), le, place)
    } else {
        lemma_sorted_place(items.drop_last(), le, place - 1)
    }
}

proof fn lemma_inserted_somewhere<V>(sorted: Seq<V>, item: V, le: spec_fn(V, V) -> bool) -> (
    position: int)
    ensures
        0 <= position <= sorted.len(),
        inserted(sorted, item, le) == sorted.insert(position, item),
    decreases sorted.len(),
{
    if sorted.len() == 0 || le(sorted.last(), item) {
        assert(sorted.insert(sorted.len() as int, item) =~= sorted.push(item));
        sorted.len() as int
    } else {
        let front = sorted.drop_last();
        let position = lemma_inserted_somewhere(front, item, le);
        assert(front.insert(position, item).push(sorted.last()) =~= sorted.insert(position, item));
        position
    }
}

/// An item that has a rank among its like.
pub trait Ranked: View + Sized {
    /// Whether one item need not come after another.
    spec fn ranks(left: Self::V, right: Self::V) -> bool;

    /// Whether this item need not come after another.
    fn not_after(&self, other: &Self) -> (ordered: bool)
        ensures
            ordered == Self::ranks(self@, other@),
    ;
}

/// The rank relation of a type, as a function.
pub open spec fn rank_order<T: Ranked>() -> spec_fn(T::V, T::V) -> bool {
    |left: T::V, right: T::V| T::ranks(left, right)
}

proof fn lemma_inserted_at<V>(sorted: Seq<V>, item: V, le: spec_fn(V, V) -> bool, position: int)
    requires
        0 <= position <= sorted.len(),
        position > 0 ==> le(sorted[position - 1], item),
        forall|i: int| position <= i < sorted.len() ==> !le(#[trigger] sorted[i], item),
    ensures
        inserted(sorted, item, le) == sorted.insert(position, item),
    decreases sorted.len(),
{
    if position == sorted.len() {
        assert(sorted.insert(position, item) =~= sorted.push(item));
    } else {
        let front = sorted.drop_last();
        lemma_inserted_at(front, item, le, position);
        assert(!le(sorted[sorted.len() - 1], item));
        assert(front.insert(position, item).push(sorted.last()) =~= sorted.insert(position, item));
    }
}

/// Sorts items by rank, items of equal rank in the order they had.
pub fn sort_by_rank<T: Ranked>(items: Vec<T>) -> (sorted: Vec<T>)
    ensures
        views(sorted@) == stable_sort(views(items@), rank_order::<T>()),
{
    let ghost all = views(items@);
    let ghost le = rank_order::<T>();
    let mut sorted: Vec<T> = Vec::new();
    let mut remaining = items;
    let mut reversed: Vec<T> = Vec::new();
    while remaining.len() > 0
        invariant
            all == views(remaining@) + views(reversed@).reverse(),
        decreases remaining@.len(),
    {
        let ghost before = remaining@;
        let ghost back = reversed@;
        match remaining.pop() {
            Some(item) => {
                reversed.push(item);
                assert(views(remaining@) + views(reversed@).reverse() =~= views(before) + views(
                    back,
                ).reverse());
            },
            None => {},
        }
    }
    assert(all =~= views(reversed@).reverse());
    let ghost mut count: int = 0;
    assert(all.take(0) =~= Seq::empty());
    assert(views(sorted@) =~= stable_sort(all.take(0), le));
    while reversed.len() > 0
        invariant
            le == rank_order::<T>(),
            0 <= count <= all.len(),
            views(reversed@).reverse() == all.skip(count),
            views(sorted@) == stable_sort(all.take(count), le),
        decreases reversed@.len(),
    {
        let ghost back = reversed@;
        match reversed.pop() {
            Some(item) => {
                proof {
                    assert(views(back).reverse()[0] == item@);
                    assert(all.skip(count).len() == back.len());
                    assert(all.skip(count)[0] == all[count]);
                    assert(views(reversed@).reverse() =~= views(back).reverse().drop_first());
                    assert(all.skip(count).drop_first() =~= all.skip(count + 1));
                    assert(all.take(count + 1).drop_last() =~= all.take(count));
                }
                let mut position: usize = sorted.len();
                while position > 0 && !sorted[position - 1].not_after(&item)
                    invariant
                        le == rank_order::<T>(),
                        position <= sorted@.len(),
                        forall|i: int|
                            position <= i < sorted@.len() ==> !le(
                                #[trigger] views(sorted@)[i],
                                item@,
                            ),
                    decreases position,
                {
                    position -= 1;
                }
                let ghost placed = sorted@;
                proof {
                    lemma_inserted_at(views(sorted@), item@, le, position as int);
                    assert(views(placed.insert(position as int, item)) =~= views(placed).insert(
                        position as int,
                        item@,
                    ));
                }
                sorted.insert(position, item);
                proof {
                    count = count + 1;
                }
            },
            None => {},
        }
    }
    proof {
        assert(all.skip(count).len() == 0);
        assert(all.take(count) =~= all);
    }
    sorted
}

// ---------------------------------------------------------------------------
// Sets of texts
// ---------------------------------------------------------------------------

/// A set of texts.
#[derive(Debug, Default)]
pub struct TextSet {
    items: Vec<String>,
}

impl View for TextSet {
    type V = Set<Seq<char>>;

    closed spec fn view(&self) -> Set<Seq<char>> {
        text::texts(self.items@).to_set()
    }
}

impl TextSet {
    /// The empty set.
    pub fn new() -> (set: TextSet)
        ensures
            set@ == Set::<Seq<char>>::empty(),
    {
        let set = TextSet { items: Vec::new() };
        assert(set@ =~= Set::<Seq<char>>::empty());
        set
    }

    /// Whether a text is in the set.
    pub fn contains(&self, wanted: &str) -> (found: bool)
        ensures
            found == self@.contains(wanted@),
    {
        let mut index: usize = 0;
        while index < self.items.len()
            invariant
                index <= self.items@.len(),
                forall|i: int| 0 <= i < index ==> #[trigger] text::texts(self.items@)[i] != wanted@,
            decreases self.items@.len() - index,
        {
            if text::text_eq(self.items[index].as_str(), wanted) {
                assert(text::texts(self.items@)[index as int] == wanted@);
                return true;
            }
            index += 1;
        }
        false
    }

    /// Adds a text to the set.
    pub fn insert(&mut self, item: &str)
        ensures
            final(self)@ == old(self)@.insert(item@),
    {
        if self.contains(item) {
            assert(self@ =~= self@.insert(item@));
            return;
        }
        let ghost before = self.items@;
        let added = item.to_owned();
        self.items.push(added);
        proof {
            let old_texts = text::texts(before);
            assert(text::texts(self.items@) =~= old_texts.push(item@));
            assert forall|t: Seq<char>| self@.contains(t) <==> old_texts.to_set().insert(
                item@,
            ).contains(t) by {
                if old_texts.contains(t) {
                    let i = choose|i: int| 0 <= i < old_texts.len() && old_texts[i] == t;
                    assert(old_texts.push(item@)[i] == t);
                }
                if t == item@ {
                    assert(old_texts.push(item@)[old_texts.len() as int] == t);
                }
            }
            assert(self@ =~= old_texts.to_set().insert(item@));
        }
    }

    /// Takes a text out of the set, and says whether it was there.
    pub fn remove(&mut self, item: &str) -> (removed: bool)
        ensures
            removed == old(self)@.contains(item@),
            final(self)@ == old(self)@.remove(item@),
    {
        let removed = self.contains(item);
        let ghost before = text::texts(self.items@);
        let mut kept: Vec<String> = Vec::new();
        let mut index: usize = 0;
        while index < self.items.len()
            invariant
                index <= self.items@.len(),
                before == text::texts(self.items@),
                forall|t: Seq<char>|
                    #[trigger] text::texts(kept@).contains(t) <==> t != item@ && before.take(
                        index as int,
                    ).contains(t),
            decreases self.items@.len() - index,
        {
            let ghost held = text::texts(kept@);
            let ghost seen = before.take(index as int);
            let ghost current = before[index as int];
            proof {
                assert(before.take(index + 1) =~= seen.push(current));
                assert forall|t: Seq<char>|
                    #[trigger] seen.push(current).contains(t) <==> seen.contains(t) || t == current by {
                    if seen.contains(t) {
                        let i = choose|i: int| 0 <= i < seen.len() && seen[i] == t;
                        assert(seen.push(current)[i] == t);
                    }
                    assert(seen.push(current)[seen.len() as int] == current);
                }
            }
            if !text::text_eq(self.items[index].as_str(), item) {
                let copy = self.items[index].clone();
                proof {
                    assert(text::texts(kept@.push(copy)) =~= held.push(current));
                    assert forall|t: Seq<char>|
                        #[trigger] held.push(current).contains(t) <==> held.contains(t) || t
                            == current by {
                        if held.contains(t) {
                            let i = choose|i: int| 0 <= i < held.len() && held[i] == t;
                            assert(held.push(current)[i] == t);
                        }
                        assert(held.push(current)[held.len() as int] == current);
                    }
                }
                kept.push(copy);
            }
            index += 1;
        }
        self.items = kept;
        proof {
            assert(before.take(before.len() as int) =~= before);
            assert(self@ =~= before.to_set().remove(item@));
        }
        removed
    }
}

// ---------------------------------------------------------------------------
// Sorted lists without repetition
// ---------------------------------------------------------------------------

/// Whether each text comes before every later one.
pub open spec fn is_strictly_ascending(names: Seq<Seq<char>>) -> bool {
    forall|i: int, j: int|
        0 <= i < j < names.len() ==> text_le(#[trigger] names[i], #[trigger] names[j]) && names[i]
            != names[j]
}

/// A strictly ascending sequence is fixed by the texts it holds.
pub proof fn law_strictly_ascending_is_unique(left: Seq<Seq<char>>, right: Seq<Seq<char>>)
    requires
        is_strictly_ascending(left),
        is_strictly_ascending(right),
        forall|name: Seq<char>| left.contains(name) <==> right.contains(name),
    ensures
        left == right,
    decreases left.len(),
{
    if left.len() == 0 {
        if right.len() > 0 {
            assert(right.contains(right[0]));
        }
        assert(left =~= right);
    } else {
        assert(left.contains(left[left.len() - 1]));
        let a = left.last();
        assert(right.len() > 0);
        assert(right.contains(right[right.len() - 1]));
        let b = right.last();
        let i = choose|i: int| 0 <= i < right.len() && right[i] == a;
        let j = choose|j: int| 0 <= j < left.len() && left[j] == b;
        law_text_order_is_total(a, a);
        law_text_order_is_total(b, b);
        assert(text_le(a, b));
        assert(text_le(b, a));
        law_text_order_is_antisymmetric(a, b);
        let shorter_left = left.drop_last();
        let shorter_right = right.drop_last();
        assert forall|name: Seq<char>| shorter_left.contains(name) <==> shorter_right.contains(
            name,
        ) by {
            if shorter_left.contains(name) {
                let k = choose|k: int| 0 <= k < shorter_left.len() && shorter_left[k] == name;
                assert(left[k] == name && left[k] != left[left.len() - 1]);
                assert(left.contains(name));
                let m = choose|m: int| 0 <= m < right.len() && right[m] == name;
                assert(shorter_right[m] == name);
            }
            if shorter_right.contains(name) {
                let k = choose|k: int| 0 <= k < shorter_right.len() && shorter_right[k] == name;
                assert(right[k] == name && right[k] != right[right.len() - 1]);
                assert(right.contains(name));
                let m = choose|m: int| 0 <= m < left.len() && left[m] == name;
                assert(shorter_left[m] == name);
            }
        }
        assert(is_strictly_ascending(shorter_left)) by {
            assert forall|i: int, j: int| 0 <= i < j < shorter_left.len() implies text_le(
                #[trigger] shorter_left[i],
                #[trigger] shorter_left[j],
            ) && shorter_left[i] != shorter_left[j] by {
                assert(left[i] == shorter_left[i] && left[j] == shorter_left[j]);
            }
        }
        assert(is_strictly_ascending(shorter_right)) by {
            assert forall|i: int, j: int| 0 <= i < j < shorter_right.len() implies text_le(
                #[trigger] shorter_right[i],
                #[trigger] shorter_right[j],
            ) && shorter_right[i] != shorter_right[j] by {
                assert(right[i] == shorter_right[i] && right[j] == shorter_right[j]);
            }
        }
        law_strictly_ascending_is_unique(shorter_left, shorter_right);
        assert(left =~= shorter_left.push(a));
        assert(right =~= shorter_right.push(b));
    }
}

/// Adds a text to a strictly ascending list, unless it is there.
pub fn insert_name(names: &mut Vec<String>, name: &str)
    requires
        is_strictly_ascending(text::texts(old(names)@)),
    ensures
        is_strictly_ascending(text::texts(final(names)@)),
        forall|other: Seq<char>|
            text::texts(final(names)@).contains(other) <==> text::texts(old(names)@).contains(other)
                || other == name@,
{
    let ghost before = text::texts(names@);
    let mut position: usize = 0;
    while position < names.len() && !text_not_after(name, names[position].as_str())
        invariant
            position <= names@.len(),
            before == text::texts(names@),
            forall|i: int| 0 <= i < position ==> !text_le(name@, #[trigger] before[i]),
        decreases names@.len() - position,
    {
        position += 1;
    }
    if position < names.len() && text::text_eq(names[position].as_str(), name) {
        assert(before[position as int] == name@);
        return;
    }
    let added = name.to_owned();
    names.insert(position, added);
    proof {
        let after = text::texts(names@);
        assert(after =~= before.insert(position as int, name@));
        assert forall|i: int, j: int| 0 <= i < j < after.len() implies text_le(
            #[trigger] after[i],
            #[trigger] after[j],
        ) && after[i] != after[j] by {
            if j < position {
                assert(after[i] == before[i] && after[j] == before[j]);
            } else if j == position {
                assert(after[i] == before[i]);
                assert(!text_le(name@, before[i]));
                law_text_order_is_total(before[i], name@);
                law_text_order_is_total(name@, name@);
            } else if i == position {
                assert(after[j] == before[j - 1]);
                if j - 1 > position {
                    assert(text_le(before[position as int], before[j - 1]));
                    law_text_order_is_transitive(name@, before[position as int], before[j - 1]);
                    if name@ == before[j - 1] {
                        law_text_order_is_antisymmetric(before[position as int], name@);
                    }
                }
            } else if i < position {
                assert(after[i] == before[i] && after[j] == before[j - 1]);
            } else {
                assert(after[i] == before[i - 1] && after[j] == before[j - 1]);
            }
        }
        assert forall|other: Seq<char>| after.contains(other) <==> before.contains(other) || other
            == name@ by {
            if before.contains(other) {
                let i = choose|i: int| 0 <= i < before.len() && before[i] == other;
                assert(after[if i < position { i } else { i + 1 }] == other);
            }
            assert(after[position as int] == name@);
            if after.contains(other) {
                let i = choose|i: int| 0 <= i < after.len() && after[i] == other;
                if i < position {
                    assert(before[i] == other);
                } else if i > position {
                    assert(before[i - 1] == other);
                }
            }
        }
    }
}

} // verus!
