//! Allow-lists of file descriptors: strictly ascending, so that every
//! descriptor occurs once and a list is determined by what it holds.

use crate::error::{Argument, Error};
use vstd::prelude::*;

verus! {

/// Every element is smaller than the ones after it.
pub open spec fn ascending(list: Seq<i32>) -> bool {
    forall|i: int, j: int| 0 <= i < j < list.len() ==> list[i] < list[j]
}

/// A valid allow-list: strictly ascending, and no descriptor is negative.
pub open spec fn valid_descriptors(list: Seq<i32>) -> bool {
    &&& ascending(list)
    &&& forall|i: int| 0 <= i < list.len() ==> 0 <= #[trigger] list[i]
}

/// `fd` is at exactly one place of `list`.
pub open spec fn occurs_once(list: Seq<i32>, fd: i32) -> bool {
    exists|i: int|
        0 <= i < list.len() && #[trigger] list[i] == fd && forall|j: int|
            0 <= j < list.len() && #[trigger] list[j] == fd ==> j == i
}

/// What an ascending list holds, it holds once.
pub proof fn lemma_ascending_holds_once(list: Seq<i32>, fd: i32)
    requires
        ascending(list),
        list.contains(fd),
    ensures
        occurs_once(list, fd),
{
    let at = choose|i: int| 0 <= i < list.len() && list[i] == fd;
    assert(list[at] == fd);
    assert forall|j: int| 0 <= j < list.len() && #[trigger] list[j] == fd implies j == at by {
        if j < at {
            assert(list[j] < list[at]);
        } else if at < j {
            assert(list[at] < list[j]);
        }
    }
}

/// The number of elements of `list` that are smaller than `fd`.
pub open spec fn count_below(list: Seq<i32>, fd: i32) -> nat
    decreases list.len(),
{
    if list.len() == 0 {
        0
    } else {
        count_below(list.drop_last(), fd) + if list.last() < fd {
            1nat
        } else {
            0nat
        }
    }
}

/// The allow-list with `fd` in it: the list itself if it holds `fd` already,
/// and else the list with `fd` put after the elements smaller than it.
pub open spec fn with_descriptor(list: Seq<i32>, fd: i32) -> Seq<i32> {
    if list.contains(fd) {
        list
    } else {
        list.insert(count_below(list, fd) as int, fd)
    }
}

/// In an ascending list that is split at `at` into the elements smaller than
/// `fd` and the others, `at` is the number of elements smaller than `fd`.
pub proof fn lemma_count_below_is_split(list: Seq<i32>, fd: i32, at: int)
    requires
        ascending(list),
        0 <= at <= list.len(),
        forall|i: int| 0 <= i < at ==> list[i] < fd,
        forall|i: int| at <= i < list.len() ==> list[i] >= fd,
    ensures
        count_below(list, fd) == at,
    decreases list.len(),
{
    if list.len() > 0 {
        let front = list.drop_last();
        if at == list.len() {
            lemma_count_below_is_split(front, fd, at - 1);
        } else {
            lemma_count_below_is_split(front, fd, at);
        }
    }
}

/// The number of elements below `fd` splits an ascending list into the
/// elements smaller than `fd` and the others.
pub proof fn lemma_split_at_count_below(list: Seq<i32>, fd: i32)
    requires
        ascending(list),
    ensures
        count_below(list, fd) <= list.len(),
        forall|i: int| 0 <= i < count_below(list, fd) ==> list[i] < fd,
        forall|i: int| count_below(list, fd) <= i < list.len() ==> list[i] >= fd,
    decreases list.len(),
{
    if list.len() > 0 {
        let front = list.drop_last();
        lemma_split_at_count_below(front, fd);
        assert forall|i: int| 0 <= i < count_below(list, fd) implies list[i] < fd by {
            if i < front.len() {
                assert(front[i] == list[i]);
                if i >= count_below(front, fd) {
                    assert(list[i] < list.last());
                }
            }
        }
        assert forall|i: int| count_below(list, fd) <= i < list.len() implies list[i] >= fd by {
            if i < front.len() {
                assert(front[i] == list[i]);
            }
        }
    }
}

/// Putting a descriptor into a valid allow-list gives a valid allow-list that
/// holds the descriptor and, besides it, exactly what the list held before.
pub proof fn lemma_with_descriptor(list: Seq<i32>, fd: i32)
    requires
        valid_descriptors(list),
        fd >= 0,
    ensures
        valid_descriptors(with_descriptor(list, fd)),
        with_descriptor(list, fd).contains(fd),
        forall|other: i32|
            with_descriptor(list, fd).contains(other) <==> other == fd || list.contains(other),
        list.contains(fd) ==> with_descriptor(list, fd) == list,
        !list.contains(fd) ==> with_descriptor(list, fd).len() == list.len() + 1,
{
    let after = with_descriptor(list, fd);
    if !list.contains(fd) {
        let at = count_below(list, fd) as int;
        lemma_split_at_count_below(list, fd);
        assert forall|i: int| at <= i < list.len() implies list[i] > fd by {
            assert(list.contains(list[i]));
        }
        assert(after[at] == fd);
        assert forall|i: int, j: int| 0 <= i < j < after.len() implies after[i] < after[j] by {
            if i < at {
                assert(after[i] == list[i]);
            } else if i > at {
                assert(after[i] == list[i - 1]);
            }
            if j < at {
                assert(after[j] == list[j]);
            } else if j > at {
                assert(after[j] == list[j - 1]);
            }
        }
        assert forall|i: int| 0 <= i < after.len() implies 0 <= #[trigger] after[i] by {
            if i < at {
                assert(after[i] == list[i]);
            } else if i > at {
                assert(after[i] == list[i - 1]);
            }
        }
        assert forall|other: i32| after.contains(other) <==> other == fd || list.contains(
            other,
        ) by {
            if after.contains(other) {
                let i = choose|i: int| 0 <= i < after.len() && after[i] == other;
                if i < at {
                    assert(list[i] == other);
                } else if i > at {
                    assert(list[i - 1] == other);
                }
            }
            if list.contains(other) {
                let i = choose|i: int| 0 <= i < list.len() && list[i] == other;
                if i < at {
                    assert(after[i] == other);
                } else {
                    assert(after[i + 1] == other);
                }
            }
        }
    }
}

/// Two ascending lists that hold the same descriptors are the same list.
pub proof fn lemma_ascending_lists_agree(left: Seq<i32>, right: Seq<i32>)
    requires
        ascending(left),
        ascending(right),
        forall|fd: i32| left.contains(fd) <==> right.contains(fd),
    ensures
        left == right,
    decreases left.len(),
{
    if left.len() == 0 {
        if right.len() > 0 {
            assert(right.contains(right[0]));
        }
        assert(left =~= right);
    } else {
        assert(left.contains(left.last()));
        assert(right.len() > 0);
        assert(right.contains(right.last()));
        // the largest descriptor of each list is in the other, so they agree on it
        let big_left = left.last();
        let big_right = right.last();
        let in_right = choose|i: int| 0 <= i < right.len() && right[i] == big_left;
        let in_left = choose|i: int| 0 <= i < left.len() && left[i] == big_right;
        assert(big_left <= big_right);
        assert(big_right <= big_left);
        let left_front = left.drop_last();
        let right_front = right.drop_last();
        assert forall|fd: i32| left_front.contains(fd) <==> right_front.contains(fd) by {
            if left_front.contains(fd) {
                let i = choose|i: int| 0 <= i < left_front.len() && left_front[i] == fd;
                assert(left[i] == fd);
                assert(left.contains(fd));
                let j = choose|j: int| 0 <= j < right.len() && right[j] == fd;
                assert(fd < big_left);
                assert(right_front[j] == fd);
            }
            if right_front.contains(fd) {
                let i = choose|i: int| 0 <= i < right_front.len() && right_front[i] == fd;
                assert(right[i] == fd);
                assert(right.contains(fd));
                let j = choose|j: int| 0 <= j < left.len() && left[j] == fd;
                assert(fd < big_right);
                assert(left_front[j] == fd);
            }
        }
        lemma_ascending_lists_agree(left_front, right_front);
        assert(left =~= left_front.push(big_left));
        assert(right =~= right_front.push(big_right));
    }
}

/// Putting a descriptor in twice is the same as putting it in once.
pub proof fn lemma_with_descriptor_twice(list: Seq<i32>, fd: i32)
    requires
        valid_descriptors(list),
        fd >= 0,
    ensures
        with_descriptor(with_descriptor(list, fd), fd) == with_descriptor(list, fd),
{
    lemma_with_descriptor(list, fd);
}

/// The order in which two descriptors are put in does not matter.
pub proof fn lemma_with_descriptor_commutes(list: Seq<i32>, first: i32, second: i32)
    requires
        valid_descriptors(list),
        first >= 0,
        second >= 0,
    ensures
        with_descriptor(with_descriptor(list, first), second) == with_descriptor(
            with_descriptor(list, second),
            first,
        ),
{
    lemma_with_descriptor(list, first);
    lemma_with_descriptor(list, second);
    lemma_with_descriptor(with_descriptor(list, first), second);
    lemma_with_descriptor(with_descriptor(list, second), first);
    let one_way = with_descriptor(with_descriptor(list, first), second);
    let other_way = with_descriptor(with_descriptor(list, second), first);
    assert forall|fd: i32| one_way.contains(fd) <==> other_way.contains(fd) by {
        assert(one_way.contains(fd) <==> fd == second || with_descriptor(list, first).contains(
            fd,
        ));
        assert(other_way.contains(fd) <==> fd == first || with_descriptor(
            list,
            second,
        ).contains(fd));
        assert(with_descriptor(list, first).contains(fd) <==> fd == first || list.contains(fd));
        assert(with_descriptor(list, second).contains(fd) <==> fd == second || list.contains(fd));
    }
    lemma_ascending_lists_agree(
        with_descriptor(with_descriptor(list, first), second),
        with_descriptor(with_descriptor(list, second), first),
    );
}

/// Looks `fd` up in an ascending list by halving: whether it is there, and the
/// number of elements smaller than it, which is its place.
pub fn locate(list: &Vec<i32>, fd: i32) -> (found: (bool, usize))
    requires
        ascending(list@),
    ensures
        found.0 == list@.contains(fd),
        found.1 == count_below(list@, fd),
        found.1 <= list@.len(),
        found.0 ==> list@[found.1 as int] == fd,
{
    let mut low: usize = 0;
    let mut high: usize = list.len();
    while low < high
        invariant
            ascending(list@),
            low <= high <= list@.len(),
            forall|i: int| 0 <= i < low ==> list@[i] < fd,
            forall|i: int| high <= i < list@.len() ==> list@[i] >= fd,
        decreases high - low,
    {
        let middle = low + (high - low) / 2;
        if list[middle] < fd {
            low = middle + 1;
        } else {
            high = middle;
        }
    }
    proof {
        lemma_count_below_is_split(list@, fd, low as int);
    }
    if low < list.len() && list[low] == fd {
        (true, low)
    } else {
        proof {
            if list@.contains(fd) {
                let i = choose|i: int| 0 <= i < list@.len() && list@[i] == fd;
                if i > low {
                    assert(list@[low as int] < list@[i]);
                }
            }
        }
        (false, low)
    }
}

/// Puts `fd` into an allow-list.
///
/// A negative `fd`, the "no descriptor" value -1 included, is rejected as an
/// invalid argument, and the list stays as it was. Otherwise the list holds
/// `fd` afterwards, once and in its place.
pub fn insert_sorted_fileno(list: &mut Vec<i32>, fd: i32) -> (done: Result<(), Error>)
    requires
        valid_descriptors(old(list)@),
    ensures
        fd < 0 ==> done == Err::<(), Error>(Error::InvalidArgument(Argument::Descriptor))
            && final(list)@ == old(list)@,
        fd >= 0 ==> done is Ok && final(list)@ == with_descriptor(old(list)@, fd),
        valid_descriptors(final(list)@),
{
    if fd < 0 {
        return Err(Error::InvalidArgument(Argument::Descriptor));
    }
    let (present, place) = locate(list, fd);
    proof {
        lemma_with_descriptor(list@, fd);
    }
    if !present {
        list.insert(place, fd);
    }
    Ok(())
}

} // verus!
