//! The checks that the prompts apply to answers: lengths, tag lists and the
//! choice of update scope. Each returns why an answer is refused.

use crate::config::CreatePostSettings;
use crate::text::{get_str_length, string_views, tags_of, tags_updater, trim};
use vstd::prelude::*;

verus! {

/// Why a text has a wrong length.
#[derive(Clone, Copy, Debug, PartialEq, Eq, Structural)]
pub enum LengthFault {
    /// Shorter than the minimum.
    TooShort,
    /// Longer than the maximum.
    TooLong,
}

/// Checks the trimmed length of `value`, in characters, against
/// `minimum..=maximum`.
pub fn length_validator(value: &str, minimum: u8, maximum: u8) -> (r: Result<(), LengthFault>)
    ensures
        trim(value@).len() < minimum ==> r == Err::<(), LengthFault>(LengthFault::TooShort),
        minimum <= trim(value@).len() <= maximum ==> r is Ok,
        minimum <= trim(value@).len() && trim(value@).len() > maximum ==> r == Err::<(), LengthFault>(
            LengthFault::TooLong,
        ),
{
    let n = get_str_length(value);
    if n < minimum as usize {
        Err(LengthFault::TooShort)
    } else if n > maximum as usize {
        Err(LengthFault::TooLong)
    } else {
        Ok(())
    }
}

/// Why a list of tags is refused.
#[derive(Clone, Debug)]
pub enum TagsFault {
    /// Fewer tags than the minimum.
    TooFew,
    /// More tags than the maximum.
    TooMany,
    /// The first tag that is shorter than the minimum.
    TagTooShort(String),
    /// The first tag that is longer than the maximum.
    TagTooLong(String),
}

/// The index of the first tag shorter than `min`, or the count.
pub open spec fn first_short(tags: Seq<Seq<char>>, min: int) -> int
    decreases tags.len(),
{
    if tags.len() == 0 {
        0
    } else if tags[0].len() < min {
        0
    } else {
        1 + first_short(tags.drop_first(), min)
    }
}

/// The index of the first tag longer than `max`, or the count.
pub open spec fn first_long(tags: Seq<Seq<char>>, max: int) -> int
    decreases tags.len(),
{
    if tags.len() == 0 {
        0
    } else if tags[0].len() > max {
        0
    } else {
        1 + first_long(tags.drop_first(), max)
    }
}

/// Checks a separated list of tags: the number of normalised tags, then the
/// length of each. A minimum count of zero turns the check off.
pub fn tags_validator(str_tags: &str, settings: &CreatePostSettings) -> (r: Result<(), TagsFault>)
    ensures
        ({
            let tags = tags_of(str_tags@, settings.separated_tags_by);
            let min = settings.minimum_single_tag_length as int;
            let max = settings.maximum_single_tag_length as int;
            if settings.minimum_tags_count == 0 {
                r is Ok
            } else if tags.len() < settings.minimum_tags_count {
                r is Err && r->Err_0 is TooFew
            } else if tags.len() > settings.maximum_tags_count {
                r is Err && r->Err_0 is TooMany
            } else if 0 <= first_short(tags, min) < tags.len() {
                r is Err && r->Err_0 is TagTooShort && r->Err_0->TagTooShort_0@ == tags[first_short(tags, min)]
            } else if 0 <= first_long(tags, max) < tags.len() {
                r is Err && r->Err_0 is TagTooLong && r->Err_0->TagTooLong_0@ == tags[first_long(tags, max)]
            } else {
                r is Ok
            }
        }),
{
    if settings.minimum_tags_count == 0 {
        return Ok(());
    }
    let tags = tags_updater(str_tags, settings.separated_tags_by);
    let ghost ts = string_views(tags@);
    if tags.len() < settings.minimum_tags_count as usize {
        return Err(TagsFault::TooFew);
    }
    if tags.len() > settings.maximum_tags_count as usize {
        return Err(TagsFault::TooMany);
    }
    let min = settings.minimum_single_tag_length as usize;
    let max = settings.maximum_single_tag_length as usize;
    let mut i: usize = 0;
    assert(ts.subrange(0, ts.len() as int) =~= ts);
    while i < tags.len()
        invariant
            ts == string_views(tags@),
            ts == tags_of(str_tags@, settings.separated_tags_by),
            settings.minimum_tags_count != 0,
            settings.minimum_tags_count <= ts.len() <= settings.maximum_tags_count,
            min == settings.minimum_single_tag_length,
            max == settings.maximum_single_tag_length,
            i <= tags@.len(),
            forall|j: int| 0 <= j < i ==> ts[j].len() >= min,
            first_short(ts, min as int) == i + first_short(ts.subrange(i as int, ts.len() as int), min as int),
        decreases tags@.len() - i,
    {
        assert(ts.subrange(i as int, ts.len() as int).drop_first() =~= ts.subrange(i + 1, ts.len() as int));
        assert(ts[i as int] == tags@[i as int]@);
        if tags[i].as_str().unicode_len() < min {
            let t = tags[i].clone();
            assert(ts.subrange(i as int, ts.len() as int)[0] == ts[i as int]);
            assert(first_short(ts.subrange(i as int, ts.len() as int), min as int) == 0);
            assert(first_short(ts, min as int) == i);
            return Err(TagsFault::TagTooShort(t));
        }
        i += 1;
    }
    assert(ts.subrange(i as int, ts.len() as int) =~= Seq::<Seq<char>>::empty());
    let mut k: usize = 0;
    while k < tags.len()
        invariant
            ts == string_views(tags@),
            ts == tags_of(str_tags@, settings.separated_tags_by),
            settings.minimum_tags_count != 0,
            settings.minimum_tags_count <= ts.len() <= settings.maximum_tags_count,
            min == settings.minimum_single_tag_length,
            max == settings.maximum_single_tag_length,
            k <= tags@.len(),
            forall|j: int| 0 <= j < tags@.len() ==> ts[j].len() >= min,
            forall|j: int| 0 <= j < k ==> ts[j].len() <= max,
            first_short(ts, min as int) == ts.len(),
            first_long(ts, max as int) == k + first_long(ts.subrange(k as int, ts.len() as int), max as int),
        decreases tags@.len() - k,
    {
        assert(ts.subrange(k as int, ts.len() as int).drop_first() =~= ts.subrange(k + 1, ts.len() as int));
        assert(ts[k as int] == tags@[k as int]@);
        if tags[k].as_str().unicode_len() > max {
            let t = tags[k].clone();
            assert(ts.subrange(k as int, ts.len() as int)[0] == ts[k as int]);
            assert(first_long(ts.subrange(k as int, ts.len() as int), max as int) == 0);
            return Err(TagsFault::TagTooLong(t));
        }
        k += 1;
    }
    assert(ts.subrange(k as int, ts.len() as int) =~= Seq::<Seq<char>>::empty());
    Ok(())
}

/// Why a choice of update scope is refused.
#[derive(Clone, Copy, Debug, PartialEq, Eq, Structural)]
pub enum ChoiceFault {
    /// Nothing chosen.
    NoneChosen,
    /// The last choice, update everything, chosen with another.
    ShowAllWithOthers,
}

/// The number of chosen entries.
pub open spec fn count_true(s: Seq<bool>) -> nat
    decreases s.len(),
{
    if s.len() == 0 {
        0
    } else {
        count_true(s.drop_last()) + if s.last() {
            1nat
        } else {
            0nat
        }
    }
}

/// Checks the choices of the update question, whose last choice updates
/// every field and goes alone.
pub fn modify_action(choices: &Vec<bool>) -> (r: Result<(), ChoiceFault>)
    ensures
        count_true(choices@) == 0 ==> r == Err::<(), ChoiceFault>(ChoiceFault::NoneChosen),
        count_true(choices@) >= 2 && choices@.last() ==> r == Err::<(), ChoiceFault>(
            ChoiceFault::ShowAllWithOthers,
        ),
        count_true(choices@) == 1 || (count_true(choices@) >= 2 && !choices@.last()) ==> r is Ok,
{
    let mut trues: usize = 0;
    let mut i: usize = 0;
    while i < choices.len()
        invariant
            i <= choices@.len(),
            trues == count_true(choices@.subrange(0, i as int)),
            trues <= i,
        decreases choices@.len() - i,
    {
        assert(choices@.subrange(0, i + 1).drop_last() =~= choices@.subrange(0, i as int));
        if choices[i] {
            trues += 1;
        }
        i += 1;
    }
    assert(choices@.subrange(0, choices@.len() as int) =~= choices@);
    if trues == 0 {
        Err(ChoiceFault::NoneChosen)
    } else if trues >= 2 && choices[choices.len() - 1] {
        Err(ChoiceFault::ShowAllWithOthers)
    } else {
        Ok(())
    }
}

} // verus!
