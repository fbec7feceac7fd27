//! What a reader of a data file can see while it is being written.

use vstd::prelude::*;

use crate::mock_data::WriteStage;

verus! {

/// A moment in the writing of a data file: the stage that has been reached, and what the files of
/// the directory hold. A file whose name is not text, or that has none, stands under `None`.
pub struct Moment {
    pub stage: WriteStage,
    pub files: Map<Option<Seq<char>>, Seq<char>>,
}

/// What a reader finds in the file `name`.
pub open spec fn read_file(
    files: Map<Option<Seq<char>>, Seq<char>>,
    name: Option<Seq<char>>,
) -> Option<Seq<char>> {
    if files.contains_key(name) {
        Some(files[name])
    } else {
        None
    }
}

/// Whether the temporary file of `target` has changed, and nothing else.
pub open spec fn temp_written(
    target: Option<Seq<char>>,
    part: Seq<char>,
    a: Moment,
    b: Moment,
) -> bool {
    b.files == a.files.insert(Some(crate::mock_data::temp_name(target)), part)
}

/// Whether the operation of a stage can lead from `a` to `b`, where it succeeds or fails. Writing
/// may fail and leave anything in the temporary file; a file is moved at once or not at all.
pub open spec fn operation(
    target: Option<Seq<char>>,
    content: Seq<char>,
    succeeded: bool,
    a: Moment,
    b: Moment,
) -> bool {
    &&& b.stage == crate::mock_data::next_stage(a.stage, succeeded)
    &&& match a.stage {
        WriteStage::WriteTemp => if succeeded {
            temp_written(target, content, a, b)
        } else {
            b.files == a.files || exists|part: Seq<char>| temp_written(target, part, a, b)
        },
        WriteStage::RenameTemp => if succeeded {
            let temp = Some(crate::mock_data::temp_name(target));
            b.files == a.files.remove(temp).insert(target, a.files[temp])
        } else {
            b.files == a.files
        },
        _ => b.files == a.files,
    }
}

/// Whether `b` can be the next moment after `a`: an operation has come to its end, or the
/// temporary file is being written, and may hold anything.
pub open spec fn follows(
    target: Option<Seq<char>>,
    content: Seq<char>,
    a: Moment,
    b: Moment,
) -> bool {
    ||| exists|succeeded: bool| operation(target, content, succeeded, a, b)
    ||| {
        &&& a.stage is WriteTemp
        &&& b.stage is WriteTemp
        &&& exists|part: Seq<char>| temp_written(target, part, a, b)
    }
}

/// Whether `run` is a course that the writing of `target` can take.
pub open spec fn is_run(target: Option<Seq<char>>, content: Seq<char>, run: Seq<Moment>) -> bool {
    &&& run.len() > 0
    &&& run[0].stage is CreateParent || run[0].stage is WriteTemp
    &&& forall|i: int|
        #![trigger run[i]]
        0 < i < run.len() ==> follows(target, content, run[i - 1], run[i])
}

/// The temporary file is never the data file itself.
proof fn lemma_temp_name_differs(target: Option<Seq<char>>)
    ensures
        target != Some(crate::mock_data::temp_name(target)),
{
    reveal_strlit(".");
    reveal_strlit(".tmp");
    if let Some(name) = target {
        assert(crate::mock_data::temp_name(target).len() == name.len() + 5);
    }
}

/// A reader never finds a part of a data file: until the writing is finished it finds what was
/// there before, and from then on the whole content. Where the writing fails, what was there
/// before stays.
pub proof fn law_readers_find_whole_files(
    target: Option<Seq<char>>,
    content: Seq<char>,
    run: Seq<Moment>,
    i: int,
)
    requires
        is_run(target, content, run),
        0 <= i < run.len(),
    ensures
        run[i].stage is Finished ==> read_file(run[i].files, target) == Some(content),
        !(run[i].stage is Finished) ==> read_file(run[i].files, target) == read_file(
            run[0].files,
            target,
        ),
{
    lemma_run(target, content, run, i);
}

/// The law, and that the temporary file holds the whole content when it is to be moved.
proof fn lemma_run(target: Option<Seq<char>>, content: Seq<char>, run: Seq<Moment>, i: int)
    requires
        is_run(target, content, run),
        0 <= i < run.len(),
    ensures
        run[i].stage is RenameTemp ==> read_file(
            run[i].files,
            Some(crate::mock_data::temp_name(target)),
        ) == Some(content),
        run[i].stage is Finished ==> read_file(run[i].files, target) == Some(content),
        !(run[i].stage is Finished) ==> read_file(run[i].files, target) == read_file(
            run[0].files,
            target,
        ),
    decreases i,
{
    lemma_temp_name_differs(target);
    if i > 0 {
        lemma_run(target, content, run, i - 1);
        assert(follows(target, content, run[i - 1], run[i]));
    }
}

/// The temporary file stands beside the data file: its name is that of the data file, or `data`
/// where there is none that is text, between a dot and `.tmp`. It holds a path separator only if
/// that name does, and two data files have one temporary file only if they have one name.
pub proof fn law_temp_file_is_a_sibling(a: Seq<char>, b: Seq<char>, separator: char)
    requires
        separator == '/' || separator == '\\',
    ensures
        crate::mock_data::temp_name(Some(a)) == seq!['.'] + a + seq!['.', 't', 'm', 'p'],
        crate::mock_data::temp_name(None) == crate::mock_data::temp_name(
            Some(seq!['d', 'a', 't', 'a']),
        ),
        crate::mock_data::temp_name(Some(a)).contains(separator) <==> a.contains(separator),
        crate::mock_data::temp_name(Some(a)) == crate::mock_data::temp_name(Some(b)) ==> a == b,
{
    reveal_strlit(".");
    reveal_strlit("data");
    reveal_strlit(".tmp");
    assert("data"@ == seq!['d', 'a', 't', 'a']);
    let x = crate::mock_data::temp_name(Some(a));
    let y = crate::mock_data::temp_name(Some(b));
    assert(x == seq!['.'] + a + seq!['.', 't', 'm', 'p']);
    assert(y == seq!['.'] + b + seq!['.', 't', 'm', 'p']);
    assert(x.subrange(1, x.len() - 4) == a);
    assert(y.subrange(1, y.len() - 4) == b);
    if a.contains(separator) {
        let i = choose|i: int| 0 <= i < a.len() && a[i] == separator;
        assert(x[i + 1] == separator);
    }
    if x.contains(separator) {
        let i = choose|i: int| 0 <= i < x.len() && x[i] == separator;
        assert(a[i - 1] == separator);
    }
}

/// The stage that is reached from `first` when the operations come out as `outcomes` says.
pub open spec fn stage_reached(first: WriteStage, outcomes: Seq<bool>) -> WriteStage
    decreases outcomes.len(),
{
    if outcomes.len() == 0 {
        first
    } else {
        crate::mock_data::next_stage(
            stage_reached(first, outcomes.drop_last()),
            outcomes.last(),
        )
    }
}

/// The directory is created, the temporary file is written and it is moved, in this order, the
/// first only if the path names a directory. The file is in place when all of these have succeeded,
/// and the first that fails is the last.
pub proof fn law_writing_ends_well_or_at_the_first_failure(first: WriteStage, outcomes: Seq<bool>)
    requires
        first is CreateParent || first is WriteTemp,
    ensures
        ({
            let order = if first is CreateParent {
                seq![WriteStage::CreateParent, WriteStage::WriteTemp, WriteStage::RenameTemp]
            } else {
                seq![WriteStage::WriteTemp, WriteStage::RenameTemp]
            };
            let stage = stage_reached(first, outcomes);
            if exists|i: int| 0 <= i < outcomes.len() && i < order.len() && !(#[trigger] outcomes[i]) {
                stage is Failed
            } else if outcomes.len() < order.len() {
                stage == order[outcomes.len() as int]
            } else {
                stage is Finished
            }
        }),
    decreases outcomes.len(),
{
    if outcomes.len() > 0 {
        let front = outcomes.drop_last();
        law_writing_ends_well_or_at_the_first_failure(first, front);
        assert(forall|i: int| 0 <= i < front.len() ==> front[i] == outcomes[i]);
        assert(outcomes.last() == outcomes[outcomes.len() - 1]);
        let n: int = if first is CreateParent {
            3
        } else {
            2
        };
        if exists|i: int| 0 <= i < front.len() && i < n && !(#[trigger] front[i]) {
            let i = choose|i: int| 0 <= i < front.len() && i < n && !(#[trigger] front[i]);
            assert(!outcomes[i]);
        } else {
            assert(forall|i: int| 0 <= i < front.len() && i < n ==> #[trigger] outcomes[i]) by {
                assert forall|i: int| 0 <= i < front.len() && i < n implies #[trigger] outcomes[i] by {
                    assert(front[i]);
                }
            }
        }
    }
}

} // verus!
