//! Where the settings file lives, and the protocol that replaces it: the new
//! text is written beside the file and then renamed over it, so an
//! interrupted write leaves either the old file or the new one.
use vstd::prelude::*;
use crate::codec::{pairs_view, settings_from_json, settings_json};
use crate::settings::{pairs_map, target_key, ConfigError, ScalarView, Settings};

verus! {

/// The directory, under the user's configuration directory, that holds the
/// settings file.
pub open spec fn app_dir_name() -> Seq<char> {
    seq!['m', 'a', 'g', 'i', 'c', 'e', 'E', 'y', 'e']
}

/// The name of the settings file.
pub open spec fn settings_file_name() -> Seq<char> {
    seq!['s', 'e', 't', 't', 'i', 'n', 'g', 's', '.', 'j', 's', 'o', 'n']
}

/// The name of the file that a new text is written to before it replaces
/// `target`.
pub open spec fn temp_path(target: Seq<char>) -> Seq<char> {
    target + seq!['.', 't', 'm', 'p']
}

/// The name of the file that keeps the text of `target` where it held no
/// record.
pub open spec fn backup_path(target: Seq<char>) -> Seq<char> {
    target + seq!['.', 'c', 'o', 'r', 'r', 'u', 'p', 't']
}

/// `dir` and `name` joined by one separator.
pub open spec fn joined(dir: Seq<char>, name: Seq<char>) -> Seq<char> {
    dir + seq!['/'] + name
}

/// The application's configuration directory under the user's one.
pub fn config_dir_path(user_config_dir: &str) -> (r: String)
    ensures
        r@ == joined(user_config_dir@, app_dir_name()),
{
    let mut r = String::from_str(user_config_dir);
    r.append("/");
    r.append("magiceEye");
    proof {
        reveal_strlit("/");
        reveal_strlit("magiceEye");
        assert(r@ =~= joined(user_config_dir@, app_dir_name()));
    }
    r
}

/// The settings file in the application's configuration directory.
pub fn config_file_path(config_dir: &str) -> (r: String)
    ensures
        r@ == joined(config_dir@, settings_file_name()),
{
    let mut r = String::from_str(config_dir);
    r.append("/");
    r.append("settings.json");
    proof {
        reveal_strlit("/");
        reveal_strlit("settings.json");
        assert(r@ =~= joined(config_dir@, settings_file_name()));
    }
    r
}

/// The temporary file beside `target`.
pub fn temp_file_path(target: &str) -> (r: String)
    ensures
        r@ == temp_path(target@),
{
    let mut r = String::from_str(target);
    r.append(".tmp");
    proof {
        reveal_strlit(".tmp");
        assert(r@ =~= temp_path(target@));
    }
    r
}

/// The backup file beside `target`.
pub fn backup_file_path(target: &str) -> (r: String)
    ensures
        r@ == backup_path(target@),
{
    let mut r = String::from_str(target);
    r.append(".corrupt");
    proof {
        reveal_strlit(".corrupt");
        assert(r@ =~= backup_path(target@));
    }
    r
}

/// One step on the file system.
#[derive(Clone, Debug, PartialEq, Eq)]
pub enum FileStep {
    /// Create or truncate `path` and write `contents` to it.
    Write { path: String, contents: String },
    /// Rename `from` to `to`, replacing `to`.
    Rename { from: String, to: String },
}

/// Files by path, each with its contents.
pub type Files = Map<Seq<char>, Seq<char>>;

/// The files after one step. A rename of a missing file changes nothing.
pub open spec fn apply_step(files: Files, step: FileStep) -> Files {
    match step {
        FileStep::Write { path, contents } => files.insert(path@, contents@),
        FileStep::Rename { from, to } => if files.contains_key(from@) {
            files.remove(from@).insert(to@, files[from@])
        } else {
            files
        },
    }
}

/// The files after the steps, in order.
pub open spec fn apply_steps(files: Files, steps: Seq<FileStep>) -> Files
    decreases steps.len(),
{
    if steps.len() == 0 {
        files
    } else {
        apply_step(apply_steps(files, steps.drop_last()), steps.last())
    }
}

/// The steps replace `target` by `contents` through the temporary file.
pub open spec fn replaces_atomically(
    steps: Seq<FileStep>,
    target: Seq<char>,
    contents: Seq<char>,
) -> bool {
    &&& steps.len() == 2
    &&& steps[0] matches FileStep::Write { path, contents: c } && path@ == temp_path(target)
        && c@ == contents
    &&& steps[1] matches FileStep::Rename { from, to } && from@ == temp_path(target) && to@
        == target
}

/// The steps first keep `old` in the backup file beside `target`, then
/// replace `target` by `contents` through the temporary file.
pub open spec fn replaces_keeping_backup(
    steps: Seq<FileStep>,
    target: Seq<char>,
    old: Seq<char>,
    contents: Seq<char>,
) -> bool {
    &&& steps.len() == 3
    &&& steps[0] matches FileStep::Write { path, contents: c } && path@ == backup_path(target)
        && c@ == old
    &&& replaces_atomically(steps.subrange(1, 3), target, contents)
}

/// A planned update of the settings file.
#[derive(Debug)]
pub struct WritePlan {
    /// The record after the update.
    pub merged: Settings,
    /// The steps that put it on disk.
    pub steps: Vec<FileStep>,
}

/// Plans the update of the settings file at `target`, which holds `current`,
/// by `patch`: the merged record and the steps that replace the file with
/// its text.
pub fn plan_settings_write(target: &str, current: Settings, patch: Settings) -> (r: WritePlan)
    requires
        current.wf(),
    ensures
        r.merged.wf(),
        r.merged@ == current@.union_prefer_right(patch@),
        replaces_atomically(r.steps@, target@, encoded(r.merged)),
        loaded(Some(encoded(r.merged))) == Some(r.merged@),
{
    let (merged, text) = merged_text(current, patch);
    WritePlan { merged, steps: write_steps(target, text, None) }
}

/// The record that a settings file holds, as `Settings::load` reads it:
/// empty where there is no file, `None` where its text is no record.
pub open spec fn loaded(existing: Option<Seq<char>>) -> Option<Map<Seq<char>, ScalarView>> {
    match existing {
        None => Some(Map::empty()),
        Some(text) => match settings_from_json(text) {
            None => None,
            Some(p) => Some(pairs_map(p)),
        },
    }
}

/// The view of an optional text.
pub open spec fn text_view(existing: Option<&str>) -> Option<Seq<char>> {
    match existing {
        None => None,
        Some(t) => Some(t@),
    }
}

/// The text of the settings file that holds `s`.
pub open spec fn encoded(s: Settings) -> Seq<char> {
    settings_json(pairs_view(s.stored()))
}

/// What an update of the file at `target`, whose text is `existing`, by a
/// patch is planned to do. A file that holds a record gets the record merged
/// with the patch. A file whose text is no record is kept aside and replaced
/// by the patch alone. Either way the new text reads back as the new record.
pub open spec fn update_planned(
    target: Seq<char>,
    existing: Option<Seq<char>>,
    patch: Map<Seq<char>, ScalarView>,
    plan: WritePlan,
) -> bool {
    &&& plan.merged.wf()
    &&& loaded(Some(encoded(plan.merged))) == Some(plan.merged@)
    &&& match loaded(existing) {
        Some(current) => {
            &&& plan.merged@ == current.union_prefer_right(patch)
            &&& replaces_atomically(plan.steps@, target, encoded(plan.merged))
        },
        None => {
            &&& plan.merged@ == patch
            &&& replaces_keeping_backup(plan.steps@, target, existing->Some_0, encoded(plan.merged))
        },
    }
}

/// The record `current` merged with `patch`, and its text.
fn merged_text(current: Settings, patch: Settings) -> (r: (Settings, String))
    requires
        current.wf(),
    ensures
        r.0.wf(),
        r.0@ == current@.union_prefer_right(patch@),
        r.1@ == encoded(r.0),
        loaded(Some(r.1@)) == Some(r.0@),
{
    let mut merged = current;
    merged.merge(patch);
    let text = merged.to_json();
    (merged, text)
}

/// The steps that replace `target` by `contents`, first writing `aside` to
/// the backup file where it is given.
fn write_steps(target: &str, contents: String, aside: Option<&str>) -> (r: Vec<FileStep>)
    ensures
        match aside {
            None => replaces_atomically(r@, target@, contents@),
            Some(old) => replaces_keeping_backup(r@, target@, old@, contents@),
        },
{
    let temp = temp_file_path(target);
    let mut steps: Vec<FileStep> = Vec::new();
    if let Some(old) = aside {
        steps.push(FileStep::Write { path: backup_file_path(target), contents: String::from_str(old) });
    }
    steps.push(FileStep::Write { path: temp.clone(), contents });
    steps.push(FileStep::Rename { from: temp, to: String::from_str(target) });
    proof {
        if aside is Some {
            assert(steps@.subrange(1, 3) =~= seq![steps@[1], steps@[2]]);
        }
    }
    steps
}

/// Plans the update of the settings file at `target`, whose text is
/// `existing` (`None` where there is no file yet), by `patch`.
pub fn plan_update(target: &str, existing: Option<&str>, patch: Settings) -> (r: WritePlan)
    ensures
        update_planned(target@, text_view(existing), patch@, r),
{
    let (current, aside) = match Settings::load(existing) {
        Ok(c) => (c, None),
        Err(_) => (Settings::new(), existing),
    };
    let ghost p = patch@;
    let (merged, text) = merged_text(current, patch);
    let steps = write_steps(target, text, aside);
    proof {
        if aside is Some {
            assert(Map::<Seq<char>, ScalarView>::empty().union_prefer_right(p) =~= p);
        }
    }
    WritePlan { merged, steps }
}

/// Plans configuring `address` as the target address in the settings file
/// at `target`, whose text is `existing`: an update by a patch of that one
/// key. Only an empty address is refused, before the file is looked at.
pub fn plan_address_update(target: &str, existing: Option<&str>, address: &str) -> (r: Result<
    WritePlan,
    ConfigError,
>)
    ensures
        address@.len() == 0 ==> r == Err::<WritePlan, ConfigError>(ConfigError::EmptyAddress),
        address@.len() > 0 ==> r is Ok && update_planned(
            target@,
            text_view(existing),
            Map::<Seq<char>, ScalarView>::empty().insert(target_key(), ScalarView::Text(address@)),
            r->Ok_0,
        ),
{
    let mut patch = Settings::new();
    match patch.set_target_address(address) {
        Ok(()) => {},
        Err(e) => {
            return Err(e);
        },
    }
    Ok(plan_update(target, existing, patch))
}

/// However far the steps of an atomic replacement got before they stopped,
/// the target holds either what it held before, or is missing as before, or
/// holds the whole new contents; once all steps ran, it holds the new ones.
pub proof fn lemma_interrupted_write_is_old_or_new(
    files: Files,
    steps: Seq<FileStep>,
    target: Seq<char>,
    contents: Seq<char>,
    done: int,
)
    requires
        replaces_atomically(steps, target, contents),
        0 <= done <= steps.len(),
    ensures
        ({
            let after = apply_steps(files, steps.take(done));
            (after.contains_key(target) == files.contains_key(target) && (files.contains_key(
                target,
            ) ==> after[target] == files[target])) || (after.contains_key(target)
                && after[target] == contents)
        }),
        apply_steps(files, steps).contains_key(target),
        apply_steps(files, steps)[target] == contents,
{
    assert(temp_path(target).len() != target.len());
    assert(steps.take(0).len() == 0);
    assert(steps.take(1).drop_last() =~= steps.take(0));
    assert(steps.take(2).drop_last() =~= steps.take(1));
    assert(steps.take(2) =~= steps);
    let tmp = temp_path(target);
    let f0 = apply_steps(files, steps.take(0));
    assert(f0 == files);
    let f1 = apply_steps(files, steps.take(1));
    assert(f1 == files.insert(tmp, contents));
    let f2 = apply_steps(files, steps.take(2));
    assert(f1.contains_key(tmp));
    assert(f2 == f1.remove(tmp).insert(target, contents));
    assert(f2.contains_key(target) && f2[target] == contents);
}

/// Running steps one list after another is running the two lists joined.
proof fn lemma_apply_joined(files: Files, a: Seq<FileStep>, b: Seq<FileStep>)
    ensures
        apply_steps(files, a + b) == apply_steps(apply_steps(files, a), b),
    decreases b.len(),
{
    if b.len() == 0 {
        assert(a + b =~= a);
    } else {
        lemma_apply_joined(files, a, b.drop_last());
        assert((a + b).drop_last() =~= a + b.drop_last());
    }
}

/// However far the steps of a replacement that keeps a backup got before
/// they stopped, the target holds either what it held before, or is missing
/// as before, or holds the whole new contents; once all steps ran, it holds
/// the new ones and the backup file holds the old text.
pub proof fn lemma_interrupted_recovery_is_old_or_new(
    files: Files,
    steps: Seq<FileStep>,
    target: Seq<char>,
    old: Seq<char>,
    contents: Seq<char>,
    done: int,
)
    requires
        replaces_keeping_backup(steps, target, old, contents),
        0 <= done <= steps.len(),
    ensures
        ({
            let after = apply_steps(files, steps.take(done));
            (after.contains_key(target) == files.contains_key(target) && (files.contains_key(
                target,
            ) ==> after[target] == files[target])) || (after.contains_key(target)
                && after[target] == contents)
        }),
        apply_steps(files, steps).contains_key(target),
        apply_steps(files, steps)[target] == contents,
        apply_steps(files, steps).contains_key(backup_path(target)),
        apply_steps(files, steps)[backup_path(target)] == old,
{
    let rest = steps.subrange(1, 3);
    let backup = backup_path(target);
    let tmp = temp_path(target);
    assert(backup.len() != target.len() && backup.len() != tmp.len());
    assert(steps.take(1).drop_last() =~= steps.take(0));
    assert(steps.take(0).len() == 0);
    assert(apply_steps(files, steps.take(0)) == files);
    assert(steps.take(1).last() == steps[0]);
    let f1 = apply_steps(files, steps.take(1));
    assert(f1 == files.insert(backup, old));
    if done > 0 {
        assert(steps.take(done) =~= steps.take(1) + rest.take(done - 1));
        lemma_apply_joined(files, steps.take(1), rest.take(done - 1));
        lemma_interrupted_write_is_old_or_new(f1, rest, target, contents, done - 1);
    }
    assert(steps =~= steps.take(1) + rest);
    lemma_apply_joined(files, steps.take(1), rest);
    assert(rest.take(1).drop_last() =~= rest.take(0));
    assert(rest.take(2).drop_last() =~= rest.take(1));
    assert(rest.take(2) =~= rest);
    let g0 = apply_steps(f1, rest.take(0));
    assert(rest.take(0).len() == 0);
    assert(g0 == f1);
    let g1 = apply_steps(f1, rest.take(1));
    assert(g1 == f1.insert(tmp, contents));
    let g2 = apply_steps(f1, rest.take(2));
    assert(g2 == g1.remove(tmp).insert(target, contents));
    assert(g2.contains_key(backup) && g2[backup] == old);
    lemma_interrupted_write_is_old_or_new(f1, rest, target, contents, 2);
}

/// However far the steps of a planned update got before they stopped, the
/// settings file is missing as before, or holds its text from before, or
/// holds a text that reads back as the updated record; once all steps ran,
/// it reads back as the updated record.
pub proof fn lemma_interrupted_update_reads_back(
    files: Files,
    target: Seq<char>,
    existing: Option<Seq<char>>,
    patch: Map<Seq<char>, ScalarView>,
    plan: WritePlan,
    done: int,
)
    requires
        update_planned(target, existing, patch, plan),
        0 <= done <= plan.steps@.len(),
    ensures
        ({
            let after = apply_steps(files, plan.steps@.take(done));
            (after.contains_key(target) == files.contains_key(target) && (files.contains_key(
                target,
            ) ==> after[target] == files[target])) || (after.contains_key(target) && loaded(
                Some(after[target]),
            ) == Some(plan.merged@))
        }),
        apply_steps(files, plan.steps@).contains_key(target),
        loaded(Some(apply_steps(files, plan.steps@)[target])) == Some(plan.merged@),
{
    if loaded(existing) is Some {
        lemma_interrupted_write_is_old_or_new(files, plan.steps@, target, encoded(plan.merged), done);
    } else {
        lemma_interrupted_recovery_is_old_or_new(
            files,
            plan.steps@,
            target,
            existing->Some_0,
            encoded(plan.merged),
            done,
        );
    }
}

} // verus!
