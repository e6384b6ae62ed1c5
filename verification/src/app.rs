use vstd::prelude::*;

verus! {

use vstd::string::StringExecFns;

use crate::TaskError;
use crate::paths::{
    extracted_of, extracted_path, has_stem, parent_of, parent_path, path_has_stem, stripped_of,
    stripped_path,
};
use crate::text::{sanitize_spec, sanitize_text, split_trimmed_lines, trimmed_lines};
use crate::worker::{completion_channel, Showcase, Task, TaskDisplayer, TaskState};

/// Where extracted contents are placed relative to the archive.
#[derive(Clone, Copy, PartialEq, Eq, Structural)]
pub enum ExtractionMode {
    /// Into the archive's own parent directory.
    Local,
    /// Into a fresh directory named after the archive's file stem.
    NewDirectory,
}

/// Which surface of the application is in front.
#[derive(Clone, Copy, PartialEq, Eq, Structural)]
pub enum MenuState {
    Main,
    Setting,
    Password,
}

/// The configuration snapshot the scheduler works from.
pub struct AppConfig {
    pub password_file_path: String,
    pub archive_executable_path: String,
    pub extraction_mode: ExtractionMode,
    pub delete_after_extract: bool,
    pub sanitize: bool,
}

/// The destination directory for extracting `p`, given the extraction mode and
/// two read-only facts about the filesystem: whether the parent of `p` is an
/// existing directory, and whether an entry already exists at the stripped
/// path. `None` stands for a path with no usable file stem.
pub open spec fn output_path_spec(
    mode: ExtractionMode,
    p: Seq<char>,
    parent_is_dir: bool,
    stem_path_exists: bool,
) -> Option<Seq<char>> {
    match mode {
        ExtractionMode::Local => Some(
            if parent_is_dir {
                parent_of(p)
            } else {
                "."@
            },
        ),
        ExtractionMode::NewDirectory => if !has_stem(p) {
            None
        } else if stem_path_exists {
            Some(extracted_of(p))
        } else {
            Some(stripped_of(p))
        },
    }
}

/// The failure reason given to a task whose destination cannot be computed.
pub open spec fn invalid_path_message() -> Seq<char> {
    "InvalidPath: archive has no file stem"@
}

impl AppConfig {
    /// Computes the output directory for one archive path. In `Local` mode
    /// this is the archive's parent directory, or `.` when that parent is not
    /// an existing directory; in `NewDirectory` mode it is the archive path
    /// with its extension stripped, or that stem with `_extracted` appended
    /// when an entry already exists at the stripped path. The two booleans
    /// carry those read-only existence facts; the computation itself touches
    /// no filesystem. A path without a usable file stem is rejected in
    /// `NewDirectory` mode.
    pub fn calculate_output_path_for(
        &self,
        path: &str,
        parent_is_dir: bool,
        stem_path_exists: bool,
    ) -> (r: Result<String, TaskError>)
        ensures
            match r {
                Ok(out) => output_path_spec(
                    self.extraction_mode,
                    path@,
                    parent_is_dir,
                    stem_path_exists,
                ) == Some(out@),
                Err(e) => output_path_spec(
                    self.extraction_mode,
                    path@,
                    parent_is_dir,
                    stem_path_exists,
                ) is None && e.message@ == invalid_path_message(),
            },
    {
        match self.extraction_mode {
            ExtractionMode::Local => {
                if parent_is_dir {
                    Ok(parent_path(path))
                } else {
                    Ok(String::from_str("."))
                }
            },
            ExtractionMode::NewDirectory => {
                if !path_has_stem(path) {
                    Err(TaskError::new(String::from_str("InvalidPath: archive has no file stem")))
                } else if stem_path_exists {
                    Ok(extracted_path(path))
                } else {
                    Ok(stripped_path(path))
                }
            },
        }
    }
}

/// The candidate password list for a batch: the trimmed lines of the loaded
/// password text, or the single placeholder `dummy` when none is loaded.
pub open spec fn password_dict_spec(store: Option<Seq<char>>) -> Seq<Seq<char>> {
    match store {
        None => seq!["dummy"@],
        Some(content) => trimmed_lines(content),
    }
}

/// The view of an optional password store handed in by reference.
pub open spec fn store_ref_view(store: Option<&String>) -> Option<Seq<char>> {
    match store {
        None => None,
        Some(content) => Some(content@),
    }
}

/// Builds the ordered candidate password list from an optional password store,
/// as `password_dict_spec` says: the store's lines in order, each trimmed,
/// duplicates and blanks kept; or the single placeholder `dummy` without a
/// store.
pub fn resolve_password_dict(store: Option<&String>) -> (r: Vec<String>)
    ensures
        r@.len() == password_dict_spec(store_ref_view(store)).len(),
        forall|i: int|
            0 <= i < r@.len() ==> r@[i]@ == password_dict_spec(store_ref_view(store))[i],
{
    match store {
        None => {
            let mut r: Vec<String> = Vec::new();
            r.push(String::from_str("dummy"));
            r
        },
        Some(content) => split_trimmed_lines(content.as_str()),
    }
}

/// One dropped filesystem entry, as handed to the scheduler: its path, if it
/// has a resolvable one, and the two read-only existence facts the destination
/// policy asks about.
pub struct DroppedEntry {
    /// The entry's filesystem path; entries without one are skipped.
    pub path: Option<String>,
    /// Whether the path's parent is an existing directory.
    pub parent_is_dir: bool,
    /// Whether an entry already exists at the path with its extension
    /// stripped.
    pub stem_path_exists: bool,
}

/// One extraction attempt the scheduler has registered and now hands over to
/// be run: everything the execution unit owns, deep-copied, plus the sending
/// end of the registered task's completion channel.
pub struct ExtractionJob {
    /// Where the unit reports its one result.
    pub sender: std::sync::mpsc::Sender<Result<bool, TaskError>>,
    pub archive_path: String,
    pub output_dir: String,
    pub passwords: Vec<String>,
    pub executable_path: String,
    pub delete_after_extract: bool,
}

/// Whether an entry gets an execution unit: it has a path and the destination
/// policy accepts that path.
pub open spec fn entry_schedulable(f: DroppedEntry, mode: ExtractionMode) -> bool {
    f.path is Some && output_path_spec(mode, f.path->0@, f.parent_is_dir, f.stem_path_exists)
        is Some
}

/// The entries of a batch that carry a path, in batch order: each of these
/// becomes one registry entry.
pub open spec fn dropped_with_path(files: Seq<DroppedEntry>) -> Seq<DroppedEntry>
    decreases files.len(),
{
    if files.len() == 0 {
        Seq::empty()
    } else {
        let rest = dropped_with_path(files.drop_last());
        if files.last().path is Some {
            rest.push(files.last())
        } else {
            rest
        }
    }
}

/// The entries of a batch that get an execution unit, in batch order: each of
/// these becomes one job.
pub open spec fn schedulable_entries(
    files: Seq<DroppedEntry>,
    mode: ExtractionMode,
) -> Seq<DroppedEntry>
    decreases files.len(),
{
    if files.len() == 0 {
        Seq::empty()
    } else {
        let rest = schedulable_entries(files.drop_last(), mode);
        if entry_schedulable(files.last(), mode) {
            rest.push(files.last())
        } else {
            rest
        }
    }
}

/// The view of an optional password store.
pub open spec fn store_view(store: Option<String>) -> Option<Seq<char>> {
    match store {
        None => None,
        Some(content) => Some(content@),
    }
}

/// A deep copy of the candidate password list, so that each execution unit
/// owns its own.
fn clone_passwords(v: &Vec<String>) -> (r: Vec<String>)
    ensures
        r@.len() == v@.len(),
        forall|i: int| 0 <= i < r@.len() ==> r@[i]@ == v@[i]@,
{
    let mut r: Vec<String> = Vec::new();
    let mut i: usize = 0;
    while i < v.len()
        invariant
            i <= v@.len(),
            r@.len() == i,
            forall|k: int| 0 <= k < i ==> r@[k]@ == v@[k]@,
        decreases v@.len() - i,
    {
        r.push(v[i].clone());
        i = i + 1;
    }
    r
}

/// The application's state: the configuration, the surface in front, the
/// loaded password text, and the registry of extraction tasks.
pub struct WPassApp {
    pub config: AppConfig,
    pub menu_state: MenuState,
    pub passwords: Option<String>,
    pub task_showcase: Showcase<bool>,
}

impl Default for WPassApp {
    /// A fresh application: empty configuration paths, extraction into the
    /// archive's own directory, no deletion after extraction, password
    /// sanitizing on, the main surface in front, no password store, and an
    /// empty registry.
    fn default() -> (d: WPassApp)
        ensures
            d.config.password_file_path@.len() == 0,
            d.config.archive_executable_path@.len() == 0,
            d.config.extraction_mode == ExtractionMode::Local,
            !d.config.delete_after_extract,
            d.config.sanitize,
            d.menu_state == MenuState::Main,
            d.passwords is None,
            d.task_showcase.tasks@.len() == 0,
    {
        WPassApp {
            config: AppConfig {
                password_file_path: String::new(),
                archive_executable_path: String::new(),
                extraction_mode: ExtractionMode::Local,
                delete_after_extract: false,
                sanitize: true,
            },
            menu_state: MenuState::Main,
            passwords: None,
            task_showcase: Showcase::new(),
        }
    }
}

impl WPassApp {
    /// Adopts the password text that was read from the configured password
    /// file, or clears the store when that file was not readable.
    pub fn init(&mut self, password_store: Option<String>)
        ensures
            final(self).passwords == password_store,
            final(self).config == old(self).config,
            final(self).menu_state == old(self).menu_state,
            final(self).task_showcase == old(self).task_showcase,
    {
        self.passwords = password_store;
    }

    /// Tidies the loaded password text in place when sanitizing is switched
    /// on and a store is loaded: lines are trimmed, ordered, stripped of
    /// repeats, and rejoined as `sanitize_spec` says. Otherwise nothing
    /// changes.
    pub fn try_sanitize_passwords(&mut self)
        ensures
            final(self).config == old(self).config,
            final(self).menu_state == old(self).menu_state,
            final(self).task_showcase == old(self).task_showcase,
            if old(self).config.sanitize && old(self).passwords is Some {
                final(self).passwords matches Some(c) && c@ == sanitize_spec(
                    old(self).passwords->0@,
                )
            } else {
                final(self).passwords == old(self).passwords
            },
    {
        if self.config.sanitize {
            let sanitized = match &self.passwords {
                Some(content) => Some(sanitize_text(content.as_str())),
                None => None,
            };
            if let Some(content) = sanitized {
                self.passwords = Some(content);
            }
        }
    }

    /// Schedules one extraction attempt per dropped entry that carries a path.
    /// Each such entry is registered as one task, in batch order, labelled
    /// with its path: a task still `Running` when the destination policy
    /// accepts the path, an immediately `Failed` one when it does not. For
    /// each accepted entry the returned jobs hold, in the same order, the
    /// sending end of that task's completion channel together with its own
    /// deep copies of the archive path, the computed output directory, the
    /// candidate password list resolved once for the whole batch, and the
    /// snapshot of the executable path and the delete-after-extract flag.
    pub fn schedule_files(&mut self, files: &Vec<DroppedEntry>) -> (jobs: Vec<ExtractionJob>)
        ensures
            final(self).config == old(self).config,
            final(self).menu_state == old(self).menu_state,
            final(self).passwords == old(self).passwords,
            ({
                let mode = old(self).config.extraction_mode;
                let old_tasks = old(self).task_showcase.tasks@;
                let new_tasks = final(self).task_showcase.tasks@;
                let sched = dropped_with_path(files@);
                let okseq = schedulable_entries(files@, mode);
                let dict = password_dict_spec(store_view(old(self).passwords));
                &&& new_tasks.len() == old_tasks.len() + sched.len()
                &&& forall|k: int| 0 <= k < old_tasks.len() ==> new_tasks[k] == old_tasks[k]
                &&& forall|k: int|
                    0 <= k < sched.len() ==> {
                        let f = #[trigger] sched[k];
                        let t = new_tasks[old_tasks.len() + k];
                        t.description@ == f.path->0@ && if entry_schedulable(f, mode) {
                            t.state is Running
                        } else {
                            t.state matches TaskState::Failed(e) && e.message@
                                == invalid_path_message()
                        }
                    }
                &&& jobs@.len() == okseq.len()
                &&& forall|j: int|
                    0 <= j < okseq.len() ==> {
                        let f = #[trigger] okseq[j];
                        let jb = jobs@[j];
                        jb.archive_path@ == f.path->0@ && Some(jb.output_dir@)
                            == output_path_spec(mode, f.path->0@, f.parent_is_dir, f.stem_path_exists)
                            && jb.executable_path@ == old(self).config.archive_executable_path@
                            && jb.delete_after_extract == old(self).config.delete_after_extract
                            && jb.passwords@.len() == dict.len() && forall|i: int|
                            0 <= i < dict.len() ==> jb.passwords@[i]@ == dict[i]
                    }
            }),
    {
        let dict = match &self.passwords {
            None => resolve_password_dict(None),
            Some(content) => resolve_password_dict(Some(content)),
        };
        let mut jobs: Vec<ExtractionJob> = Vec::new();
        let ghost mode = self.config.extraction_mode;
        let ghost old_len = self.task_showcase.tasks@.len() as int;
        let ghost dict_model = password_dict_spec(store_view(self.passwords));
        let n = files.len();
        let mut idx: usize = 0;
        while idx < n
            invariant
                idx <= n,
                n == files@.len(),
                self.config == old(self).config,
                self.menu_state == old(self).menu_state,
                self.passwords == old(self).passwords,
                mode == old(self).config.extraction_mode,
                old_len == old(self).task_showcase.tasks@.len() as int,
                dict_model == password_dict_spec(store_view(old(self).passwords)),
                dict@.len() == dict_model.len(),
                forall|i: int| 0 <= i < dict@.len() ==> dict@[i]@ == dict_model[i],
                self.task_showcase.tasks@.len() == old_len + dropped_with_path(
                    files@.subrange(0, idx as int),
                ).len(),
                forall|k: int|
                    0 <= k < old_len ==> self.task_showcase.tasks@[k] == old(
                        self,
                    ).task_showcase.tasks@[k],
                forall|k: int|
                    0 <= k < dropped_with_path(files@.subrange(0, idx as int)).len() ==> {
                        let f = #[trigger] dropped_with_path(files@.subrange(0, idx as int))[k];
                        let t = self.task_showcase.tasks@[old_len + k];
                        t.description@ == f.path->0@ && if entry_schedulable(f, mode) {
                            t.state is Running
                        } else {
                            t.state matches TaskState::Failed(e) && e.message@
                                == invalid_path_message()
                        }
                    },
                jobs@.len() == schedulable_entries(files@.subrange(0, idx as int), mode).len(),
                forall|j: int|
                    0 <= j < schedulable_entries(files@.subrange(0, idx as int), mode).len() ==> {
                        let f = #[trigger] schedulable_entries(
                            files@.subrange(0, idx as int),
                            mode,
                        )[j];
                        let jb = jobs@[j];
                        jb.archive_path@ == f.path->0@ && Some(jb.output_dir@)
                            == output_path_spec(mode, f.path->0@, f.parent_is_dir, f.stem_path_exists)
                            && jb.executable_path@ == old(self).config.archive_executable_path@
                            && jb.delete_after_extract == old(self).config.delete_after_extract
                            && jb.passwords@.len() == dict_model.len() && forall|i: int|
                            0 <= i < dict_model.len() ==> jb.passwords@[i]@ == dict_model[i]
                    },
            decreases n - idx,
        {
            let ghost prefix = files@.subrange(0, idx as int);
            proof {
                assert(files@.subrange(0, idx + 1).drop_last() =~= prefix);
                assert(files@.subrange(0, idx + 1).last() == files@[idx as int]);
            }
            match &files[idx].path {
                None => {},
                Some(path) => {
                    let parent_is_dir = files[idx].parent_is_dir;
                    let stem_path_exists = files[idx].stem_path_exists;
                    match self.config.calculate_output_path_for(
                        path.as_str(),
                        parent_is_dir,
                        stem_path_exists,
                    ) {
                        Ok(out) => {
                            let (tx, rx) = completion_channel::<bool>();
                            let t = Task::new_inner(path.clone(), rx);
                            self.task_showcase.display(t);
                            jobs.push(
                                ExtractionJob {
                                    sender: tx,
                                    archive_path: path.clone(),
                                    output_dir: out,
                                    passwords: clone_passwords(&dict),
                                    executable_path: self.config.archive_executable_path.clone(),
                                    delete_after_extract: self.config.delete_after_extract,
                                },
                            );
                        },
                        Err(e) => {
                            let (_tx, rx) = completion_channel::<bool>();
                            let t = Task {
                                state: TaskState::Failed(e),
                                description: path.clone(),
                                task: rx,
                            };
                            self.task_showcase.display(t);
                        },
                    }
                },
            }
            idx = idx + 1;
        }
        proof {
            assert(files@.subrange(0, n as int) =~= files@);
        }
        jobs
    }
}

} // verus!
