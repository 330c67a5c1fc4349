use vstd::prelude::*;

use crate::config;
use crate::error::Error;

verus! {

/// A unique integer identifier of a Cursor within one registry.
pub type CursorId = u32;

/// Whether `suffix` is a trailing part of `s`, character for character.
pub open spec fn is_suffix(suffix: Seq<char>, s: Seq<char>) -> bool {
    suffix.len() <= s.len() && s.subrange(s.len() - suffix.len(), s.len() as int) == suffix
}

/// Relies on str::ends_with: true exactly when `suffix` is a suffix of `s`.
#[verifier::external_body]
fn ends_with(s: &str, suffix: &str) -> (r: bool)
    ensures
        r == is_suffix(suffix@, s@),
{
    s.ends_with(suffix)
}

/// What a Cursor holds.
pub struct CursorEntry {
    pub id: CursorId,
    pub name: Seq<char>,
    pub path: Seq<char>,
}

/// A registered cursor: its identifier, unique name and image file path.
/// The platform handle of its image is kept by whoever applies it, keyed by
/// the identifier.
#[derive(Debug)]
pub struct Cursor {
    /// A unique integer identifer for this Cursor
    id: CursorId,
    /// Unique identifer for this Cursor
    name: String,
    /// Path to this Cursor's .cur or .ani file.
    path: String,
}

impl View for Cursor {
    type V = CursorEntry;

    closed spec fn view(&self) -> CursorEntry {
        CursorEntry { id: self.id, name: self.name@, path: self.path@ }
    }
}

impl Cursor {
    pub fn new(id: CursorId, name: String, path: String) -> (r: Cursor)
        ensures
            r@ == (CursorEntry { id, name: name@, path: path@ }),
    {
        Cursor { id, name, path }
    }

    pub fn id(&self) -> (r: CursorId)
        ensures
            r == self@.id,
    {
        self.id
    }

    pub fn name(&self) -> (r: &str)
        ensures
            r@ == self@.name,
    {
        self.name.as_str()
    }

    /// Get the path to this Cursor's image file.
    pub fn path(&self) -> (r: &str)
        ensures
            r@ == self@.path,
    {
        self.path.as_str()
    }
}

/// What an Application holds.
pub struct AppEntry {
    pub cursor_id: CursorId,
    pub path: Seq<char>,
}

/// A monitored application: the executable path (or a trailing part of it)
/// that identifies it, and the cursor to show over it.
#[derive(Debug)]
pub struct Application {
    /// The ID of the Cursor to use when the mouse is over this Application.
    cursor_id: CursorId,
    /// The path (or partial path) that identifies this Application: the full
    /// path of the executable under the pointer must end with it.
    path: String,
}

impl View for Application {
    type V = AppEntry;

    closed spec fn view(&self) -> AppEntry {
        AppEntry { cursor_id: self.cursor_id, path: self.path@ }
    }
}

impl Application {
    pub fn new(cursor: CursorId, path: String) -> (r: Self)
        ensures
            r@ == (AppEntry { cursor_id: cursor, path: path@ }),
    {
        Application { cursor_id: cursor, path }
    }

    pub fn cursor_id(&self) -> (r: CursorId)
        ensures
            r == self@.cursor_id,
    {
        self.cursor_id
    }

    pub fn path(&self) -> (r: &str)
        ensures
            r@ == self@.path,
    {
        self.path.as_str()
    }
}

/// What a tick asks of the platform.
#[derive(Debug, Clone, Copy, PartialEq, Eq, Structural)]
pub enum Action {
    /// Leave the system cursors as they are.
    Keep,
    /// Apply the image of this cursor to every system cursor role.
    Activate(CursorId),
    /// Reload the user's default system cursors.
    RestoreDefault,
}

/// What a CursorChanger holds: the cursors (the one at index `i` has id
/// `i + 1`), the monitored applications in priority order, and the cursor now
/// shown (`None`: the system default).
pub struct ChangerView {
    pub cursors: Seq<CursorEntry>,
    pub applications: Seq<AppEntry>,
    pub active_cursor: Option<CursorId>,
}

/// Whether some cursor of `cursors` is called `name`.
pub open spec fn name_in(cursors: Seq<CursorEntry>, name: Seq<char>) -> bool {
    exists|k: int| 0 <= k < cursors.len() && cursors[k].name == name
}

/// The id of the cursor of `cursors` called `name`.
pub open spec fn id_named(cursors: Seq<CursorEntry>, name: Seq<char>) -> CursorId {
    cursors[choose|k: int| 0 <= k < cursors.len() && cursors[k].name == name].id
}

/// A registry is well formed: ids are positions plus one, names are unique,
/// and every cursor id that an application or the active state holds resolves.
pub open spec fn registry_wf(v: ChangerView) -> bool {
    &&& forall|i: int| 0 <= i < v.cursors.len() ==> #[trigger] v.cursors[i].id == i + 1
    &&& forall|i: int, j: int|
        0 <= i < j < v.cursors.len() ==> v.cursors[i].name != v.cursors[j].name
    &&& forall|i: int|
        0 <= i < v.applications.len() ==> 1 <= #[trigger] v.applications[i].cursor_id
            <= v.cursors.len()
    &&& match v.active_cursor {
        Some(c) => 1 <= c <= v.cursors.len(),
        None => true,
    }
}

/// The record at `i` repeats a name that `existing` or an earlier record has.
pub open spec fn duplicate_at(
    existing: Seq<CursorEntry>,
    records: Seq<config::Cursor>,
    i: int,
) -> bool {
    name_in(existing, records[i].name@) || exists|j: int|
        0 <= j < i && records[j].name@ == records[i].name@
}

/// The record at `i` cannot be registered: its name is taken or its file is
/// absent (`present[i]` says whether the file exists).
pub open spec fn faulty_at(
    existing: Seq<CursorEntry>,
    records: Seq<config::Cursor>,
    present: Seq<bool>,
    i: int,
) -> bool {
    duplicate_at(existing, records, i) || !present[i]
}

/// The index of the first record that cannot be registered, if any.
pub open spec fn first_fault(
    existing: Seq<CursorEntry>,
    records: Seq<config::Cursor>,
    present: Seq<bool>,
) -> Option<int> {
    if exists|i: int| 0 <= i < records.len() && faulty_at(existing, records, present, i) {
        Some(
            choose|i: int|
                0 <= i < records.len() && faulty_at(existing, records, present, i) && forall|
                    k: int,
                | 0 <= k < i ==> !#[trigger] faulty_at(existing, records, present, k),
        )
    } else {
        None
    }
}

/// The error that the record at `i` gives: a taken name first, else an absent file.
pub open spec fn is_cursor_error(
    e: Error,
    existing: Seq<CursorEntry>,
    records: Seq<config::Cursor>,
    i: int,
) -> bool {
    match e {
        Error::DuplicateCursorName { name } => duplicate_at(existing, records, i) && name@
            == records[i].name@,
        Error::MissingCursorFileError { name, path } => !duplicate_at(existing, records, i)
            && name@ == records[i].name@ && path@ == records[i].path@,
        _ => false,
    }
}

/// The cursors that the records give when registered after `start` others.
pub open spec fn entries_of(start: int, records: Seq<config::Cursor>) -> Seq<CursorEntry> {
    Seq::new(
        records.len(),
        |i: int|
            CursorEntry {
                id: (start + i + 1) as CursorId,
                name: records[i].name@,
                path: records[i].path@,
            },
    )
}

/// The index of the first application record whose cursor is not registered.
pub open spec fn first_unresolved(
    cursors: Seq<CursorEntry>,
    records: Seq<config::Application>,
) -> Option<int> {
    if exists|i: int| 0 <= i < records.len() && !name_in(cursors, records[i].cursor@) {
        Some(
            choose|i: int|
                0 <= i < records.len() && !name_in(cursors, records[i].cursor@) && forall|k: int|
                    0 <= k < i ==> name_in(cursors, #[trigger] records[k].cursor@),
        )
    } else {
        None
    }
}

/// The applications that the records give, each with its cursor's id.
pub open spec fn resolved(cursors: Seq<CursorEntry>, records: Seq<config::Application>) -> Seq<
    AppEntry,
> {
    Seq::new(
        records.len(),
        |i: int| AppEntry { cursor_id: id_named(cursors, records[i].cursor@), path: records[i].path@ },
    )
}

/// The error that an application record naming no registered cursor gives.
pub open spec fn is_application_error(e: Error, records: Seq<config::Application>, i: int) -> bool {
    match e {
        Error::MissingCursorNameError { name } => name@ == records[i].cursor@,
        _ => false,
    }
}

/// The outcome of building a registry from the records: the registry, or
/// `None` where some record is rejected.
pub open spec fn registry_of(
    cursors: Seq<config::Cursor>,
    present: Seq<bool>,
    applications: Seq<config::Application>,
) -> Option<ChangerView> {
    let entries = entries_of(0, cursors);
    if first_fault(Seq::empty(), cursors, present) is Some {
        None
    } else if first_unresolved(entries, applications) is Some {
        None
    } else {
        Some(
            ChangerView {
                cursors: entries,
                applications: resolved(entries, applications),
                active_cursor: None,
            },
        )
    }
}

/// The index of the first application whose path is a suffix of `exe`.
pub open spec fn first_match(apps: Seq<AppEntry>, exe: Seq<char>) -> Option<int> {
    if exists|i: int| 0 <= i < apps.len() && is_suffix(apps[i].path, exe) {
        Some(
            choose|i: int|
                0 <= i < apps.len() && is_suffix(apps[i].path, exe) && forall|k: int|
                    0 <= k < i ==> !is_suffix(#[trigger] apps[k].path, exe),
        )
    } else {
        None
    }
}

/// The cursor that the applications ask for over the executable `exe`.
pub open spec fn target(apps: Seq<AppEntry>, exe: Seq<char>) -> Option<CursorId> {
    match first_match(apps, exe) {
        Some(i) => Some(apps[i].cursor_id),
        None => None,
    }
}

/// What one tick learns: `None` when no process lies under the pointer, else
/// the cursor that the matched application asks for (`None`: no match).
pub open spec fn observation(apps: Seq<AppEntry>, exe: Option<Seq<char>>) -> Option<
    Option<CursorId>,
> {
    match exe {
        Some(p) => Some(target(apps, p)),
        None => None,
    }
}

/// The activation state machine: from the cursor now shown and what a tick
/// learned, the next cursor shown and what the platform must do.
pub open spec fn step(active: Option<CursorId>, seen: Option<Option<CursorId>>) -> (
    Option<CursorId>,
    Action,
) {
    match seen {
        None => (active, Action::Keep),
        Some(Some(c)) => if active == Some(c) {
            (active, Action::Keep)
        } else {
            (Some(c), Action::Activate(c))
        },
        Some(None) => if active is Some {
            (None, Action::RestoreDefault)
        } else {
            (None, Action::Keep)
        },
    }
}

/// The characters of the executable path, if there is one.
pub open spec fn str_view(exe: Option<&str>) -> Option<Seq<char>> {
    match exe {
        Some(p) => Some(p@),
        None => None,
    }
}

/// The registry of cursors and monitored applications, with the cursor now shown.
#[derive(Debug)]
pub struct CursorChanger {
    /// Registered cursors; the one at index `i` has id `i + 1`.
    cursors: Vec<Cursor>,
    /// Monitored applications
    applications: Vec<Application>,
    /// Run-time state: Which custom cursor is currently active, or is it the
    /// system cursor (`None`).
    active_cursor: Option<CursorId>,
}

impl View for CursorChanger {
    type V = ChangerView;

    closed spec fn view(&self) -> ChangerView {
        ChangerView {
            cursors: self.cursors@.map_values(|c: Cursor| c@),
            applications: self.applications@.map_values(|a: Application| a@),
            active_cursor: self.active_cursor,
        }
    }
}

impl CursorChanger {
    pub open spec fn wf(&self) -> bool {
        registry_wf(self@)
    }

    /// Build the registry from the configuration records. `present[i]` says
    /// whether the image file of the `i`-th cursor record exists. The first
    /// record that is rejected, in order, gives the error.
    pub fn from_config(config: config::ConfigRaw, present: &Vec<bool>) -> (r: Result<
        CursorChanger,
        Error,
    >)
        requires
            present@.len() == config.cursor@.len(),
            config.cursor@.len() < CursorId::MAX,
        ensures
            match first_fault(Seq::empty(), config.cursor@, present@) {
                Some(i) => r is Err && is_cursor_error(r->Err_0, Seq::empty(), config.cursor@, i),
                None => match first_unresolved(entries_of(0, config.cursor@), config.application@) {
                    Some(i) => r is Err && is_application_error(r->Err_0, config.application@, i),
                    None => r is Ok,
                },
            },
            r is Ok ==> r->Ok_0.wf() && registry_of(
                config.cursor@,
                present@,
                config.application@,
            ) == Some(r->Ok_0@),
    {
        let config::ConfigRaw { cursor, application } = config;
        let ghost cursors = cursor@;
        let ghost apps = application@;
        let mut changer = CursorChanger::new();
        match changer.add_cursors(cursor, present) {
            Ok(()) => {},
            Err(e) => {
                return Err(e);
            },
        }
        assert(changer@.cursors =~= entries_of(0, cursors));
        match changer.add_applications(application) {
            Ok(()) => {},
            Err(e) => {
                return Err(e);
            },
        }
        assert(changer@.applications =~= resolved(entries_of(0, cursors), apps));
        Ok(changer)
    }

    fn new() -> (r: CursorChanger)
        ensures
            r.wf(),
            r@.cursors == Seq::<CursorEntry>::empty(),
            r@.applications == Seq::<AppEntry>::empty(),
            r@.active_cursor is None,
    {
        let r = CursorChanger { cursors: Vec::new(), applications: Vec::new(), active_cursor: None };
        assert(r@.cursors =~= Seq::<CursorEntry>::empty());
        assert(r@.applications =~= Seq::<AppEntry>::empty());
        r
    }

    pub fn is_custom_cursor_active(&self) -> (r: bool)
        ensures
            r == self@.active_cursor is Some,
    {
        self.active_cursor.is_some()
    }

    /// The cursor now shown, `None` for the system default.
    pub fn active_cursor(&self) -> (r: Option<CursorId>)
        ensures
            r == self@.active_cursor,
    {
        self.active_cursor
    }

    /// The registered cursors, in order of registration.
    pub fn cursors(&self) -> (r: &[Cursor])
        ensures
            r@.map_values(|c: Cursor| c@) == self@.cursors,
    {
        self.cursors.as_slice()
    }

    /// The monitored applications, in priority order.
    pub fn applications(&self) -> (r: &[Application])
        ensures
            r@.map_values(|a: Application| a@) == self@.applications,
    {
        self.applications.as_slice()
    }

    /// The cursor with this id, if registered.
    pub fn cursor(&self, id: CursorId) -> (r: Option<&Cursor>)
        requires
            self.wf(),
        ensures
            match r {
                Some(c) => 1 <= id <= self@.cursors.len() && c@ == self@.cursors[id - 1],
                None => !(1 <= id <= self@.cursors.len()),
            },
    {
        if 1 <= id && (id as usize) <= self.cursors.len() {
            Some(&self.cursors[(id - 1) as usize])
        } else {
            None
        }
    }

    /// The id of the cursor called `name`, if registered.
    fn cursor_id_named(&self, name: &String) -> (r: Option<CursorId>)
        requires
            self.wf(),
        ensures
            match r {
                Some(id) => name_in(self@.cursors, name@) && id == id_named(self@.cursors, name@),
                None => !name_in(self@.cursors, name@),
            },
    {
        let ghost v = self@.cursors;
        let mut i: usize = 0;
        while i < self.cursors.len()
            invariant
                v == self@.cursors,
                registry_wf(self@),
                i <= v.len(),
                forall|k: int| 0 <= k < i ==> v[k].name != name@,
            decreases v.len() - i,
        {
            if self.cursors[i].name == *name {
                proof {
                    assert(v[i as int].name == name@);
                    let k = choose|k: int| 0 <= k < v.len() && v[k].name == name@;
                    if k != i {
                        if k < i {
                            assert(v[k].name != v[i as int].name);
                        } else {
                            assert(v[i as int].name != v[k].name);
                        }
                    }
                }
                return Some(self.cursors[i].id);
            }
            i += 1;
        }
        None
    }

    /// Register cursors, in order, with ids that follow the existing ones.
    /// `present[i]` says whether the image file of `cursors[i]` exists. Stops
    /// at the first record whose name is taken or whose file is absent.
    fn add_cursors(&mut self, cursors: Vec<config::Cursor>, present: &Vec<bool>) -> (r: Result<
        (),
        Error,
    >)
        requires
            old(self).wf(),
            present@.len() == cursors@.len(),
            old(self)@.cursors.len() + cursors@.len() < CursorId::MAX,
        ensures
            final(self).wf(),
            final(self)@.applications == old(self)@.applications,
            final(self)@.active_cursor == old(self)@.active_cursor,
            match first_fault(old(self)@.cursors, cursors@, present@) {
                Some(i) => r is Err && is_cursor_error(r->Err_0, old(self)@.cursors, cursors@, i),
                None => r is Ok && final(self)@.cursors == old(self)@.cursors + entries_of(
                    old(self)@.cursors.len() as int,
                    cursors@,
                ),
            },
    {
        let ghost records = cursors@;
        let ghost existing = self@.cursors;
        let ghost start = existing.len() as int;
        let mut pending = cursors;
        let mut next_id: CursorId = self.cursors.len() as CursorId + 1;
        let mut index: usize = 0;
        while pending.len() > 0
            invariant
                self.wf(),
                self@.applications == old(self)@.applications,
                self@.active_cursor == old(self)@.active_cursor,
                present@.len() == records.len(),
                existing == old(self)@.cursors,
                records == cursors@,
                start == existing.len(),
                start + records.len() < CursorId::MAX,
                index + pending@.len() == records.len(),
                pending@ =~= records.subrange(index as int, records.len() as int),
                next_id == start + index + 1,
                self@.cursors =~= existing + entries_of(start, records.subrange(0, index as int)),
                forall|k: int| 0 <= k < index ==> !#[trigger] faulty_at(existing, records, present@, k),
            decreases pending@.len(),
        {
            let ghost d = index as int;
            let ghost before = self@.cursors;
            let config_cursor = pending.remove(0);
            assert(records[d] == config_cursor);
            let cursor = Cursor::new(next_id, config_cursor.name, config_cursor.path);
            proof {
                assert(before.len() == start + d);
                assert forall|k: int| 0 <= k < d implies #[trigger] before[start + k].name
                    == records[k].name@ by {}
            }
            let taken = self.cursor_id_named(&cursor.name).is_some();
            proof {
                let n = records[d].name@;
                if name_in(before, n) {
                    let k = choose|k: int| 0 <= k < before.len() && before[k].name == n;
                    if k >= start {
                        assert(records[k - start].name@ == n);
                    } else {
                        assert(existing[k].name == n);
                    }
                }
                if name_in(existing, n) {
                    let k = choose|k: int| 0 <= k < existing.len() && existing[k].name == n;
                    assert(before[k].name == n);
                }
                if exists|j: int| 0 <= j < d && records[j].name@ == n {
                    let j = choose|j: int| 0 <= j < d && records[j].name@ == n;
                    assert(before[start + j].name == n);
                }
                assert(taken == duplicate_at(existing, records, d));
            }
            // Its name must be new and its image file must exist.
            if taken || !present[index] {
                proof {
                    assert(faulty_at(existing, records, present@, d));
                    let i = choose|i: int|
                        0 <= i < records.len() && faulty_at(existing, records, present@, i) && forall|
                            k: int,
                        | 0 <= k < i ==> !#[trigger] faulty_at(existing, records, present@, k);
                    if i < d {
                        assert(!faulty_at(existing, records, present@, i));
                    }
                    if d < i {
                        assert(!faulty_at(existing, records, present@, d));
                    }
                }
                if taken {
                    return Err(Error::DuplicateCursorName { name: cursor.name });
                }
                return Err(Error::MissingCursorFileError { name: cursor.name, path: cursor.path });
            }
            self.cursors.push(cursor);
            index += 1;
            next_id += 1;
            proof {
                assert(records.subrange(0, index as int).drop_last() =~= records.subrange(0, d));
                assert(self@.cursors =~= before.push(cursor@));
                assert(pending@ =~= records.subrange(index as int, records.len() as int));
            }
        }
        proof {
            assert(records.subrange(0, records.len() as int) =~= records);
            assert(!exists|i: int| 0 <= i < records.len() && faulty_at(existing, records, present@, i));
        }
        Ok(())
    }

    /// Register monitored applications, in order, each with the id of the
    /// cursor it names. Stops at the first that names no registered cursor.
    fn add_applications(&mut self, applications: Vec<config::Application>) -> (r: Result<
        (),
        Error,
    >)
        requires
            old(self).wf(),
        ensures
            final(self).wf(),
            final(self)@.cursors == old(self)@.cursors,
            final(self)@.active_cursor == old(self)@.active_cursor,
            match first_unresolved(old(self)@.cursors, applications@) {
                Some(i) => r is Err && is_application_error(r->Err_0, applications@, i),
                None => r is Ok && final(self)@.applications == old(self)@.applications + resolved(
                    old(self)@.cursors,
                    applications@,
                ),
            },
    {
        let ghost records = applications@;
        let ghost cursors = self@.cursors;
        let ghost start = self@.applications;
        let mut pending = applications;
        let total = pending.len();
        let mut index: usize = 0;
        while pending.len() > 0
            invariant
                self.wf(),
                total == records.len(),
                self@.cursors == cursors,
                cursors == old(self)@.cursors,
                start == old(self)@.applications,
                records == applications@,
                self@.active_cursor == old(self)@.active_cursor,
                index + pending@.len() == records.len(),
                pending@ =~= records.subrange(index as int, records.len() as int),
                self@.applications =~= start + resolved(cursors, records.subrange(0, index as int)),
                forall|k: int| 0 <= k < index ==> name_in(cursors, #[trigger] records[k].cursor@),
            decreases pending@.len(),
        {
            let ghost d = index as int;
            let ghost before = self@.applications;
            let config_application = pending.remove(0);
            assert(records[d] == config_application);
            // Try to find the ID of the cursor, given the cursor's name.
            let cursor_id = match self.cursor_id_named(&config_application.cursor) {
                Some(id) => id,
                None => {
                    proof {
                        let i = choose|i: int|
                            0 <= i < records.len() && !name_in(cursors, records[i].cursor@)
                                && forall|k: int|
                                0 <= k < i ==> name_in(cursors, #[trigger] records[k].cursor@);
                        if i < d {
                            assert(name_in(cursors, records[i].cursor@));
                        }
                        if d < i {
                            assert(name_in(cursors, records[d].cursor@));
                        }
                    }
                    return Err(Error::MissingCursorNameError { name: config_application.cursor });
                },
            };
            proof {
                let k = choose|k: int| 0 <= k < cursors.len() && cursors[k].name == records[d].cursor@;
                assert(cursors[k].id == k + 1);
            }
            let application = Application::new(cursor_id, config_application.path);
            self.applications.push(application);
            index += 1;
            proof {
                assert(self@.applications =~= before.push(application@));
                assert(resolved(cursors, records.subrange(0, index as int)) =~= resolved(
                    cursors,
                    records.subrange(0, d),
                ).push(application@));
                assert(pending@ =~= records.subrange(index as int, records.len() as int));
            }
        }
        proof {
            assert(records.subrange(0, records.len() as int) =~= records);
        }
        Ok(())
    }

    /// The first monitored application, in priority order, whose path is a
    /// suffix of `exe_path`.
    pub fn application_matching(&self, exe_path: &str) -> (r: Option<&Application>)
        requires
            self.wf(),
        ensures
            r is Some ==> 1 <= r->Some_0@.cursor_id <= self@.cursors.len(),
            match first_match(self@.applications, exe_path@) {
                Some(i) => r is Some && r->Some_0@ == self@.applications[i],
                None => r is None,
            },
    {
        let ghost apps = self@.applications;
        let mut i: usize = 0;
        while i < self.applications.len()
            invariant
                apps == self@.applications,
                registry_wf(self@),
                i <= apps.len(),
                forall|k: int| 0 <= k < i ==> !is_suffix(#[trigger] apps[k].path, exe_path@),
            decreases apps.len() - i,
        {
            if ends_with(exe_path, self.applications[i].path.as_str()) {
                proof {
                    let w = i as int;
                    assert(is_suffix(apps[w].path, exe_path@));
                    let j = choose|j: int|
                        0 <= j < apps.len() && is_suffix(apps[j].path, exe_path@) && forall|k: int|
                            0 <= k < j ==> !is_suffix(#[trigger] apps[k].path, exe_path@);
                    if j < w {
                        assert(!is_suffix(apps[j].path, exe_path@));
                    }
                    if w < j {
                        assert(!is_suffix(apps[w].path, exe_path@));
                    }
                    assert(1 <= apps[w].cursor_id <= self@.cursors.len());
                }
                return Some(&self.applications[i]);
            }
            i += 1;
        }
        None
    }

    /// Show the cursor `cursor_id`: activate it unless it is already shown.
    pub fn set_cursor(&mut self, cursor_id: CursorId) -> (r: Action)
        requires
            old(self).wf(),
            1 <= cursor_id <= old(self)@.cursors.len(),
        ensures
            final(self).wf(),
            final(self)@.cursors == old(self)@.cursors,
            final(self)@.applications == old(self)@.applications,
            (final(self)@.active_cursor, r) == step(old(self)@.active_cursor, Some(Some(cursor_id))),
    {
        // If the active cursor is the same as the application's desired cursor, then do nothing.
        if self.active_cursor == Some(cursor_id) {
            return Action::Keep;
        }
        self.active_cursor = Some(cursor_id);
        proof {
            assert(self@.cursors =~= old(self)@.cursors);
            assert(self@.applications =~= old(self)@.applications);
        }
        Action::Activate(cursor_id)
    }

    /// Show the system default cursors: restore them unless no custom cursor
    /// is shown.
    pub fn reset_to_default_cursor(&mut self) -> (r: Action)
        requires
            old(self).wf(),
        ensures
            final(self).wf(),
            final(self)@.cursors == old(self)@.cursors,
            final(self)@.applications == old(self)@.applications,
            (final(self)@.active_cursor, r) == step(old(self)@.active_cursor, Some(None)),
    {
        // If no custom cursor is active, then just return and do nothing.
        if !self.is_custom_cursor_active() {
            return Action::Keep;
        }
        self.active_cursor = None;
        proof {
            assert(self@.cursors =~= old(self)@.cursors);
            assert(self@.applications =~= old(self)@.applications);
        }
        Action::RestoreDefault
    }

    /// One tick of the poll loop. `exe_path` is the full path of the
    /// executable under the pointer, `None` when no process could be found
    /// there. Returns what the platform must do; the registry is unchanged.
    pub fn tick(&mut self, exe_path: Option<&str>) -> (r: Action)
        requires
            old(self).wf(),
        ensures
            final(self).wf(),
            final(self)@.cursors == old(self)@.cursors,
            final(self)@.applications == old(self)@.applications,
            (final(self)@.active_cursor, r) == step(
                old(self)@.active_cursor,
                observation(old(self)@.applications, str_view(exe_path)),
            ),
    {
        match exe_path {
            Some(exe_path) => {
                // Get the ID of the cursor to use for this application (or None)
                let new_cursor_id = match self.application_matching(exe_path) {
                    Some(application) => Some(application.cursor_id),
                    None => None,
                };
                match new_cursor_id {
                    Some(cursor_id) => self.set_cursor(cursor_id),
                    None => self.reset_to_default_cursor(),
                }
            },
            // No window under the cursor
            None => Action::Keep,
        }
    }

    /// Leave the custom cursors: the poll loop has ended, and the system
    /// default cursors are restored whatever is shown now.
    pub fn shut_down(&mut self) -> (r: Action)
        requires
            old(self).wf(),
        ensures
            final(self).wf(),
            r == Action::RestoreDefault,
            final(self)@.active_cursor is None,
            final(self)@.cursors == old(self)@.cursors,
            final(self)@.applications == old(self)@.applications,
    {
        self.active_cursor = None;
        proof {
            assert(self@.cursors =~= old(self)@.cursors);
            assert(self@.applications =~= old(self)@.applications);
        }
        Action::RestoreDefault
    }
}

} // verus!
