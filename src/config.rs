use vstd::prelude::*;

use crate::error::Error;

verus! {

/// A cursor record as written in the configuration: a unique name and the
/// path of its .cur or .ani file.
#[derive(Debug)]
pub struct Cursor {
    pub name: String,
    /// Path to the Cursor's .cur/.ani file.
    pub path: String,
}

/// An application record as written in the configuration.
#[derive(Debug)]
pub struct Application {
    /// The Cursor's name
    pub cursor: String,
    /// The file path (or a trailing part of it) of the executable
    pub path: String,
}

/// The configuration as read: every cursor record and every application
/// record, in file order.
pub struct ConfigRaw {
    pub cursor: Vec<Cursor>,
    pub application: Vec<Application>,
}

/// The configuration with cursors indexed by name.
#[derive(Debug)]
pub struct Config {
    /// Cursors, at most one per name.
    cursors: Vec<Cursor>,
    /// List of monitored applications
    applications: Vec<Application>,
}

/// What a `Config` holds: each cursor name with its path, and the monitored
/// applications as (cursor name, executable path) pairs, in order.
pub struct ConfigView {
    pub cursors: Map<Seq<char>, Seq<char>>,
    pub applications: Seq<(Seq<char>, Seq<char>)>,
}

/// The map that inserting `records` one after the other into `m` yields: a
/// later record replaces an earlier one of the same name.
pub open spec fn insert_all(m: Map<Seq<char>, Seq<char>>, records: Seq<Cursor>) -> Map<
    Seq<char>,
    Seq<char>,
>
    decreases records.len(),
{
    if records.len() == 0 {
        m
    } else {
        let last = records.last();
        insert_all(m, records.drop_last()).insert(last.name@, last.path@)
    }
}

/// The (cursor name, executable path) pairs of application records.
pub open spec fn app_pairs(apps: Seq<Application>) -> Seq<(Seq<char>, Seq<char>)> {
    apps.map_values(|a: Application| (a.cursor@, a.path@))
}

/// Index of the first application record whose cursor `names` lacks, if any.
pub open spec fn first_unknown_cursor(names: Set<Seq<char>>, apps: Seq<Application>) -> Option<
    int,
> {
    if exists|i: int| 0 <= i < apps.len() && !names.contains(apps[i].cursor@) {
        Some(
            choose|i: int|
                0 <= i < apps.len() && !names.contains(apps[i].cursor@) && forall|k: int|
                    0 <= k < i ==> names.contains(#[trigger] apps[k].cursor@),
        )
    } else {
        None
    }
}

impl View for Config {
    type V = ConfigView;

    closed spec fn view(&self) -> ConfigView {
        ConfigView {
            cursors: Map::new(
                |n: Seq<char>| exists|i: int| 0 <= i < self.cursors@.len() && self.cursors@[i].name@ == n,
                |n: Seq<char>|
                    self.cursors@[choose|i: int|
                        0 <= i < self.cursors@.len() && self.cursors@[i].name@ == n].path@,
            ),
            applications: app_pairs(self.applications@),
        }
    }
}

impl Config {
    /// No two cursors share a name.
    pub closed spec fn wf(&self) -> bool {
        forall|i: int, j: int|
            0 <= i < j < self.cursors@.len() ==> self.cursors@[i].name@ != self.cursors@[j].name@
    }

    /// Build a configuration from the records as read: cursors keyed by name,
    /// a later record replacing an earlier one, and the applications, each of
    /// which must name a declared cursor.
    pub fn from_raw(raw: ConfigRaw) -> (r: Result<Config, Error>)
        ensures
            ({
                let names = insert_all(Map::empty(), raw.cursor@).dom();
                match first_unknown_cursor(names, raw.application@) {
                    None => r is Ok && r->Ok_0.wf() && r->Ok_0@ == ConfigView {
                        cursors: insert_all(Map::empty(), raw.cursor@),
                        applications: app_pairs(raw.application@),
                    },
                    Some(i) => r is Err && (match r->Err_0 {
                        Error::MissingCursorNameError { name } => name@
                            == raw.application@[i].cursor@,
                        _ => false,
                    }),
                }
            }),
    {
        let ConfigRaw { cursor, application } = raw;
        let mut config = Config::new();
        config.add_cursors(cursor);
        match config.add_applications(application) {
            Ok(()) => Ok(config),
            Err(e) => Err(e),
        }
    }

    fn new() -> (r: Config)
        ensures
            r.wf(),
            r@.cursors == Map::<Seq<char>, Seq<char>>::empty(),
            r@.applications == Seq::<(Seq<char>, Seq<char>)>::empty(),
    {
        let r = Config { cursors: Vec::new(), applications: Vec::new() };
        assert(r@.cursors =~= Map::<Seq<char>, Seq<char>>::empty());
        assert(r@.applications =~= Seq::<(Seq<char>, Seq<char>)>::empty());
        r
    }

    /// Position of the cursor called `name`, if any.
    fn position_of(&self, name: &String) -> (r: Option<usize>)
        ensures
            match r {
                Some(i) => i < self.cursors@.len() && self.cursors@[i as int].name@ == name@,
                None => forall|k: int|
                    0 <= k < self.cursors@.len() ==> self.cursors@[k].name@ != name@,
            },
    {
        let mut i: usize = 0;
        while i < self.cursors.len()
            invariant
                i <= self.cursors@.len(),
                forall|k: int| 0 <= k < i ==> self.cursors@[k].name@ != name@,
            decreases self.cursors@.len() - i,
        {
            if self.cursors[i].name == *name {
                return Some(i);
            }
            i += 1;
        }
        None
    }

    /// Insert Cursors into the configuration, replacing any cursor of the
    /// same name.
    fn add_cursors(&mut self, cursors: Vec<Cursor>)
        requires
            old(self).wf(),
        ensures
            final(self).wf(),
            final(self)@.cursors == insert_all(old(self)@.cursors, cursors@),
            final(self)@.applications == old(self)@.applications,
    {
        let ghost records = cursors@;
        let ghost start = self@.cursors;
        let mut cursors = cursors;
        while cursors.len() > 0
            invariant
                self.wf(),
                cursors@.len() <= records.len(),
                cursors@ =~= records.subrange(records.len() - cursors@.len(), records.len() as int),
                self@.cursors == insert_all(start, records.subrange(0, records.len() - cursors@.len())),
                self@.applications == old(self)@.applications,
            decreases cursors@.len(),
        {
            let ghost d = records.len() - cursors@.len();
            let c = cursors.remove(0);
            proof {
                assert(records[d] == c);
                assert(records.subrange(0, d + 1).drop_last() =~= records.subrange(0, d));
                assert(cursors@ =~= records.subrange(records.len() - cursors@.len(), records.len() as int));
            }
            self.insert_cursor(c);
        }
        assert(records.subrange(0, records.len() as int) =~= records);
    }

    /// Insert one cursor, replacing any cursor of the same name.
    fn insert_cursor(&mut self, c: Cursor)
        requires
            old(self).wf(),
        ensures
            final(self).wf(),
            final(self)@.cursors == old(self)@.cursors.insert(c.name@, c.path@),
            final(self)@.applications == old(self)@.applications,
    {
        let ghost name = c.name@;
        let ghost path = c.path@;
        let ghost pos: int;
        match self.position_of(&c.name) {
            Some(i) => {
                self.cursors.set(i, c);
                proof {
                    pos = i as int;
                }
            },
            None => {
                self.cursors.push(c);
                proof {
                    pos = self.cursors@.len() - 1;
                }
            },
        }
        proof {
            let m = self@.cursors;
            let want = old(self)@.cursors.insert(name, path);
            assert forall|x: Seq<char>| m.contains_key(x) <==> want.contains_key(x) by {
                if x != name && want.contains_key(x) {
                    let k = choose|k: int|
                        0 <= k < old(self).cursors@.len() && old(self).cursors@[k].name@ == x;
                    assert(self.cursors@[k].name@ == x);
                }
                if m.contains_key(x) && x != name {
                    let k = choose|k: int| 0 <= k < self.cursors@.len() && self.cursors@[k].name@ == x;
                    assert(old(self).cursors@[k].name@ == x);
                }
                if x == name {
                    assert(self.cursors@[pos].name@ == x);
                }
            }
            assert forall|x: Seq<char>| #[trigger] m.contains_key(x) implies m[x] == want[x] by {
                let k = choose|k: int| 0 <= k < self.cursors@.len() && self.cursors@[k].name@ == x;
                if x != name {
                    assert(old(self).cursors@[k].name@ == x);
                    let k0 = choose|k0: int|
                        0 <= k0 < old(self).cursors@.len() && old(self).cursors@[k0].name@ == x;
                    assert(k == k0);
                }
            }
            assert(m =~= want);
        }
    }

    /// Insert tracked applications into the Config. Each must name a cursor
    /// of the Config; the first one that does not is reported.
    fn add_applications(&mut self, applications: Vec<Application>) -> (r: Result<(), Error>)
        requires
            old(self).wf(),
        ensures
            final(self).wf(),
            final(self)@.cursors == old(self)@.cursors,
            match first_unknown_cursor(old(self)@.cursors.dom(), applications@) {
                None => r is Ok && final(self)@.applications == old(self)@.applications + app_pairs(
                    applications@,
                ),
                Some(i) => r is Err && (match r->Err_0 {
                    Error::MissingCursorNameError { name } => name@ == applications@[i].cursor@,
                    _ => false,
                }),
            },
    {
        let ghost apps = applications@;
        let ghost names = self@.cursors.dom();
        let mut i: usize = 0;
        while i < applications.len()
            invariant
                self.wf(),
                apps == applications@,
                names == old(self)@.cursors.dom(),
                self@.cursors == old(self)@.cursors,
                i <= apps.len(),
                forall|k: int| 0 <= k < i ==> names.contains(#[trigger] apps[k].cursor@),
            decreases apps.len() - i,
        {
            if self.position_of(&applications[i].cursor).is_none() {
                let ghost w = i as int;
                assert(!names.contains(apps[w].cursor@));
                proof {
                    let j = choose|j: int|
                        0 <= j < apps.len() && !names.contains(apps[j].cursor@) && forall|k: int|
                            0 <= k < j ==> names.contains(#[trigger] apps[k].cursor@);
                    if j < w {
                        assert(names.contains(apps[j].cursor@));
                    }
                    if w < j {
                        assert(names.contains(apps[w].cursor@));
                    }
                }
                return Err(Error::MissingCursorNameError { name: applications[i].cursor.clone() });
            }
            i += 1;
        }
        let mut applications = applications;
        self.applications.append(&mut applications);
        assert(self@.applications =~= old(self)@.applications + app_pairs(apps));
        Ok(())
    }

    /// The path of the cursor called `name`, if the configuration has one.
    pub fn cursor_path(&self, name: &String) -> (r: Option<&String>)
        requires
            self.wf(),
        ensures
            match r {
                Some(p) => self@.cursors.contains_key(name@) && p@ == self@.cursors[name@],
                None => !self@.cursors.contains_key(name@),
            },
    {
        match self.position_of(name) {
            Some(i) => {
                proof {
                    let k = choose|k: int|
                        0 <= k < self.cursors@.len() && self.cursors@[k].name@ == name@;
                    if k != i {
                        if k < i {
                            assert(self.cursors@[k].name@ != self.cursors@[i as int].name@);
                        } else {
                            assert(self.cursors@[i as int].name@ != self.cursors@[k].name@);
                        }
                    }
                }
                Some(&self.cursors[i].path)
            },
            None => None,
        }
    }

    /// The monitored applications, in order.
    pub fn applications(&self) -> (r: &[Application])
        ensures
            app_pairs(r@) == self@.applications,
    {
        self.applications.as_slice()
    }
}

} // verus!
