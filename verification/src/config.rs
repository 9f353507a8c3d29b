use vstd::prelude::*;
use vstd::string::*;

use crate::error::{Error, ErrorView};
use crate::platform_binary::{
    contents_of, file_name_of, Action, IoOutcome, Link, LinkView, Operation, OperationView,
    OutcomeView, Platform, PlatformBinary,
};
use crate::render::{render_rounded, rounded_table};

verus! {

/// What the config file keeps of one alias.
#[derive(Debug, PartialEq, Eq)]
pub struct Entry {
    /// The alias: the key of the entry.
    pub alias: String,
    /// An optional description for the alias.
    pub description: Option<String>,
    /// The command to be executed when the alias is invoked.
    pub cmd: String,
}

/// The mathematical value of an [`Entry`].
pub struct EntryView {
    pub alias: Seq<char>,
    pub description: Option<Seq<char>>,
    pub cmd: Seq<char>,
}

impl View for Entry {
    type V = EntryView;

    open spec fn view(&self) -> EntryView {
        EntryView {
            alias: self.alias@,
            description: self.description.deep_view(),
            cmd: self.cmd@,
        }
    }
}

/// The values of a list of entries.
pub open spec fn entry_views(entries: Seq<Entry>) -> Seq<EntryView> {
    entries.map_values(|entry: Entry| entry@)
}

/// What the table holds for one alias: its link, which knows the alias, the
/// command and the pending action, and the description shown in listings.
#[derive(Debug)]
pub struct AliasValues {
    /// The link of the alias.
    pub link: PlatformBinary,
    /// An optional description for the alias.
    pub description: Option<String>,
}

/// The mathematical value of an [`AliasValues`].
pub struct RecordView {
    pub link: LinkView,
    pub description: Option<Seq<char>>,
}

impl RecordView {
    /// A record for `alias` as the config file describes it: nothing is owed
    /// to its link file, which is on disk if `found`.
    pub open spec fn settled(
        alias: Seq<char>,
        cmd: Seq<char>,
        description: Option<Seq<char>>,
        found: bool,
    ) -> RecordView {
        RecordView {
            link: LinkView { exists: found, action: Action::Idle, alias, cmd },
            description,
        }
    }

    /// What a listing shows beside the alias: the description, or the command
    /// where there is none.
    pub open spec fn shown(self) -> Seq<char> {
        match self.description {
            Some(description) => description,
            None => self.link.cmd,
        }
    }

    /// What the config file keeps of the record.
    pub open spec fn durable(self) -> EntryView {
        EntryView { alias: self.link.alias, description: self.description, cmd: self.link.cmd }
    }

    /// The record with `action` owed to its link file.
    pub open spec fn with_action(self, action: Action) -> RecordView {
        RecordView { link: LinkView { action, ..self.link }, ..self }
    }

    /// Whether a refresh has to schedule the creation of the link file: it is
    /// missing and nothing is owed to it yet.
    pub open spec fn needs_link(self, present: Seq<Seq<char>>) -> bool {
        self.link.action == Action::Idle && !present.contains(self.link.alias)
    }

    /// The record after a look at the disk, where the link files of the
    /// aliases in `present` were found. A missing file is scheduled for
    /// creation unless another action is already owed to it.
    pub open spec fn refreshed(self, present: Seq<Seq<char>>) -> RecordView {
        RecordView {
            link: LinkView {
                exists: present.contains(self.link.alias),
                action: if self.needs_link(present) {
                    Action::Create
                } else {
                    self.link.action
                },
                ..self.link
            },
            ..self
        }
    }

    /// The record as it is after loading: nothing is owed to its link file.
    pub open spec fn initialized(self, present: Seq<Seq<char>>) -> RecordView {
        RecordView::settled(
            self.link.alias,
            self.link.cmd,
            self.description,
            present.contains(self.link.alias),
        )
    }

    /// The line of the record in a listing.
    pub open spec fn row(self) -> Seq<Seq<char>> {
        seq![self.link.alias, self.shown()]
    }
}

impl View for AliasValues {
    type V = RecordView;

    open spec fn view(&self) -> RecordView {
        RecordView { link: self.link@, description: self.description.deep_view() }
    }
}

impl AliasValues {
    /// What a listing shows beside the alias: the description, or the command
    /// where there is none.
    pub fn shown(&self) -> (text: &str)
        ensures
            text@ == self@.shown(),
    {
        match &self.description {
            Some(description) => description.as_str(),
            None => self.link.cmd(),
        }
    }

    /// What the config file keeps of the record.
    pub fn entry(&self) -> (entry: Entry)
        ensures
            entry@ == self@.durable(),
    {
        Entry {
            alias: self.link.alias().to_owned(),
            description: copy_text(&self.description),
            cmd: self.link.cmd().to_owned(),
        }
    }
}

/// A copy of an optional text.
fn copy_text(text: &Option<String>) -> (copy: Option<String>)
    ensures
        copy.deep_view() == text.deep_view(),
{
    match text {
        Some(text) => Some(text.clone()),
        None => None,
    }
}

/// Whether the alias of `link` is one of `present`.
fn listed(present: &Vec<String>, link: &PlatformBinary) -> (found: bool)
    ensures
        found == present.deep_view().contains(link@.alias),
{
    let mut i: usize = 0;
    while i < present.len()
        invariant
            i <= present.len(),
            forall|j: int| 0 <= j < i ==> present.deep_view()[j] != link@.alias,
        decreases present.len() - i,
    {
        if link.is_for(&present[i]) {
            assert(present.deep_view()[i as int] == link@.alias);
            return true;
        }
        i += 1;
    }
    false
}

/// The heading of a listing.
pub open spec fn heading() -> Seq<Seq<char>> {
    seq!["Alias"@, "Description"@]
}

/// The table of aliases, in the order in which they were added.
#[derive(Debug)]
pub struct Config {
    /// Whether the table has changed since it was loaded or saved.
    changed: bool,
    /// The aliases of the table, no alias twice.
    aliases: Vec<AliasValues>,
}

/// The mathematical value of a [`Config`]: the records in the order in which
/// their aliases were added, and whether the table has changed since it was
/// loaded or saved.
pub struct ConfigView {
    pub changed: bool,
    pub records: Seq<RecordView>,
}

/// Whether the record at `i` is that of `alias`.
pub open spec fn holds_at(records: Seq<RecordView>, alias: Seq<char>, i: int) -> bool {
    0 <= i < records.len() && records[i].link.alias == alias
}

/// Whether the record at `i` is the first one of `alias`.
pub open spec fn first_at(records: Seq<RecordView>, alias: Seq<char>, i: int) -> bool {
    holds_at(records, alias, i) && forall|j: int| 0 <= j < i ==> !holds_at(records, alias, j)
}

/// Whether something is owed to the link file of the record at `i`.
pub open spec fn pending_at(records: Seq<RecordView>, i: int) -> bool {
    0 <= i < records.len() && records[i].link.action != Action::Idle
}

/// Whether the record at `i` is the first one with something owed to its link
/// file.
pub open spec fn first_pending_at(records: Seq<RecordView>, i: int) -> bool {
    pending_at(records, i) && forall|j: int| 0 <= j < i ==> !pending_at(records, j)
}

/// Whether a refresh schedules the creation of the link file of the record at
/// `i`, where the link files of the aliases in `present` were found on disk.
pub open spec fn needs_link_at(
    records: Seq<RecordView>,
    present: Seq<Seq<char>>,
    i: int,
) -> bool {
    0 <= i < records.len() && records[i].needs_link(present)
}

impl ConfigView {
    /// Whether the table has a record for `alias`.
    pub open spec fn contains(self, alias: Seq<char>) -> bool {
        exists|i: int| holds_at(self.records, alias, i)
    }

    /// Where the record of `alias` stands, if the table has one.
    pub open spec fn position(self, alias: Seq<char>) -> Option<int> {
        if exists|i: int| first_at(self.records, alias, i) {
            Some(choose|i: int| first_at(self.records, alias, i))
        } else {
            None
        }
    }

    /// The record of `alias`, if the table has one.
    pub open spec fn lookup(self, alias: Seq<char>) -> Option<RecordView> {
        match self.position(alias) {
            Some(i) => Some(self.records[i]),
            None => None,
        }
    }

    /// Whether something is owed to any link file.
    pub open spec fn has_pending(self) -> bool {
        exists|i: int| pending_at(self.records, i)
    }

    /// Where the first record stands that has something owed to its link file.
    pub open spec fn first_pending(self) -> Option<int> {
        if exists|i: int| first_pending_at(self.records, i) {
            Some(choose|i: int| first_pending_at(self.records, i))
        } else {
            None
        }
    }

    /// No alias has two records, and a table with pending actions counts as
    /// changed.
    pub open spec fn wf(self) -> bool {
        &&& self.distinct()
        &&& self.has_pending() ==> self.changed
    }

    /// No alias has two records.
    pub open spec fn distinct(self) -> bool {
        forall|i: int, j: int|
            0 <= i < j < self.records.len() ==> self.records[i].link.alias
                != self.records[j].link.alias
    }

    /// The records with `record` in the place of the record of the same
    /// alias, or at the end where there is none.
    pub open spec fn with_record(self, record: RecordView) -> Seq<RecordView> {
        match self.position(record.link.alias) {
            Some(i) => self.records.update(i, record),
            None => self.records.push(record),
        }
    }

    /// The table after `alias` was added with `cmd` and `description`, where
    /// the link files of the aliases in `present` were found on disk. A new
    /// alias goes to the end; one that is there keeps its place and is only
    /// replaced when `force` is set. Without `force` the link file is to be
    /// created, with it to be written.
    pub open spec fn created(
        self,
        alias: Seq<char>,
        cmd: Seq<char>,
        description: Option<Seq<char>>,
        force: bool,
        present: Seq<Seq<char>>,
    ) -> ConfigView {
        if self.contains(alias) && !force {
            self
        } else {
            ConfigView {
                changed: true,
                records: self.with_record(
                    RecordView::settled(
                        alias,
                        cmd,
                        description,
                        present.contains(alias),
                    ).with_action(
                        if force {
                            Action::Update
                        } else {
                            Action::Create
                        },
                    ),
                ),
            }
        }
    }

    /// The table after the removal of `alias` was asked for: its link file is
    /// to be deleted. A table without the alias stays as it is.
    pub open spec fn removed(self, alias: Seq<char>) -> ConfigView {
        match self.position(alias) {
            Some(i) => ConfigView {
                changed: true,
                records: self.records.update(i, self.records[i].with_action(Action::Remove)),
            },
            None => self,
        }
    }

    /// The table after a refresh, where the link files of the aliases in
    /// `present` were found on disk. It counts as changed if it did before or
    /// if a creation was scheduled.
    pub open spec fn refreshed(self, present: Seq<Seq<char>>) -> ConfigView {
        ConfigView {
            changed: self.changed || exists|i: int| needs_link_at(self.records, present, i),
            records: self.records.map_values(|record: RecordView| record.refreshed(present)),
        }
    }

    /// The table with every link set up anew: nothing is owed to any file.
    pub open spec fn initialized(self, present: Seq<Seq<char>>) -> ConfigView {
        ConfigView {
            changed: self.changed,
            records: self.records.map_values(|record: RecordView| record.initialized(present)),
        }
    }

    /// The aliases whose link file was missing when last looked for.
    pub open spec fn missing(self) -> Seq<Seq<char>> {
        self.records.filter_map(
            |record: RecordView|
                if record.link.exists {
                    None
                } else {
                    Some(record.link.alias)
                },
        )
    }

    /// The lines of a listing: the heading, then one line for each alias.
    pub open spec fn rows(self) -> Seq<Seq<Seq<char>>> {
        seq![heading()] + self.records.map_values(|record: RecordView| record.row())
    }

    /// The operation to carry out next: that of the first record with
    /// something owed to its link file.
    pub open spec fn planned(self, platform: Platform) -> Option<OperationView> {
        match self.first_pending() {
            Some(i) => Some(self.records[i].link.operation(platform)),
            None => None,
        }
    }

    /// The error that `outcome` amounts to, when it is the filesystem's answer
    /// to the planned operation.
    pub open spec fn settle_error(self, outcome: OutcomeView) -> Option<ErrorView> {
        match self.first_pending() {
            Some(i) => self.records[i].link.failure(outcome),
            None => None,
        }
    }

    /// The table after `outcome` was the filesystem's answer to the planned
    /// operation. A failure changes nothing, so the action stays owed. After
    /// a removal the record leaves the table. After a creation or a write
    /// nothing is owed to the file any more.
    pub open spec fn settled(self, outcome: OutcomeView) -> ConfigView {
        match self.first_pending() {
            Some(i) => {
                let record = self.records[i];
                if record.link.failure(outcome) is Some {
                    self
                } else if record.link.action == Action::Remove {
                    ConfigView { records: self.records.remove(i), ..self }
                } else {
                    ConfigView {
                        records: self.records.update(
                            i,
                            RecordView { link: record.link.performed(outcome), ..record },
                        ),
                        ..self
                    }
                }
            },
            None => self,
        }
    }

    /// What the config file keeps of the table: the entries of its records,
    /// without the actions.
    pub open spec fn durable(self) -> Seq<EntryView> {
        self.records.map_values(|record: RecordView| record.durable())
    }

    /// The table after it was written to the config file: it counts as
    /// changed only while something is still owed to a link file.
    pub open spec fn saved(self) -> ConfigView {
        ConfigView { changed: self.has_pending(), ..self }
    }

    /// The table that loading `entries` gives, where the link files of the
    /// aliases in `present` were found on disk. Of two entries for one alias
    /// the later one counts.
    pub open spec fn loaded(entries: Seq<EntryView>, present: Seq<Seq<char>>) -> ConfigView
        decreases entries.len(),
    {
        if entries.len() == 0 {
            ConfigView { changed: false, records: Seq::empty() }
        } else {
            let before = Self::loaded(entries.drop_last(), present);
            let entry = entries.last();
            ConfigView {
                changed: false,
                records: before.with_record(
                    RecordView::settled(
                        entry.alias,
                        entry.cmd,
                        entry.description,
                        present.contains(entry.alias),
                    ),
                ),
            }
        }
    }
}

impl View for Config {
    type V = ConfigView;

    closed spec fn view(&self) -> ConfigView {
        ConfigView {
            changed: self.changed,
            records: self.aliases@.map_values(|values: AliasValues| values@),
        }
    }
}

impl Config {
    /// Creates an empty table.
    pub fn empty() -> (table: Self)
        ensures
            table@ == (ConfigView { changed: false, records: Seq::empty() }),
            table@.wf(),
    {
        let table = Config { changed: false, aliases: Vec::new() };
        assert(table@.records =~= Seq::empty());
        table
    }

    /// Where the record of `alias` stands, if the table has one.
    fn find(&self, alias: &String) -> (place: Option<usize>)
        ensures
            place is Some <==> self@.contains(alias@),
            match place {
                Some(i) => self@.position(alias@) == Some(i as int) && i < self.aliases.len(),
                None => self@.position(alias@) is None,
            },
    {
        let mut i: usize = 0;
        while i < self.aliases.len()
            invariant
                i <= self.aliases.len(),
                forall|j: int| 0 <= j < i ==> !holds_at(self@.records, alias@, j),
            decreases self.aliases.len() - i,
        {
            if self.aliases[i].link.is_for(alias) {
                assert(first_at(self@.records, alias@, i as int));
                return Some(i);
            }
            i += 1;
        }
        None
    }

    /// Puts `values` in the place of the record of the same alias, or at the
    /// end where there is none.
    fn put(&mut self, values: AliasValues)
        ensures
            final(self)@.records == old(self)@.with_record(values@),
            final(self)@.changed == old(self)@.changed,
            old(self)@.distinct() ==> final(self)@.distinct(),
    {
        let ghost before = self@;
        let ghost record = values@;
        let alias = values.link.alias().to_owned();
        match self.find(&alias) {
            Some(i) => {
                self.aliases[i] = values;
                assert(self@.records =~= before.records.update(i as int, record));
            },
            None => {
                self.aliases.push(values);
                assert(self@.records =~= before.records.push(record));
                assert forall|i: int, j: int|
                    before.distinct() && 0 <= i < j < self@.records.len() implies self@.records[i].link.alias
                    != self@.records[j].link.alias by {
                    if j == before.records.len() {
                        assert(!holds_at(before.records, record.link.alias, i));
                    }
                }
            },
        }
    }

    /// Inserts a new alias into the table, where the link files of the
    /// aliases in `present` were found on disk. The alias must be new unless
    /// `force` is set.
    pub fn create_alias(
        &mut self,
        alias: String,
        cmd: String,
        description: Option<String>,
        force: bool,
        present: &Vec<String>,
    ) -> (result: Result<(), Error>)
        ensures
            final(self)@ == old(self)@.created(
                alias@,
                cmd@,
                description.deep_view(),
                force,
                present.deep_view(),
            ),
            old(self)@.wf() ==> final(self)@.wf(),
            match result {
                Ok(()) => force || !old(self)@.contains(alias@),
                Err(error) => !force && old(self)@.contains(alias@) && error@
                    == ErrorView::AliasExists(alias@),
            },
    {
        let action = if force {
            Action::Update
        } else {
            Action::Create
        };
        if !force && self.find(&alias).is_some() {
            return Err(Error::AliasExists(alias));
        }
        let mut link = PlatformBinary::new(alias, cmd, action, false);
        let found = listed(present, &link);
        link.validate(found);
        self.changed = true;
        self.put(AliasValues { link, description });
        Ok(())
    }

    /// Removes an alias: its link file is to be deleted, and the record
    /// leaves the table once that is done. An alias that the table does not
    /// have is no error: nothing changes then.
    pub fn remove_alias(&mut self, alias: &str) -> (result: Result<(), Error>)
        ensures
            final(self)@ == old(self)@.removed(alias@),
            old(self)@.wf() ==> final(self)@.wf(),
            !old(self)@.contains(alias@) ==> final(self)@ == old(self)@,
            result is Ok,
    {
        let ghost before = self@;
        let name = alias.to_owned();
        if let Some(i) = self.find(&name) {
            self.changed = true;
            self.aliases[i].link.set_action(Action::Remove);
            assert(self@.records =~= before.records.update(
                i as int,
                before.records[i as int].with_action(Action::Remove),
            ));
        }
        Ok(())
    }

    /// Looks at the disk again, where the link files of the aliases in
    /// `present` were found, and schedules the creation of every missing link
    /// file to which nothing else is owed.
    pub fn refresh_links(&mut self, present: &Vec<String>) -> (result: Result<(), Error>)
        ensures
            final(self)@ == old(self)@.refreshed(present.deep_view()),
            old(self)@.wf() ==> final(self)@.wf(),
            result is Ok,
    {
        let ghost before = self@;
        let ghost names = present.deep_view();
        let mut i: usize = 0;
        while i < self.aliases.len()
            invariant
                i <= self.aliases.len(),
                names == present.deep_view(),
                self@.records.len() == before.records.len(),
                forall|j: int| 0 <= j < i ==> self@.records[j] == before.records[j].refreshed(names),
                forall|j: int| i <= j < before.records.len() ==> self@.records[j] == before.records[j],
                self@.changed == (before.changed || exists|j: int|
                    0 <= j < i && needs_link_at(before.records, names, j)),
            decreases self.aliases.len() - i,
        {
            let ghost entering = self@;
            let found = listed(present, &self.aliases[i].link);
            let idle = matches!(self.aliases[i].link.action(), Action::Idle);
            self.aliases[i].link.validate(found);
            if !found && idle {
                self.aliases[i].link.set_action(Action::Create);
                self.changed = true;
            }
            proof {
                assert(self@.records[i as int] == before.records[i as int].refreshed(names));
                assert forall|j: int| 0 <= j < i implies self@.records[j]
                    == before.records[j].refreshed(names) by {
                    assert(self@.records[j] == entering.records[j]);
                }
                if needs_link_at(before.records, names, i as int) {
                    assert(self@.changed);
                } else {
                    assert(self@.changed == entering.changed);
                    assert forall|j: int| 0 <= j < i + 1 && needs_link_at(before.records, names, j) implies 0
                        <= j < i by {}
                }
            }
            i += 1;
        }
        proof {
            assert(self@.records =~= before.refreshed(names).records);
            if before.wf() {
                assert forall|j: int| pending_at(self@.records, j) implies self@.changed by {
                    if pending_at(before.records, j) {
                    } else {
                        assert(needs_link_at(before.records, names, j));
                    }
                }
            }
        }
        Ok(())
    }

    /// Sets up the link of every alias as loading does: nothing is owed to
    /// its file, which is on disk if the alias is in `present`.
    pub fn initialize_links(&mut self, present: &Vec<String>) -> (result: Result<(), Error>)
        ensures
            final(self)@ == old(self)@.initialized(present.deep_view()),
            old(self)@.wf() ==> final(self)@.wf(),
            result is Ok,
    {
        let ghost before = self@;
        let ghost names = present.deep_view();
        let mut i: usize = 0;
        while i < self.aliases.len()
            invariant
                i <= self.aliases.len(),
                names == present.deep_view(),
                self@.changed == before.changed,
                self@.records.len() == before.records.len(),
                forall|j: int|
                    0 <= j < i ==> self@.records[j] == before.records[j].initialized(names),
                forall|j: int| i <= j < before.records.len() ==> self@.records[j] == before.records[j],
            decreases self.aliases.len() - i,
        {
            let ghost entering = self@;
            let found = listed(present, &self.aliases[i].link);
            self.aliases[i].link.validate(found);
            self.aliases[i].link.set_action(Action::Idle);
            proof {
                assert(self@.records[i as int] == before.records[i as int].initialized(names));
                assert forall|j: int| 0 <= j < i implies self@.records[j]
                    == before.records[j].initialized(names) by {
                    assert(self@.records[j] == entering.records[j]);
                }
            }
            i += 1;
        }
        proof {
            assert(self@.records =~= before.initialized(names).records);
            assert(!self@.has_pending());
        }
        Ok(())
    }

    /// The aliases whose link file was missing when last looked for, in the
    /// order of the table.
    pub fn missing_links(&self) -> (missing: Vec<String>)
        ensures
            missing.deep_view() == self@.missing(),
    {
        let ghost absent = |record: RecordView|
            if record.link.exists {
                None
            } else {
                Some(record.link.alias)
            };
        let mut missing: Vec<String> = Vec::new();
        let mut i: usize = 0;
        assert(self@.records.take(0).filter_map(absent) =~= Seq::empty());
        while i < self.aliases.len()
            invariant
                i <= self.aliases.len(),
                absent == |record: RecordView|
                    if record.link.exists {
                        None
                    } else {
                        Some(record.link.alias)
                    },
                missing.deep_view() =~= self@.records.take(i as int).filter_map(absent),
            decreases self.aliases.len() - i,
        {
            let ghost upto = self@.records.take(i as int + 1);
            assert(upto.drop_last() =~= self@.records.take(i as int));
            assert(upto.last() == self@.records[i as int]);
            if !self.aliases[i].link.is_present() {
                missing.push(self.aliases[i].link.alias().to_owned());
            }
            i += 1;
        }
        assert(self@.records.take(i as int) =~= self@.records);
        missing
    }

    /// The lines of a listing: the heading, then for each alias a line with
    /// the alias and its description, or its command where it has none.
    pub fn alias_rows(&self) -> (rows: Vec<Vec<String>>)
        ensures
            rows.deep_view() == self@.rows(),
            rows.len() == self@.records.len() + 1,
            forall|i: int| 0 <= i < rows.len() ==> (#[trigger] rows[i]).len() == 2,
    {
        let mut head: Vec<String> = Vec::new();
        head.push(String::from_str("Alias"));
        head.push(String::from_str("Description"));
        assert(head.deep_view() =~= heading());
        let mut rows: Vec<Vec<String>> = Vec::new();
        rows.push(head);
        let mut i: usize = 0;
        while i < self.aliases.len()
            invariant
                i <= self.aliases.len(),
                rows.len() == i + 1,
                rows.deep_view()[0] == heading(),
                forall|j: int| 0 <= j < i ==> rows.deep_view()[j + 1] == self@.records[j].row(),
                forall|j: int| 0 <= j < rows.len() ==> (#[trigger] rows[j]).len() == 2,
            decreases self.aliases.len() - i,
        {
            let ghost entering = rows.deep_view();
            let values = &self.aliases[i];
            let mut row: Vec<String> = Vec::new();
            row.push(values.link.alias().to_owned());
            row.push(values.shown().to_owned());
            assert(row.deep_view() =~= values@.row());
            rows.push(row);
            assert forall|j: int| 0 <= j < i + 1 implies rows.deep_view()[j + 1]
                == self@.records[j].row() by {
                if j < i {
                    assert(rows.deep_view()[j + 1] == entering[j + 1]);
                }
            }
            assert(rows.deep_view()[0] == entering[0]);
            i += 1;
        }
        assert(rows.deep_view() =~= self@.rows());
        rows
    }

    /// The listing of all aliases as a table with rounded corners, or
    /// nothing when there is no alias.
    pub fn display_aliases(&self) -> (listing: Option<String>)
        ensures
            self@.records.len() == 0 ==> listing is None,
            self@.records.len() > 0 ==> listing is Some && listing->0@ == rounded_table(
                self@.rows(),
            ),
    {
        if self.aliases.is_empty() {
            return None;
        }
        let rows = self.alias_rows();
        Some(render_rounded(&rows))
    }

    /// Where the first record stands that has something owed to its link file.
    fn first_pending(&self) -> (place: Option<usize>)
        ensures
            place is Some <==> self@.has_pending(),
            match place {
                Some(i) => self@.first_pending() == Some(i as int) && i < self.aliases.len(),
                None => self@.first_pending() is None,
            },
    {
        let mut i: usize = 0;
        while i < self.aliases.len()
            invariant
                i <= self.aliases.len(),
                forall|j: int| 0 <= j < i ==> !pending_at(self@.records, j),
            decreases self.aliases.len() - i,
        {
            if !matches!(self.aliases[i].link.action(), Action::Idle) {
                assert(first_pending_at(self@.records, i as int));
                return Some(i);
            }
            i += 1;
        }
        None
    }

    /// The operation on a link file that is to be carried out next, if
    /// anything is owed to any link file: that of the first such record.
    pub fn next_operation(&self, platform: Platform) -> (owed: Option<Operation>)
        ensures
            owed is None <==> !self@.has_pending(),
            match owed {
                Some(operation) => self@.planned(platform) == Some(operation@),
                None => self@.planned(platform) is None,
            },
    {
        match self.first_pending() {
            Some(i) => self.aliases[i].link.operation(platform),
            None => None,
        }
    }

    /// Takes the filesystem's answer to the operation that
    /// [`Config::next_operation`] gave. A failure is returned as the error of
    /// that link and leaves its action owed. After a removal the record
    /// leaves the table; after a creation or a write nothing is owed to the
    /// file any more.
    pub fn settle(&mut self, outcome: &IoOutcome) -> (result: Result<(), Error>)
        ensures
            final(self)@ == old(self)@.settled(outcome@),
            old(self)@.wf() ==> final(self)@.wf(),
            match result {
                Ok(()) => old(self)@.settle_error(outcome@) is None,
                Err(error) => old(self)@.settle_error(outcome@) == Some(error@),
            },
    {
        let ghost before = self@;
        match self.first_pending() {
            Some(i) => {
                let removal = matches!(self.aliases[i].link.action(), Action::Remove);
                let result = self.aliases[i].link.perform_action(outcome);
                assert(self@.records =~= before.records.update(
                    i as int,
                    RecordView {
                        link: before.records[i as int].link.performed(outcome@),
                        ..before.records[i as int]
                    },
                ));
                if result.is_ok() && removal {
                    let _ = self.aliases.remove(i);
                    assert(self@.records =~= before.records.remove(i as int));
                }
                proof {
                    if result is Err {
                        assert(self@.records =~= before.records);
                    }
                    if before.wf() {
                        assert(pending_at(before.records, i as int));
                    }
                }
                result
            },
            None => Ok(()),
        }
    }

    /// What the config file keeps of the table: one entry for each alias, in
    /// the order of the table, whatever is owed to the link files.
    pub fn entries(&self) -> (entries: Vec<Entry>)
        ensures
            entry_views(entries@) == self@.durable(),
    {
        let mut entries: Vec<Entry> = Vec::new();
        let mut i: usize = 0;
        while i < self.aliases.len()
            invariant
                i <= self.aliases.len(),
                entries.len() == i,
                forall|j: int| 0 <= j < i ==> entries[j]@ == self@.records[j].durable(),
            decreases self.aliases.len() - i,
        {
            entries.push(self.aliases[i].entry());
            i += 1;
        }
        assert(entry_views(entries@) =~= self@.durable());
        entries
    }

    /// Records that the table was written to the config file. It still counts
    /// as changed while something is owed to a link file.
    pub fn mark_saved(&mut self)
        ensures
            final(self)@ == old(self)@.saved(),
            old(self)@.wf() ==> final(self)@.wf(),
    {
        self.changed = self.first_pending().is_some();
    }

    /// The table of the config file's `entries`, where the link files of the
    /// aliases in `present` were found on disk. Nothing is owed to any link
    /// file, and the table does not count as changed.
    pub fn new(entries: &Vec<Entry>, present: &Vec<String>) -> (table: Self)
        ensures
            table@ == ConfigView::loaded(entry_views(entries@), present.deep_view()),
            table@.wf(),
    {
        let ghost all = entry_views(entries@);
        let ghost names = present.deep_view();
        let mut table = Config::empty();
        let mut i: usize = 0;
        assert(all.take(0) =~= Seq::empty());
        while i < entries.len()
            invariant
                i <= entries.len(),
                all == entry_views(entries@),
                names == present.deep_view(),
                table@ == ConfigView::loaded(all.take(i as int), names),
                table@.distinct(),
                !table@.has_pending(),
            decreases entries.len() - i,
        {
            let ghost before = table@;
            let ghost upto = all.take(i as int + 1);
            assert(upto.drop_last() =~= all.take(i as int));
            assert(upto.last() == entries[i as int]@);
            let entry = &entries[i];
            let mut link = PlatformBinary::new(
                entry.alias.clone(),
                entry.cmd.clone(),
                Action::Idle,
                false,
            );
            let found = listed(present, &link);
            link.validate(found);
            table.put(AliasValues { link, description: copy_text(&entry.description) });
            proof {
                assert forall|j: int| !pending_at(table@.records, j) by {
                    if pending_at(table@.records, j) {
                        if j < before.records.len() && before.records[j] == table@.records[j] {
                            assert(pending_at(before.records, j));
                        }
                    }
                }
            }
            i += 1;
        }
        assert(all.take(i as int) =~= all);
        table
    }

    /// Whether the table has changed since it was loaded or saved.
    pub fn is_changed(&self) -> (changed: bool)
        ensures
            changed == self@.changed,
    {
        self.changed
    }

    /// The number of aliases.
    pub fn len(&self) -> (count: usize)
        ensures
            count == self@.records.len(),
    {
        self.aliases.len()
    }

    /// Whether the table has `alias`.
    pub fn contains(&self, alias: &str) -> (found: bool)
        ensures
            found == self@.contains(alias@),
    {
        let name = alias.to_owned();
        self.find(&name).is_some()
    }

    /// What the table holds for `alias`, if it has it.
    pub fn get(&self, alias: &str) -> (values: Option<&AliasValues>)
        ensures
            match values {
                Some(values) => self@.lookup(alias@) == Some(values@),
                None => self@.lookup(alias@) is None && !self@.contains(alias@),
            },
    {
        let name = alias.to_owned();
        match self.find(&name) {
            Some(i) => Some(&self.aliases[i]),
            None => None,
        }
    }
}

/// Where an alias has a record, it has a first one.
proof fn lemma_first_record(records: Seq<RecordView>, alias: Seq<char>, i: int)
    requires
        holds_at(records, alias, i),
    ensures
        exists|k: int| first_at(records, alias, k),
    decreases i,
{
    if exists|j: int| 0 <= j < i && holds_at(records, alias, j) {
        let j = choose|j: int| 0 <= j < i && holds_at(records, alias, j);
        lemma_first_record(records, alias, j);
    } else {
        assert(first_at(records, alias, i));
    }
}

/// A table has a record for an alias exactly if the alias has a position in
/// it, and the record there is the first one of that alias.
pub proof fn lemma_position(table: ConfigView, alias: Seq<char>)
    ensures
        table.contains(alias) <==> table.position(alias) is Some,
        table.position(alias) matches Some(i) ==> first_at(table.records, alias, i),
        forall|i: int| first_at(table.records, alias, i) ==> table.position(alias) == Some(i),
{
    if table.contains(alias) {
        let i = choose|i: int| holds_at(table.records, alias, i);
        lemma_first_record(table.records, alias, i);
    }
}

/// Refreshing twice in a row, with the same link files on disk both times,
/// gives what refreshing once gives: the same pending actions and the same
/// table.
pub proof fn lemma_refresh_is_idempotent(table: ConfigView, present: Seq<Seq<char>>)
    ensures
        table.refreshed(present).refreshed(present) == table.refreshed(present),
{
    let once = table.refreshed(present);
    let twice = once.refreshed(present);
    assert(twice.records =~= once.records);
    assert forall|i: int| !needs_link_at(once.records, present, i) by {}
}

/// A refresh never takes back what the user asked for: a record with a
/// write or a removal owed to its link file keeps that action.
pub proof fn lemma_refresh_keeps_intent(table: ConfigView, present: Seq<Seq<char>>, i: int)
    requires
        0 <= i < table.records.len(),
        table.records[i].link.action != Action::Idle,
    ensures
        table.refreshed(present).records[i].link.action == table.records[i].link.action,
{
}

/// When the link file of an alias with nothing owed to it has gone from the
/// disk, a refresh schedules its creation, and the file to create has the
/// name and the text that belong to that alias and command.
pub proof fn lemma_refresh_schedules_missing_link(
    table: ConfigView,
    present: Seq<Seq<char>>,
    platform: Platform,
    i: int,
)
    requires
        0 <= i < table.records.len(),
        table.records[i].link.action == Action::Idle,
        !present.contains(table.records[i].link.alias),
    ensures
        table.refreshed(present).changed,
        table.refreshed(present).records[i].link.operation(platform) == (OperationView {
            action: Action::Create,
            alias: table.records[i].link.alias,
            file_name: file_name_of(table.records[i].link.alias, platform),
            contents: contents_of(table.records[i].link.cmd, platform),
        }),
{
    assert(needs_link_at(table.records, present, i));
}

/// When a creation is the planned operation and the file turns out to be on
/// disk already, the answer is reported as the error that the link of that
/// alias already exists, and the table stays as it is: the creation is still
/// owed.
pub proof fn lemma_create_conflict_is_reported(
    table: ConfigView,
    platform: Platform,
    cause: Seq<char>,
)
    requires
        table.planned(platform) is Some,
        table.planned(platform)->0.action == Action::Create,
    ensures
        table.settle_error(OutcomeView::AlreadyExists(cause)) == Some(
            ErrorView::LinkAlreadyExists(table.planned(platform)->0.alias),
        ),
        table.settled(OutcomeView::AlreadyExists(cause)) == table,
{
}

/// Adding an alias and then adding it again with force leaves the alias with
/// the second command and description, and a write of the link file owed
/// whose text is that of the second command.
pub proof fn lemma_forced_alias_overwrites(
    table: ConfigView,
    alias: Seq<char>,
    first_cmd: Seq<char>,
    first_description: Option<Seq<char>>,
    second_cmd: Seq<char>,
    second_description: Option<Seq<char>>,
    present: Seq<Seq<char>>,
    platform: Platform,
)
    ensures
        ({
            let after = table.created(alias, first_cmd, first_description, false, present).created(
                alias,
                second_cmd,
                second_description,
                true,
                present,
            );
            &&& after.changed
            &&& after.lookup(alias) matches Some(record)
            &&& record.description == second_description
            &&& record.link.cmd == second_cmd
            &&& record.link.operation(platform) == (OperationView {
                action: Action::Update,
                alias,
                file_name: file_name_of(alias, platform),
                contents: contents_of(second_cmd, platform),
            })
        }),
{
    let once = table.created(alias, first_cmd, first_description, false, present);
    let after = once.created(alias, second_cmd, second_description, true, present);
    lemma_position(table, alias);
    if !table.contains(alias) {
        assert(holds_at(once.records, alias, table.records.len() as int));
    }
    lemma_position(once, alias);
    let k = once.position(alias)->0;
    assert forall|j: int| 0 <= j < k implies !holds_at(after.records, alias, j) by {
        assert(!holds_at(once.records, alias, j));
    }
    assert(first_at(after.records, alias, k));
    lemma_position(after, alias);
}

/// An alias that the table does not have can be asked to be removed: the
/// table stays as it is, and does not count as changed on that account.
pub proof fn lemma_remove_of_unknown_alias(table: ConfigView, alias: Seq<char>)
    requires
        !table.contains(alias),
    ensures
        table.removed(alias) == table,
{
    lemma_position(table, alias);
}

/// What loading the first `n` saved entries of a table gives.
proof fn lemma_loaded_prefix(table: ConfigView, present: Seq<Seq<char>>, n: int)
    requires
        table.distinct(),
        0 <= n <= table.records.len(),
    ensures
        ConfigView::loaded(table.durable().take(n), present).records
            == table.initialized(present).records.take(n),
        !ConfigView::loaded(table.durable().take(n), present).changed,
    decreases n,
{
    let entries = table.durable().take(n);
    if n > 0 {
        lemma_loaded_prefix(table, present, n - 1);
        assert(entries.drop_last() =~= table.durable().take(n - 1));
        let before = ConfigView::loaded(entries.drop_last(), present);
        let entry = entries.last();
        assert(entry == table.records[n - 1].durable());
        assert forall|k: int| !holds_at(before.records, entry.alias, k) by {
            if holds_at(before.records, entry.alias, k) {
                assert(table.records[k].link.alias == table.records[n - 1].link.alias);
            }
        }
        lemma_position(before, entry.alias);
        assert(ConfigView::loaded(entries, present).records =~= table.initialized(
            present,
        ).records.take(n));
    } else {
        assert(ConfigView::loaded(entries, present).records =~= table.initialized(
            present,
        ).records.take(n));
    }
}

/// Saving a table and loading it again gives the same aliases with the same
/// commands and descriptions, in the same order, whatever was owed to the
/// link files when it was saved. After loading nothing is owed, and the
/// table does not count as changed.
pub proof fn lemma_saved_entries_load_back(table: ConfigView, present: Seq<Seq<char>>)
    requires
        table.distinct(),
    ensures
        ConfigView::loaded(table.durable(), present).durable() == table.durable(),
        ConfigView::loaded(table.durable(), present) == (ConfigView {
            changed: false,
            ..table.initialized(present)
        }),
        !ConfigView::loaded(table.durable(), present).has_pending(),
{
    lemma_loaded_prefix(table, present, table.records.len() as int);
    assert(table.durable().take(table.records.len() as int) =~= table.durable());
    let back = ConfigView::loaded(table.durable(), present);
    assert(back.records =~= table.initialized(present).records);
    assert(back.durable() =~= table.durable());
}

/// Once nothing is owed to any link file and the table was written to the
/// config file, the table no longer counts as changed.
pub proof fn lemma_cycle_ends_clean(table: ConfigView, platform: Platform)
    requires
        table.planned(platform) is None,
    ensures
        !table.has_pending(),
        !table.saved().changed,
        table.distinct() ==> table.saved().wf(),
{
    if table.has_pending() {
        let i = choose|i: int| pending_at(table.records, i);
        lemma_first_pending(table.records, i);
    }
}

/// Where something is owed to a link file, there is a first record of which
/// that holds.
proof fn lemma_first_pending(records: Seq<RecordView>, i: int)
    requires
        pending_at(records, i),
    ensures
        exists|k: int| first_pending_at(records, k),
    decreases i,
{
    if exists|j: int| 0 <= j < i && pending_at(records, j) {
        let j = choose|j: int| 0 <= j < i && pending_at(records, j);
        lemma_first_pending(records, j);
    } else {
        assert(first_pending_at(records, i));
    }
}

} // verus!
